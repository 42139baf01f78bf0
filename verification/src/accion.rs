//! Acciones de un jugador.

use crate::ataque::Ataque;
use crate::movimiento::Movimiento;
use vstd::prelude::*;

verus! {

/// Accion que puede realizar un jugador.
#[derive(Debug, PartialEq, Eq)]
pub enum Accion {
    Moverse(Movimiento),
    Atacar(Ataque),
    Tienda(usize),
    Saltar,
}

} // verus!
