//! Instrucciones que un jugador puede enviar en su turno.

use vstd::prelude::*;

verus! {

/// Instruccion de un jugador. En `Ataque` y `Movimiento` el primer dato es
/// el indice del barco elegido dentro de la flota del jugador.
#[derive(Debug, Clone, Copy, PartialEq, Eq)]
pub enum Instruccion {
    Ataque(usize, (i32, i32)),
    Movimiento(usize, (i32, i32)),
    Compra(usize),
    Saltar,
    Ranking,
}

} // verus!
