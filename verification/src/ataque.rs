//! Datos de un ataque.

use vstd::prelude::*;

verus! {

/// Ataque de un jugador a una coordenada.
#[derive(Debug, Clone, Copy, PartialEq, Eq)]
pub struct Ataque {
    pub jugador_id: usize,
    pub id_barco: usize,
    pub cordenadas_ataque: (i32, i32),
}

} // verus!
