//! Datos de un movimiento.

use vstd::prelude::*;

verus! {

/// Movimiento de un barco hacia una lista de celdas de destino.
#[derive(Debug, PartialEq, Eq)]
pub struct Movimiento {
    pub jugador_id: usize,
    pub id_barco: usize,
    pub coordenadas_origen: (i32, i32),
    pub cordenadas_destino: Vec<(i32, i32)>,
}

} // verus!
