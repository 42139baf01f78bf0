//! Estado de salud de un barco.

use vstd::prelude::*;

verus! {

/// Estado de un barco: sano hasta el primer impacto, golpeado mientras le
/// queden celdas, y hundido cuando pierde la ultima.
#[derive(Debug, Clone, Copy, PartialEq, Eq, Structural)]
pub enum EstadoBarco {
    Sano,
    Golpeado,
    Hundido,
}

} // verus!
