//! Sorteo de indices con el generador de `rand`.
//!
//! El resultado de un sorteo depende del azar: de el solo se declara lo que
//! vale para cualquier resultado posible.

use rand::rngs::ThreadRng;
use rand::Rng;
use vstd::prelude::*;

verus! {

#[verifier::external_type_specification]
#[verifier::external_body]
pub struct ExThreadRng(ThreadRng);

/// Envuelve `rand::thread_rng`: el generador local del hilo. Nada se declara
/// de su estado.
#[verifier::external_body]
pub(crate) fn generador() -> ThreadRng {
    rand::thread_rng()
}

/// Envuelve `Rng::gen_range(0..limite)`: un valor del rango pedido.
/// `gen_range` entra en panico con un rango vacio; la precondicion lo
/// excluye.
#[verifier::external_body]
pub(crate) fn sortear(rng: &mut ThreadRng, limite: usize) -> (r: usize)
    requires
        limite > 0,
    ensures
        r < limite,
{
    rng.gen_range(0..limite)
}

} // verus!
