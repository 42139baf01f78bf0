//! Trama del nombre de usuario: cuatro bytes con el largo, del mas
//! significativo al menos significativo, seguidos de los bytes del nombre en
//! UTF-8.

use vstd::prelude::*;
use vstd::utf8::encode_utf8;

verus! {

/// Cantidad de valores que caben en los cuatro bytes del largo.
pub open spec fn limite_de_largo() -> nat {
    0x1_0000_0000
}

/// Los cuatro bytes que representan `n`, del mas significativo al menos
/// significativo. Solo cuentan los 32 bits bajos de `n`.
pub open spec fn prefijo_de_largo(n: nat) -> Seq<u8> {
    seq![
        (n / 0x100_0000 % 0x100) as u8,
        (n / 0x1_0000 % 0x100) as u8,
        (n / 0x100 % 0x100) as u8,
        (n % 0x100) as u8,
    ]
}

/// Trama de un nombre: el largo en bytes de su codificacion UTF-8 y despues
/// esa codificacion.
pub open spec fn trama_de_nombre(nombre: Seq<char>) -> Seq<u8> {
    prefijo_de_largo(encode_utf8(nombre).len()) + encode_utf8(nombre)
}

/// Codificador de tramas.
pub struct Serializador;

impl Serializador {
    /// Arma la trama del nombre de usuario.
    pub fn serializar_nombre_de_usuario(&self, nombre: &str) -> (buffer: Vec<u8>)
        ensures
            buffer@ == trama_de_nombre(nombre@),
    {
        let nombre_bytes = nombre.as_bytes();
        let largo = nombre_bytes.len();
        let mut buffer: Vec<u8> = Vec::new();
        buffer.push((largo / 0x100_0000 % 0x100) as u8);
        buffer.push((largo / 0x1_0000 % 0x100) as u8);
        buffer.push((largo / 0x100 % 0x100) as u8);
        buffer.push((largo % 0x100) as u8);
        assert(buffer@ =~= prefijo_de_largo(largo as nat));
        buffer.extend_from_slice(nombre_bytes);
        buffer
    }
}

} // verus!
