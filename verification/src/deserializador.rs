//! Lectura de la trama del nombre de usuario.

use crate::custom_error::CustomError;
use crate::serializador::{limite_de_largo, prefijo_de_largo, trama_de_nombre};
use vstd::prelude::*;
use vstd::utf8::{decode_utf8, encode_utf8, encode_utf8_decode_utf8, encode_utf8_valid_utf8, valid_utf8};

verus! {

/// Texto que `String::from_utf8_lossy` da para una secuencia de bytes: el
/// texto que codifican cuando son UTF-8 valido y, cuando no, ese texto con
/// el caracter de reemplazo en lugar de cada tramo invalido.
pub uninterp spec fn utf8_con_perdida(bytes: Seq<u8>) -> Seq<char>;

/// Envuelve `String::from_utf8_lossy`. Segun su documentacion, si los bytes
/// son UTF-8 valido el resultado es el texto que codifican, de modo que al
/// codificarlo de nuevo se obtienen los mismos bytes.
#[verifier::external_body]
fn texto_con_perdida(bytes: &Vec<u8>) -> (s: String)
    ensures
        s@ == utf8_con_perdida(bytes@),
        valid_utf8(bytes@) ==> encode_utf8(s@) == bytes@,
{
    String::from_utf8_lossy(bytes).into_owned()
}

/// Largo que declaran los cuatro primeros bytes de una trama.
pub open spec fn largo_declarado(buffer: Seq<u8>) -> nat {
    (buffer[0] * 0x100_0000 + buffer[1] * 0x1_0000 + buffer[2] * 0x100 + buffer[3]) as nat
}

/// La trama esta completa: tiene los cuatro bytes del largo y al menos los
/// bytes de nombre que ese largo declara.
pub open spec fn trama_completa(buffer: Seq<u8>) -> bool {
    buffer.len() >= 4 && buffer.len() >= 4 + largo_declarado(buffer)
}

/// Los bytes del nombre dentro de una trama completa.
pub open spec fn carga(buffer: Seq<u8>) -> Seq<u8> {
    buffer.subrange(4, 4 + largo_declarado(buffer) as int)
}

/// Nombre que lleva una trama, o `None` si esta incompleta: el texto que
/// codifican los bytes del nombre cuando son UTF-8 valido y, cuando no, el
/// que da para ellos la conversion con perdida.
pub open spec fn nombre_en_trama(buffer: Seq<u8>) -> Option<Seq<char>> {
    if !trama_completa(buffer) {
        None
    } else if valid_utf8(carga(buffer)) {
        Some(decode_utf8(carga(buffer)))
    } else {
        Some(utf8_con_perdida(carga(buffer)))
    }
}

/// Lector de tramas.
pub struct Deserializador;

impl Deserializador {
    /// Lee el nombre de usuario de una trama. Falla, con
    /// `LongitudNombreInvalida`, cuando faltan los bytes del largo o hay
    /// menos bytes de nombre que los declarados.
    pub fn deserializar_nombre_de_usuario(buffer: &[u8]) -> (r: Result<String, CustomError>)
        ensures
            match nombre_en_trama(buffer@) {
                Some(nombre) => r is Ok && r->Ok_0@ == nombre,
                None => r == Err::<String, CustomError>(CustomError::LongitudNombreInvalida),
            },
    {
        if buffer.len() < 4 {
            return Err(CustomError::LongitudNombreInvalida);
        }
        let nombre_longitud: u64 = (buffer[0] as u64) * 0x100_0000 + (buffer[1] as u64) * 0x1_0000
            + (buffer[2] as u64) * 0x100 + (buffer[3] as u64);
        if ((buffer.len() - 4) as u64) < nombre_longitud {
            return Err(CustomError::LongitudNombreInvalida);
        }
        let fin: usize = 4 + nombre_longitud as usize;
        let mut nombre_bytes: Vec<u8> = Vec::new();
        let mut i: usize = 4;
        while i < fin
            invariant
                4 <= i <= fin <= buffer@.len(),
                nombre_bytes@ == buffer@.subrange(4, i as int),
            decreases fin - i,
        {
            nombre_bytes.push(buffer[i]);
            assert(nombre_bytes@ == buffer@.subrange(4, i + 1));
            i = i + 1;
        }
        let nombre = texto_con_perdida(&nombre_bytes);
        proof {
            if valid_utf8(nombre_bytes@) {
                encode_utf8_decode_utf8(nombre@);
            }
        }
        Ok(nombre)
    }
}

/// Ida y vuelta: la trama de un nombre esta completa y el nombre que se lee
/// de ella es el mismo, siempre que el largo de su codificacion quepa en los
/// cuatro bytes del prefijo.
pub proof fn lema_ida_y_vuelta(nombre: Seq<char>)
    requires
        encode_utf8(nombre).len() < limite_de_largo(),
    ensures
        nombre_en_trama(trama_de_nombre(nombre)) == Some(nombre),
{
    let bytes = encode_utf8(nombre);
    let n = bytes.len();
    let trama = trama_de_nombre(nombre);
    let prefijo = prefijo_de_largo(n);
    assert(trama[0] == prefijo[0] && trama[1] == prefijo[1] && trama[2] == prefijo[2] && trama[3]
        == prefijo[3]);
    assert(largo_declarado(trama) == n);
    assert(carga(trama) =~= bytes);
    encode_utf8_valid_utf8(nombre);
    encode_utf8_decode_utf8(nombre);
}

} // verus!
