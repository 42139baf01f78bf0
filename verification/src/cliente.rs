//! Decisiones del cliente de consola: que accion y que compra corresponden
//! a lo que escribe la persona.

use crate::instruccion::Instruccion;
use crate::juego::{precio, precio_de};
use vstd::prelude::*;

verus! {

/// Accion que la persona elige en su turno.
#[derive(Debug, Clone, Copy, PartialEq, Eq, Structural)]
pub enum Eleccion {
    Mover,
    Atacar,
    Tienda,
    Saltar,
    Ranking,
}

/// Accion que corresponde a la letra escrita: `m` mover, `a` atacar, `t`
/// tienda, `s` saltar y `r` ranking. Cualquier otro texto no es una accion.
pub open spec fn eleccion_de(texto: Seq<char>) -> Option<Eleccion> {
    if texto == seq!['m'] {
        Some(Eleccion::Mover)
    } else if texto == seq!['a'] {
        Some(Eleccion::Atacar)
    } else if texto == seq!['t'] {
        Some(Eleccion::Tienda)
    } else if texto == seq!['s'] {
        Some(Eleccion::Saltar)
    } else if texto == seq!['r'] {
        Some(Eleccion::Ranking)
    } else {
        None
    }
}

/// Tipo de barco que corresponde a la opcion de la tienda: `a` el acorazado
/// de 3 celdas, `b` el buque de 2 y `c` la fragata de 1. Cualquier otra
/// opcion da el tipo 0, que no esta en el catalogo.
pub open spec fn tipo_de_opcion(opcion: Seq<char>) -> nat {
    if opcion == seq!['a'] {
        3
    } else if opcion == seq!['b'] {
        2
    } else if opcion == seq!['c'] {
        1
    } else {
        0
    }
}

/// Instruccion, con el precio a pagar, que corresponde a la opcion elegida
/// en la tienda con `monedas` monedas: la compra del barco si alcanzan y
/// saltar el turno si no.
pub open spec fn compra_de(opcion: Seq<char>, monedas: nat) -> (Instruccion, nat) {
    let tipo = tipo_de_opcion(opcion);
    match precio_de(tipo) {
        Some(costo) => if monedas < costo {
            (Instruccion::Saltar, 0)
        } else {
            (Instruccion::Compra(tipo as usize), costo)
        },
        None => (Instruccion::Compra(tipo as usize), 0),
    }
}

/// Unico caracter del texto, si tiene exactamente uno.
fn unica_letra(texto: &str) -> (r: Option<char>)
    ensures
        match r {
            Some(c) => texto@ == seq![c],
            None => texto@.len() != 1,
        },
{
    if texto.unicode_len() == 1 {
        let c = texto.get_char(0);
        assert(texto@ =~= seq![c]);
        Some(c)
    } else {
        None
    }
}

/// Accion que corresponde a la letra escrita por la persona.
pub fn accion_elegida(texto: &str) -> (r: Option<Eleccion>)
    ensures
        r == eleccion_de(texto@),
{
    match unica_letra(texto) {
        Some(c) => {
            assert(texto@[0] == c);
            if c == 'm' {
                Some(Eleccion::Mover)
            } else if c == 'a' {
                Some(Eleccion::Atacar)
            } else if c == 't' {
                Some(Eleccion::Tienda)
            } else if c == 's' {
                Some(Eleccion::Saltar)
            } else if c == 'r' {
                Some(Eleccion::Ranking)
            } else {
                None
            }
        },
        None => None,
    }
}

/// Instruccion, con el precio a pagar, que corresponde a la opcion que la
/// persona elige en la tienda.
pub fn compra_elegida(opcion: &str, monedas: usize) -> (r: (Instruccion, usize))
    ensures
        r.0 == compra_de(opcion@, monedas as nat).0,
        r.1 == compra_de(opcion@, monedas as nat).1,
{
    let tipo: usize = match unica_letra(opcion) {
        Some(c) => {
            assert(opcion@[0] == c);
            if c == 'a' {
                3
            } else if c == 'b' {
                2
            } else if c == 'c' {
                1
            } else {
                0
            }
        },
        None => 0,
    };
    match precio(tipo) {
        Some(costo) => if monedas < costo {
            (Instruccion::Saltar, 0)
        } else {
            (Instruccion::Compra(tipo), costo)
        },
        None => (Instruccion::Compra(tipo), 0),
    }
}

} // verus!
