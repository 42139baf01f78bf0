//! Lectura de lo que escribe una persona: una coordenada en formato `x,y` y
//! el numero de un barco.

use crate::custom_error::CustomError;
use vstd::prelude::*;

verus! {

/// El caracter es un espacio en blanco.
pub open spec fn es_blanco(c: char) -> bool {
    let u = c as u32;
    ||| 0x09 <= u <= 0x0d
    ||| u == 0x20
    ||| u == 0x85
    ||| u == 0xa0
    ||| u == 0x1680
    ||| 0x2000 <= u <= 0x200a
    ||| u == 0x2028
    ||| u == 0x2029
    ||| u == 0x202f
    ||| u == 0x205f
    ||| u == 0x3000
}

/// El caracter es un digito decimal.
pub open spec fn es_digito(c: char) -> bool {
    0x30 <= c as u32 <= 0x39
}

/// Primer lugar de `s`, desde `i` y antes de `j`, que no tiene un espacio en
/// blanco; `j` si todos lo tienen.
pub open spec fn sin_blancos_desde(s: Seq<char>, i: int, j: int) -> int
    decreases j - i,
{
    if i < j && es_blanco(s[i]) {
        sin_blancos_desde(s, i + 1, j)
    } else {
        i
    }
}

/// Lugar que sigue al ultimo caracter de `s`, desde `i` y antes de `j`, que
/// no es un espacio en blanco; `i` si todos lo son.
pub open spec fn sin_blancos_hasta(s: Seq<char>, i: int, j: int) -> int
    decreases j - i,
{
    if i < j && es_blanco(s[j - 1]) {
        sin_blancos_hasta(s, i, j - 1)
    } else {
        j
    }
}

/// Primer lugar de `s`, desde `i` y antes de `j`, que tiene una coma; `j` si
/// no hay ninguna.
pub open spec fn primera_coma(s: Seq<char>, i: int, j: int) -> int
    decreases j - i,
{
    if i < j && s[i] != ',' {
        primera_coma(s, i + 1, j)
    } else {
        i
    }
}

/// Todos los caracteres de `s` desde `i` y antes de `j` son digitos.
pub open spec fn todos_digitos(s: Seq<char>, i: int, j: int) -> bool {
    forall|k: int| i <= k < j ==> es_digito(#[trigger] s[k])
}

/// Valor decimal de los digitos de `s` desde `i` y antes de `j`.
pub open spec fn valor_digitos(s: Seq<char>, i: int, j: int) -> nat
    decreases j - i,
{
    if j <= i {
        0
    } else {
        valor_digitos(s, i, j - 1) * 10 + (s[j - 1] as u32 - 0x30) as nat
    }
}

/// Numero natural escrito en `s` desde `i` y antes de `j`: un signo `+`
/// optativo y al menos un digito, nada mas.
pub open spec fn natural_en(s: Seq<char>, i: int, j: int) -> Option<nat> {
    let d = if i < j && s[i] == '+' {
        i + 1
    } else {
        i
    };
    if d < j && todos_digitos(s, d, j) {
        Some(valor_digitos(s, d, j))
    } else {
        None
    }
}

/// Numero entero escrito en `s` desde `i` y antes de `j`: un signo `+` o `-`
/// optativo y al menos un digito, nada mas.
pub open spec fn entero_en(s: Seq<char>, i: int, j: int) -> Option<int> {
    if i < j && s[i] == '-' {
        if i + 1 < j && todos_digitos(s, i + 1, j) {
            Some(-(valor_digitos(s, i + 1, j) as int))
        } else {
            None
        }
    } else {
        match natural_en(s, i, j) {
            Some(v) => Some(v as int),
            None => None,
        }
    }
}

/// Entero de 32 bits escrito en el campo de `s` que va desde `i` hasta antes
/// de `j`, sin contar los espacios en blanco de sus extremos.
pub open spec fn campo_i32(s: Seq<char>, i: int, j: int) -> Option<i32> {
    match entero_en(s, sin_blancos_desde(s, i, j), sin_blancos_hasta(s, sin_blancos_desde(s, i, j), j)) {
        Some(v) => if i32::MIN <= v <= i32::MAX {
            Some(v as i32)
        } else {
            None
        },
        None => None,
    }
}

/// Coordenada escrita en `s` en formato `x,y`: dos enteros separados por una
/// coma, cada uno con espacios en blanco optativos alrededor. Lo que sigue a
/// una segunda coma no se mira.
pub open spec fn coordenadas_en(s: Seq<char>) -> Option<(i32, i32)> {
    let ini = sin_blancos_desde(s, 0, s.len() as int);
    let fin = sin_blancos_hasta(s, ini, s.len() as int);
    let c1 = primera_coma(s, ini, fin);
    if c1 >= fin {
        None
    } else {
        let c2 = primera_coma(s, c1 + 1, fin);
        match (campo_i32(s, ini, c1), campo_i32(s, c1 + 1, c2)) {
            (Some(x), Some(y)) => Some((x, y)),
            _ => None,
        }
    }
}

/// Numero de barco escrito en `s`: un natural que cabe en un `usize`, con
/// espacios en blanco optativos alrededor.
pub open spec fn indice_en(s: Seq<char>) -> Option<usize> {
    let ini = sin_blancos_desde(s, 0, s.len() as int);
    let fin = sin_blancos_hasta(s, ini, s.len() as int);
    match natural_en(s, ini, fin) {
        Some(v) => if v <= usize::MAX {
            Some(v as usize)
        } else {
            None
        },
        None => None,
    }
}

/// El valor de unos digitos no baja al agregar un digito mas.
proof fn lema_valor_crece(s: Seq<char>, i: int, j: int)
    requires
        i <= j,
        es_digito(s[j]),
    ensures
        valor_digitos(s, i, j + 1) >= valor_digitos(s, i, j),
        valor_digitos(s, i, j + 1) == valor_digitos(s, i, j) * 10 + (s[j] as u32 - 0x30),
{
}

/// Indica si el caracter es un espacio en blanco.
pub fn es_espacio(c: char) -> (b: bool)
    ensures
        b == es_blanco(c),
{
    let u: u32 = c as u32;
    (0x09 <= u && u <= 0x0d) || u == 0x20 || u == 0x85 || u == 0xa0 || u == 0x1680 || (0x2000 <= u
        && u <= 0x200a) || u == 0x2028 || u == 0x2029 || u == 0x202f || u == 0x205f || u == 0x3000
}

/// Recorta los espacios en blanco de los extremos del tramo de `texto` que
/// va desde `i` hasta antes de `j`.
fn recortar(texto: &str, i: usize, j: usize) -> (r: (usize, usize))
    requires
        i <= j <= texto@.len(),
    ensures
        r.0 == sin_blancos_desde(texto@, i as int, j as int),
        r.1 == sin_blancos_hasta(texto@, r.0 as int, j as int),
        i <= r.0 <= r.1 <= j,
{
    let mut ini: usize = i;
    while ini < j && es_espacio(texto.get_char(ini))
        invariant
            i <= ini <= j <= texto@.len(),
            sin_blancos_desde(texto@, i as int, j as int) == sin_blancos_desde(
                texto@,
                ini as int,
                j as int,
            ),
        decreases j - ini,
    {
        ini = ini + 1;
    }
    let mut fin: usize = j;
    while ini < fin && es_espacio(texto.get_char(fin - 1))
        invariant
            ini <= fin <= j <= texto@.len(),
            sin_blancos_hasta(texto@, ini as int, j as int) == sin_blancos_hasta(
                texto@,
                ini as int,
                fin as int,
            ),
        decreases fin - ini,
    {
        fin = fin - 1;
    }
    (ini, fin)
}

/// Busca la primera coma del tramo de `texto` que va desde `i` hasta antes
/// de `j`.
fn buscar_coma(texto: &str, i: usize, j: usize) -> (r: usize)
    requires
        i <= j <= texto@.len(),
    ensures
        r == primera_coma(texto@, i as int, j as int),
        i <= r <= j,
{
    let mut k: usize = i;
    while k < j && texto.get_char(k) != ','
        invariant
            i <= k <= j <= texto@.len(),
            primera_coma(texto@, i as int, j as int) == primera_coma(texto@, k as int, j as int),
        decreases j - k,
    {
        k = k + 1;
    }
    k
}

/// Lee los digitos del tramo de `texto` que va desde `i` hasta antes de `j`.
/// Da su valor si el tramo no esta vacio, todos sus caracteres son digitos y
/// el valor no pasa de `tope`.
fn leer_digitos(texto: &str, i: usize, j: usize, tope: u64) -> (r: Option<u64>)
    requires
        i <= j <= texto@.len(),
    ensures
        r == (if i < j && todos_digitos(texto@, i as int, j as int) && valor_digitos(
            texto@,
            i as int,
            j as int,
        ) <= tope {
            Some(valor_digitos(texto@, i as int, j as int) as u64)
        } else {
            None
        }),
{
    if i >= j {
        return None;
    }
    let mut valor: u64 = 0;
    let mut pasado = false;
    let mut k: usize = i;
    while k < j
        invariant
            i <= k <= j <= texto@.len(),
            todos_digitos(texto@, i as int, k as int),
            !pasado ==> valor == valor_digitos(texto@, i as int, k as int) && valor <= tope,
            pasado ==> valor_digitos(texto@, i as int, k as int) > tope,
        decreases j - k,
    {
        let c = texto.get_char(k);
        let u: u32 = c as u32;
        if u < 0x30 || u > 0x39 {
            assert(!es_digito(texto@[k as int]));
            return None;
        }
        let d: u64 = (u - 0x30) as u64;
        proof {
            lema_valor_crece(texto@, i as int, k as int);
        }
        if !pasado {
            if d > tope || valor > (tope - d) / 10 {
                pasado = true;
            } else {
                valor = valor * 10 + d;
            }
        }
        k = k + 1;
    }
    if pasado {
        None
    } else {
        Some(valor)
    }
}

/// Lee un entero de 32 bits del campo de `texto` que va desde `i` hasta
/// antes de `j`.
fn leer_campo(texto: &str, i: usize, j: usize) -> (r: Option<i32>)
    requires
        i <= j <= texto@.len(),
    ensures
        r == campo_i32(texto@, i as int, j as int),
{
    let (ini, fin) = recortar(texto, i, j);
    if ini < fin && texto.get_char(ini) == '-' {
        match leer_digitos(texto, ini + 1, fin, 0x8000_0000) {
            Some(v) => {
                let negativo: i64 = -(v as i64);
                Some(negativo as i32)
            },
            None => None,
        }
    } else {
        let desde = if ini < fin && texto.get_char(ini) == '+' {
            ini + 1
        } else {
            ini
        };
        match leer_digitos(texto, desde, fin, 0x7fff_ffff) {
            Some(v) => Some(v as i32),
            None => None,
        }
    }
}

/// Lee una coordenada escrita en formato `x,y`. Cualquier otro texto es un
/// error, `ErrorCoordenadasIncorrectas`.
pub fn leer_coordenadas(texto: &str) -> (r: Result<(i32, i32), CustomError>)
    ensures
        match coordenadas_en(texto@) {
            Some(c) => r == Ok::<(i32, i32), CustomError>(c),
            None => r == Err::<(i32, i32), CustomError>(CustomError::ErrorCoordenadasIncorrectas),
        },
{
    let n = texto.unicode_len();
    let (ini, fin) = recortar(texto, 0, n);
    let c1 = buscar_coma(texto, ini, fin);
    if c1 >= fin {
        return Err(CustomError::ErrorCoordenadasIncorrectas);
    }
    let c2 = buscar_coma(texto, c1 + 1, fin);
    let x = leer_campo(texto, ini, c1);
    let y = leer_campo(texto, c1 + 1, c2);
    match (x, y) {
        (Some(x), Some(y)) => Ok((x, y)),
        _ => Err(CustomError::ErrorCoordenadasIncorrectas),
    }
}

/// Lee el numero de un barco. Da `None` si el texto no es un natural que
/// quepa en un `usize`.
pub fn leer_indice(texto: &str) -> (r: Option<usize>)
    ensures
        r == indice_en(texto@),
{
    let n = texto.unicode_len();
    let (ini, fin) = recortar(texto, 0, n);
    let desde = if ini < fin && texto.get_char(ini) == '+' {
        ini + 1
    } else {
        ini
    };
    match leer_digitos(texto, desde, fin, usize::MAX as u64) {
        Some(v) => Some(v as usize),
        None => None,
    }
}

} // verus!
