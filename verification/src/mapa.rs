//! El tablero: una cuadricula fija de 10 por 10 celdas y las busquedas de
//! espacio libre contiguo para colocar y mover barcos.

use crate::azar::{generador, sortear};
use crate::barco::{flota_v, Barco, BarcoV};
use crate::cuadricula::{celdas, Cuadricula};
use crate::custom_error::CustomError;
use crate::mensaje::{Mensaje, MensajeV};
use rand::rngs::ThreadRng;
use vstd::prelude::*;

verus! {

/// Lado del tablero.
pub const LADO: usize = 10;

/// Marca de una celda vacia.
pub const VACIO: char = '.';

/// Marca permanente de una celda en la que se hundio una parte de un barco.
pub const HUNDIDO: char = 'X';

/// Indica si la coordenada `(x, y)` cae dentro de la cuadricula `t`
/// (`x` es la columna, `y` la fila).
pub open spec fn en_tablero(t: Seq<Seq<char>>, c: (i32, i32)) -> bool {
    &&& 0 <= c.1 < t.len()
    &&& 0 <= c.0 < t[c.1 as int].len()
}

/// Contenido de la celda `c` de `t`.
pub open spec fn celda(t: Seq<Seq<char>>, c: (i32, i32)) -> char {
    t[c.1 as int][c.0 as int]
}

/// Una celda esta libre si cae dentro del tablero y esta vacia. Fuera del
/// tablero nada esta libre.
pub open spec fn libre(t: Seq<Seq<char>>, c: (i32, i32)) -> bool {
    en_tablero(t, c) && celda(t, c) == VACIO
}

/// El tablero `t` con la celda `c` puesta en `ch`; sin cambios si `c` cae
/// fuera.
pub open spec fn con_celda(t: Seq<Seq<char>>, c: (i32, i32), ch: char) -> Seq<Seq<char>> {
    if en_tablero(t, c) {
        t.update(c.1 as int, t[c.1 as int].update(c.0 as int, ch))
    } else {
        t
    }
}

/// Dos tableros tienen la misma forma: igual cantidad de filas y filas del
/// mismo largo.
pub open spec fn misma_forma(a: Seq<Seq<char>>, b: Seq<Seq<char>>) -> bool {
    &&& a.len() == b.len()
    &&& forall|f: int| 0 <= f < a.len() ==> (#[trigger] a[f]).len() == b[f].len()
}

/// El paso `i` de un tramo que sale de `o`: `i` celdas hacia +y si es
/// vertical, hacia +x si no.
pub open spec fn paso(o: (i32, i32), i: int, vertical: bool) -> (i32, i32) {
    if vertical {
        (o.0, (o.1 + i) as i32)
    } else {
        ((o.0 + i) as i32, o.1)
    }
}

/// El paso `i` desde `o` es una coordenada representable y esta libre en `t`.
pub open spec fn paso_libre(t: Seq<Seq<char>>, o: (i32, i32), i: int, vertical: bool) -> bool {
    &&& (if vertical {
        o.1 + i
    } else {
        o.0 + i
    }) <= i32::MAX
    &&& libre(t, paso(o, i, vertical))
}

/// Las `n` celdas contiguas que salen de `o` en una direccion.
pub open spec fn tramo(o: (i32, i32), n: nat, vertical: bool) -> Seq<(i32, i32)> {
    Seq::new(n, |i: int| paso(o, i, vertical))
}

/// Las `n` celdas que salen de `o` en esa direccion estan todas libres.
pub open spec fn tramo_libre(t: Seq<Seq<char>>, o: (i32, i32), n: nat, vertical: bool) -> bool {
    forall|i: int| 0 <= i < n ==> #[trigger] paso_libre(t, o, i, vertical)
}

/// Region contigua libre de `n` celdas desde `o`: la horizontal si esta
/// libre, si no la vertical si esta libre, y si no ninguna (secuencia vacia).
pub open spec fn contiguas_libres(t: Seq<Seq<char>>, o: (i32, i32), n: nat) -> Seq<(i32, i32)> {
    if n > 0 && tramo_libre(t, o, n, false) {
        tramo(o, n, false)
    } else if n > 0 && tramo_libre(t, o, n, true) {
        tramo(o, n, true)
    } else {
        Seq::empty()
    }
}

/// Existe en `t` algun origen desde el que sale una region libre de `n`
/// celdas.
pub open spec fn hay_region(t: Seq<Seq<char>>, n: nat) -> bool {
    exists|o: (i32, i32)| en_tablero(t, o) && (#[trigger] contiguas_libres(t, o, n)).len() > 0
}

/// `r` es una region libre de `n` celdas de `t`: la que sale de algun origen
/// del tablero.
pub open spec fn es_region_libre(t: Seq<Seq<char>>, r: Seq<(i32, i32)>, n: nat) -> bool {
    &&& r.len() > 0
    &&& exists|o: (i32, i32)| en_tablero(t, o) && r == #[trigger] contiguas_libres(t, o, n)
}

/// El tablero `t` con la marca `ch` en cada celda de `cs` que cae dentro; las
/// demas celdas no cambian.
pub open spec fn estampado(t: Seq<Seq<char>>, cs: Seq<(i32, i32)>, ch: char) -> Seq<Seq<char>> {
    Seq::new(
        t.len(),
        |f: int|
            Seq::new(
                t[f].len(),
                |c: int|
                    if c <= i32::MAX && f <= i32::MAX && cs.contains((c as i32, f as i32)) {
                        ch
                    } else {
                        t[f][c]
                    },
            ),
    )
}

/// Alguna celda de `cs` cae dentro del tablero `t`.
pub open spec fn alguna_en_tablero(t: Seq<Seq<char>>, cs: Seq<(i32, i32)>) -> bool {
    exists|i: int| 0 <= i < cs.len() && en_tablero(t, #[trigger] cs[i])
}

/// Caracter del digito decimal `d`.
pub open spec fn digito(d: nat) -> char {
    if d == 0 {
        '0'
    } else if d == 1 {
        '1'
    } else if d == 2 {
        '2'
    } else if d == 3 {
        '3'
    } else if d == 4 {
        '4'
    } else if d == 5 {
        '5'
    } else if d == 6 {
        '6'
    } else if d == 7 {
        '7'
    } else if d == 8 {
        '8'
    } else {
        '9'
    }
}

/// Marca con la que un jugador aparece en el tablero: el primer digito
/// decimal de su identificador.
pub open spec fn marcador_de(id: nat) -> char
    decreases id,
{
    if id < 10 {
        digito(id)
    } else {
        marcador_de(id / 10)
    }
}

/// Lo que ve el jugador de marca `marca` en una celda de contenido `ch`: sus
/// propias marcas y las de hundido; todo lo demas aparece vacio.
pub open spec fn velado(ch: char, marca: char) -> char {
    if ch == marca || ch == HUNDIDO {
        ch
    } else {
        VACIO
    }
}

/// Proyeccion del tablero `t` para el jugador de marca `marca`.
pub open spec fn vista_de(t: Seq<Seq<char>>, marca: char) -> Seq<Seq<char>> {
    Seq::new(t.len(), |f: int| Seq::new(t[f].len(), |c: int| velado(t[f][c], marca)))
}

/// Modelo de una lista de filas.
pub open spec fn filas_v(filas: Seq<Vec<char>>) -> Seq<Seq<char>> {
    filas.map_values(|fila: Vec<char>| fila@)
}

/// Modelo de un resumen de flota: por cada barco, su identificador y sus
/// posiciones.
pub open spec fn resumen_v(resumen: Seq<(usize, Vec<(i32, i32)>)>) -> Seq<(nat, Seq<(i32, i32)>)> {
    resumen.map_values(|r: (usize, Vec<(i32, i32)>)| (r.0 as nat, r.1@))
}

/// Resumen de una flota: identificador y posiciones de cada barco, en orden.
pub open spec fn resumen_de(barcos: Seq<BarcoV>) -> Seq<(nat, Seq<(i32, i32)>)> {
    barcos.map_values(|b: BarcoV| (b.id, b.posiciones))
}

/// Origen que corresponde a la fila y la columna sorteadas: la coordenada de
/// esa celda, con la columna como `x` y la fila como `y`, o ninguno si la
/// fila o la columna no caben en una coordenada.
pub open spec fn origen_de(fila: int, columna: int) -> Option<(i32, i32)> {
    if 0 <= fila <= i32::MAX && 0 <= columna <= i32::MAX {
        Some((columna as i32, fila as i32))
    } else {
        None
    }
}

/// El tablero no tiene celdas: le faltan las filas o las columnas.
pub open spec fn sin_celdas(t: Seq<Seq<char>>) -> bool {
    t.len() == 0 || t[0].len() == 0
}

/// Origen que corresponde a la fila y la columna sorteadas.
pub fn origen_sorteado(fila: usize, columna: usize) -> (r: Option<(i32, i32)>)
    ensures
        r == origen_de(fila as int, columna as int),
{
    if fila > 0x7fff_ffff || columna > 0x7fff_ffff {
        return None;
    }
    Some((columna as i32, fila as i32))
}

/// Cantidad de origenes que se sortean antes de recorrer el tablero entero.
pub const INTENTOS_AL_AZAR: usize = 100;

/// Marca con la que el jugador `id` aparece en el tablero.
pub fn marcador(id: usize) -> (ch: char)
    ensures
        ch == marcador_de(id as nat),
        ch != VACIO,
        ch != HUNDIDO,
{
    let mut n: usize = id;
    while n >= 10
        invariant
            marcador_de(n as nat) == marcador_de(id as nat),
        decreases n,
    {
        n = n / 10;
    }
    if n == 0 {
        '0'
    } else if n == 1 {
        '1'
    } else if n == 2 {
        '2'
    } else if n == 3 {
        '3'
    } else if n == 4 {
        '4'
    } else if n == 5 {
        '5'
    } else if n == 6 {
        '6'
    } else if n == 7 {
        '7'
    } else if n == 8 {
        '8'
    } else {
        '9'
    }
}

/// Tablero de juego.
pub struct Mapa {
    pub tablero: Cuadricula,
}

impl View for Mapa {
    type V = Seq<Seq<char>>;

    open spec fn view(&self) -> Seq<Seq<char>> {
        celdas(self.tablero)
    }
}

impl Mapa {
    /// El tablero tiene `LADO` filas de `LADO` celdas.
    pub open spec fn wf(&self) -> bool {
        &&& self@.len() == LADO
        &&& forall|f: int| 0 <= f < LADO ==> (#[trigger] self@[f]).len() == LADO
    }

    /// Crea un tablero vacio de 10 por 10.
    pub fn new() -> (m: Mapa)
        ensures
            m.wf(),
            m@ == Seq::new(LADO as nat, |f: int| Seq::new(LADO as nat, |c: int| VACIO)),
            forall|c: (i32, i32)| en_tablero(m@, c) ==> celda(m@, c) == VACIO,
    {
        Mapa { tablero: Cuadricula::llena(LADO, LADO, VACIO) }
    }

    /// Cantidad de filas.
    pub fn nrows(&self) -> (n: usize)
        ensures
            n == self@.len(),
    {
        self.tablero.nrows()
    }

    /// Cantidad de columnas: el largo comun de todas las filas.
    pub fn ncols(&self) -> (n: usize)
        ensures
            forall|f: int| 0 <= f < self@.len() ==> (#[trigger] self@[f]).len() == n,
    {
        self.tablero.ncols()
    }

    /// Pone `ch` en la fila `row`, columna `col`. Fuera de rango no hace nada.
    pub fn set(&mut self, row: usize, col: usize, ch: char)
        ensures
            row < old(self)@.len() && col < old(self)@[row as int].len() ==> final(self)@ == old(
                self,
            )@.update(row as int, old(self)@[row as int].update(col as int, ch)),
            !(row < old(self)@.len() && col < old(self)@[row as int].len()) ==> final(self)@ == old(
                self,
            )@,
            misma_forma(old(self)@, final(self)@),
    {
        if row < self.tablero.nrows() && col < self.tablero.ncols() {
            self.tablero.escribir(row, col, ch);
        }
    }

    /// Lee la celda `coordenada`, o `None` si cae fuera del tablero.
    pub fn obtener(&self, coordenada: (i32, i32)) -> (r: Option<char>)
        ensures
            r == (if en_tablero(self@, coordenada) {
                Some(celda(self@, coordenada))
            } else {
                None
            }),
    {
        let (x, y) = coordenada;
        if x >= 0 && y >= 0 {
            let fila: usize = y as usize;
            let columna: usize = x as usize;
            if fila < self.tablero.nrows() && columna < self.tablero.ncols() {
                return Some(self.tablero.leer(fila, columna));
            }
        }
        None
    }

    /// Indica si la coordenada esta dentro del tablero y vacia. Fuera del
    /// tablero la respuesta es siempre `false`.
    pub fn es_coordenada_vacia(&self, coordenada: (i32, i32)) -> (b: bool)
        ensures
            b == libre(self@, coordenada),
    {
        match self.obtener(coordenada) {
            Some(ch) => ch == VACIO,
            None => false,
        }
    }

    /// Marca la celda como hundida. Fuera del tablero no hace nada.
    pub fn marcar_hundido(&mut self, coordenadas: (i32, i32))
        ensures
            final(self)@ == con_celda(old(self)@, coordenadas, HUNDIDO),
            misma_forma(old(self)@, final(self)@),
    {
        self.poner(coordenadas, HUNDIDO);
    }

    /// Pone `ch` en la celda `c`. Fuera del tablero no hace nada.
    pub fn poner(&mut self, c: (i32, i32), ch: char)
        ensures
            final(self)@ == con_celda(old(self)@, c, ch),
            misma_forma(old(self)@, final(self)@),
    {
        let (x, y) = c;
        if x >= 0 && y >= 0 {
            self.set(y as usize, x as usize, ch);
        }
    }
    /// Busca `n` celdas libres desde `o` en una sola direccion.
    fn buscar_tramo(&self, o: (i32, i32), n: usize, vertical: bool) -> (r: Vec<(i32, i32)>)
        ensures
            r@ == (if n > 0 && tramo_libre(self@, o, n as nat, vertical) {
                tramo(o, n as nat, vertical)
            } else {
                Seq::empty()
            }),
    {
        let mut region: Vec<(i32, i32)> = Vec::new();
        let mut actual: (i32, i32) = o;
        let mut i: usize = 0;
        while i < n
            invariant
                i <= n,
                region@ == tramo(o, i as nat, vertical),
                tramo_libre(self@, o, i as nat, vertical),
                i < n ==> (if vertical {
                    o.1 + i
                } else {
                    o.0 + i
                }) <= i32::MAX,
                i < n ==> actual == paso(o, i as int, vertical),
            decreases n - i,
        {
            if !self.es_coordenada_vacia(actual) {
                assert(!paso_libre(self@, o, i as int, vertical));
                return Vec::new();
            }
            region.push(actual);
            assert(region@ == tramo(o, (i + 1) as nat, vertical));
            i = i + 1;
            if i < n {
                if vertical {
                    if actual.1 == i32::MAX {
                        assert(!paso_libre(self@, o, i as int, vertical));
                        return Vec::new();
                    }
                    actual = (actual.0, actual.1 + 1);
                } else {
                    if actual.0 == i32::MAX {
                        assert(!paso_libre(self@, o, i as int, vertical));
                        return Vec::new();
                    }
                    actual = (actual.0 + 1, actual.1);
                }
            }
        }
        region
    }

    /// Region contigua libre de `tamano_barco` celdas a partir de
    /// `coordenada_destino`: primero se intenta hacia +x y, si alguna de esas
    /// celdas no esta libre, hacia +y. Si ninguna direccion alcanza, el
    /// resultado es vacio.
    pub fn obtener_coordenadas_contiguas(
        &self,
        coordenada_destino: (i32, i32),
        tamano_barco: usize,
    ) -> (r: Vec<(i32, i32)>)
        ensures
            r@ == contiguas_libres(self@, coordenada_destino, tamano_barco as nat),
            r@.len() == 0 || r@.len() == tamano_barco,
            forall|i: int| 0 <= i < r@.len() ==> libre(self@, #[trigger] r@[i]),
    {
        let horizontal = self.buscar_tramo(coordenada_destino, tamano_barco, false);
        let r = if horizontal.len() > 0 {
            horizontal
        } else {
            self.buscar_tramo(coordenada_destino, tamano_barco, true)
        };
        proof {
            lema_contiguas_libres(self@, coordenada_destino, tamano_barco as nat);
        }
        r
    }

    /// Pone `ch` en cada celda de `cs` que cae dentro del tablero e indica si
    /// alguna cayo dentro.
    pub fn estampar(&mut self, cs: &Vec<(i32, i32)>, ch: char) -> (alguna: bool)
        ensures
            final(self)@ == estampado(old(self)@, cs@, ch),
            alguna == alguna_en_tablero(old(self)@, cs@),
            misma_forma(old(self)@, final(self)@),
    {
        let mut alguna = false;
        let mut i: usize = 0;
        assert(cs@.take(0) =~= Seq::empty());
        assert(self@ =~~= estampado(old(self)@, cs@.take(0), ch));
        while i < cs.len()
            invariant
                i <= cs.len(),
                self@ == estampado(old(self)@, cs@.take(i as int), ch),
                misma_forma(old(self)@, self@),
                alguna == alguna_en_tablero(old(self)@, cs@.take(i as int)),
            decreases cs.len() - i,
        {
            let c = cs[i];
            proof {
                lema_estampado_paso(old(self)@, cs@, i as int, ch);
            }
            if self.obtener(c).is_some() {
                alguna = true;
            }
            self.poner(c, ch);
            i = i + 1;
        }
        assert(cs@.take(cs.len() as int) == cs@);
        alguna
    }

    /// Mueve un barco en el tablero: vacia las celdas que ocupa y marca las
    /// de destino con la marca del jugador `id`. Las celdas fuera del tablero
    /// se saltan. Indica si alguna celda de destino cayo dentro.
    pub fn actualizar_posicion_barco(
        &mut self,
        barco: &Barco,
        coordenadas_destino: Vec<(i32, i32)>,
        id: usize,
    ) -> (modifico: bool)
        ensures
            final(self)@ == estampado(
                estampado(old(self)@, barco.posiciones@, VACIO),
                coordenadas_destino@,
                marcador_de(id as nat),
            ),
            modifico == alguna_en_tablero(old(self)@, coordenadas_destino@),
            misma_forma(old(self)@, final(self)@),
    {
        self.estampar(&barco.posiciones, VACIO);
        proof {
            let t0 = old(self)@;
            let t1 = self@;
            let cs = coordenadas_destino@;
            if alguna_en_tablero(t0, cs) {
                let i = choose|i: int| 0 <= i < cs.len() && en_tablero(t0, #[trigger] cs[i]);
                assert(en_tablero(t1, cs[i]));
            }
            if alguna_en_tablero(t1, cs) {
                let i = choose|i: int| 0 <= i < cs.len() && en_tablero(t1, #[trigger] cs[i]);
                assert(en_tablero(t0, cs[i]));
            }
        }
        self.estampar(&coordenadas_destino, marcador(id))
    }

    /// Proyeccion del tablero para el jugador de marca `marca`: se ven sus
    /// propias celdas y las hundidas; las de los demas aparecen vacias.
    pub fn tablero_para(&self, marca: char) -> (r: Vec<Vec<char>>)
        ensures
            filas_v(r@) == vista_de(self@, marca),
    {
        let nrows = self.nrows();
        let ncols = self.ncols();
        let mut filas: Vec<Vec<char>> = Vec::new();
        let mut f: usize = 0;
        while f < nrows
            invariant
                f <= nrows,
                nrows == self@.len(),
                forall|k: int| 0 <= k < self@.len() ==> (#[trigger] self@[k]).len() == ncols,
                filas@.len() == f,
                forall|k: int| 0 <= k < f ==> (#[trigger] filas@[k])@ == vista_de(self@, marca)[k],
            decreases nrows - f,
        {
            let mut fila: Vec<char> = Vec::new();
            let mut c: usize = 0;
            while c < ncols
                invariant
                    c <= ncols,
                    f < nrows,
                    nrows == self@.len(),
                    self@[f as int].len() == ncols,
                    fila@.len() == c,
                    forall|k: int| 0 <= k < c ==> #[trigger] fila@[k] == velado(self@[f as int][k], marca),
                decreases ncols - c,
            {
                let ch = self.tablero.leer(f, c);
                if ch == marca || ch == HUNDIDO {
                    fila.push(ch);
                } else {
                    fila.push(VACIO);
                }
                c = c + 1;
            }
            assert(fila@ =~= vista_de(self@, marca)[f as int]);
            filas.push(fila);
            f = f + 1;
        }
        assert(filas_v(filas@) =~= vista_de(self@, marca));
        filas
    }

    /// Resumen de una flota: identificador y posiciones de cada barco.
    pub fn serializar_barcos(&self, barcos: &Vec<Barco>) -> (r: Vec<(usize, Vec<(i32, i32)>)>)
        ensures
            resumen_v(r@) == resumen_de(flota_v(barcos@)),
    {
        let mut resumen: Vec<(usize, Vec<(i32, i32)>)> = Vec::new();
        let mut i: usize = 0;
        while i < barcos.len()
            invariant
                i <= barcos.len(),
                resumen@.len() == i,
                forall|k: int|
                    0 <= k < i ==> (#[trigger] resumen@[k]).0 == barcos@[k].id && resumen@[k].1@
                        == barcos@[k].posiciones@,
            decreases barcos.len() - i,
        {
            let datos = barcos[i].obtener_datos();
            resumen.push(datos);
            i = i + 1;
        }
        assert(resumen_v(resumen@) =~= resumen_de(flota_v(barcos@)));
        resumen
    }

    /// Mensaje con el tablero para el jugador cuyo identificador escrito es
    /// `id`: la vista del tablero para la marca de ese jugador, que es el
    /// primer caracter de `id`, el resumen de su flota y sus monedas. Un
    /// identificador vacio es un error, `ErrorAceptandoConexion`.
    pub fn enviar_tablero(&self, id: String, barcos: &Vec<Barco>, monedas: usize) -> (r: Result<
        Mensaje,
        CustomError,
    >)
        ensures
            id@.len() == 0 ==> r == Err::<Mensaje, CustomError>(
                CustomError::ErrorAceptandoConexion,
            ),
            id@.len() > 0 ==> r is Ok && r->Ok_0@ == MensajeV::Tablero(
                vista_de(self@, id@[0]),
                resumen_de(flota_v(barcos@)),
                monedas as nat,
            ),
    {
        if id.as_str().unicode_len() == 0 {
            return Err(CustomError::ErrorAceptandoConexion);
        }
        let jugador = id.as_str().get_char(0);
        Ok(Mensaje::Tablero(self.tablero_para(jugador), self.serializar_barcos(barcos), monedas))
    }

    /// Sortea un origen dentro del tablero. Si el tablero no tiene celdas no
    /// hay origen. Si las tiene, el resultado es el origen que corresponde a
    /// la fila y la columna que salieron del sorteo, sean cuales sean: una
    /// celda del tablero, o ninguna si esa celda no cabe en una coordenada,
    /// lo que no pasa en un tablero de hasta 2^31 filas y columnas.
    fn origen_al_azar(&self, rng: &mut ThreadRng) -> (r: Option<(i32, i32)>)
        ensures
            sin_celdas(self@) ==> r is None,
            !sin_celdas(self@) ==> exists|fila: int, columna: int|
                0 <= fila < self@.len() && 0 <= columna < self@[0].len() && r == #[trigger] origen_de(
                    fila,
                    columna,
                ),
            !sin_celdas(self@) && self@.len() <= 0x8000_0000 && self@[0].len() <= 0x8000_0000
                ==> r is Some,
            r matches Some(o) ==> en_tablero(self@, o),
    {
        let nrows = self.nrows();
        let ncols = self.ncols();
        if nrows == 0 || ncols == 0 {
            return None;
        }
        let fil = sortear(rng, nrows);
        let col = sortear(rng, ncols);
        let r = origen_sorteado(fil, col);
        assert(0 <= fil < self@.len() && 0 <= col < self@[0].len() && r == origen_de(
            fil as int,
            col as int,
        ));
        r
    }

    /// Recorre todos los origenes del tablero, fila por fila, y devuelve la
    /// primera region libre de `n` celdas; vacio si no hay ninguna.
    pub fn primera_region_libre(&self, n: usize) -> (r: Vec<(i32, i32)>)
        ensures
            r@.len() == 0 <==> !hay_region(self@, n as nat),
            r@.len() > 0 ==> es_region_libre(self@, r@, n as nat),
    {
        let nrows = self.nrows();
        let ncols = self.ncols();
        let mut f: usize = 0;
        while f < nrows && f <= 0x7fff_ffff
            invariant
                nrows == self@.len(),
                forall|k: int| 0 <= k < self@.len() ==> (#[trigger] self@[k]).len() == ncols,
                f <= nrows,
                f <= 0x8000_0000,
                forall|o: (i32, i32)|
                    en_tablero(self@, o) && o.1 < f ==> (#[trigger] contiguas_libres(
                        self@,
                        o,
                        n as nat,
                    )).len() == 0,
            decreases nrows - f,
        {
            let mut c: usize = 0;
            while c < ncols && c <= 0x7fff_ffff
                invariant
                    nrows == self@.len(),
                    forall|k: int| 0 <= k < self@.len() ==> (#[trigger] self@[k]).len() == ncols,
                    f < nrows,
                    f <= 0x7fff_ffff,
                    c <= ncols,
                    c <= 0x8000_0000,
                    forall|o: (i32, i32)|
                        en_tablero(self@, o) && (o.1 < f || (o.1 == f && o.0 < c)) ==> (
                        #[trigger] contiguas_libres(self@, o, n as nat)).len() == 0,
                decreases ncols - c,
            {
                let o: (i32, i32) = (c as i32, f as i32);
                let region = self.obtener_coordenadas_contiguas(o, n);
                if region.len() > 0 {
                    assert(en_tablero(self@, o));
                    return region;
                }
                c = c + 1;
            }
            f = f + 1;
        }
        Vec::new()
    }

    /// Coloca una region de `tamano` celdas en un lugar libre elegido al
    /// azar y la marca con `marca`. Primero sortea origenes; si tras
    /// `INTENTOS_AL_AZAR` sorteos ninguno sirve, recorre el tablero entero,
    /// de modo que solo devuelve vacio (y no toca el tablero) cuando no
    /// queda ninguna region libre de ese tamano.
    pub fn colocar_al_azar(&mut self, marca: char, tamano: usize) -> (r: Vec<(i32, i32)>)
        ensures
            r@.len() == 0 <==> !hay_region(old(self)@, tamano as nat),
            r@.len() > 0 ==> es_region_libre(old(self)@, r@, tamano as nat),
            r@.len() == 0 || r@.len() == tamano,
            forall|i: int| 0 <= i < r@.len() ==> libre(old(self)@, #[trigger] r@[i]),
            final(self)@ == estampado(old(self)@, r@, marca),
            misma_forma(old(self)@, final(self)@),
    {
        let mut rng = generador();
        let mut region: Vec<(i32, i32)> = Vec::new();
        let mut intento: usize = 0;
        while intento < INTENTOS_AL_AZAR && region.len() == 0
            invariant
                self@ == old(self)@,
                region@.len() > 0 ==> es_region_libre(self@, region@, tamano as nat),
            decreases INTENTOS_AL_AZAR - intento,
        {
            match self.origen_al_azar(&mut rng) {
                Some(o) => {
                    region = self.obtener_coordenadas_contiguas(o, tamano);
                },
                None => {},
            }
            intento = intento + 1;
        }
        if region.len() == 0 {
            region = self.primera_region_libre(tamano);
        }
        proof {
            if region@.len() > 0 {
                let o = choose|o: (i32, i32)|
                    en_tablero(self@, o) && region@ == #[trigger] contiguas_libres(
                        self@,
                        o,
                        tamano as nat,
                    );
                lema_contiguas_libres(self@, o, tamano as nat);
            }
        }
        self.estampar(&region, marca);
        region
    }

    /// Coloca al azar una region libre de `tamano` celdas y la marca con el
    /// primer caracter de `id`.
    pub fn obtener_posiciones_libres_contiguas(&mut self, id: String, tamano: usize) -> (r: Vec<
        (i32, i32),
    >)
        requires
            id@.len() > 0,
        ensures
            r@.len() == 0 <==> !hay_region(old(self)@, tamano as nat),
            r@.len() > 0 ==> es_region_libre(old(self)@, r@, tamano as nat),
            final(self)@ == estampado(old(self)@, r@, id@[0]),
            misma_forma(old(self)@, final(self)@),
    {
        let marca = id.as_str().get_char(0);
        self.colocar_al_azar(marca, tamano)
    }
}

/// Contenido del tablero que describen los bytes: la celda de la fila `f` y
/// la columna `c` es el byte numero `f * LADO + c`, y vacia si los bytes no
/// llegan hasta ahi.
pub open spec fn tablero_de_bytes(bytes: Seq<u8>) -> Seq<Seq<char>> {
    Seq::new(
        LADO as nat,
        |f: int|
            Seq::new(
                LADO as nat,
                |c: int|
                    if f * LADO + c < bytes.len() {
                        bytes[f * LADO + c] as char
                    } else {
                        VACIO
                    },
            ),
    )
}

/// Arma un tablero a partir de sus bytes, una celda por byte, fila por
/// fila. Los bytes que sobran despues de la ultima celda no se usan.
pub fn from_bytes(bytes: &[u8]) -> (m: Mapa)
    ensures
        m.wf(),
        m@ == tablero_de_bytes(bytes@),
{
    let mut mapa = Mapa::new();
    let mut i: usize = 0;
    while i < bytes.len() && i < LADO * LADO
        invariant
            i <= bytes@.len(),
            i <= LADO * LADO,
            mapa.wf(),
            forall|f: int, c: int|
                0 <= f < LADO && 0 <= c < LADO ==> #[trigger] mapa@[f][c] == (if f * LADO + c < i {
                    bytes@[f * LADO + c] as char
                } else {
                    VACIO
                }),
        decreases LADO * LADO - i,
    {
        let fila = i / LADO;
        let columna = i % LADO;
        mapa.set(fila, columna, bytes[i] as char);
        i = i + 1;
    }
    assert(mapa@ =~~= tablero_de_bytes(bytes@));
    mapa
}

/// Cantidad de celdas no vacias entre las primeras `n` del tablero, contadas
/// fila por fila.
pub open spec fn ocupadas_hasta(t: Seq<Seq<char>>, n: nat) -> nat
    decreases n,
{
    if n == 0 {
        0
    } else {
        ocupadas_hasta(t, (n - 1) as nat) + (if t[(n - 1) / LADO as int][(n - 1) % LADO as int]
            != VACIO {
            1nat
        } else {
            0nat
        })
    }
}

/// Un tablero con todas las celdas vacias no tiene celdas ocupadas.
pub proof fn lema_tablero_vacio(t: Seq<Seq<char>>, n: nat)
    requires
        t == Seq::new(LADO as nat, |f: int| Seq::new(LADO as nat, |c: int| VACIO)),
        n <= LADO * LADO,
    ensures
        ocupadas_hasta(t, n) == 0,
    decreases n,
{
    if n > 0 {
        lema_tablero_vacio(t, (n - 1) as nat);
    }
}

/// Si entre las primeras `n` celdas hay menos de `n` ocupadas, alguna de
/// ellas esta vacia.
pub proof fn lema_alguna_vacia(t: Seq<Seq<char>>, n: nat) -> (i: int)
    requires
        ocupadas_hasta(t, n) < n,
    ensures
        0 <= i < n,
        t[i / LADO as int][i % LADO as int] == VACIO,
    decreases n,
{
    if t[(n - 1) / LADO as int][(n - 1) % LADO as int] == VACIO {
        n - 1
    } else {
        lema_alguna_vacia(t, (n - 1) as nat)
    }
}

/// Un tablero entero con menos celdas ocupadas que celdas tiene lugar para
/// una region de una celda.
pub proof fn lema_hay_lugar(t: Seq<Seq<char>>)
    requires
        t.len() == LADO,
        forall|f: int| 0 <= f < LADO ==> (#[trigger] t[f]).len() == LADO,
        ocupadas_hasta(t, (LADO * LADO) as nat) < LADO * LADO,
    ensures
        hay_region(t, 1),
{
    let i = lema_alguna_vacia(t, (LADO * LADO) as nat);
    let o: (i32, i32) = ((i % LADO as int) as i32, (i / LADO as int) as i32);
    assert(libre(t, o));
    assert(paso_libre(t, o, 0, false));
    assert(tramo_libre(t, o, 1, false));
    assert(contiguas_libres(t, o, 1).len() == 1);
}

/// Marcar una sola celda ocupa a lo sumo una celda mas.
pub proof fn lema_ocupadas_tras_estampar(t: Seq<Seq<char>>, cs: Seq<(i32, i32)>, ch: char, n: nat)
    requires
        t.len() == LADO,
        forall|f: int| 0 <= f < LADO ==> (#[trigger] t[f]).len() == LADO,
        cs.len() == 1,
        n <= LADO * LADO,
    ensures
        ocupadas_hasta(estampado(t, cs, ch), n) <= ocupadas_hasta(t, n) + (if en_tablero(t, cs[0])
            && cs[0].1 * LADO + cs[0].0 < n {
            1nat
        } else {
            0nat
        }),
    decreases n,
{
    if n > 0 {
        lema_ocupadas_tras_estampar(t, cs, ch, (n - 1) as nat);
        let f = (n - 1) / LADO as int;
        let c = (n - 1) % LADO as int;
        let t1 = estampado(t, cs, ch);
        if cs.contains((c as i32, f as i32)) {
            let k = choose|k: int| 0 <= k < cs.len() && cs[k] == (c as i32, f as i32);
            assert(cs[0] == (c as i32, f as i32));
        } else {
            assert(t1[f][c] == t[f][c]);
        }
    }
}

/// Toda region que da `contiguas_libres` es vacia o tiene exactamente `n`
/// celdas, todas libres en `t`.
pub proof fn lema_contiguas_libres(t: Seq<Seq<char>>, o: (i32, i32), n: nat)
    ensures
        contiguas_libres(t, o, n).len() == 0 || contiguas_libres(t, o, n).len() == n,
        forall|i: int|
            0 <= i < contiguas_libres(t, o, n).len() ==> libre(
                t,
                #[trigger] contiguas_libres(t, o, n)[i],
            ),
{
    let r = contiguas_libres(t, o, n);
    assert forall|i: int| 0 <= i < r.len() implies libre(t, #[trigger] r[i]) by {
        if n > 0 && tramo_libre(t, o, n, false) {
            assert(paso_libre(t, o, i, false));
        } else if n > 0 && tramo_libre(t, o, n, true) {
            assert(paso_libre(t, o, i, true));
        }
    }
}

/// Estampar una celda mas sobre lo ya estampado equivale a estampar la lista
/// extendida con esa celda.
proof fn lema_estampado_paso(t: Seq<Seq<char>>, cs: Seq<(i32, i32)>, i: int, ch: char)
    requires
        0 <= i < cs.len(),
    ensures
        con_celda(estampado(t, cs.take(i), ch), cs[i], ch) == estampado(t, cs.take(i + 1), ch),
        en_tablero(estampado(t, cs.take(i), ch), cs[i]) == en_tablero(t, cs[i]),
        alguna_en_tablero(t, cs.take(i + 1)) == (alguna_en_tablero(t, cs.take(i)) || en_tablero(
            t,
            cs[i],
        )),
{
    let antes = cs.take(i);
    let despues = cs.take(i + 1);
    assert(despues =~= antes.push(cs[i]));
    assert forall|x: (i32, i32)| despues.contains(x) == (antes.contains(x) || x == cs[i]) by {
        if antes.contains(x) {
            let k = choose|k: int| 0 <= k < antes.len() && antes[k] == x;
            assert(despues[k] == x);
        }
        if x == cs[i] {
            assert(despues[i] == x);
        }
    }
    assert(con_celda(estampado(t, antes, ch), cs[i], ch) =~~= estampado(t, despues, ch));
    if alguna_en_tablero(t, antes) {
        let k = choose|k: int| 0 <= k < antes.len() && en_tablero(t, #[trigger] antes[k]);
        assert(en_tablero(t, despues[k]));
    }
    if en_tablero(t, cs[i]) {
        assert(en_tablero(t, despues[i]));
    }
}

} // verus!
