//! Almacenamiento de la cuadricula del tablero sobre `ndarray::Array2<char>`.
//!
//! Verus no ve el interior de un `Array2`, asi que este modulo es la frontera
//! de confianza con `ndarray`: el contenido de la cuadricula se nombra con
//! [`celdas`] y cada operacion declara, sin demostrarlo, lo que hace sobre ese
//! contenido.

use ndarray::Array2;
use vstd::prelude::*;

verus! {

/// Cuadricula rectangular de caracteres guardada en un `ndarray::Array2<char>`.
///
/// El campo es opaco para el verificador; todo lo que se sabe de una
/// cuadricula se expresa con [`celdas`].
#[verifier::external_body]
pub struct Cuadricula {
    datos: Array2<char>,
}

/// Contenido de una cuadricula: una secuencia de filas, cada una con una
/// celda por columna. La celda de fila `f` y columna `c` es `celdas(q)[f][c]`.
pub uninterp spec fn celdas(q: Cuadricula) -> Seq<Seq<char>>;

impl Cuadricula {
    /// Envuelve `Array2::from_elem((filas, columnas), relleno)`: una cuadricula
    /// de `filas` por `columnas` con todas las celdas iguales a `relleno`.
    /// `from_elem` entra en panico si el producto de las dimensiones desborda
    /// `isize`; la precondicion lo excluye.
    #[verifier::external_body]
    pub(crate) fn llena(filas: usize, columnas: usize, relleno: char) -> (q: Cuadricula)
        requires
            filas <= 1024,
            columnas <= 1024,
        ensures
            celdas(q) == Seq::new(
                filas as nat,
                |f: int| Seq::new(columnas as nat, |c: int| relleno),
            ),
    {
        Cuadricula { datos: Array2::from_elem((filas, columnas), relleno) }
    }

    /// Envuelve `ArrayBase::nrows`: la cantidad de filas.
    #[verifier::external_body]
    pub(crate) fn nrows(&self) -> (n: usize)
        ensures
            n == celdas(*self).len(),
    {
        self.datos.nrows()
    }

    /// Envuelve `ArrayBase::ncols`: la cantidad de columnas, que es el largo
    /// de cada fila.
    #[verifier::external_body]
    pub(crate) fn ncols(&self) -> (n: usize)
        ensures
            forall|f: int| 0 <= f < celdas(*self).len() ==> (#[trigger] celdas(*self)[f]).len() == n,
    {
        self.datos.ncols()
    }

    /// Envuelve la lectura indexada `datos[[fila, columna]]`, que entra en
    /// panico fuera de rango; la precondicion lo excluye.
    #[verifier::external_body]
    pub(crate) fn leer(&self, fila: usize, columna: usize) -> (ch: char)
        requires
            fila < celdas(*self).len(),
            columna < celdas(*self)[fila as int].len(),
        ensures
            ch == celdas(*self)[fila as int][columna as int],
    {
        self.datos[[fila, columna]]
    }

    /// Envuelve la escritura indexada `datos[[fila, columna]] = ch`, que entra
    /// en panico fuera de rango; la precondicion lo excluye. Solo cambia la
    /// celda indicada.
    #[verifier::external_body]
    pub(crate) fn escribir(&mut self, fila: usize, columna: usize, ch: char)
        requires
            fila < celdas(*old(self)).len(),
            columna < celdas(*old(self))[fila as int].len(),
        ensures
            celdas(*final(self)) == celdas(*old(self)).update(
                fila as int,
                celdas(*old(self))[fila as int].update(columna as int, ch),
            ),
    {
        self.datos[[fila, columna]] = ch;
    }
}

} // verus!
