//! Un barco: identidad, tamano, celdas que ocupa y estado.

use crate::estado_barco::EstadoBarco;
use vstd::prelude::*;

verus! {

/// Barco de una flota.
#[derive(Debug)]
pub struct Barco {
    pub id: usize,
    pub tamano: usize,
    pub posiciones: Vec<(i32, i32)>,
    pub estado: EstadoBarco,
}

/// Modelo matematico de un barco.
pub ghost struct BarcoV {
    pub id: nat,
    pub tamano: nat,
    pub posiciones: Seq<(i32, i32)>,
    pub estado: EstadoBarco,
}

impl View for Barco {
    type V = BarcoV;

    open spec fn view(&self) -> BarcoV {
        BarcoV {
            id: self.id as nat,
            tamano: self.tamano as nat,
            posiciones: self.posiciones@,
            estado: self.estado,
        }
    }
}

/// Resultado de un ataque sobre un barco.
#[derive(Debug, Clone, Copy, PartialEq, Eq, Structural)]
pub enum Impacto {
    /// La coordenada no toca al barco.
    Agua,
    /// El barco pierde la celda atacada y sigue a flote.
    Golpe,
    /// El barco pierde su ultima celda.
    Hundimiento,
}

/// Puntos que gana el atacante por un impacto.
pub open spec fn puntos_de(i: Impacto) -> nat {
    match i {
        Impacto::Agua => 0,
        Impacto::Golpe => 5,
        Impacto::Hundimiento => 15,
    }
}

/// Monedas que gana el atacante por un impacto.
pub open spec fn monedas_de(i: Impacto) -> nat {
    match i {
        Impacto::Agua => 0,
        Impacto::Golpe => 50,
        Impacto::Hundimiento => 100,
    }
}

/// Las posiciones `ps` sin la celda `c`, en el mismo orden.
pub open spec fn sin_celda(ps: Seq<(i32, i32)>, c: (i32, i32)) -> Seq<(i32, i32)> {
    ps.filter(|p: (i32, i32)| p != c)
}

/// Resultado de atacar la celda `c` para el barco `b`: agua si no la ocupa,
/// hundimiento si era la unica celda que le quedaba, golpe en otro caso.
pub open spec fn impacto_en(b: BarcoV, c: (i32, i32)) -> Impacto {
    if !b.posiciones.contains(c) {
        Impacto::Agua
    } else if sin_celda(b.posiciones, c).len() == 0 {
        Impacto::Hundimiento
    } else {
        Impacto::Golpe
    }
}

/// El barco `b` despues de un ataque a la celda `c`: pierde esa celda; si se
/// queda sin celdas pasa a hundido, y si estaba sano pasa a golpeado.
pub open spec fn barco_tras_ataque(b: BarcoV, c: (i32, i32)) -> BarcoV {
    match impacto_en(b, c) {
        Impacto::Agua => b,
        Impacto::Golpe => BarcoV {
            posiciones: sin_celda(b.posiciones, c),
            estado: if b.estado == EstadoBarco::Sano {
                EstadoBarco::Golpeado
            } else {
                b.estado
            },
            ..b
        },
        Impacto::Hundimiento => BarcoV {
            posiciones: sin_celda(b.posiciones, c),
            estado: EstadoBarco::Hundido,
            ..b
        },
    }
}

/// Quitar `c` de un prefijo extendido con un elemento es quitarla del
/// prefijo y conservar el elemento si es distinto de `c`.
proof fn lema_sin_celda_paso(ps: Seq<(i32, i32)>, i: int, c: (i32, i32))
    requires
        0 <= i < ps.len(),
    ensures
        sin_celda(ps.take(i + 1), c) == (if ps[i] != c {
            sin_celda(ps.take(i), c).push(ps[i])
        } else {
            sin_celda(ps.take(i), c)
        }),
        ps.take(i + 1).contains(c) == (ps.take(i).contains(c) || ps[i] == c),
{
    reveal(Seq::filter);
    let despues = ps.take(i + 1);
    assert(despues.drop_last() =~= ps.take(i));
    assert(despues.last() == ps[i]);
    if ps.take(i).contains(c) {
        let k = choose|k: int| 0 <= k < ps.take(i).len() && ps.take(i)[k] == c;
        assert(despues[k] == c);
    }
    if ps[i] == c {
        assert(despues[i] == c);
    }
}

/// Tras quitar `c`, la celda `c` ya no esta; las demas celdas siguen estando.
pub proof fn lema_sin_celda(ps: Seq<(i32, i32)>, c: (i32, i32))
    ensures
        !sin_celda(ps, c).contains(c),
        !ps.contains(c) ==> sin_celda(ps, c) == ps,
        forall|p: (i32, i32)| p != c ==> (sin_celda(ps, c).contains(p) == ps.contains(p)),
        sin_celda(ps, c).len() <= ps.len(),
    decreases ps.len(),
{
    reveal(Seq::filter);
    if ps.len() > 0 {
        let antes = ps.drop_last();
        lema_sin_celda(antes, c);
        let r = sin_celda(ps, c);
        let ra = sin_celda(antes, c);
        assert(ps =~= antes.push(ps.last()));
        if !ps.contains(c) {
            if antes.contains(c) {
                let k = choose|k: int| 0 <= k < antes.len() && antes[k] == c;
                assert(ps[k] == c);
            }
            assert(ps.last() != c) by {
                if ps.last() == c {
                    assert(ps[ps.len() - 1] == c);
                }
            }
        }
        assert forall|p: (i32, i32)| p != c implies (r.contains(p) == ps.contains(p)) by {
            if ps.contains(p) {
                let k = choose|k: int| 0 <= k < ps.len() && ps[k] == p;
                if k < antes.len() {
                    assert(antes[k] == p);
                    assert(ra.contains(p));
                    let m = choose|m: int| 0 <= m < ra.len() && ra[m] == p;
                    assert(r[m] == p);
                } else {
                    assert(r.last() == p);
                    assert(r[r.len() - 1] == p);
                }
            }
            if r.contains(p) {
                let m = choose|m: int| 0 <= m < r.len() && r[m] == p;
                if m < ra.len() {
                    assert(ra[m] == p);
                    assert(antes.contains(p));
                    let k = choose|k: int| 0 <= k < antes.len() && antes[k] == p;
                    assert(ps[k] == p);
                } else {
                    assert(ps[ps.len() - 1] == p);
                }
            }
        }
        if r.contains(c) {
            let m = choose|m: int| 0 <= m < r.len() && r[m] == c;
            if m < ra.len() {
                assert(ra[m] == c);
            }
        }
    }
}

/// Modelo de una lista de barcos.
pub open spec fn flota_v(barcos: Seq<Barco>) -> Seq<BarcoV> {
    barcos.map_values(|b: Barco| b@)
}

/// Copia una lista de coordenadas.
pub fn copiar_posiciones(posiciones: &Vec<(i32, i32)>) -> (r: Vec<(i32, i32)>)
    ensures
        r@ == posiciones@,
{
    let mut r: Vec<(i32, i32)> = Vec::new();
    let mut i: usize = 0;
    while i < posiciones.len()
        invariant
            i <= posiciones.len(),
            r@ == posiciones@.take(i as int),
        decreases posiciones.len() - i,
    {
        r.push(posiciones[i]);
        assert(r@ == posiciones@.take(i + 1));
        i = i + 1;
    }
    assert(posiciones@.take(posiciones.len() as int) == posiciones@);
    r
}

impl Clone for Barco {
    fn clone(&self) -> (r: Barco)
        ensures
            r@ == self@,
    {
        Barco {
            id: self.id,
            tamano: self.tamano,
            posiciones: copiar_posiciones(&self.posiciones),
            estado: self.estado,
        }
    }
}

impl Barco {
    /// Crea un barco sano con las posiciones dadas.
    pub fn new(id: usize, tamano: usize, posiciones: Vec<(i32, i32)>) -> (b: Barco)
        ensures
            b@ == (BarcoV {
                id: id as nat,
                tamano: tamano as nat,
                posiciones: posiciones@,
                estado: EstadoBarco::Sano,
            }),
    {
        Barco { id, tamano, posiciones, estado: EstadoBarco::Sano }
    }

    /// Identificador y posiciones del barco.
    pub fn obtener_datos(&self) -> (r: (usize, Vec<(i32, i32)>))
        ensures
            r.0 == self.id,
            r.1@ == self.posiciones@,
    {
        (self.id, copiar_posiciones(&self.posiciones))
    }

    /// Aplica al barco un ataque a la celda `c` e informa el resultado.
    pub fn recibir_ataque(&mut self, c: (i32, i32)) -> (r: Impacto)
        ensures
            r == impacto_en(old(self)@, c),
            final(self)@ == barco_tras_ataque(old(self)@, c),
    {
        let mut restantes: Vec<(i32, i32)> = Vec::new();
        let mut tocado = false;
        let mut i: usize = 0;
        proof {
            reveal(Seq::filter);
            assert(self.posiciones@.take(0) =~= Seq::empty());
        }
        while i < self.posiciones.len()
            invariant
                i <= self.posiciones.len(),
                *self == *old(self),
                restantes@ == sin_celda(self.posiciones@.take(i as int), c),
                tocado == self.posiciones@.take(i as int).contains(c),
            decreases self.posiciones.len() - i,
        {
            proof {
                lema_sin_celda_paso(self.posiciones@, i as int, c);
            }
            let p = self.posiciones[i];
            if p.0 == c.0 && p.1 == c.1 {
                tocado = true;
            } else {
                restantes.push(p);
            }
            i = i + 1;
        }
        assert(self.posiciones@.take(self.posiciones.len() as int) == self.posiciones@);
        if !tocado {
            Impacto::Agua
        } else if restantes.len() == 0 {
            self.posiciones = restantes;
            self.estado = EstadoBarco::Hundido;
            Impacto::Hundimiento
        } else {
            self.posiciones = restantes;
            if self.estado == EstadoBarco::Sano {
                self.estado = EstadoBarco::Golpeado;
            }
            Impacto::Golpe
        }
    }

    /// Reemplaza las posiciones del barco.
    pub fn actualizar_posicion(&mut self, nueva_posicion: Vec<(i32, i32)>)
        ensures
            final(self)@ == (BarcoV { posiciones: nueva_posicion@, ..old(self)@ }),
    {
        self.posiciones = nueva_posicion;
    }
}

} // verus!
