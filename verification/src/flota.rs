//! La flota: los barcos de un jugador.

use crate::barco::{
    barco_tras_ataque, flota_v, impacto_en, lema_sin_celda, monedas_de, puntos_de, Barco, BarcoV,
    Impacto,
};
use crate::estado_barco::EstadoBarco;
use crate::mensaje::{envios_v, Envio, EnvioV, Mensaje, MensajeV};
use vstd::prelude::*;

verus! {

/// Un barco sigue en la lista activa mientras no este hundido.
pub open spec fn a_flote(b: BarcoV) -> bool {
    b.estado != EstadoBarco::Hundido
}

/// La flota `f` despues de un ataque a la celda `c`: cada barco recibe el
/// ataque y los hundidos salen de la lista; los demas conservan su orden.
pub open spec fn flota_tras_ataque(f: Seq<BarcoV>, c: (i32, i32)) -> Seq<BarcoV> {
    f.map_values(|b: BarcoV| barco_tras_ataque(b, c)).filter(|b: BarcoV| a_flote(b))
}

/// Puntos que gana quien ataca la celda `c` contra la flota `f`: 5 por cada
/// barco golpeado y 15 por cada barco hundido.
pub open spec fn puntos_ataque(f: Seq<BarcoV>, c: (i32, i32)) -> nat
    decreases f.len(),
{
    if f.len() == 0 {
        0
    } else {
        puntos_ataque(f.drop_last(), c) + puntos_de(impacto_en(f.last(), c))
    }
}

/// Monedas que gana quien ataca la celda `c` contra la flota `f`: 50 por
/// cada barco golpeado y 100 por cada barco hundido.
pub open spec fn monedas_ataque(f: Seq<BarcoV>, c: (i32, i32)) -> nat
    decreases f.len(),
{
    if f.len() == 0 {
        0
    } else {
        monedas_ataque(f.drop_last(), c) + monedas_de(impacto_en(f.last(), c))
    }
}

/// Aviso que recibe el dueno de un barco, el jugador `dueno`, por un impacto
/// en la celda `c`.
pub open spec fn aviso_de(i: Impacto, c: (i32, i32), dueno: nat) -> Seq<EnvioV> {
    match i {
        Impacto::Agua => Seq::empty(),
        Impacto::Golpe => seq![
            EnvioV { destinatario: dueno, mensaje: MensajeV::BarcoGolpead(c) },
        ],
        Impacto::Hundimiento => seq![
            EnvioV { destinatario: dueno, mensaje: MensajeV::BarcoHundido },
        ],
    }
}

/// Avisos que recibe el jugador `dueno` de la flota `f` por un ataque a la
/// celda `c`: uno por cada barco alcanzado, en el orden de la flota.
pub open spec fn avisos_ataque(f: Seq<BarcoV>, c: (i32, i32), dueno: nat) -> Seq<EnvioV>
    decreases f.len(),
{
    if f.len() == 0 {
        Seq::empty()
    } else {
        avisos_ataque(f.drop_last(), c, dueno) + aviso_de(impacto_en(f.last(), c), c, dueno)
    }
}

/// Ningun barco de la flota ocupa la celda `c`.
pub open spec fn nadie_ocupa(f: Seq<BarcoV>, c: (i32, i32)) -> bool {
    forall|i: int| 0 <= i < f.len() ==> !(#[trigger] f[i]).posiciones.contains(c)
}

/// Todos los barcos de la lista siguen a flote.
pub open spec fn todos_a_flote(f: Seq<BarcoV>) -> bool {
    forall|i: int| 0 <= i < f.len() ==> a_flote(#[trigger] f[i])
}

/// Atacar un prefijo de la flota extendido con un barco es atacar el prefijo
/// y despues ese barco.
proof fn lema_ataque_paso(f: Seq<BarcoV>, i: int, c: (i32, i32), dueno: nat)
    requires
        0 <= i < f.len(),
    ensures
        flota_tras_ataque(f.take(i + 1), c) == (if a_flote(barco_tras_ataque(f[i], c)) {
            flota_tras_ataque(f.take(i), c).push(barco_tras_ataque(f[i], c))
        } else {
            flota_tras_ataque(f.take(i), c)
        }),
        puntos_ataque(f.take(i + 1), c) == puntos_ataque(f.take(i), c) + puntos_de(
            impacto_en(f[i], c),
        ),
        monedas_ataque(f.take(i + 1), c) == monedas_ataque(f.take(i), c) + monedas_de(
            impacto_en(f[i], c),
        ),
        avisos_ataque(f.take(i + 1), c, dueno) == avisos_ataque(f.take(i), c, dueno) + aviso_de(
            impacto_en(f[i], c),
            c,
            dueno,
        ),
        puntos_ataque(f.take(i + 1), c) <= 15 * (i + 1),
        monedas_ataque(f.take(i + 1), c) <= 100 * (i + 1),
    decreases i,
{
    reveal(Seq::filter);
    let despues = f.take(i + 1);
    assert(despues.drop_last() =~= f.take(i));
    assert(despues.last() == f[i]);
    let atacados = despues.map_values(|b: BarcoV| barco_tras_ataque(b, c));
    assert(atacados.drop_last() =~= f.take(i).map_values(|b: BarcoV| barco_tras_ataque(b, c)));
    if i > 0 {
        lema_ataque_paso(f, i - 1, c, dueno);
    } else {
        assert(f.take(0) =~= Seq::empty());
    }
}

/// Un ataque a una celda que ningun barco ocupa no cambia la flota ni da
/// puntos, monedas o avisos: el resultado es agua.
pub proof fn lema_ataque_al_agua(f: Seq<BarcoV>, c: (i32, i32))
    requires
        nadie_ocupa(f, c),
        todos_a_flote(f),
    ensures
        flota_tras_ataque(f, c) == f,
        puntos_ataque(f, c) == 0,
        monedas_ataque(f, c) == 0,
        forall|dueno: nat| (#[trigger] avisos_ataque(f, c, dueno)) == Seq::<EnvioV>::empty(),
        forall|i: int| 0 <= i < f.len() ==> impacto_en(#[trigger] f[i], c) == Impacto::Agua,
    decreases f.len(),
{
    reveal(Seq::filter);
    if f.len() > 0 {
        let antes = f.drop_last();
        assert(nadie_ocupa(antes, c)) by {
            assert forall|i: int| 0 <= i < antes.len() implies !(
            #[trigger] antes[i]).posiciones.contains(c) by {
                assert(antes[i] == f[i]);
            }
        }
        assert(todos_a_flote(antes)) by {
            assert forall|i: int| 0 <= i < antes.len() implies a_flote(#[trigger] antes[i]) by {
                assert(antes[i] == f[i]);
            }
        }
        lema_ataque_al_agua(antes, c);
        assert(f =~= antes.push(f.last()));
        assert(f.take(f.len() - 1) =~= antes);
        assert(f.take(f.len() as int) =~= f);
        lema_ataque_paso(f, f.len() - 1, c, 0);
        assert(!f[f.len() - 1].posiciones.contains(c));
        assert(a_flote(f[f.len() - 1]));
        assert forall|dueno: nat| (#[trigger] avisos_ataque(f, c, dueno)) == Seq::<
            EnvioV,
        >::empty() by {
            assert(avisos_ataque(antes, c, dueno) == Seq::<EnvioV>::empty());
        }
    } else {
        assert(f.map_values(|b: BarcoV| barco_tras_ataque(b, c)) =~= Seq::empty());
    }
}

/// Despues de un ataque a la celda `c` ningun barco que quede en la flota
/// ocupa `c` ni esta hundido, asi que repetir el ataque da agua: ni puntos
/// ni monedas ni avisos, y la flota ya no cambia.
pub proof fn lema_ataque_repetido(f: Seq<BarcoV>, c: (i32, i32))
    ensures
        nadie_ocupa(flota_tras_ataque(f, c), c),
        todos_a_flote(flota_tras_ataque(f, c)),
        flota_tras_ataque(flota_tras_ataque(f, c), c) == flota_tras_ataque(f, c),
        puntos_ataque(flota_tras_ataque(f, c), c) == 0,
        monedas_ataque(flota_tras_ataque(f, c), c) == 0,
        forall|dueno: nat|
            (#[trigger] avisos_ataque(flota_tras_ataque(f, c), c, dueno)) == Seq::<EnvioV>::empty(),
{
    let f1 = flota_tras_ataque(f, c);
    lema_flota_tras_ataque(f, c);
    lema_ataque_al_agua(f1, c);
}

/// Todo barco que queda tras un ataque a `c` esta a flote, no ocupa `c` y es
/// el resultado de atacar a alguno de los barcos que habia.
pub proof fn lema_flota_tras_ataque(f: Seq<BarcoV>, c: (i32, i32))
    ensures
        nadie_ocupa(flota_tras_ataque(f, c), c),
        todos_a_flote(flota_tras_ataque(f, c)),
        flota_tras_ataque(f, c).len() <= f.len(),
        forall|k: int|
            0 <= k < flota_tras_ataque(f, c).len() ==> exists|i: int|
                0 <= i < f.len() && #[trigger] flota_tras_ataque(f, c)[k] == barco_tras_ataque(
                    #[trigger] f[i],
                    c,
                ),
    decreases f.len(),
{
    reveal(Seq::filter);
    if f.len() > 0 {
        let n = f.len() - 1;
        let antes = f.take(n);
        assert(f.take(n + 1) =~= f);
        lema_ataque_paso(f, n, c, 0);
        lema_flota_tras_ataque(antes, c);
        lema_sin_celda(f[n].posiciones, c);
        let r = flota_tras_ataque(f, c);
        let ra = flota_tras_ataque(antes, c);
        assert forall|k: int| 0 <= k < r.len() implies exists|i: int|
            0 <= i < f.len() && #[trigger] r[k] == barco_tras_ataque(#[trigger] f[i], c) by {
            if k < ra.len() {
                let i = choose|i: int|
                    0 <= i < antes.len() && ra[k] == barco_tras_ataque(#[trigger] antes[i], c);
                assert(antes[i] == f[i]);
                assert(r[k] == barco_tras_ataque(f[i], c));
            } else {
                assert(r[k] == barco_tras_ataque(f[n], c));
            }
        }
    } else {
        assert(f.map_values(|b: BarcoV| barco_tras_ataque(b, c)) =~= Seq::empty());
    }
}

/// Aplica un ataque a la celda `c` a cada barco de la lista, retira los que
/// se hunden y devuelve los puntos y monedas que gana el atacante junto con
/// los avisos para el jugador `dueno` de la flota.
pub fn atacar_barcos(barcos: &mut Vec<Barco>, c: (i32, i32), dueno: usize) -> (r: (
    usize,
    usize,
    Vec<Envio>,
))
    requires
        100 * old(barcos)@.len() <= usize::MAX,
    ensures
        flota_v(final(barcos)@) == flota_tras_ataque(flota_v(old(barcos)@), c),
        r.0 == puntos_ataque(flota_v(old(barcos)@), c),
        r.1 == monedas_ataque(flota_v(old(barcos)@), c),
        envios_v(r.2@) == avisos_ataque(flota_v(old(barcos)@), c, dueno as nat),
{
    let ghost f = flota_v(barcos@);
    let mut restantes: Vec<Barco> = Vec::new();
    let mut avisos: Vec<Envio> = Vec::new();
    let mut puntos: usize = 0;
    let mut monedas: usize = 0;
    let mut i: usize = 0;
    proof {
        reveal(Seq::filter);
        assert(f.take(0) =~= Seq::empty());
        assert(f.take(0).map_values(|b: BarcoV| barco_tras_ataque(b, c)) =~= Seq::empty());
        assert(flota_v(restantes@) =~= flota_tras_ataque(f.take(0), c));
        assert(envios_v(avisos@) =~= avisos_ataque(f.take(0), c, dueno as nat));
    }
    while i < barcos.len()
        invariant
            i <= barcos.len(),
            *barcos == *old(barcos),
            f == flota_v(barcos@),
            100 * barcos@.len() <= usize::MAX,
            flota_v(restantes@) == flota_tras_ataque(f.take(i as int), c),
            puntos == puntos_ataque(f.take(i as int), c),
            monedas == monedas_ataque(f.take(i as int), c),
            envios_v(avisos@) == avisos_ataque(f.take(i as int), c, dueno as nat),
            puntos <= 15 * i,
            monedas <= 100 * i,
        decreases barcos.len() - i,
    {
        proof {
            lema_ataque_paso(f, i as int, c, dueno as nat);
        }
        let mut barco = barcos[i].clone();
        let impacto = barco.recibir_ataque(c);
        let ghost antes_restantes = flota_v(restantes@);
        let ghost antes_avisos = envios_v(avisos@);
        match impacto {
            Impacto::Agua => {},
            Impacto::Golpe => {
                avisos.push(Envio { destinatario: dueno, mensaje: Mensaje::BarcoGolpead(c) });
                puntos = puntos + 5;
                monedas = monedas + 50;
            },
            Impacto::Hundimiento => {
                avisos.push(Envio { destinatario: dueno, mensaje: Mensaje::BarcoHundido });
                puntos = puntos + 15;
                monedas = monedas + 100;
            },
        }
        assert(envios_v(avisos@) =~= antes_avisos + aviso_de(impacto, c, dueno as nat));
        if barco.estado != EstadoBarco::Hundido {
            restantes.push(barco);
            assert(flota_v(restantes@) =~= antes_restantes.push(barco@));
        }
        i = i + 1;
    }
    assert(f.take(barcos.len() as int) =~= f);
    *barcos = restantes;
    (puntos, monedas, avisos)
}

/// Conjunto ordenado de barcos de un jugador. La flota es la unica duena de
/// sus barcos.
#[derive(Debug)]
pub struct Flota {
    pub barcos: Vec<Barco>,
}

impl View for Flota {
    type V = Seq<BarcoV>;

    open spec fn view(&self) -> Seq<BarcoV> {
        flota_v(self.barcos@)
    }
}

impl Default for Flota {
    fn default() -> (f: Flota)
        ensures
            f@ == Seq::<BarcoV>::empty(),
    {
        Flota::new()
    }
}

impl Flota {
    /// Crea una flota sin barcos.
    pub fn new() -> (f: Flota)
        ensures
            f@ == Seq::<BarcoV>::empty(),
    {
        Flota { barcos: Vec::new() }
    }

    /// Agrega al final de la flota un barco sano con los datos dados.
    pub fn agregar_barco(&mut self, id: usize, tamano: usize, posiciones: Vec<(i32, i32)>)
        ensures
            final(self)@ == old(self)@.push(
                BarcoV {
                    id: id as nat,
                    tamano: tamano as nat,
                    posiciones: posiciones@,
                    estado: EstadoBarco::Sano,
                },
            ),
    {
        let nuevo_barco = Barco::new(id, tamano, posiciones);
        self.barcos.push(nuevo_barco);
    }
}

} // verus!
