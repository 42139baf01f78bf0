//! Coherencia entre el tablero y las flotas, y las leyes que dicen que cada
//! operacion de la partida la conserva.

use crate::barco::{barco_tras_ataque, impacto_en, lema_sin_celda, sin_celda, BarcoV, Impacto};
use crate::flota::{
    a_flote, flota_tras_ataque, lema_ataque_al_agua, lema_ataque_repetido, lema_flota_tras_ataque,
    nadie_ocupa, puntos_ataque, todos_a_flote,
};
use crate::instruccion::Instruccion;
use crate::estado_barco::EstadoBarco;
use crate::juego::{
    es_compra, es_respuesta, monedas_de_ataque, monedas_hasta, puntos_de_ataque, puntos_hasta,
    rechazo_compra, rechazo_movimiento, sin_jugador, tras_ataque, tras_movimiento, Juego, JuegoV,
};
use crate::jugador::{es_ingreso, JugadorV, TAMANO_INICIAL};
use crate::mapa::{
    celda, contiguas_libres, en_tablero, es_region_libre, estampado, lema_contiguas_libres, libre,
    marcador, marcador_de, paso_libre, tramo_libre, HUNDIDO, LADO, VACIO,
};
use crate::mensaje::EnvioV;
use vstd::prelude::*;

verus! {

/// El tablero tiene `LADO` filas de `LADO` celdas.
pub open spec fn tablero_entero(t: Seq<Seq<char>>) -> bool {
    &&& t.len() == LADO
    &&& forall|f: int| 0 <= f < LADO ==> (#[trigger] t[f]).len() == LADO
}

/// `k` es una posicion del barco `b` del jugador `i` de la partida.
pub open spec fn valido(g: JuegoV, i: int, b: int, k: int) -> bool {
    &&& 0 <= i < g.jugadores.len()
    &&& 0 <= b < g.jugadores[i].barcos.len()
    &&& 0 <= k < g.jugadores[i].barcos[b].posiciones.len()
}

/// Celda que ocupa la posicion `k` del barco `b` del jugador `i`.
pub open spec fn ocupa(g: JuegoV, i: int, b: int, k: int) -> (i32, i32) {
    g.jugadores[i].barcos[b].posiciones[k]
}

/// Toda celda que ocupa un barco esta dentro del tablero y muestra la marca
/// de su dueno.
pub open spec fn celdas_marcadas(g: JuegoV) -> bool {
    forall|i: int, b: int, k: int| #[trigger]
        valido(g, i, b, k) ==> en_tablero(g.mapa, ocupa(g, i, b, k)) && celda(
            g.mapa,
            ocupa(g, i, b, k),
        ) == marcador_de(g.jugadores[i].id)
}

/// Dos posiciones distintas, del mismo barco o de barcos distintos, del
/// mismo jugador o de jugadores distintos, nunca ocupan la misma celda.
pub open spec fn sin_choques(g: JuegoV) -> bool {
    forall|i: int, b: int, k: int, i2: int, b2: int, k2: int|
        #[trigger] valido(g, i, b, k) && #[trigger] valido(g, i2, b2, k2) && !(i == i2 && b == b2
            && k == k2) ==> ocupa(g, i, b, k) != ocupa(g, i2, b2, k2)
}

/// Todo barco de una flota esta a flote y ocupa al menos una celda.
pub open spec fn flotas_activas(g: JuegoV) -> bool {
    forall|i: int, b: int|
        0 <= i < g.jugadores.len() && 0 <= b < g.jugadores[i].barcos.len() ==> a_flote(
            #[trigger] g.jugadores[i].barcos[b],
        ) && g.jugadores[i].barcos[b].posiciones.len() > 0
}

/// Identificador del barco `b` del jugador `i`.
pub open spec fn id_de(g: JuegoV, i: int, b: int) -> nat {
    g.jugadores[i].barcos[b].id
}

/// Dentro de cada flota los barcos tienen identificadores distintos, todos
/// menores que el proximo identificador de barco de su jugador.
pub open spec fn flotas_numeradas(g: JuegoV) -> bool {
    &&& forall|i: int, b: int|
        0 <= i < g.jugadores.len() && 0 <= b < g.jugadores[i].barcos.len() ==> #[trigger] id_de(
            g,
            i,
            b,
        ) < g.jugadores[i].siguiente_barco
    &&& forall|i: int, b: int, b2: int|
        0 <= i < g.jugadores.len() && 0 <= b < b2 < g.jugadores[i].barcos.len() ==> #[trigger] id_de(
            g,
            i,
            b,
        ) != #[trigger] id_de(g, i, b2)
}

/// El tablero y las flotas coinciden: el tablero esta entero, cada celda
/// ocupada por un barco muestra una sola marca, la de su dueno, ningun par
/// de barcos comparte una celda y las flotas solo tienen barcos a flote.
pub open spec fn tablero_coherente(g: JuegoV) -> bool {
    &&& tablero_entero(g.mapa)
    &&& celdas_marcadas(g)
    &&& sin_choques(g)
    &&& flotas_activas(g)
}

/// La partida es coherente: el tablero y las flotas coinciden y los barcos
/// de cada flota tienen identificadores sin repetir.
#[verifier::opaque]
pub open spec fn coherente(g: JuegoV) -> bool {
    tablero_coherente(g) && flotas_numeradas(g)
}

/// Una partida sin jugadores y con el tablero entero es coherente.
pub proof fn lema_partida_vacia(g: JuegoV)
    requires
        g.jugadores.len() == 0,
        tablero_entero(g.mapa),
    ensures
        coherente(g),
{
    reveal(coherente);
}

/// Lo que dice la coherencia de una partida.
pub proof fn lema_coherente(g: JuegoV)
    ensures
        coherente(g) == (tablero_coherente(g) && flotas_numeradas(g)),
{
    reveal(coherente);
}

/// La marca de un jugador es un digito: nunca la de vacio ni la de hundido.
pub proof fn lema_marcador(id: nat)
    ensures
        marcador_de(id) != VACIO,
        marcador_de(id) != HUNDIDO,
    decreases id,
{
    if id >= 10 {
        lema_marcador(id / 10);
    }
}

/// Las celdas de una region libre son todas distintas.
pub proof fn lema_region_sin_repetidos(t: Seq<Seq<char>>, o: (i32, i32), n: nat)
    ensures
        forall|k: int, k2: int|
            0 <= k < k2 < contiguas_libres(t, o, n).len() ==> contiguas_libres(t, o, n)[k]
                != contiguas_libres(t, o, n)[k2],
{
    let r = contiguas_libres(t, o, n);
    assert forall|k: int, k2: int| 0 <= k < k2 < r.len() implies r[k] != r[k2] by {
        if n > 0 && tramo_libre(t, o, n, false) {
            assert(paso_libre(t, o, k, false));
            assert(paso_libre(t, o, k2, false));
        } else if n > 0 && tramo_libre(t, o, n, true) {
            assert(paso_libre(t, o, k, true));
            assert(paso_libre(t, o, k2, true));
        }
    }
}

/// Cada posicion que queda tras quitar la celda `c` viene de una posicion
/// anterior distinta de `c`, y el orden se conserva.
proof fn lema_indices_sin_celda(ps: Seq<(i32, i32)>, c: (i32, i32)) -> (h: Seq<int>)
    ensures
        h.len() == sin_celda(ps, c).len(),
        forall|j: int|
            0 <= j < h.len() ==> 0 <= #[trigger] h[j] < ps.len() && sin_celda(ps, c)[j] == ps[h[j]]
                && ps[h[j]] != c,
        forall|j: int, j2: int| 0 <= j < j2 < h.len() ==> h[j] < h[j2],
    decreases ps.len(),
{
    reveal(Seq::filter);
    if ps.len() == 0 {
        Seq::empty()
    } else {
        let antes = lema_indices_sin_celda(ps.drop_last(), c);
        if ps.last() != c {
            let h = antes.push(ps.len() - 1);
            assert forall|j: int| 0 <= j < h.len() implies 0 <= #[trigger] h[j] < ps.len()
                && sin_celda(ps, c)[j] == ps[h[j]] && ps[h[j]] != c by {
                if j < antes.len() {
                    assert(ps.drop_last()[antes[j]] == ps[antes[j]]);
                }
            }
            h
        } else {
            assert forall|j: int| 0 <= j < antes.len() implies 0 <= #[trigger] antes[j] < ps.len()
                && sin_celda(ps, c)[j] == ps[antes[j]] && ps[antes[j]] != c by {
                assert(ps.drop_last()[antes[j]] == ps[antes[j]]);
            }
            antes
        }
    }
}

/// Cada barco que queda tras un ataque a la celda `c` es el resultado de
/// atacar a un barco distinto de los que habia, y el orden se conserva.
proof fn lema_indices_flota(f: Seq<BarcoV>, c: (i32, i32)) -> (m: Seq<int>)
    ensures
        m.len() == flota_tras_ataque(f, c).len(),
        forall|j: int|
            0 <= j < m.len() ==> 0 <= #[trigger] m[j] < f.len() && flota_tras_ataque(f, c)[j]
                == barco_tras_ataque(f[m[j]], c),
        forall|j: int, j2: int| 0 <= j < j2 < m.len() ==> m[j] < m[j2],
    decreases f.len(),
{
    reveal(Seq::filter);
    if f.len() == 0 {
        assert(f.map_values(|b: BarcoV| barco_tras_ataque(b, c)) =~= Seq::empty());
        Seq::empty()
    } else {
        let antes = lema_indices_flota(f.drop_last(), c);
        let atacados = f.map_values(|b: BarcoV| barco_tras_ataque(b, c));
        assert(atacados.drop_last() =~= f.drop_last().map_values(
            |b: BarcoV| barco_tras_ataque(b, c),
        ));
        if a_flote(barco_tras_ataque(f.last(), c)) {
            let m = antes.push(f.len() - 1);
            assert forall|j: int| 0 <= j < m.len() implies 0 <= #[trigger] m[j] < f.len()
                && flota_tras_ataque(f, c)[j] == barco_tras_ataque(f[m[j]], c) by {
                if j < antes.len() {
                    assert(f.drop_last()[antes[j]] == f[antes[j]]);
                }
            }
            m
        } else {
            assert forall|j: int| 0 <= j < antes.len() implies 0 <= #[trigger] antes[j] < f.len()
                && flota_tras_ataque(f, c)[j] == barco_tras_ataque(f[antes[j]], c) by {
                assert(f.drop_last()[antes[j]] == f[antes[j]]);
            }
            antes
        }
    }
}

/// Cada jugador que queda tras quitar los de identificador `id` es un
/// jugador distinto de los que habia, y el orden se conserva.
proof fn lema_indices_sin_jugador(js: Seq<JugadorV>, id: nat) -> (m: Seq<int>)
    ensures
        m.len() == sin_jugador(js, id).len(),
        forall|j: int|
            0 <= j < m.len() ==> 0 <= #[trigger] m[j] < js.len() && sin_jugador(js, id)[j]
                == js[m[j]],
        forall|j: int, j2: int| 0 <= j < j2 < m.len() ==> m[j] < m[j2],
    decreases js.len(),
{
    reveal(Seq::filter);
    if js.len() == 0 {
        Seq::empty()
    } else {
        let antes = lema_indices_sin_jugador(js.drop_last(), id);
        if js.last().id != id {
            let m = antes.push(js.len() - 1);
            assert forall|j: int| 0 <= j < m.len() implies 0 <= #[trigger] m[j] < js.len()
                && sin_jugador(js, id)[j] == js[m[j]] by {
                if j < antes.len() {
                    assert(js.drop_last()[antes[j]] == js[antes[j]]);
                }
            }
            m
        } else {
            assert forall|j: int| 0 <= j < antes.len() implies 0 <= #[trigger] antes[j] < js.len()
                && sin_jugador(js, id)[j] == js[antes[j]] by {
                assert(js.drop_last()[antes[j]] == js[antes[j]]);
            }
            antes
        }
    }
}

/// Si un ataque contra una flota da puntos, algun barco de la flota ocupa
/// la celda atacada.
proof fn lema_puntos_implican_impacto(f: Seq<BarcoV>, c: (i32, i32)) -> (b: int)
    requires
        puntos_ataque(f, c) > 0,
    ensures
        0 <= b < f.len(),
        f[b].posiciones.contains(c),
    decreases f.len(),
{
    if impacto_en(f.last(), c) != Impacto::Agua {
        f.len() - 1
    } else {
        lema_puntos_implican_impacto(f.drop_last(), c)
    }
}

/// Si el ataque del jugador de indice `a` da puntos, algun barco de otro
/// jugador ocupa la celda atacada.
proof fn lema_ataque_con_puntos(js: Seq<JugadorV>, a: int, c: (i32, i32), n: nat) -> (r: (
    int,
    int,
))
    requires
        n <= js.len(),
        puntos_hasta(js, a, c, n) > 0,
    ensures
        0 <= r.0 < n,
        r.0 != a,
        0 <= r.1 < js[r.0].barcos.len(),
        js[r.0].barcos[r.1].posiciones.contains(c),
    decreases n,
{
    if n - 1 != a && puntos_ataque(js[n - 1].barcos, c) > 0 {
        let b = lema_puntos_implican_impacto(js[n - 1].barcos, c);
        (n - 1, b)
    } else {
        lema_ataque_con_puntos(js, a, c, (n - 1) as nat)
    }
}

/// Mover un barco conserva la coherencia: un movimiento aceptado deja una
/// partida con tablero y flotas que coinciden.
proof fn lema_tablero_movimiento(g: JuegoV, a: int, b: int, destino: (i32, i32))
    requires
        tablero_coherente(g),
        0 <= a < g.jugadores.len(),
        b >= 0,
        rechazo_movimiento(g.mapa, g.jugadores[a], b as nat, destino) is None,
    ensures
        tablero_coherente(tras_movimiento(g, a, b, destino)),
{
    let g1 = tras_movimiento(g, a, b, destino);
    let j = g.jugadores[a];
    let viejo = j.barcos[b];
    let region = contiguas_libres(g.mapa, destino, viejo.tamano);
    let marca = marcador_de(j.id);
    let t1 = estampado(g.mapa, viejo.posiciones, VACIO);
    lema_contiguas_libres(g.mapa, destino, viejo.tamano);
    lema_region_sin_repetidos(g.mapa, destino, viejo.tamano);
    assert forall|i: int| 0 <= i < g.jugadores.len() implies marca_valida(g, i) by {
        lema_marcador(g.jugadores[i].id);
    }
    assert forall|i: int, b2: int, k: int| #[trigger] valido(g1, i, b2, k) implies en_tablero(
        g1.mapa,
        ocupa(g1, i, b2, k),
    ) && celda(g1.mapa, ocupa(g1, i, b2, k)) == marcador_de(g1.jugadores[i].id) by {
        let p = ocupa(g1, i, b2, k);
        if i == a && b2 == b {
            assert(libre(g.mapa, region[k]));
            assert(region.contains(p));
        } else {
            assert(valido(g, i, b2, k));
            assert(p == ocupa(g, i, b2, k));
            assert(marca_valida(g, i));
            assert(!region.contains(p)) by {
                if region.contains(p) {
                    let m = choose|m: int| 0 <= m < region.len() && region[m] == p;
                    assert(libre(g.mapa, region[m]));
                }
            }
            assert(!viejo.posiciones.contains(p)) by {
                if viejo.posiciones.contains(p) {
                    let m = choose|m: int|
                        0 <= m < viejo.posiciones.len() && viejo.posiciones[m] == p;
                    assert(valido(g, a, b, m));
                }
            }
        }
    }
    assert forall|i: int, b2: int, k: int, i2: int, b3: int, k2: int| #[trigger]
        valido(g1, i, b2, k) && #[trigger] valido(g1, i2, b3, k2) && !(i == i2 && b2 == b3 && k
            == k2) implies ocupa(g1, i, b2, k) != ocupa(g1, i2, b3, k2) by {
        let movido1 = i == a && b2 == b;
        let movido2 = i2 == a && b3 == b;
        if movido1 && movido2 {
        } else if movido1 {
            assert(valido(g, i2, b3, k2));
            assert(libre(g.mapa, region[k]));
            assert(marca_valida(g, i2));
        } else if movido2 {
            assert(valido(g, i, b2, k));
            assert(libre(g.mapa, region[k2]));
            assert(marca_valida(g, i));
        } else {
            assert(valido(g, i, b2, k));
            assert(valido(g, i2, b3, k2));
        }
    }
    assert forall|i: int, b2: int|
        0 <= i < g1.jugadores.len() && 0 <= b2 < g1.jugadores[i].barcos.len() implies a_flote(
        #[trigger] g1.jugadores[i].barcos[b2],
    ) && g1.jugadores[i].barcos[b2].posiciones.len() > 0 by {
        assert(a_flote(g.jugadores[i].barcos[b2]));
    }
}

/// La marca del jugador de indice `i` no es la de vacio ni la de hundido.
pub open spec fn marca_valida(g: JuegoV, i: int) -> bool {
    marcador_de(g.jugadores[i].id) != VACIO && marcador_de(g.jugadores[i].id) != HUNDIDO
}

/// Posicion previa de la que viene una posicion de un barco que quedo en
/// la flota de una victima tras un ataque a la celda `c`.
proof fn lema_origen(g: JuegoV, a: int, c: (i32, i32), i: int, b: int, k: int) -> (r: (int, int))
    requires
        0 <= a < g.jugadores.len(),
        i != a,
        valido(tras_ataque(g, a, c), i, b, k),
    ensures
        valido(g, i, r.0, r.1),
        ocupa(g, i, r.0, r.1) == ocupa(tras_ataque(g, a, c), i, b, k),
        ocupa(g, i, r.0, r.1) != c,
        tras_ataque(g, a, c).jugadores[i].barcos[b] == barco_tras_ataque(
            g.jugadores[i].barcos[r.0],
            c,
        ),
{
    let f = g.jugadores[i].barcos;
    let m = lema_indices_flota(f, c);
    let viejo = f[m[b]];
    lema_sin_celda(viejo.posiciones, c);
    let h = lema_indices_sin_celda(viejo.posiciones, c);
    (m[b], h[k])
}

/// Un ataque conserva la coherencia.
proof fn lema_tablero_ataque(g: JuegoV, a: int, c: (i32, i32))
    requires
        tablero_coherente(g),
        0 <= a < g.jugadores.len(),
    ensures
        tablero_coherente(tras_ataque(g, a, c)),
{
    let g1 = tras_ataque(g, a, c);
    let n = g.jugadores.len();
    assert(tablero_entero(g1.mapa));
    assert forall|i: int, b: int, k: int| #[trigger] valido(g1, i, b, k) implies en_tablero(
        g1.mapa,
        ocupa(g1, i, b, k),
    ) && celda(g1.mapa, ocupa(g1, i, b, k)) == marcador_de(g1.jugadores[i].id) by {
        let p = ocupa(g1, i, b, k);
        if i == a {
            assert(valido(g, i, b, k));
            if puntos_de_ataque(g, a, c) > 0 {
                let (i2, b2) = lema_ataque_con_puntos(g.jugadores, a, c, n);
                let ps = g.jugadores[i2].barcos[b2].posiciones;
                let k2 = choose|k2: int| 0 <= k2 < ps.len() && ps[k2] == c;
                assert(valido(g, i2, b2, k2));
                assert(p != c);
            }
        } else {
            let (b0, k0) = lema_origen(g, a, c, i, b, k);
            assert(valido(g, i, b0, k0));
        }
    }
    assert forall|i: int, b: int, k: int, i2: int, b2: int, k2: int| #[trigger]
        valido(g1, i, b, k) && #[trigger] valido(g1, i2, b2, k2) && !(i == i2 && b == b2 && k
            == k2) implies ocupa(g1, i, b, k) != ocupa(g1, i2, b2, k2) by {
        if i == a && i2 == a {
            assert(valido(g, i, b, k));
            assert(valido(g, i2, b2, k2));
        } else if i == a {
            let (b0, k0) = lema_origen(g, a, c, i2, b2, k2);
            assert(valido(g, i, b, k));
            assert(valido(g, i2, b0, k0));
        } else if i2 == a {
            let (b0, k0) = lema_origen(g, a, c, i, b, k);
            assert(valido(g, i, b0, k0));
            assert(valido(g, i2, b2, k2));
        } else if i != i2 {
            let (b0, k0) = lema_origen(g, a, c, i, b, k);
            let (b1, k1) = lema_origen(g, a, c, i2, b2, k2);
            assert(valido(g, i, b0, k0));
            assert(valido(g, i2, b1, k1));
        } else {
            let f = g.jugadores[i].barcos;
            let m = lema_indices_flota(f, c);
            lema_sin_celda(f[m[b]].posiciones, c);
            lema_sin_celda(f[m[b2]].posiciones, c);
            let h = lema_indices_sin_celda(f[m[b]].posiciones, c);
            let h2 = lema_indices_sin_celda(f[m[b2]].posiciones, c);
            assert(valido(g, i, m[b], h[k]));
            assert(valido(g, i, m[b2], h2[k2]));
            if b == b2 {
                assert(h[k] != h[k2]);
                assert(valido(g, i, m[b], h[k2]));
            } else {
                assert(m[b] != m[b2]);
            }
        }
    }
    assert forall|i: int, b: int|
        0 <= i < g1.jugadores.len() && 0 <= b < g1.jugadores[i].barcos.len() implies a_flote(
        #[trigger] g1.jugadores[i].barcos[b],
    ) && g1.jugadores[i].barcos[b].posiciones.len() > 0 by {
        if i == a {
            assert(a_flote(g.jugadores[i].barcos[b]));
        } else {
            let f = g.jugadores[i].barcos;
            let m = lema_indices_flota(f, c);
            lema_flota_tras_ataque(f, c);
            lema_sin_celda(f[m[b]].posiciones, c);
            assert(a_flote(f[m[b]]));
            assert(a_flote(flota_tras_ataque(f, c)[b]));
        }
    }
}

/// Si el tablero y las flotas coinciden, ningun barco ocupa una celda vacia ni una
/// celda de fuera del tablero.
pub proof fn lema_celda_vacia_sin_barcos(g: JuegoV, c: (i32, i32), i: int)
    requires
        tablero_coherente(g),
        !en_tablero(g.mapa, c) || celda(g.mapa, c) == VACIO,
        0 <= i < g.jugadores.len(),
    ensures
        nadie_ocupa(g.jugadores[i].barcos, c),
        todos_a_flote(g.jugadores[i].barcos),
{
    lema_marcador(g.jugadores[i].id);
    let f = g.jugadores[i].barcos;
    assert forall|b: int| 0 <= b < f.len() implies !(#[trigger] f[b]).posiciones.contains(c) by {
        if f[b].posiciones.contains(c) {
            let k = choose|k: int| 0 <= k < f[b].posiciones.len() && f[b].posiciones[k] == c;
            assert(valido(g, i, b, k));
        }
    }
    assert forall|b: int| 0 <= b < f.len() implies a_flote(#[trigger] f[b]) by {
        assert(a_flote(g.jugadores[i].barcos[b]));
    }
}

/// Un ataque a una celda vacia, o de fuera del tablero, de una partida
/// cuyo tablero coincide con las flotas es agua: no da puntos ni monedas y no cambia el tablero ni la
/// flota, el puntaje o las monedas de ningun jugador.
pub proof fn lema_ataque_a_celda_vacia(g: JuegoV, a: int, c: (i32, i32))
    requires
        tablero_coherente(g),
        0 <= a < g.jugadores.len(),
        !en_tablero(g.mapa, c) || celda(g.mapa, c) == VACIO,
    ensures
        puntos_de_ataque(g, a, c) == 0,
        monedas_de_ataque(g, a, c) == 0,
        tras_ataque(g, a, c).mapa == g.mapa,
        forall|i: int|
            0 <= i < g.jugadores.len() ==> {
                let j = #[trigger] tras_ataque(g, a, c).jugadores[i];
                &&& j.barcos == g.jugadores[i].barcos
                &&& j.puntos == g.jugadores[i].puntos
                &&& j.monedas == g.jugadores[i].monedas
            },
{
    lema_agua_hasta(g, a, c, g.jugadores.len());
    assert forall|i: int| 0 <= i < g.jugadores.len() implies {
        let j = #[trigger] tras_ataque(g, a, c).jugadores[i];
        &&& j.barcos == g.jugadores[i].barcos
        &&& j.puntos == g.jugadores[i].puntos
        &&& j.monedas == g.jugadores[i].monedas
    } by {
        lema_celda_vacia_sin_barcos(g, c, i);
        lema_ataque_al_agua(g.jugadores[i].barcos, c);
    }
}

/// Un ataque a una celda vacia no suma puntos ni monedas sobre ningun
/// prefijo de jugadores.
proof fn lema_agua_hasta(g: JuegoV, a: int, c: (i32, i32), n: nat)
    requires
        tablero_coherente(g),
        n <= g.jugadores.len(),
        !en_tablero(g.mapa, c) || celda(g.mapa, c) == VACIO,
    ensures
        puntos_hasta(g.jugadores, a, c, n) == 0,
        monedas_hasta(g.jugadores, a, c, n) == 0,
    decreases n,
{
    if n > 0 {
        lema_agua_hasta(g, a, c, (n - 1) as nat);
        lema_celda_vacia_sin_barcos(g, c, n - 1);
        lema_ataque_al_agua(g.jugadores[n - 1].barcos, c);
    }
}

/// Repetir un ataque no vuelve a dar puntos: despues de que el jugador de
/// indice `a` ataca la celda `c`, un segundo ataque suyo a la misma celda no
/// gana puntos ni monedas, porque ningun barco que quede en las flotas de
/// los demas ocupa ya esa celda.
pub proof fn lema_ataque_repetido_en_partida(g: JuegoV, a: int, c: (i32, i32))
    requires
        0 <= a < g.jugadores.len(),
    ensures
        puntos_de_ataque(tras_ataque(g, a, c), a, c) == 0,
        monedas_de_ataque(tras_ataque(g, a, c), a, c) == 0,
{
    lema_repetido_hasta(g, a, c, g.jugadores.len());
}

/// Un segundo ataque a la misma celda no suma puntos ni monedas sobre
/// ningun prefijo de jugadores.
proof fn lema_repetido_hasta(g: JuegoV, a: int, c: (i32, i32), n: nat)
    requires
        0 <= a < g.jugadores.len(),
        n <= g.jugadores.len(),
    ensures
        puntos_hasta(tras_ataque(g, a, c).jugadores, a, c, n) == 0,
        monedas_hasta(tras_ataque(g, a, c).jugadores, a, c, n) == 0,
    decreases n,
{
    if n > 0 {
        lema_repetido_hasta(g, a, c, (n - 1) as nat);
        if n - 1 != a {
            lema_ataque_repetido(g.jugadores[n - 1].barcos, c);
        }
    }
}

/// El puntaje nunca baja: despues de manejar una instruccion, cada jugador
/// tiene al menos los puntos que tenia.
pub proof fn lema_puntaje_creciente(
    g0: JuegoV,
    g1: JuegoV,
    completa: bool,
    envios: Seq<EnvioV>,
    instruccion: Instruccion,
    a: int,
    ranking: Seq<(Seq<char>, nat)>,
)
    requires
        0 <= a < g0.jugadores.len(),
        es_respuesta(g0, g1, completa, envios, instruccion, a, ranking),
    ensures
        g1.jugadores.len() == g0.jugadores.len(),
        forall|i: int|
            0 <= i < g0.jugadores.len() ==> (#[trigger] g1.jugadores[i]).puntos
                >= g0.jugadores[i].puntos,
{
}

/// La marca de hundido es permanente: si el tablero y las flotas coinciden, ninguna
/// instruccion borra ni pisa una celda marcada como hundida.
pub proof fn lema_hundido_permanente(
    g0: JuegoV,
    g1: JuegoV,
    completa: bool,
    envios: Seq<EnvioV>,
    instruccion: Instruccion,
    a: int,
    ranking: Seq<(Seq<char>, nat)>,
    c: (i32, i32),
)
    requires
        tablero_coherente(g0),
        0 <= a < g0.jugadores.len(),
        es_respuesta(g0, g1, completa, envios, instruccion, a, ranking),
        en_tablero(g0.mapa, c),
        celda(g0.mapa, c) == HUNDIDO,
    ensures
        en_tablero(g1.mapa, c),
        celda(g1.mapa, c) == HUNDIDO,
{
    lema_marcador(g0.jugadores[a].id);
    match instruccion {
        Instruccion::Movimiento(b, destino) => {
            if rechazo_movimiento(g0.mapa, g0.jugadores[a], b as nat, destino) is None {
                let viejo = g0.jugadores[a].barcos[b as int];
                let region = contiguas_libres(g0.mapa, destino, viejo.tamano);
                lema_contiguas_libres(g0.mapa, destino, viejo.tamano);
                if viejo.posiciones.contains(c) {
                    let k = choose|k: int|
                        0 <= k < viejo.posiciones.len() && viejo.posiciones[k] == c;
                    assert(valido(g0, a, b as int, k));
                }
                if region.contains(c) {
                    let k = choose|k: int| 0 <= k < region.len() && region[k] == c;
                    assert(libre(g0.mapa, region[k]));
                }
            }
        },
        Instruccion::Compra(tipo) => {
            if rechazo_compra(g0.mapa, g0.jugadores[a], tipo as nat) is None {
                let region = g1.jugadores[a].barcos.last().posiciones;
                let o = choose|o: (i32, i32)|
                    en_tablero(g0.mapa, o) && region == #[trigger] contiguas_libres(
                        g0.mapa,
                        o,
                        tipo as nat,
                    );
                lema_contiguas_libres(g0.mapa, o, tipo as nat);
                if region.contains(c) {
                    let k = choose|k: int| 0 <= k < region.len() && region[k] == c;
                    assert(libre(g0.mapa, region[k]));
                }
            }
        },
        _ => {},
    }
}

/// Dos partidas con el mismo tablero y, jugador por jugador, el mismo
/// identificador y la misma flota son coherentes a la vez.
proof fn lema_tablero_mismas_flotas(g: JuegoV, g1: JuegoV)
    requires
        tablero_coherente(g),
        g1.mapa == g.mapa,
        g1.jugadores.len() == g.jugadores.len(),
        forall|i: int|
            0 <= i < g.jugadores.len() ==> (#[trigger] g1.jugadores[i]).id == g.jugadores[i].id
                && g1.jugadores[i].barcos == g.jugadores[i].barcos,
    ensures
        tablero_coherente(g1),
{
    assert forall|i: int, b: int, k: int| #[trigger] valido(g1, i, b, k) implies en_tablero(
        g1.mapa,
        ocupa(g1, i, b, k),
    ) && celda(g1.mapa, ocupa(g1, i, b, k)) == marcador_de(g1.jugadores[i].id) by {
        assert(g1.jugadores[i].barcos == g.jugadores[i].barcos);
        assert(valido(g, i, b, k));
    }
    assert forall|i: int, b: int, k: int, i2: int, b2: int, k2: int| #[trigger]
        valido(g1, i, b, k) && #[trigger] valido(g1, i2, b2, k2) && !(i == i2 && b == b2 && k
            == k2) implies ocupa(g1, i, b, k) != ocupa(g1, i2, b2, k2) by {
        assert(g1.jugadores[i].barcos == g.jugadores[i].barcos);
        assert(g1.jugadores[i2].barcos == g.jugadores[i2].barcos);
        assert(valido(g, i, b, k));
        assert(valido(g, i2, b2, k2));
    }
    assert forall|i: int, b: int|
        0 <= i < g1.jugadores.len() && 0 <= b < g1.jugadores[i].barcos.len() implies a_flote(
        #[trigger] g1.jugadores[i].barcos[b],
    ) && g1.jugadores[i].barcos[b].posiciones.len() > 0 by {
        assert(g1.jugadores[i].barcos == g.jugadores[i].barcos);
        assert(a_flote(g.jugadores[i].barcos[b]));
    }
}

/// Agregar un barco a flote en una region libre conserva la coherencia. El
/// barco se agrega al final de la flota del jugador de indice `a`, que
/// puede ser un jugador nuevo al final de la lista, y la region queda
/// marcada con su marca.
proof fn lema_barco_nuevo_conserva(g: JuegoV, g1: JuegoV, a: int, n: nat)
    requires
        tablero_coherente(g),
        0 <= a < g1.jugadores.len(),
        g.jugadores.len() <= g1.jugadores.len() <= g.jugadores.len() + 1,
        a < g.jugadores.len() ==> g1.jugadores.len() == g.jugadores.len(),
        forall|i: int|
            0 <= i < g.jugadores.len() ==> (#[trigger] g1.jugadores[i]).id == g.jugadores[i].id,
        forall|i: int|
            0 <= i < g.jugadores.len() && i != a ==> (#[trigger] g1.jugadores[i]).barcos
                == g.jugadores[i].barcos,
        g1.jugadores[a].barcos.len() > 0,
        g1.jugadores[a].barcos.drop_last() == (if a < g.jugadores.len() {
            g.jugadores[a].barcos
        } else {
            Seq::empty()
        }),
        a_flote(g1.jugadores[a].barcos.last()),
        es_region_libre(g.mapa, g1.jugadores[a].barcos.last().posiciones, n),
        g1.mapa == estampado(
            g.mapa,
            g1.jugadores[a].barcos.last().posiciones,
            marcador_de(g1.jugadores[a].id),
        ),
    ensures
        tablero_coherente(g1),
{
    let nuevo = g1.jugadores[a].barcos.len() - 1;
    let region = g1.jugadores[a].barcos.last().posiciones;
    let o = choose|o: (i32, i32)|
        en_tablero(g.mapa, o) && region == #[trigger] contiguas_libres(g.mapa, o, n);
    lema_contiguas_libres(g.mapa, o, n);
    lema_region_sin_repetidos(g.mapa, o, n);
    assert forall|i: int| 0 <= i < g.jugadores.len() implies marca_valida(g, i) by {
        lema_marcador(g.jugadores[i].id);
    }
    assert forall|i: int, b: int, k: int| valido(g1, i, b, k) && !(i == a && b == nuevo) implies valido(
        g,
        i,
        b,
        k,
    ) && ocupa(g, i, b, k) == ocupa(g1, i, b, k) by {
        if i == a {
            assert(g1.jugadores[a].barcos.drop_last().len() == nuevo);
            assert(g1.jugadores[a].barcos.drop_last()[b] == g1.jugadores[a].barcos[b]);
        } else {
            assert(g1.jugadores[i].barcos == g.jugadores[i].barcos);
        }
    }
    assert forall|i: int, b: int, k: int| #[trigger] valido(g1, i, b, k) implies en_tablero(
        g1.mapa,
        ocupa(g1, i, b, k),
    ) && celda(g1.mapa, ocupa(g1, i, b, k)) == marcador_de(g1.jugadores[i].id) by {
        let p = ocupa(g1, i, b, k);
        if i == a && b == nuevo {
            assert(libre(g.mapa, region[k]));
            assert(region.contains(p));
        } else {
            assert(valido(g, i, b, k));
            assert(marca_valida(g, i));
            assert(!region.contains(p)) by {
                if region.contains(p) {
                    let m = choose|m: int| 0 <= m < region.len() && region[m] == p;
                    assert(libre(g.mapa, region[m]));
                }
            }
        }
    }
    assert forall|i: int, b: int, k: int, i2: int, b2: int, k2: int| #[trigger]
        valido(g1, i, b, k) && #[trigger] valido(g1, i2, b2, k2) && !(i == i2 && b == b2 && k
            == k2) implies ocupa(g1, i, b, k) != ocupa(g1, i2, b2, k2) by {
        let nuevo1 = i == a && b == nuevo;
        let nuevo2 = i2 == a && b2 == nuevo;
        if nuevo1 && nuevo2 {
        } else if nuevo1 {
            assert(valido(g, i2, b2, k2));
            assert(libre(g.mapa, region[k]));
            assert(marca_valida(g, i2));
        } else if nuevo2 {
            assert(valido(g, i, b, k));
            assert(libre(g.mapa, region[k2]));
            assert(marca_valida(g, i));
        } else {
            assert(valido(g, i, b, k));
            assert(valido(g, i2, b2, k2));
        }
    }
    assert forall|i: int, b: int|
        0 <= i < g1.jugadores.len() && 0 <= b < g1.jugadores[i].barcos.len() implies a_flote(
        #[trigger] g1.jugadores[i].barcos[b],
    ) && g1.jugadores[i].barcos[b].posiciones.len() > 0 by {
        if i == a && b == nuevo {
        } else if i == a {
            assert(g1.jugadores[a].barcos.drop_last().len() == nuevo);
            assert(g1.jugadores[a].barcos.drop_last()[b] == g1.jugadores[a].barcos[b]);
            assert(a_flote(g.jugadores[i].barcos[b]));
        } else {
            assert(g1.jugadores[i].barcos == g.jugadores[i].barcos);
            assert(a_flote(g.jugadores[i].barcos[b]));
        }
    }
}

/// Una compra aceptada conserva la coherencia.
proof fn lema_tablero_compra(g0: JuegoV, g1: JuegoV, a: int, tipo: nat)
    requires
        tablero_coherente(g0),
        0 <= a < g0.jugadores.len(),
        es_compra(g0, g1, a, tipo),
    ensures
        tablero_coherente(g1),
{
    let j1 = g1.jugadores[a];
    assert(j1.barcos.drop_last() =~= g0.jugadores[a].barcos);
    lema_barco_nuevo_conserva(g0, g1, a, tipo);
}

/// El ingreso de un jugador nuevo al final de la lista conserva la
/// coherencia.
proof fn lema_tablero_ingreso(g0: JuegoV, g1: JuegoV, id: nat, nombre: Seq<char>)
    requires
        tablero_coherente(g0),
        g1.jugadores.len() == g0.jugadores.len() + 1,
        g1.jugadores.drop_last() == g0.jugadores,
        es_ingreso(g0.mapa, g1.mapa, g1.jugadores.last(), id, nombre),
    ensures
        tablero_coherente(g1),
{
    let a = g0.jugadores.len() as int;
    let j = g1.jugadores[a];
    assert forall|i: int| 0 <= i < g0.jugadores.len() implies #[trigger] g1.jugadores[i]
        == g0.jugadores[i] by {
        assert(g1.jugadores.drop_last()[i] == g1.jugadores[i]);
    }
    if j.barcos.len() == 1 {
        assert(j.barcos.drop_last() =~= Seq::empty());
        lema_barco_nuevo_conserva(g0, g1, a, TAMANO_INICIAL as nat);
    } else {
        assert(j.barcos.len() == 0);
        assert forall|i: int, b: int, k: int| #[trigger] valido(g1, i, b, k) implies en_tablero(
            g1.mapa,
            ocupa(g1, i, b, k),
        ) && celda(g1.mapa, ocupa(g1, i, b, k)) == marcador_de(g1.jugadores[i].id) by {
            assert(valido(g0, i, b, k));
        }
        assert forall|i: int, b: int, k: int, i2: int, b2: int, k2: int| #[trigger]
            valido(g1, i, b, k) && #[trigger] valido(g1, i2, b2, k2) && !(i == i2 && b == b2 && k
                == k2) implies ocupa(g1, i, b, k) != ocupa(g1, i2, b2, k2) by {
            assert(valido(g0, i, b, k));
            assert(valido(g0, i2, b2, k2));
        }
        assert forall|i: int, b: int|
            0 <= i < g1.jugadores.len() && 0 <= b < g1.jugadores[i].barcos.len() implies a_flote(
            #[trigger] g1.jugadores[i].barcos[b],
        ) && g1.jugadores[i].barcos[b].posiciones.len() > 0 by {
            assert(a_flote(g0.jugadores[i].barcos[b]));
        }
    }
}

/// Quitar jugadores de la partida conserva la coherencia.
proof fn lema_tablero_eliminar(g: JuegoV, g1: JuegoV, id: nat)
    requires
        tablero_coherente(g),
        g1.mapa == g.mapa,
        g1.jugadores == sin_jugador(g.jugadores, id),
    ensures
        tablero_coherente(g1),
{
    let m = lema_indices_sin_jugador(g.jugadores, id);
    assert forall|i: int, b: int, k: int| #[trigger] valido(g1, i, b, k) implies en_tablero(
        g1.mapa,
        ocupa(g1, i, b, k),
    ) && celda(g1.mapa, ocupa(g1, i, b, k)) == marcador_de(g1.jugadores[i].id) by {
        assert(valido(g, m[i], b, k));
    }
    assert forall|i: int, b: int, k: int, i2: int, b2: int, k2: int| #[trigger]
        valido(g1, i, b, k) && #[trigger] valido(g1, i2, b2, k2) && !(i == i2 && b == b2 && k
            == k2) implies ocupa(g1, i, b, k) != ocupa(g1, i2, b2, k2) by {
        assert(valido(g, m[i], b, k));
        assert(valido(g, m[i2], b2, k2));
        if i < i2 {
            assert(m[i] < m[i2]);
        } else if i2 < i {
            assert(m[i2] < m[i]);
        }
    }
    assert forall|i: int, b: int|
        0 <= i < g1.jugadores.len() && 0 <= b < g1.jugadores[i].barcos.len() implies a_flote(
        #[trigger] g1.jugadores[i].barcos[b],
    ) && g1.jugadores[i].barcos[b].posiciones.len() > 0 by {
        assert(a_flote(g.jugadores[m[i]].barcos[b]));
    }
}

/// Mover un barco conserva la numeracion de las flotas.
proof fn lema_numeradas_movimiento(g: JuegoV, a: int, b: int, destino: (i32, i32))
    requires
        flotas_numeradas(g),
        0 <= a < g.jugadores.len(),
        0 <= b < g.jugadores[a].barcos.len(),
    ensures
        flotas_numeradas(tras_movimiento(g, a, b, destino)),
{
    let g1 = tras_movimiento(g, a, b, destino);
    assert forall|i: int, b2: int|
        0 <= i < g1.jugadores.len() && 0 <= b2 < g1.jugadores[i].barcos.len() implies #[trigger] id_de(
        g1,
        i,
        b2,
    ) < g1.jugadores[i].siguiente_barco by {
        assert(id_de(g1, i, b2) == id_de(g, i, b2));
    }
    assert forall|i: int, b2: int, b3: int|
        0 <= i < g1.jugadores.len() && 0 <= b2 < b3 < g1.jugadores[i].barcos.len() implies #[trigger] id_de(
        g1,
        i,
        b2,
    ) != #[trigger] id_de(g1, i, b3) by {
        assert(id_de(g1, i, b2) == id_de(g, i, b2));
        assert(id_de(g1, i, b3) == id_de(g, i, b3));
    }
}

/// Un ataque conserva la numeracion de las flotas.
proof fn lema_numeradas_ataque(g: JuegoV, a: int, c: (i32, i32))
    requires
        flotas_numeradas(g),
        0 <= a < g.jugadores.len(),
    ensures
        flotas_numeradas(tras_ataque(g, a, c)),
{
    let g1 = tras_ataque(g, a, c);
    assert forall|i: int, b: int|
        0 <= i < g1.jugadores.len() && 0 <= b < g1.jugadores[i].barcos.len() implies #[trigger] id_de(
        g1,
        i,
        b,
    ) < g1.jugadores[i].siguiente_barco by {
        if i == a {
            assert(id_de(g1, i, b) == id_de(g, i, b));
        } else {
            let m = lema_indices_flota(g.jugadores[i].barcos, c);
            assert(id_de(g1, i, b) == id_de(g, i, m[b]));
        }
    }
    assert forall|i: int, b: int, b2: int|
        0 <= i < g1.jugadores.len() && 0 <= b < b2 < g1.jugadores[i].barcos.len() implies #[trigger] id_de(
        g1,
        i,
        b,
    ) != #[trigger] id_de(g1, i, b2) by {
        if i == a {
            assert(id_de(g1, i, b) == id_de(g, i, b));
            assert(id_de(g1, i, b2) == id_de(g, i, b2));
        } else {
            let m = lema_indices_flota(g.jugadores[i].barcos, c);
            assert(m[b] < m[b2]);
            assert(id_de(g1, i, b) == id_de(g, i, m[b]));
            assert(id_de(g1, i, b2) == id_de(g, i, m[b2]));
        }
    }
}

/// Una compra aceptada conserva la numeracion de las flotas: el barco nuevo
/// recibe un identificador que ningun otro barco del jugador tiene.
proof fn lema_numeradas_compra(g0: JuegoV, g1: JuegoV, a: int, tipo: nat)
    requires
        flotas_numeradas(g0),
        0 <= a < g0.jugadores.len(),
        es_compra(g0, g1, a, tipo),
    ensures
        flotas_numeradas(g1),
{
    let n = g0.jugadores[a].barcos.len() as int;
    assert forall|i: int, b: int|
        0 <= i < g1.jugadores.len() && 0 <= b < g1.jugadores[i].barcos.len() implies #[trigger] id_de(
        g1,
        i,
        b,
    ) < g1.jugadores[i].siguiente_barco by {
        if !(i == a && b == n) {
            assert(id_de(g1, i, b) == id_de(g0, i, b));
        }
    }
    assert forall|i: int, b: int, b2: int|
        0 <= i < g1.jugadores.len() && 0 <= b < b2 < g1.jugadores[i].barcos.len() implies #[trigger] id_de(
        g1,
        i,
        b,
    ) != #[trigger] id_de(g1, i, b2) by {
        assert(id_de(g1, i, b) == id_de(g0, i, b));
        if !(i == a && b2 == n) {
            assert(id_de(g1, i, b2) == id_de(g0, i, b2));
        }
    }
}

/// El ingreso de un jugador nuevo conserva la numeracion de las flotas.
proof fn lema_numeradas_ingreso(g0: JuegoV, g1: JuegoV, id: nat, nombre: Seq<char>)
    requires
        flotas_numeradas(g0),
        g1.jugadores.len() == g0.jugadores.len() + 1,
        g1.jugadores.drop_last() == g0.jugadores,
        es_ingreso(g0.mapa, g1.mapa, g1.jugadores.last(), id, nombre),
    ensures
        flotas_numeradas(g1),
{
    let a = g0.jugadores.len() as int;
    assert forall|i: int| 0 <= i < g0.jugadores.len() implies #[trigger] g1.jugadores[i]
        == g0.jugadores[i] by {
        assert(g1.jugadores.drop_last()[i] == g1.jugadores[i]);
    }
    assert forall|i: int, b: int|
        0 <= i < g1.jugadores.len() && 0 <= b < g1.jugadores[i].barcos.len() implies #[trigger] id_de(
        g1,
        i,
        b,
    ) < g1.jugadores[i].siguiente_barco by {
        if i < a {
            assert(id_de(g1, i, b) == id_de(g0, i, b));
        }
    }
    assert forall|i: int, b: int, b2: int|
        0 <= i < g1.jugadores.len() && 0 <= b < b2 < g1.jugadores[i].barcos.len() implies #[trigger] id_de(
        g1,
        i,
        b,
    ) != #[trigger] id_de(g1, i, b2) by {
        if i < a {
            assert(id_de(g1, i, b) == id_de(g0, i, b));
            assert(id_de(g1, i, b2) == id_de(g0, i, b2));
        }
    }
}

/// Quitar jugadores de la partida conserva la numeracion de las flotas.
proof fn lema_numeradas_eliminar(g: JuegoV, g1: JuegoV, id: nat)
    requires
        flotas_numeradas(g),
        g1.jugadores == sin_jugador(g.jugadores, id),
    ensures
        flotas_numeradas(g1),
{
    let m = lema_indices_sin_jugador(g.jugadores, id);
    assert forall|i: int, b: int|
        0 <= i < g1.jugadores.len() && 0 <= b < g1.jugadores[i].barcos.len() implies #[trigger] id_de(
        g1,
        i,
        b,
    ) < g1.jugadores[i].siguiente_barco by {
        assert(id_de(g1, i, b) == id_de(g, m[i], b));
    }
    assert forall|i: int, b: int, b2: int|
        0 <= i < g1.jugadores.len() && 0 <= b < b2 < g1.jugadores[i].barcos.len() implies #[trigger] id_de(
        g1,
        i,
        b,
    ) != #[trigger] id_de(g1, i, b2) by {
        assert(id_de(g1, i, b) == id_de(g, m[i], b));
        assert(id_de(g1, i, b2) == id_de(g, m[i], b2));
    }
}

/// Dos partidas con las mismas flotas y los mismos proximos identificadores
/// de barco, jugador por jugador, tienen las flotas numeradas a la vez.
proof fn lema_numeradas_mismas_flotas(g: JuegoV, g1: JuegoV)
    requires
        flotas_numeradas(g),
        g1.jugadores.len() == g.jugadores.len(),
        forall|i: int|
            0 <= i < g.jugadores.len() ==> (#[trigger] g1.jugadores[i]).barcos
                == g.jugadores[i].barcos && g1.jugadores[i].siguiente_barco
                == g.jugadores[i].siguiente_barco,
    ensures
        flotas_numeradas(g1),
{
    assert forall|i: int, b: int|
        0 <= i < g1.jugadores.len() && 0 <= b < g1.jugadores[i].barcos.len() implies #[trigger] id_de(
        g1,
        i,
        b,
    ) < g1.jugadores[i].siguiente_barco by {
        assert(g1.jugadores[i].barcos == g.jugadores[i].barcos);
        assert(id_de(g1, i, b) == id_de(g, i, b));
    }
    assert forall|i: int, b: int, b2: int|
        0 <= i < g1.jugadores.len() && 0 <= b < b2 < g1.jugadores[i].barcos.len() implies #[trigger] id_de(
        g1,
        i,
        b,
    ) != #[trigger] id_de(g1, i, b2) by {
        assert(g1.jugadores[i].barcos == g.jugadores[i].barcos);
        assert(id_de(g1, i, b) == id_de(g, i, b));
        assert(id_de(g1, i, b2) == id_de(g, i, b2));
    }
}

/// Mover un barco conserva la coherencia: un movimiento aceptado deja una
/// partida coherente.
pub proof fn lema_movimiento_conserva(g: JuegoV, a: int, b: int, destino: (i32, i32))
    requires
        coherente(g),
        0 <= a < g.jugadores.len(),
        b >= 0,
        rechazo_movimiento(g.mapa, g.jugadores[a], b as nat, destino) is None,
    ensures
        coherente(tras_movimiento(g, a, b, destino)),
{
    reveal(coherente);
    lema_tablero_movimiento(g, a, b, destino);
    lema_numeradas_movimiento(g, a, b, destino);
}

/// Un ataque conserva la coherencia.
pub proof fn lema_ataque_conserva(g: JuegoV, a: int, c: (i32, i32))
    requires
        coherente(g),
        0 <= a < g.jugadores.len(),
    ensures
        coherente(tras_ataque(g, a, c)),
{
    reveal(coherente);
    lema_tablero_ataque(g, a, c);
    lema_numeradas_ataque(g, a, c);
}

/// Una compra aceptada conserva la coherencia.
pub proof fn lema_compra_conserva(g0: JuegoV, g1: JuegoV, a: int, tipo: nat)
    requires
        coherente(g0),
        0 <= a < g0.jugadores.len(),
        es_compra(g0, g1, a, tipo),
    ensures
        coherente(g1),
{
    reveal(coherente);
    lema_tablero_compra(g0, g1, a, tipo);
    lema_numeradas_compra(g0, g1, a, tipo);
}

/// El ingreso de un jugador nuevo al final de la lista conserva la
/// coherencia.
pub proof fn lema_ingreso_conserva(g0: JuegoV, g1: JuegoV, id: nat, nombre: Seq<char>)
    requires
        coherente(g0),
        g1.jugadores.len() == g0.jugadores.len() + 1,
        g1.jugadores.drop_last() == g0.jugadores,
        es_ingreso(g0.mapa, g1.mapa, g1.jugadores.last(), id, nombre),
    ensures
        coherente(g1),
{
    reveal(coherente);
    lema_tablero_ingreso(g0, g1, id, nombre);
    lema_numeradas_ingreso(g0, g1, id, nombre);
}

/// Quitar jugadores de la partida conserva la coherencia.
pub proof fn lema_eliminar_conserva(g: JuegoV, g1: JuegoV, id: nat)
    requires
        coherente(g),
        g1.mapa == g.mapa,
        g1.jugadores == sin_jugador(g.jugadores, id),
    ensures
        coherente(g1),
{
    reveal(coherente);
    lema_tablero_eliminar(g, g1, id);
    lema_numeradas_eliminar(g, g1, id);
}

/// Dos partidas con el mismo tablero y, jugador por jugador, el mismo
/// identificador, la misma flota y el mismo proximo identificador de barco
/// son coherentes a la vez.
pub proof fn lema_mismas_flotas(g: JuegoV, g1: JuegoV)
    requires
        coherente(g),
        g1.mapa == g.mapa,
        g1.jugadores.len() == g.jugadores.len(),
        forall|i: int|
            0 <= i < g.jugadores.len() ==> (#[trigger] g1.jugadores[i]).id == g.jugadores[i].id
                && g1.jugadores[i].barcos == g.jugadores[i].barcos
                && g1.jugadores[i].siguiente_barco == g.jugadores[i].siguiente_barco,
    ensures
        coherente(g1),
{
    reveal(coherente);
    lema_tablero_mismas_flotas(g, g1);
    lema_numeradas_mismas_flotas(g, g1);
}

/// Lugar de la celda `c` dentro del tablero contado fila por fila.
pub open spec fn lugar_de(c: (i32, i32)) -> int {
    c.1 * LADO + c.0
}

/// La posicion `(i2, b2, k2)` viene antes que `(i, b, k)` en el recorrido de
/// jugadores, barcos y posiciones.
pub open spec fn viene_antes(i2: int, b2: int, k2: int, i: int, b: int, k: int) -> bool {
    i2 < i || (i2 == i && (b2 < b || (b2 == b && k2 < k)))
}

/// Lo que ya se sabe de la partida cuando el recorrido llego a la posicion
/// `(i, b, k)`: cada posicion anterior esta en el tablero y muestra la marca
/// de su dueno, y `duenos` dice, celda por celda, que posicion anterior la
/// ocupa.
pub open spec fn recorrido_hasta(
    g: JuegoV,
    duenos: Seq<Option<(int, int, int)>>,
    i: int,
    b: int,
    k: int,
) -> bool {
    &&& duenos.len() == LADO * LADO
    &&& forall|i2: int, b2: int, k2: int| #[trigger]
        valido(g, i2, b2, k2) && viene_antes(i2, b2, k2, i, b, k) ==> {
            &&& en_tablero(g.mapa, ocupa(g, i2, b2, k2))
            &&& celda(g.mapa, ocupa(g, i2, b2, k2)) == marcador_de(g.jugadores[i2].id)
            &&& duenos[lugar_de(ocupa(g, i2, b2, k2))] == Some((i2, b2, k2))
        }
    &&& forall|l: int|
        0 <= l < duenos.len() && (#[trigger] duenos[l]) is Some ==> {
            let t = duenos[l]->0;
            &&& valido(g, t.0, t.1, t.2)
            &&& viene_antes(t.0, t.1, t.2, i, b, k)
            &&& lugar_de(ocupa(g, t.0, t.1, t.2)) == l
        }
}

/// Lo que ya se sabe de las flotas cuando se revisaron los barcos
/// anteriores al barco `b` del jugador `i`: todos estan a flote, ocupan
/// alguna celda y tienen identificadores en regla.
pub open spec fn flotas_hasta(g: JuegoV, i: int, b: int) -> bool {
    &&& forall|i2: int, b2: int|
        0 <= i2 < g.jugadores.len() && 0 <= b2 < g.jugadores[i2].barcos.len() && (i2 < i || (i2
            == i && b2 < b)) ==> {
            &&& a_flote(#[trigger] g.jugadores[i2].barcos[b2])
            &&& g.jugadores[i2].barcos[b2].posiciones.len() > 0
        }
    &&& forall|i2: int, b2: int|
        0 <= i2 < g.jugadores.len() && 0 <= b2 < g.jugadores[i2].barcos.len() && (i2 < i || (i2
            == i && b2 < b)) ==> #[trigger] id_de(g, i2, b2) < g.jugadores[i2].siguiente_barco
    &&& forall|i2: int, b2: int, b3: int|
        0 <= i2 < g.jugadores.len() && 0 <= b2 < b3 < g.jugadores[i2].barcos.len() && (i2 < i || (
        i2 == i && b3 < b)) ==> #[trigger] id_de(g, i2, b2) != #[trigger] id_de(g, i2, b3)
}

impl Juego {
    /// Indica si la partida es coherente.
    pub fn es_coherente(&self) -> (r: bool)
        ensures
            r == coherente(self@),
    {
        let ghost g = self@;
        proof {
            lema_coherente(g);
        }
        let filas = self.mapa.nrows();
        let columnas = self.mapa.ncols();
        if filas != LADO || columnas != LADO {
            assert(!tablero_entero(g.mapa)) by {
                if filas == LADO {
                    assert(g.mapa[0].len() == columnas);
                }
            }
            return false;
        }
        assert(tablero_entero(g.mapa));
        let mut visto: Vec<bool> = Vec::new();
        let ghost mut duenos: Seq<Option<(int, int, int)>> = Seq::empty();
        let mut l: usize = 0;
        while l < LADO * LADO
            invariant
                l <= LADO * LADO,
                visto@.len() == l,
                duenos.len() == l,
                forall|m: int| 0 <= m < l ==> !visto@[m] && (#[trigger] duenos[m]) is None,
            decreases LADO * LADO - l,
        {
            visto.push(false);
            proof {
                duenos = duenos.push(None);
            }
            l = l + 1;
        }
        let mut i: usize = 0;
        while i < self.jugadores.len()
            invariant
                i <= self.jugadores@.len(),
                g == self@,
                coherente(g) == (tablero_coherente(g) && flotas_numeradas(g)),
                tablero_entero(g.mapa),
                visto@.len() == LADO * LADO,
                forall|m: int| 0 <= m < LADO * LADO ==> visto@[m] == (#[trigger] duenos[m]) is Some,
                recorrido_hasta(g, duenos, i as int, 0, 0),
                flotas_hasta(g, i as int, 0),
            decreases self.jugadores@.len() - i,
        {
            assert(g.jugadores[i as int] == self.jugadores@[i as int]@);
            let marca = marcador(self.jugadores[i].id);
            let mut b: usize = 0;
            while b < self.jugadores[i].barcos.len()
                invariant
                    i < self.jugadores@.len(),
                    b <= self.jugadores@[i as int].barcos@.len(),
                    g == self@,
                    coherente(g) == (tablero_coherente(g) && flotas_numeradas(g)),
                coherente(g) == (tablero_coherente(g) && flotas_numeradas(g)),
                    g.jugadores[i as int] == self.jugadores@[i as int]@,
                    marca == marcador_de(g.jugadores[i as int].id),
                    tablero_entero(g.mapa),
                    visto@.len() == LADO * LADO,
                    forall|m: int|
                        0 <= m < LADO * LADO ==> visto@[m] == (#[trigger] duenos[m]) is Some,
                    recorrido_hasta(g, duenos, i as int, b as int, 0),
                    flotas_hasta(g, i as int, b as int),
                decreases self.jugadores@[i as int].barcos@.len() - b,
            {
                assert(g.jugadores[i as int].barcos[b as int] == self.jugadores@[i as int].barcos@[b as int]@);
                let barco = &self.jugadores[i].barcos[b];
                if barco.estado == EstadoBarco::Hundido || barco.posiciones.len() == 0 {
                    assert(!flotas_activas(g)) by {
                        if flotas_activas(g) {
                            assert(a_flote(g.jugadores[i as int].barcos[b as int]));
                        }
                    }
                    return false;
                }
                if barco.id >= self.jugadores[i].siguiente_barco {
                    assert(!flotas_numeradas(g)) by {
                        if flotas_numeradas(g) {
                            assert(id_de(g, i as int, b as int) < g.jugadores[i as int].siguiente_barco);
                        }
                    }
                    return false;
                }
                let mut b2: usize = 0;
                while b2 < b
                    invariant
                        i < self.jugadores@.len(),
                        b < self.jugadores@[i as int].barcos@.len(),
                        b2 <= b,
                        g == self@,
                        coherente(g) == (tablero_coherente(g) && flotas_numeradas(g)),
                    coherente(g) == (tablero_coherente(g) && flotas_numeradas(g)),
                coherente(g) == (tablero_coherente(g) && flotas_numeradas(g)),
                        g.jugadores[i as int] == self.jugadores@[i as int]@,
                        forall|b3: int| 0 <= b3 < b2 ==> #[trigger] id_de(g, i as int, b3) != id_de(g, i as int, b as int),
                    decreases b - b2,
                {
                    assert(g.jugadores[i as int].barcos[b2 as int] == self.jugadores@[i as int].barcos@[b2 as int]@);
                    assert(g.jugadores[i as int].barcos[b as int] == self.jugadores@[i as int].barcos@[b as int]@);
                    if self.jugadores[i].barcos[b2].id == self.jugadores[i].barcos[b].id {
                        assert(!flotas_numeradas(g)) by {
                            if flotas_numeradas(g) {
                                assert(id_de(g, i as int, b2 as int) != id_de(g, i as int, b as int));
                            }
                        }
                        return false;
                    }
                    b2 = b2 + 1;
                }
                let mut k: usize = 0;
                while k < self.jugadores[i].barcos[b].posiciones.len()
                    invariant
                        i < self.jugadores@.len(),
                        b < self.jugadores@[i as int].barcos@.len(),
                        k <= self.jugadores@[i as int].barcos@[b as int].posiciones@.len(),
                        g == self@,
                        coherente(g) == (tablero_coherente(g) && flotas_numeradas(g)),
                    coherente(g) == (tablero_coherente(g) && flotas_numeradas(g)),
                coherente(g) == (tablero_coherente(g) && flotas_numeradas(g)),
                        g.jugadores[i as int] == self.jugadores@[i as int]@,
                        g.jugadores[i as int].barcos[b as int] == self.jugadores@[i as int].barcos@[b as int]@,
                        marca == marcador_de(g.jugadores[i as int].id),
                        tablero_entero(g.mapa),
                        visto@.len() == LADO * LADO,
                        forall|m: int|
                            0 <= m < LADO * LADO ==> visto@[m] == (#[trigger] duenos[m]) is Some,
                        recorrido_hasta(g, duenos, i as int, b as int, k as int),
                    decreases self.jugadores@[i as int].barcos@[b as int].posiciones@.len() - k,
                {
                    let p = self.jugadores[i].barcos[b].posiciones[k];
                    assert(p == ocupa(g, i as int, b as int, k as int));
                    assert(valido(g, i as int, b as int, k as int));
                    match self.mapa.obtener(p) {
                        Some(ch) => {
                            if ch != marca {
                                assert(!celdas_marcadas(g));
                                return false;
                            }
                        },
                        None => {
                            assert(!celdas_marcadas(g));
                            return false;
                        },
                    }
                    let lugar: usize = (p.1 as usize) * LADO + (p.0 as usize);
                    assert(lugar == lugar_de(p));
                    if visto[lugar] {
                        proof {
                            let t = duenos[lugar as int]->0;
                            assert(valido(g, t.0, t.1, t.2));
                            assert(ocupa(g, t.0, t.1, t.2) == p) by {
                                let q = ocupa(g, t.0, t.1, t.2);
                                assert(en_tablero(g.mapa, q));
                                assert(lugar_de(q) == lugar_de(p));
                            }
                            assert(!sin_choques(g));
                        }
                        return false;
                    }
                    visto.set(lugar, true);
                    proof {
                        let ghost antes = duenos;
                        duenos = duenos.update(lugar as int, Some((i as int, b as int, k as int)));
                        assert forall|i2: int, b2: int, k2: int| #[trigger]
                            valido(g, i2, b2, k2) && viene_antes(
                                i2,
                                b2,
                                k2,
                                i as int,
                                b as int,
                                k + 1,
                            ) implies {
                            &&& en_tablero(g.mapa, ocupa(g, i2, b2, k2))
                            &&& celda(g.mapa, ocupa(g, i2, b2, k2)) == marcador_de(
                                g.jugadores[i2].id,
                            )
                            &&& duenos[lugar_de(ocupa(g, i2, b2, k2))] == Some((i2, b2, k2))
                        } by {
                            if !(i2 == i && b2 == b && k2 == k) {
                                assert(viene_antes(i2, b2, k2, i as int, b as int, k as int));
                                assert(antes[lugar_de(ocupa(g, i2, b2, k2))] == Some((i2, b2, k2)));
                            }
                        }
                    }
                    k = k + 1;
                }
                proof {
                    assert forall|i2: int, b2: int, b3: int|
                        0 <= i2 < g.jugadores.len() && 0 <= b2 < b3 < g.jugadores[i2].barcos.len()
                            && (i2 < i || (i2 == i && b3 < b + 1)) implies #[trigger] id_de(
                        g,
                        i2,
                        b2,
                    ) != #[trigger] id_de(g, i2, b3) by {
                        if i2 == i && b3 == b {
                            assert(id_de(g, i as int, b2) != id_de(g, i as int, b as int));
                        }
                    }
                }
                b = b + 1;
            }
            i = i + 1;
        }
        proof {
            assert forall|i2: int, b2: int, k2: int, i3: int, b3: int, k3: int| #[trigger]
                valido(g, i2, b2, k2) && #[trigger] valido(g, i3, b3, k3) && !(i2 == i3 && b2 == b3
                    && k2 == k3) implies ocupa(g, i2, b2, k2) != ocupa(g, i3, b3, k3) by {
                assert(viene_antes(i2, b2, k2, i as int, 0, 0));
                assert(viene_antes(i3, b3, k3, i as int, 0, 0));
            }
            assert(celdas_marcadas(g)) by {
                assert forall|i2: int, b2: int, k2: int| #[trigger]
                    valido(g, i2, b2, k2) implies en_tablero(g.mapa, ocupa(g, i2, b2, k2))
                    && celda(g.mapa, ocupa(g, i2, b2, k2)) == marcador_de(g.jugadores[i2].id) by {
                    assert(viene_antes(i2, b2, k2, i as int, 0, 0));
                }
            }
            assert(flotas_activas(g));
            assert(flotas_numeradas(g));
        }
        true
    }
}

} // verus!
