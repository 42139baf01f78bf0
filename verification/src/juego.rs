//! El motor de la partida: el tablero unico, los jugadores y la resolucion
//! de las instrucciones de cada turno.

use crate::barco::BarcoV;
use crate::custom_error::CustomError;
use crate::estado_barco::EstadoBarco;
use crate::flota::{
    avisos_ataque, flota_tras_ataque, lema_flota_tras_ataque, monedas_ataque, puntos_ataque,
};
use crate::instruccion::Instruccion;
use crate::invariantes::{
    coherente, lema_ataque_conserva, lema_compra_conserva, lema_eliminar_conserva,
    lema_ingreso_conserva, lema_mismas_flotas, lema_movimiento_conserva, lema_partida_vacia,
};
use crate::jugador::{
    con_barco_nuevo, destino_de, es_ingreso, jugadores_v, puede_recibir_barco, Jugador, JugadorV,
    MONEDAS_INICIALES,
};
use crate::mapa::{
    alguna_en_tablero, celda, con_celda, contiguas_libres, en_tablero, es_region_libre, estampado,
    hay_region, lema_contiguas_libres, lema_hay_lugar, lema_ocupadas_tras_estampar,
    lema_tablero_vacio, libre, marcador_de, misma_forma, ocupadas_hasta, resumen_de, vista_de, Mapa,
    HUNDIDO, LADO, VACIO,
};
use crate::mensaje::{envios_v, ranking_v, Envio, EnvioV, Mensaje, MensajeV};
use crate::ranking::{
    con_puntaje, desborda, lema_desborda_con_puntaje, ordenado, ordenar_ranking, sumar_puntaje,
};
use vstd::prelude::*;

verus! {

/// La partida.
pub struct Juego {
    pub mapa: Mapa,
    pub jugadores: Vec<Jugador>,
    pub turno: usize,
    pub rondas: usize,
    /// El evento sorpresa ya se disparo en esta partida.
    pub evento_hecho: bool,
}

/// Modelo matematico de la partida.
pub ghost struct JuegoV {
    pub mapa: Seq<Seq<char>>,
    pub jugadores: Seq<JugadorV>,
    pub turno: nat,
    pub rondas: nat,
    pub evento_hecho: bool,
}

impl View for Juego {
    type V = JuegoV;

    open spec fn view(&self) -> JuegoV {
        JuegoV {
            mapa: self.mapa@,
            jugadores: jugadores_v(self.jugadores@),
            turno: self.turno as nat,
            rondas: self.rondas as nat,
            evento_hecho: self.evento_hecho,
        }
    }
}

/// Motivo de rechazo de un movimiento cuando el indice de barco no existe.
pub open spec fn motivo_barco_inexistente() -> Seq<char> {
    "El barco seleccionado no existe, elija otra accion u otro barco."@
}

/// Motivo de rechazo de un movimiento cuando el barco ya fue golpeado.
pub open spec fn motivo_barco_golpeado() -> Seq<char> {
    "El barco seleccionado esta golpeado, no se puede mover, elija otra accion u otro barco."@
}

/// Motivo de rechazo de un movimiento cuando el destino no tiene lugar.
pub open spec fn motivo_sin_espacio() -> Seq<char> {
    "No hay suficientes espacios contiguos disponibles para mover el barco."@
}

/// Motivo por el que se rechaza mover el barco de indice `barco` del jugador
/// `j` hacia `destino` en el tablero `t`, o `None` si el movimiento vale: el
/// barco tiene que existir y estar sano, y del destino tiene que salir una
/// region libre del tamano del barco.
pub open spec fn rechazo_movimiento(
    t: Seq<Seq<char>>,
    j: JugadorV,
    barco: nat,
    destino: (i32, i32),
) -> Option<Seq<char>> {
    if barco >= j.barcos.len() {
        Some(motivo_barco_inexistente())
    } else if j.barcos[barco as int].estado != EstadoBarco::Sano {
        Some(motivo_barco_golpeado())
    } else if contiguas_libres(t, destino, j.barcos[barco as int].tamano).len() == 0 {
        Some(motivo_sin_espacio())
    } else {
        None
    }
}

/// La partida `g` despues de que el jugador de indice `jugador` mueve su
/// barco de indice `barco` a la region libre que sale de `destino`.
pub open spec fn tras_movimiento(g: JuegoV, jugador: int, barco: int, destino: (i32, i32)) -> JuegoV {
    let j = g.jugadores[jugador];
    let b = j.barcos[barco];
    let region = contiguas_libres(g.mapa, destino, b.tamano);
    JuegoV {
        mapa: estampado(estampado(g.mapa, b.posiciones, VACIO), region, marcador_de(j.id)),
        jugadores: g.jugadores.update(
            jugador,
            JugadorV { barcos: j.barcos.update(barco, BarcoV { posiciones: region, ..b }), ..j },
        ),
        ..g
    }
}

/// El ataque a la celda `c` deja sin barcos al jugador `j`, que todavia no
/// figuraba como eliminado.
pub open spec fn recien_eliminado(j: JugadorV, c: (i32, i32)) -> bool {
    flota_tras_ataque(j.barcos, c).len() == 0 && !j.ha_perdido
}

/// El jugador `j` despues de recibir un ataque a la celda `c`: su flota
/// recibe el ataque y, si se queda sin barcos, queda eliminado.
pub open spec fn victima_tras_ataque(j: JugadorV, c: (i32, i32)) -> JugadorV {
    JugadorV {
        barcos: flota_tras_ataque(j.barcos, c),
        ha_perdido: j.ha_perdido || flota_tras_ataque(j.barcos, c).len() == 0,
        ..j
    }
}

/// Lo que recibe el jugador `j` por un ataque a la celda `c`: un aviso por
/// cada barco alcanzado y, si queda eliminado, el mensaje de derrota con su
/// puntaje.
pub open spec fn envios_a_victima(j: JugadorV, c: (i32, i32)) -> Seq<EnvioV> {
    avisos_ataque(j.barcos, c, j.id) + (if recien_eliminado(j, c) {
        seq![EnvioV { destinatario: j.id, mensaje: MensajeV::Perdiste(j.puntos) }]
    } else {
        Seq::empty()
    })
}

/// Puntos que gana el jugador de indice `a` al atacar la celda `c`, sumados
/// sobre los primeros `n` jugadores sin contarse a si mismo.
pub open spec fn puntos_hasta(js: Seq<JugadorV>, a: int, c: (i32, i32), n: nat) -> nat
    decreases n,
{
    if n == 0 {
        0
    } else {
        puntos_hasta(js, a, c, (n - 1) as nat) + (if n - 1 == a {
            0
        } else {
            puntos_ataque(js[n - 1].barcos, c)
        })
    }
}

/// Monedas que gana el jugador de indice `a` al atacar la celda `c`, sumadas
/// sobre los primeros `n` jugadores sin contarse a si mismo.
pub open spec fn monedas_hasta(js: Seq<JugadorV>, a: int, c: (i32, i32), n: nat) -> nat
    decreases n,
{
    if n == 0 {
        0
    } else {
        monedas_hasta(js, a, c, (n - 1) as nat) + (if n - 1 == a {
            0
        } else {
            monedas_ataque(js[n - 1].barcos, c)
        })
    }
}

/// Envios a las victimas de un ataque del jugador de indice `a` a la celda
/// `c`, en el orden de los primeros `n` jugadores.
pub open spec fn envios_hasta(js: Seq<JugadorV>, a: int, c: (i32, i32), n: nat) -> Seq<EnvioV>
    decreases n,
{
    if n == 0 {
        Seq::empty()
    } else {
        envios_hasta(js, a, c, (n - 1) as nat) + (if n - 1 == a {
            Seq::empty()
        } else {
            envios_a_victima(js[n - 1], c)
        })
    }
}

/// Cantidad de barcos de los primeros `n` jugadores.
pub open spec fn total_barcos(js: Seq<JugadorV>, n: nat) -> nat
    decreases n,
{
    if n == 0 {
        0
    } else {
        total_barcos(js, (n - 1) as nat) + js[n - 1].barcos.len()
    }
}

/// Los puntos y las monedas que el jugador de indice `a` puede ganar con un
/// ataque caben en su puntaje y en su bolsa.
pub open spec fn cabe_ataque(g: JuegoV, a: int) -> bool {
    &&& g.jugadores[a].puntos + 15 * total_barcos(g.jugadores, g.jugadores.len()) <= usize::MAX
    &&& g.jugadores[a].monedas + 100 * total_barcos(g.jugadores, g.jugadores.len())
        <= usize::MAX
}

/// Puntos que gana el jugador de indice `a` al atacar la celda `c`.
pub open spec fn puntos_de_ataque(g: JuegoV, a: int, c: (i32, i32)) -> nat {
    puntos_hasta(g.jugadores, a, c, g.jugadores.len())
}

/// Monedas que gana el jugador de indice `a` al atacar la celda `c`.
pub open spec fn monedas_de_ataque(g: JuegoV, a: int, c: (i32, i32)) -> nat {
    monedas_hasta(g.jugadores, a, c, g.jugadores.len())
}

/// La partida `g` despues de que el jugador de indice `a` ataca la celda
/// `c`: el ataque se resuelve contra la flota de cada uno de los demas
/// jugadores, el atacante suma los puntos y las monedas de todos los
/// impactos, y si hubo alguno la celda queda marcada como hundida.
pub open spec fn tras_ataque(g: JuegoV, a: int, c: (i32, i32)) -> JuegoV {
    JuegoV {
        mapa: if puntos_de_ataque(g, a, c) > 0 {
            con_celda(g.mapa, c, HUNDIDO)
        } else {
            g.mapa
        },
        jugadores: Seq::new(
            g.jugadores.len(),
            |i: int|
                if i == a {
                    JugadorV {
                        puntos: g.jugadores[a].puntos + puntos_de_ataque(g, a, c),
                        monedas: g.jugadores[a].monedas + monedas_de_ataque(g, a, c),
                        ..g.jugadores[a]
                    }
                } else {
                    victima_tras_ataque(g.jugadores[i], c)
                },
        ),
        ..g
    }
}

/// Envios que produce el ataque del jugador de indice `a` a la celda `c`:
/// primero los de cada victima, en el orden de los jugadores, y al final el
/// informe de puntos y monedas para el atacante.
pub open spec fn envios_de_ataque(g: JuegoV, a: int, c: (i32, i32)) -> Seq<EnvioV> {
    envios_hasta(g.jugadores, a, c, g.jugadores.len()).push(
        EnvioV {
            destinatario: g.jugadores[a].id,
            mensaje: MensajeV::MensajeInfoAtaque(
                puntos_de_ataque(g, a, c),
                monedas_de_ataque(g, a, c),
            ),
        },
    )
}

/// El ataque del jugador de indice `a` a la celda `c` elimina a algun
/// jugador.
pub open spec fn alguien_pierde(g: JuegoV, a: int, c: (i32, i32), n: nat) -> bool {
    exists|i: int| 0 <= i < n && i != a && recien_eliminado(#[trigger] g.jugadores[i], c)
}

/// Los puntos y monedas de un ataque contra una flota estan acotados por la
/// cantidad de barcos.
proof fn lema_cota_ataque(f: Seq<BarcoV>, c: (i32, i32))
    ensures
        puntos_ataque(f, c) <= 15 * f.len(),
        monedas_ataque(f, c) <= 100 * f.len(),
    decreases f.len(),
{
    if f.len() > 0 {
        lema_cota_ataque(f.drop_last(), c);
    }
}

/// Dos listas de jugadores con flotas igual de largas, jugador por jugador,
/// tienen la misma cantidad de barcos.
pub proof fn lema_total_barcos_igual(js1: Seq<JugadorV>, js2: Seq<JugadorV>, n: nat)
    requires
        n <= js1.len(),
        n <= js2.len(),
        forall|i: int| 0 <= i < n ==> (#[trigger] js1[i]).barcos.len() == js2[i].barcos.len(),
    ensures
        total_barcos(js1, n) == total_barcos(js2, n),
    decreases n,
{
    if n > 0 {
        lema_total_barcos_igual(js1, js2, (n - 1) as nat);
    }
}

/// La cantidad de barcos de un prefijo de jugadores no supera la del total.
proof fn lema_total_barcos_monotono(js: Seq<JugadorV>, n: nat, m: nat)
    requires
        n <= m,
    ensures
        total_barcos(js, n) <= total_barcos(js, m),
    decreases m,
{
    if n < m {
        lema_total_barcos_monotono(js, n, (m - 1) as nat);
    }
}

/// Los jugadores de `js` cuyo identificador no es `id`, en el mismo orden.
pub open spec fn sin_jugador(js: Seq<JugadorV>, id: nat) -> Seq<JugadorV> {
    js.filter(|j: JugadorV| j.id != id)
}

/// Quitar un jugador de un prefijo extendido con un elemento es quitarlo del
/// prefijo y conservar el elemento si su identificador es otro.
proof fn lema_sin_jugador_paso(js: Seq<JugadorV>, k: int, id: nat)
    requires
        0 <= k < js.len(),
    ensures
        sin_jugador(js.take(k + 1), id) == (if js[k].id != id {
            sin_jugador(js.take(k), id).push(js[k])
        } else {
            sin_jugador(js.take(k), id)
        }),
{
    reveal(Seq::filter);
    assert(js.take(k + 1).drop_last() =~= js.take(k));
}

/// Precio de un barco de la tienda segun su tipo, o `None` si el tipo no
/// esta en el catalogo.
pub fn precio(tipo: usize) -> (r: Option<usize>)
    ensures
        match precio_de(tipo as nat) {
            Some(p) => r == Some(p as usize),
            None => r is None,
        },
{
    if tipo == 1 {
        Some(100)
    } else if tipo == 2 {
        Some(200)
    } else if tipo == 3 {
        Some(300)
    } else {
        None
    }
}

/// Precio de un barco de la tienda segun su tipo, que es tambien su tamano:
/// 100 monedas la fragata de 1 celda, 200 el buque de 2 y 300 el acorazado
/// de 3. Los demas tipos no estan en el catalogo.
pub open spec fn precio_de(tipo: nat) -> Option<nat> {
    if tipo == 1 {
        Some(100nat)
    } else if tipo == 2 {
        Some(200nat)
    } else if tipo == 3 {
        Some(300nat)
    } else {
        None
    }
}

/// Motivo de rechazo de una compra cuando el tipo no esta en el catalogo.
pub open spec fn motivo_tipo_inexistente() -> Seq<char> {
    "El barco elegido no esta en la tienda, elija otra accion u otro barco."@
}

/// Motivo de rechazo de una compra cuando no alcanzan las monedas.
pub open spec fn motivo_sin_dinero() -> Seq<char> {
    "No cuenta con el dinero suficiente para comprar ese barco"@
}

/// Motivo de rechazo de una compra cuando el barco no tiene donde ir.
pub open spec fn motivo_sin_lugar() -> Seq<char> {
    "No hay lugar en el tablero para un barco de ese tamaño."@
}

/// Motivo por el que se rechaza que el jugador `j` compre un barco de tipo
/// `tipo` con el tablero `t`, o `None` si la compra vale.
pub open spec fn rechazo_compra(t: Seq<Seq<char>>, j: JugadorV, tipo: nat) -> Option<Seq<char>> {
    match precio_de(tipo) {
        None => Some(motivo_tipo_inexistente()),
        Some(precio) => if j.monedas < precio {
            Some(motivo_sin_dinero())
        } else if !puede_recibir_barco(j, t, tipo) {
            Some(motivo_sin_lugar())
        } else {
            None
        },
    }
}

/// `g1` es la partida `g0` despues de que el jugador de indice `a` compra un
/// barco de tipo `tipo`: el barco nuevo ocupa una region que estaba libre,
/// marcada ahora con la marca del jugador, y el precio sale de sus monedas.
pub open spec fn es_compra(g0: JuegoV, g1: JuegoV, a: int, tipo: nat) -> bool {
    let j0 = g0.jugadores[a];
    let j1 = g1.jugadores[a];
    &&& g1.jugadores.len() == g0.jugadores.len()
    &&& es_region_libre(g0.mapa, j1.barcos.last().posiciones, tipo)
    &&& j1 == (JugadorV {
        monedas: (j0.monedas - precio_de(tipo)->0) as nat,
        ..con_barco_nuevo(j0, tipo, j1.barcos.last().posiciones)
    })
    &&& g1 == (JuegoV {
        mapa: estampado(g0.mapa, j1.barcos.last().posiciones, marcador_de(j0.id)),
        jugadores: g0.jugadores.update(a, j1),
        ..g0
    })
}

/// Al jugador le queda algun barco.
pub open spec fn vivo(j: JugadorV) -> bool {
    j.barcos.len() > 0
}

/// A ningun jugador le quedan barcos.
pub open spec fn nadie_vivo(js: Seq<JugadorV>) -> bool {
    forall|k: int| 0 <= k < js.len() ==> !vivo(#[trigger] js[k])
}

/// El jugador de indice `i` es el unico al que le quedan barcos.
pub open spec fn unico_vivo(js: Seq<JugadorV>, i: int) -> bool {
    &&& 0 <= i < js.len()
    &&& vivo(js[i])
    &&& forall|k: int| 0 <= k < js.len() && k != i ==> !vivo(#[trigger] js[k])
}

/// La partida termino: a lo sumo a un jugador le quedan barcos.
pub open spec fn terminada(js: Seq<JugadorV>) -> bool {
    nadie_vivo(js) || exists|i: int| unico_vivo(js, i)
}

/// Ronda en la que se dispara el evento sorpresa.
pub const EVENTO_SORPRESA: usize = 5;

/// Paso con el que sigue la partida.
#[derive(Debug, Clone, Copy, PartialEq, Eq)]
pub enum Paso {
    /// La partida termino; el dato es el indice del ganador, si hay uno.
    Fin(Option<usize>),
    /// Le toca jugar al jugador de indice `jugador`; `evento_sorpresa`
    /// indica si antes de su turno hay que correr el evento sorpresa.
    Turno { jugador: usize, evento_sorpresa: bool },
}

/// Resultado de manejar una instruccion: si el turno quedo cumplido (si no,
/// el jugador tiene que repetir su accion) y los mensajes que hay que
/// enviar.
#[derive(Debug)]
pub struct Respuesta {
    pub completa: bool,
    pub envios: Vec<Envio>,
}

/// Al empezar el proximo turno toca el evento sorpresa: ya se jugaron
/// `EVENTO_SORPRESA` rondas y el evento todavia no se disparo.
pub open spec fn toca_evento(g: JuegoV) -> bool {
    g.rondas >= EVENTO_SORPRESA && !g.evento_hecho
}

/// `paso` y `g1` son lo que sigue a la partida `g0` al empezar un turno: si
/// la partida termino, el paso es el fin con su ganador y nada cambia; si
/// no, el turno pasa al primer jugador con barcos desde el lugar actual de
/// la ronda y, si toca, queda disparado el evento sorpresa.
pub open spec fn es_comienzo_de_turno(g0: JuegoV, g1: JuegoV, paso: Paso) -> bool {
    if terminada(g0.jugadores) {
        &&& g1 == g0
        &&& paso is Fin
        &&& match paso->Fin_0 {
            Some(w) => unico_vivo(g0.jugadores, w as int),
            None => nadie_vivo(g0.jugadores),
        }
    } else {
        &&& paso is Turno
        &&& Some(paso->jugador as int) == proximo_vivo(g0.jugadores, g0.turno)
        &&& paso->jugador < g0.jugadores.len()
        &&& vivo(g0.jugadores[paso->jugador as int])
        &&& paso->evento_sorpresa == toca_evento(g0)
        &&& g1 == (JuegoV {
            turno: paso->jugador as nat,
            evento_hecho: g0.evento_hecho || toca_evento(g0),
            ..g0
        })
    }
}

/// Primer indice, desde `k`, de un jugador con identificador `id`.
pub open spec fn indice_de_jugador(js: Seq<JugadorV>, id: nat, k: int) -> Option<int>
    decreases js.len() - k,
{
    if k < 0 || k >= js.len() {
        None
    } else if js[k].id == id {
        Some(k)
    } else {
        indice_de_jugador(js, id, k + 1)
    }
}

/// El ataque del jugador de indice `a` a la celda `c` no agrega barcos, y
/// lo que gana el atacante esta acotado por la cantidad de barcos.
pub proof fn lema_cotas_tras_ataque(g: JuegoV, a: int, c: (i32, i32), n: nat)
    requires
        0 <= a < g.jugadores.len(),
        n <= g.jugadores.len(),
    ensures
        total_barcos(tras_ataque(g, a, c).jugadores, n) <= total_barcos(g.jugadores, n),
        puntos_hasta(g.jugadores, a, c, n) <= 15 * total_barcos(g.jugadores, n),
        monedas_hasta(g.jugadores, a, c, n) <= 100 * total_barcos(g.jugadores, n),
    decreases n,
{
    if n > 0 {
        lema_cotas_tras_ataque(g, a, c, (n - 1) as nat);
        lema_cota_ataque(g.jugadores[n - 1].barcos, c);
        lema_flota_tras_ataque(g.jugadores[n - 1].barcos, c);
    }
}

/// Indice que sigue a `i` en una ronda de `n` lugares.
pub open spec fn siguiente_indice(i: int, n: int) -> int {
    if i + 1 >= n {
        0
    } else {
        i + 1
    }
}

/// Primer jugador con barcos que se encuentra recorriendo la ronda desde el
/// indice `desde`, en a lo sumo `pasos` pasos.
pub open spec fn buscar_vivo(js: Seq<JugadorV>, desde: int, pasos: nat) -> Option<int>
    decreases pasos,
{
    if pasos == 0 {
        None
    } else if vivo(js[desde]) {
        Some(desde)
    } else {
        buscar_vivo(js, siguiente_indice(desde, js.len() as int), (pasos - 1) as nat)
    }
}

/// Jugador al que le toca jugar cuando el turno apunta a `turno`: el primero
/// con barcos desde ese lugar de la ronda. Un turno fuera de la lista cuenta
/// como el primer lugar.
pub open spec fn proximo_vivo(js: Seq<JugadorV>, turno: nat) -> Option<int> {
    buscar_vivo(
        js,
        if turno < js.len() {
            turno as int
        } else {
            0
        },
        js.len(),
    )
}

/// La tabla `r` despues de sumarle, en orden, el puntaje de cada uno de los
/// primeros `n` jugadores bajo su nombre.
pub open spec fn ranking_tras_partida(r: Seq<(Seq<char>, nat)>, js: Seq<JugadorV>, n: nat) -> Seq<
    (Seq<char>, nat),
>
    decreases n,
{
    if n == 0 {
        r
    } else {
        con_puntaje(
            ranking_tras_partida(r, js, (n - 1) as nat),
            js[n - 1].nombre_usuario,
            js[n - 1].puntos,
        )
    }
}

/// Si la tabla desborda tras sumar a los primeros `n` jugadores, tambien
/// desborda tras sumar a los primeros `m`, con `n <= m`.
proof fn lema_desborda_tras_partida(
    r: Seq<(Seq<char>, nat)>,
    js: Seq<JugadorV>,
    n: nat,
    m: nat,
)
    requires
        n <= m,
        desborda(ranking_tras_partida(r, js, n)),
    ensures
        desborda(ranking_tras_partida(r, js, m)),
    decreases m,
{
    if n < m {
        lema_desborda_tras_partida(r, js, n, (m - 1) as nat);
        lema_desborda_con_puntaje(
            ranking_tras_partida(r, js, (m - 1) as nat),
            js[m - 1].nombre_usuario,
            js[m - 1].puntos,
        );
    }
}

/// Motivo de rechazo de la consulta de una tabla de posiciones vacia.
pub open spec fn motivo_ranking_vacio() -> Seq<char> {
    "El ranking esta vacio"@
}

/// Envio del rechazo de una accion al jugador `j`.
pub open spec fn envio_repetir(j: JugadorV, motivo: Seq<char>) -> EnvioV {
    EnvioV {
        destinatario: j.id,
        mensaje: MensajeV::RepetirAccion(motivo, resumen_de(j.barcos), j.monedas),
    }
}

/// `g1`, `completa` y `envios` son el resultado de que el jugador de indice
/// `a` de la partida `g0` envie `instruccion`, con la tabla de posiciones
/// `ranking`.
pub open spec fn es_respuesta(
    g0: JuegoV,
    g1: JuegoV,
    completa: bool,
    envios: Seq<EnvioV>,
    instruccion: Instruccion,
    a: int,
    ranking: Seq<(Seq<char>, nat)>,
) -> bool {
    let j = g0.jugadores[a];
    match instruccion {
        Instruccion::Movimiento(b, c) => match rechazo_movimiento(g0.mapa, j, b as nat, c) {
            Some(motivo) => !completa && g1 == g0 && envios == seq![envio_repetir(j, motivo)],
            None => completa && g1 == tras_movimiento(g0, a, b as int, c) && envios == Seq::<
                EnvioV,
            >::empty(),
        },
        Instruccion::Ataque(_, c) => completa && g1 == tras_ataque(g0, a, c) && envios
            == envios_de_ataque(g0, a, c),
        Instruccion::Compra(tipo) => match rechazo_compra(g0.mapa, j, tipo as nat) {
            Some(motivo) => !completa && g1 == g0 && envios == seq![envio_repetir(j, motivo)],
            None => completa && es_compra(g0, g1, a, tipo as nat) && envios == seq![
                EnvioV {
                    destinatario: j.id,
                    mensaje: MensajeV::CompraExitosa(g1.jugadores[a].monedas, tipo as nat),
                },
            ],
        },
        Instruccion::Saltar => completa && g1 == g0 && envios == Seq::<EnvioV>::empty(),
        Instruccion::Ranking => g1 == g0 && (if ranking.len() == 0 {
            !completa && envios == seq![envio_repetir(j, motivo_ranking_vacio())]
        } else {
            completa && envios == seq![
                EnvioV { destinatario: j.id, mensaje: MensajeV::Ranking(ordenado(ranking)) },
            ]
        }),
    }
}

/// Envios con los que se le pide su accion al jugador de indice `a`: el
/// aviso de que le toca y, si le quedan barcos, el tablero que ve, el
/// resumen de su flota y sus monedas.
pub open spec fn envios_de_pedido(g: JuegoV, a: int) -> Seq<EnvioV> {
    let j = g.jugadores[a];
    let aviso = EnvioV { destinatario: j.id, mensaje: MensajeV::RealiceAccion };
    if vivo(j) {
        seq![
            aviso,
            EnvioV {
                destinatario: j.id,
                mensaje: MensajeV::Tablero(
                    vista_de(g.mapa, marcador_de(j.id)),
                    resumen_de(j.barcos),
                    j.monedas,
                ),
            },
        ]
    } else {
        seq![aviso]
    }
}

/// Avisos de fin de partida para los primeros `n` jugadores: cada jugador
/// que no fue eliminado recibe el nombre y el puntaje del ganador, el
/// jugador de indice `w`.
pub open spec fn avisos_de_fin(js: Seq<JugadorV>, w: int, n: nat) -> Seq<EnvioV>
    decreases n,
{
    if n == 0 {
        Seq::empty()
    } else {
        avisos_de_fin(js, w, (n - 1) as nat) + (if js[n - 1].ha_perdido {
            Seq::empty()
        } else {
            seq![
                EnvioV {
                    destinatario: js[n - 1].id,
                    mensaje: MensajeV::FinPartida(js[w].nombre_usuario, js[w].puntos),
                },
            ]
        })
    }
}

/// Envios del cierre de una partida que gano el jugador de indice `w`: la
/// felicitacion al ganador y despues el aviso de fin a cada jugador que no
/// fue eliminado.
pub open spec fn envios_de_cierre(js: Seq<JugadorV>, w: int) -> Seq<EnvioV> {
    seq![EnvioV { destinatario: js[w].id, mensaje: MensajeV::Ganaste(js[w].puntos) }]
        + avisos_de_fin(js, w, js.len())
}

/// Mensaje de rechazo para el jugador: el motivo, el resumen de su flota y
/// sus monedas.
pub fn repetir_accion(motivo: &str, jugador: &Jugador, mapa: &Mapa) -> (m: Mensaje)
    ensures
        m@ == MensajeV::RepetirAccion(
            motivo@,
            resumen_de(jugador@.barcos),
            jugador.monedas as nat,
        ),
{
    Mensaje::RepetirAccion(
        motivo.to_owned(),
        mapa.serializar_barcos(&jugador.barcos),
        jugador.monedas,
    )
}

impl Juego {
    /// Crea una partida con un tablero vacio y `numero_jugadores` jugadores
    /// sin nombre, con identificadores consecutivos desde 0, cada uno con su
    /// barco inicial colocado al azar.
    pub fn new(numero_jugadores: usize) -> (g: Juego)
        ensures
            g.mapa.wf(),
            coherente(g@),
            g@.jugadores.len() == numero_jugadores,
            g@.turno == 0,
            g@.rondas == 0,
            !g@.evento_hecho,
            numero_jugadores == 0 ==> forall|c: (i32, i32)|
                en_tablero(g@.mapa, c) ==> celda(g@.mapa, c) == VACIO,
            numero_jugadores <= LADO * LADO ==> forall|i: int|
                0 <= i < numero_jugadores ==> (#[trigger] g@.jugadores[i]).barcos.len() == 1,
            forall|i: int|
                0 <= i < numero_jugadores ==> {
                    let j = #[trigger] g@.jugadores[i];
                    &&& j.id == i
                    &&& j.nombre_usuario == Seq::<char>::empty()
                    &&& j.puntos == 0
                    &&& j.monedas == MONEDAS_INICIALES
                    &&& !j.ha_perdido
                    &&& j.barcos.len() <= 1
                },
    {
        let mut juego = Juego {
            mapa: Mapa::new(),
            jugadores: Vec::new(),
            turno: 0,
            rondas: 0,
            evento_hecho: false,
        };
        proof {
            lema_tablero_vacio(juego@.mapa, (LADO * LADO) as nat);
            lema_partida_vacia(juego@);
        }
        let mut i: usize = 0;
        while i < numero_jugadores
            invariant
                i <= numero_jugadores,
                juego.mapa.wf(),
                coherente(juego@),
                juego@.jugadores.len() == i,
                juego@.turno == 0,
                juego@.rondas == 0,
                !juego@.evento_hecho,
                i == 0 ==> forall|c: (i32, i32)|
                    en_tablero(juego@.mapa, c) ==> celda(juego@.mapa, c) == VACIO,
                ocupadas_hasta(juego@.mapa, (LADO * LADO) as nat) <= i,
                i <= LADO * LADO ==> forall|k: int|
                    0 <= k < i ==> (#[trigger] juego@.jugadores[k]).barcos.len() == 1,
                forall|k: int|
                    0 <= k < i ==> {
                        let j = #[trigger] juego@.jugadores[k];
                        &&& j.id == k
                        &&& j.nombre_usuario == Seq::<char>::empty()
                        &&& j.puntos == 0
                        &&& j.monedas == MONEDAS_INICIALES
                        &&& !j.ha_perdido
                        &&& j.barcos.len() <= 1
                    },
            decreases numero_jugadores - i,
        {
            let ghost antes = juego@.jugadores;
            let ghost t0 = juego@.mapa;
            juego.agregar_jugador(i, String::new());
            assert forall|k: int| 0 <= k < i implies #[trigger] juego@.jugadores[k] == antes[k] by {
                assert(juego@.jugadores.drop_last()[k] == antes[k]);
            }
            proof {
                let nuevo = juego@.jugadores[i as int];
                if i < LADO * LADO {
                    lema_hay_lugar(t0);
                }
                if hay_region(t0, 1) {
                    let o = choose|o: (i32, i32)|
                        en_tablero(t0, o) && nuevo.barcos[0].posiciones == #[trigger] contiguas_libres(
                            t0,
                            o,
                            1,
                        );
                    lema_contiguas_libres(t0, o, 1);
                    lema_ocupadas_tras_estampar(
                        t0,
                        nuevo.barcos[0].posiciones,
                        marcador_de(i as nat),
                        (LADO * LADO) as nat,
                    );
                }
            }
            i = i + 1;
        }
        juego
    }

    /// Agrega al final de la lista un jugador nuevo con el identificador y
    /// el nombre dados, y le coloca su barco inicial en el tablero.
    pub fn agregar_jugador(&mut self, id_jugador: usize, nombre: String)
        ensures
            final(self)@.jugadores.len() == old(self)@.jugadores.len() + 1,
            final(self)@.jugadores.drop_last() == old(self)@.jugadores,
            es_ingreso(
                old(self)@.mapa,
                final(self)@.mapa,
                final(self)@.jugadores.last(),
                id_jugador as nat,
                nombre@,
            ),
            final(self)@.turno == old(self)@.turno,
            final(self)@.rondas == old(self)@.rondas,
            final(self)@.evento_hecho == old(self)@.evento_hecho,
            misma_forma(old(self)@.mapa, final(self)@.mapa),
            old(self).mapa.wf() ==> final(self).mapa.wf(),
            coherente(old(self)@) ==> coherente(final(self)@),
    {
        let jugador = Jugador::new(id_jugador, nombre, &mut self.mapa);
        self.jugadores.push(jugador);
        assert(self@.jugadores =~= old(self)@.jugadores.push(jugador@));
        assert(self@.jugadores.drop_last() =~= old(self)@.jugadores);
        proof {
            if coherente(old(self)@) {
                lema_ingreso_conserva(old(self)@, self@, id_jugador as nat, nombre@);
            }
        }
    }

    /// Quita de la partida a todos los jugadores con el identificador dado;
    /// los demas conservan su orden. Si el turno queda apuntando fuera de la
    /// lista, vuelve al primer lugar.
    pub fn eliminar_jugador(&mut self, id_jugador: usize)
        ensures
            final(self)@.jugadores == sin_jugador(old(self)@.jugadores, id_jugador as nat),
            final(self)@.mapa == old(self)@.mapa,
            final(self)@.rondas == old(self)@.rondas,
            final(self)@.evento_hecho == old(self)@.evento_hecho,
            final(self)@.turno == (if old(self)@.turno < final(self)@.jugadores.len() {
                old(self)@.turno
            } else {
                0
            }),
            coherente(old(self)@) ==> coherente(final(self)@),
    {
        let ghost js = self@.jugadores;
        let mut i: usize = 0;
        let ghost mut k: int = 0;
        proof {
            reveal(Seq::filter);
            assert(js.take(0) =~= Seq::empty());
            assert(js.skip(0) =~= js);
            assert(self@.jugadores =~= sin_jugador(js.take(0), id_jugador as nat) + js.skip(0));
        }
        while i < self.jugadores.len()
            invariant
                js == old(self)@.jugadores,
                0 <= k <= js.len(),
                i == sin_jugador(js.take(k), id_jugador as nat).len(),
                self@.jugadores == sin_jugador(js.take(k), id_jugador as nat) + js.skip(k),
                self.mapa == old(self).mapa,
                self.turno == old(self).turno,
                self.rondas == old(self).rondas,
                self.evento_hecho == old(self).evento_hecho,
            decreases js.len() - k,
        {
            proof {
                lema_sin_jugador_paso(js, k, id_jugador as nat);
                assert(self@.jugadores[i as int] == js.skip(k)[0]);
            }
            let ghost antes = self@.jugadores;
            if self.jugadores[i].id == id_jugador {
                self.jugadores.remove(i);
                assert(self@.jugadores =~= antes.remove(i as int));
                assert(self@.jugadores =~= sin_jugador(js.take(k + 1), id_jugador as nat)
                    + js.skip(k + 1));
            } else {
                assert(self@.jugadores =~= sin_jugador(js.take(k + 1), id_jugador as nat)
                    + js.skip(k + 1));
                i = i + 1;
            }
            proof {
                k = k + 1;
            }
        }
        proof {
            assert(k == js.len()) by {
                if k < js.len() {
                    assert((sin_jugador(js.take(k), id_jugador as nat) + js.skip(k)).len() > i);
                }
            }
            assert(js.take(k) =~= js);
            assert(js.skip(k) =~= Seq::empty());
        }
        if self.turno >= self.jugadores.len() {
            self.turno = 0;
        }
        proof {
            if coherente(old(self)@) {
                lema_eliminar_conserva(old(self)@, self@, id_jugador as nat);
            }
        }
    }

    /// Indice del primer jugador con el identificador dado, si hay alguno.
    pub fn buscar_jugador(&self, id_jugador: usize) -> (r: Option<usize>)
        ensures
            match r {
                Some(i) => indice_de_jugador(self@.jugadores, id_jugador as nat, 0) == Some(
                    i as int,
                ) && i < self@.jugadores.len(),
                None => indice_de_jugador(self@.jugadores, id_jugador as nat, 0) is None,
            },
    {
        let mut i: usize = 0;
        while i < self.jugadores.len()
            invariant
                i <= self.jugadores@.len(),
                indice_de_jugador(self@.jugadores, id_jugador as nat, 0) == indice_de_jugador(
                    self@.jugadores,
                    id_jugador as nat,
                    i as int,
                ),
            decreases self.jugadores@.len() - i,
        {
            assert(self@.jugadores[i as int] == self.jugadores@[i as int]@);
            if self.jugadores[i].id == id_jugador {
                return Some(i);
            }
            i = i + 1;
        }
        None
    }

    /// Indica si la partida termino: a lo sumo a un jugador le quedan barcos.
    pub fn finalizo(&self) -> (b: bool)
        ensures
            b == terminada(self@.jugadores),
    {
        let mut vivos: usize = 0;
        let mut primero: usize = 0;
        let mut i: usize = 0;
        while i < self.jugadores.len()
            invariant
                i <= self.jugadores@.len(),
                vivos <= 2,
                vivos == 0 ==> nadie_vivo(self@.jugadores.take(i as int)),
                vivos == 1 ==> unico_vivo(self@.jugadores.take(i as int), primero as int),
                vivos == 2 ==> exists|p: int, q: int|
                    0 <= p < q < i && vivo(#[trigger] self@.jugadores[p]) && vivo(
                        #[trigger] self@.jugadores[q],
                    ),
            decreases self.jugadores@.len() - i,
        {
            let ghost js = self@.jugadores;
            if self.jugadores[i].esta_vivo() {
                if vivos == 0 {
                    primero = i;
                    vivos = 1;
                    assert(unico_vivo(js.take(i + 1), primero as int)) by {
                        assert forall|k: int| 0 <= k < i + 1 && k != primero implies !vivo(
                            #[trigger] js.take(i + 1)[k],
                        ) by {
                            assert(js.take(i + 1)[k] == js.take(i as int)[k]);
                        }
                    }
                } else if vivos == 1 {
                    vivos = 2;
                    assert(vivo(js.take(i as int)[primero as int]));
                    assert(vivo(js[primero as int]) && vivo(js[i as int]));
                }
            } else {
                if vivos == 0 {
                    assert forall|k: int| 0 <= k < i + 1 implies !vivo(
                        #[trigger] js.take(i + 1)[k],
                    ) by {
                        if k < i {
                            assert(js.take(i + 1)[k] == js.take(i as int)[k]);
                        }
                    }
                } else if vivos == 1 {
                    assert(unico_vivo(js.take(i + 1), primero as int)) by {
                        assert(js.take(i + 1)[primero as int] == js.take(i as int)[primero as int]);
                        assert forall|k: int| 0 <= k < i + 1 && k != primero implies !vivo(
                            #[trigger] js.take(i + 1)[k],
                        ) by {
                            if k < i {
                                assert(js.take(i + 1)[k] == js.take(i as int)[k]);
                            }
                        }
                    }
                }
            }
            i = i + 1;
        }
        proof {
            let js = self@.jugadores;
            assert(js.take(js.len() as int) =~= js);
            if vivos == 2 {
                let (p, q) = choose|p: int, q: int|
                    0 <= p < q < i && vivo(#[trigger] js[p]) && vivo(#[trigger] js[q]);
                assert(!nadie_vivo(js));
                assert forall|w: int| !unico_vivo(js, w) by {
                    if unico_vivo(js, w) {
                        if w != p {
                            assert(!vivo(js[p]));
                        } else {
                            assert(!vivo(js[q]));
                        }
                    }
                }
            }
        }
        vivos <= 1
    }

    /// Indice del ganador: el unico jugador al que le quedan barcos. No hay
    /// ganador si quedan barcos de varios jugadores o de ninguno.
    pub fn ganador(&self) -> (r: Option<usize>)
        ensures
            match r {
                Some(i) => unico_vivo(self@.jugadores, i as int),
                None => forall|i: int| !unico_vivo(self@.jugadores, i),
            },
    {
        let mut primero: Option<usize> = None;
        let mut i: usize = 0;
        while i < self.jugadores.len()
            invariant
                i <= self.jugadores@.len(),
                match primero {
                    Some(p) => p < i && vivo(self@.jugadores[p as int]) && forall|k: int|
                        0 <= k < i && k != p ==> !vivo(#[trigger] self@.jugadores[k]),
                    None => forall|k: int| 0 <= k < i ==> !vivo(#[trigger] self@.jugadores[k]),
                },
            decreases self.jugadores@.len() - i,
        {
            if self.jugadores[i].esta_vivo() {
                match primero {
                    Some(p) => {
                        assert forall|w: int| !unico_vivo(self@.jugadores, w) by {
                            if unico_vivo(self@.jugadores, w) {
                                if w != p {
                                    assert(!vivo(self@.jugadores[p as int]));
                                } else {
                                    assert(!vivo(self@.jugadores[i as int]));
                                }
                            }
                        }
                        return None;
                    },
                    None => {
                        primero = Some(i);
                    },
                }
            }
            i = i + 1;
        }
        proof {
            if primero is None {
                assert forall|w: int| !unico_vivo(self@.jugadores, w) by {
                    if unico_vivo(self@.jugadores, w) {
                        assert(!vivo(self@.jugadores[w]));
                    }
                }
            }
        }
        primero
    }

    /// Resuelve la compra de un barco de tipo `barco` para el jugador de
    /// indice `jugador_actual`. Una compra rechazada no cambia nada y
    /// devuelve el mensaje de rechazo; una aceptada coloca el barco al azar,
    /// descuenta el precio y devuelve el aviso de compra.
    pub fn abrir_tienda(&mut self, jugador_actual: usize, barco: usize) -> (r: Result<
        Mensaje,
        Mensaje,
    >)
        requires
            jugador_actual < old(self).jugadores@.len(),
        ensures
            match rechazo_compra(
                old(self)@.mapa,
                old(self)@.jugadores[jugador_actual as int],
                barco as nat,
            ) {
                Some(motivo) => {
                    &&& r is Err
                    &&& r->Err_0@ == MensajeV::RepetirAccion(
                        motivo,
                        resumen_de(old(self)@.jugadores[jugador_actual as int].barcos),
                        old(self)@.jugadores[jugador_actual as int].monedas,
                    )
                    &&& final(self)@ == old(self)@
                },
                None => {
                    &&& r is Ok
                    &&& r->Ok_0@ == MensajeV::CompraExitosa(
                        final(self)@.jugadores[jugador_actual as int].monedas,
                        barco as nat,
                    )
                    &&& es_compra(old(self)@, final(self)@, jugador_actual as int, barco as nat)
                },
            },
            misma_forma(old(self)@.mapa, final(self)@.mapa),
            coherente(old(self)@) ==> coherente(final(self)@),
    {
        let costo: usize = match precio(barco) {
            Some(p) => p,
            None => {
                return Err(
                    repetir_accion(
                        "El barco elegido no esta en la tienda, elija otra accion u otro barco.",
                        &self.jugadores[jugador_actual],
                        &self.mapa,
                    ),
                );
            },
        };
        if self.jugadores[jugador_actual].monedas < costo {
            return Err(
                repetir_accion(
                    "No cuenta con el dinero suficiente para comprar ese barco",
                    &self.jugadores[jugador_actual],
                    &self.mapa,
                ),
            );
        }
        let cantidad = self.jugadores[jugador_actual].barcos.len();
        self.jugadores[jugador_actual].agregar_barco(barco, &mut self.mapa);
        assert(self@.jugadores[jugador_actual as int].barcos.len()
            == self.jugadores@[jugador_actual as int].barcos@.len());
        assert(old(self)@.jugadores[jugador_actual as int].barcos.len() == cantidad);
        if self.jugadores[jugador_actual].barcos.len() == cantidad {
            assert(self@.jugadores =~= old(self)@.jugadores);
            return Err(
                repetir_accion(
                    "No hay lugar en el tablero para un barco de ese tamaño.",
                    &self.jugadores[jugador_actual],
                    &self.mapa,
                ),
            );
        }
        self.jugadores[jugador_actual].monedas = self.jugadores[jugador_actual].monedas - costo;
        assert(self@.jugadores =~= old(self)@.jugadores.update(
            jugador_actual as int,
            self@.jugadores[jugador_actual as int],
        ));
        proof {
            if coherente(old(self)@) {
                lema_compra_conserva(old(self)@, self@, jugador_actual as int, barco as nat);
            }
        }
        Ok(Mensaje::CompraExitosa(self.jugadores[jugador_actual].monedas, barco))
    }

    /// Resuelve la instruccion de mover el barco de indice `barco_id` del
    /// jugador de indice `jugador_actual` hacia `cordenadas`. Un movimiento
    /// rechazado no cambia nada y devuelve el mensaje de rechazo para el
    /// jugador; uno aceptado actualiza juntos el barco y el tablero.
    pub fn procesar_movimiento(
        &mut self,
        barco_id: usize,
        cordenadas: (i32, i32),
        jugador_actual: usize,
    ) -> (r: Result<(), Mensaje>)
        requires
            jugador_actual < old(self).jugadores@.len(),
        ensures
            match rechazo_movimiento(
                old(self)@.mapa,
                old(self)@.jugadores[jugador_actual as int],
                barco_id as nat,
                cordenadas,
            ) {
                Some(motivo) => {
                    &&& r is Err
                    &&& r->Err_0@ == MensajeV::RepetirAccion(
                        motivo,
                        resumen_de(old(self)@.jugadores[jugador_actual as int].barcos),
                        old(self)@.jugadores[jugador_actual as int].monedas,
                    )
                    &&& final(self)@ == old(self)@
                },
                None => {
                    &&& r is Ok
                    &&& final(self)@ == tras_movimiento(
                        old(self)@,
                        jugador_actual as int,
                        barco_id as int,
                        cordenadas,
                    )
                },
            },
            misma_forma(old(self)@.mapa, final(self)@.mapa),
            coherente(old(self)@) ==> coherente(final(self)@),
    {
        if barco_id >= self.jugadores[jugador_actual].barcos.len() {
            return Err(
                repetir_accion(
                    "El barco seleccionado no existe, elija otra accion u otro barco.",
                    &self.jugadores[jugador_actual],
                    &self.mapa,
                ),
            );
        }
        let barco = self.jugadores[jugador_actual].obtener_barco(barco_id);
        if barco.estado != EstadoBarco::Sano {
            return Err(
                repetir_accion(
                    "El barco seleccionado esta golpeado, no se puede mover, elija otra accion u otro barco.",
                    &self.jugadores[jugador_actual],
                    &self.mapa,
                ),
            );
        }
        let coordenadas_contiguas = self.mapa.obtener_coordenadas_contiguas(cordenadas, barco.tamano);
        if coordenadas_contiguas.len() == 0 {
            return Err(
                repetir_accion(
                    "No hay suficientes espacios contiguos disponibles para mover el barco.",
                    &self.jugadores[jugador_actual],
                    &self.mapa,
                ),
            );
        }
        self.jugadores[jugador_actual].actualizar_posicion_barco(
            coordenadas_contiguas,
            barco_id,
            &mut self.mapa,
        );
        proof {
            let g = old(self)@;
            let j = g.jugadores[jugador_actual as int];
            let region = contiguas_libres(g.mapa, cordenadas, j.barcos[barco_id as int].tamano);
            assert(destino_de(region, j.barcos[barco_id as int].tamano) == region);
            assert(libre(g.mapa, region[0]));
            assert(alguna_en_tablero(g.mapa, region));
            assert(self@.jugadores =~= tras_movimiento(
                g,
                jugador_actual as int,
                barco_id as int,
                cordenadas,
            ).jugadores);
            if coherente(g) {
                lema_movimiento_conserva(g, jugador_actual as int, barco_id as int, cordenadas);
            }
        }
        Ok(())
    }
    /// Cantidad de barcos de todos los jugadores, o `None` si no cabe en un
    /// `usize`.
    pub fn contar_barcos(&self) -> (r: Option<usize>)
        ensures
            match r {
                Some(t) => t == total_barcos(self@.jugadores, self@.jugadores.len()),
                None => total_barcos(self@.jugadores, self@.jugadores.len()) > usize::MAX,
            },
    {
        let mut total: usize = 0;
        let mut i: usize = 0;
        while i < self.jugadores.len()
            invariant
                i <= self.jugadores@.len(),
                total == total_barcos(self@.jugadores, i as nat),
            decreases self.jugadores@.len() - i,
        {
            let n = self.jugadores[i].barcos.len();
            if n > usize::MAX - total {
                proof {
                    lema_total_barcos_monotono(
                        self@.jugadores,
                        (i + 1) as nat,
                        self@.jugadores.len(),
                    );
                }
                return None;
            }
            total = total + n;
            i = i + 1;
        }
        Some(total)
    }

    /// Indica si los puntos y las monedas que el jugador de indice
    /// `jugador_actual` puede ganar con un ataque caben en su puntaje y en su
    /// bolsa.
    pub fn puede_atacar(&self, jugador_actual: usize) -> (b: bool)
        requires
            jugador_actual < self.jugadores@.len(),
        ensures
            b == cabe_ataque(self@, jugador_actual as int),
    {
        let total = match self.contar_barcos() {
            Some(t) => t,
            None => {
                return false;
            },
        };
        if total > usize::MAX / 100 {
            return false;
        }
        let puntos = self.jugadores[jugador_actual].puntos;
        let monedas = self.jugadores[jugador_actual].monedas;
        puntos <= usize::MAX - 15 * total && monedas <= usize::MAX - 100 * total
    }

    /// Resuelve el ataque del jugador de indice `jugador_actual` a la celda
    /// `coordenadas_ataque` contra la flota de cada uno de los demas
    /// jugadores. Devuelve si algun jugador quedo eliminado y los mensajes
    /// que hay que enviar, cada uno con su destinatario.
    pub fn procesar_ataque(&mut self, coordenadas_ataque: (i32, i32), jugador_actual: usize) -> (r: (
        bool,
        Vec<Envio>,
    ))
        requires
            jugador_actual < old(self).jugadores@.len(),
            cabe_ataque(old(self)@, jugador_actual as int),
        ensures
            final(self)@ == tras_ataque(old(self)@, jugador_actual as int, coordenadas_ataque),
            envios_v(r.1@) == envios_de_ataque(
                old(self)@,
                jugador_actual as int,
                coordenadas_ataque,
            ),
            r.0 == alguien_pierde(
                old(self)@,
                jugador_actual as int,
                coordenadas_ataque,
                old(self)@.jugadores.len(),
            ),
            misma_forma(old(self)@.mapa, final(self)@.mapa),
            coherente(old(self)@) ==> coherente(final(self)@),
    {
        let ghost g = self@;
        let ghost a = jugador_actual as int;
        let c = coordenadas_ataque;
        let n = self.jugadores.len();
        let mut envios: Vec<Envio> = Vec::new();
        let mut pierde = false;
        let mut puntos_ganados: usize = 0;
        let mut monedas_ganadas: usize = 0;
        let mut i: usize = 0;
        assert(envios_v(envios@) =~= envios_hasta(g.jugadores, a, c, 0));
        while i < n
            invariant
                i <= n,
                n == g.jugadores.len(),
                a == jugador_actual as int,
                0 <= a < n,
                c == coordenadas_ataque,
                g == old(self)@,
                cabe_ataque(g, a),
                self@.jugadores.len() == n,
                self.turno == old(self).turno,
                self.rondas == old(self).rondas,
                self.evento_hecho == old(self).evento_hecho,
                forall|k: int|
                    0 <= k < i && k != a ==> #[trigger] self@.jugadores[k] == victima_tras_ataque(
                        g.jugadores[k],
                        c,
                    ),
                forall|k: int|
                    0 <= k < n && (i <= k || k == a) ==> #[trigger] self@.jugadores[k]
                        == g.jugadores[k],
                puntos_ganados == puntos_hasta(g.jugadores, a, c, i as nat),
                monedas_ganadas == monedas_hasta(g.jugadores, a, c, i as nat),
                puntos_ganados <= 15 * total_barcos(g.jugadores, i as nat),
                monedas_ganadas <= 100 * total_barcos(g.jugadores, i as nat),
                envios_v(envios@) == envios_hasta(g.jugadores, a, c, i as nat),
                pierde == alguien_pierde(g, a, c, i as nat),
                self.mapa@ == (if puntos_ganados > 0 {
                    con_celda(g.mapa, c, HUNDIDO)
                } else {
                    g.mapa
                }),
                misma_forma(g.mapa, self.mapa@),
            decreases n - i,
        {
            proof {
                lema_total_barcos_monotono(g.jugadores, (i + 1) as nat, n as nat);
                lema_cota_ataque(g.jugadores[i as int].barcos, c);
            }
            let ghost antes = self@.jugadores;
            let ghost envios_antes = envios_v(envios@);
            assert(self@.jugadores[i as int] == g.jugadores[i as int]);
            assert(total_barcos(g.jugadores, (i + 1) as nat) == total_barcos(
                g.jugadores,
                i as nat,
            ) + g.jugadores[i as int].barcos.len());
            if i != jugador_actual {
                let (puntos, monedas, mut avisos) = self.jugadores[i].procesar_ataque(
                    c,
                    &mut self.mapa,
                );
                let ghost avisos_antes = envios_v(avisos@);
                assert(self@.jugadores[i as int].barcos.len() == self.jugadores@[i as int].barcos@.len());
                if self.jugadores[i].barcos.len() == 0 && !self.jugadores[i].ha_perdido {
                    self.jugadores[i].ha_perdido = true;
                    let derrota = Envio {
                        destinatario: self.jugadores[i].id,
                        mensaje: Mensaje::Perdiste(self.jugadores[i].puntos),
                    };
                    avisos.push(derrota);
                    assert(envios_v(avisos@) =~= avisos_antes.push(derrota@));
                    pierde = true;
                }
                assert(envios_v(avisos@) =~= envios_a_victima(g.jugadores[i as int], c));
                envios.append(&mut avisos);
                assert(envios_v(envios@) =~= envios_antes + envios_a_victima(
                    g.jugadores[i as int],
                    c,
                ));
                puntos_ganados = puntos_ganados + puntos;
                monedas_ganadas = monedas_ganadas + monedas;
                assert(self.mapa@ =~~= (if puntos_ganados > 0 {
                    con_celda(g.mapa, c, HUNDIDO)
                } else {
                    g.mapa
                }));
                assert forall|k: int| 0 <= k < n && k != i implies #[trigger] self@.jugadores[k]
                    == antes[k] by {}
            } else {
                assert(envios_v(envios@) =~= envios_antes + Seq::<EnvioV>::empty());
            }
            proof {
                let despues = (i + 1) as nat;
                if alguien_pierde(g, a, c, i as nat) {
                    let k = choose|k: int|
                        0 <= k < i && k != a && recien_eliminado(#[trigger] g.jugadores[k], c);
                    assert(0 <= k < despues && k != a && recien_eliminado(g.jugadores[k], c));
                }
                if alguien_pierde(g, a, c, despues) && !pierde {
                    let k = choose|k: int|
                        0 <= k < despues && k != a && recien_eliminado(
                            #[trigger] g.jugadores[k],
                            c,
                        );
                    assert(k < i);
                }
            }
            i = i + 1;
        }
        let atacante = self.jugadores[jugador_actual].id;
        assert(self@.jugadores[a] == g.jugadores[a]);
        let ghost victimas = self@.jugadores;
        self.jugadores[jugador_actual].puntos = self.jugadores[jugador_actual].puntos
            + puntos_ganados;
        self.jugadores[jugador_actual].monedas = self.jugadores[jugador_actual].monedas
            + monedas_ganadas;
        let ghost envios_antes = envios_v(envios@);
        envios.push(
            Envio {
                destinatario: atacante,
                mensaje: Mensaje::MensajeInfoAtaque(puntos_ganados, monedas_ganadas),
            },
        );
        assert(envios_v(envios@) =~= envios_de_ataque(g, a, c));
        assert forall|k: int| 0 <= k < n implies #[trigger] self@.jugadores[k] == tras_ataque(
            g,
            a,
            c,
        ).jugadores[k] by {
            if k != a {
                assert(self@.jugadores[k] == victimas[k]);
            }
        }
        assert(self@.jugadores =~= tras_ataque(g, a, c).jugadores);
        proof {
            if coherente(g) {
                lema_ataque_conserva(g, a, c);
            }
        }
        (pierde, envios)
    }
    /// Suma a la tabla de posiciones el puntaje de cada jugador de la
    /// partida bajo su nombre. Falla, con `ErrorMostrandoRanking`, cuando
    /// algun puntaje acumulado no cabe en un `usize`.
    pub fn actualizar_ranking(&self, ranking: Vec<(String, usize)>) -> (r: Result<
        Vec<(String, usize)>,
        CustomError,
    >)
        ensures
            r is Ok <==> !desborda(
                ranking_tras_partida(ranking_v(ranking@), self@.jugadores, self@.jugadores.len()),
            ),
            r is Ok ==> ranking_v(r->Ok_0@) == ranking_tras_partida(
                ranking_v(ranking@),
                self@.jugadores,
                self@.jugadores.len(),
            ),
            r is Err ==> r->Err_0 == CustomError::ErrorMostrandoRanking,
    {
        let ghost r0 = ranking_v(ranking@);
        let ghost js = self@.jugadores;
        let mut tabla = ranking;
        let mut i: usize = 0;
        while i < self.jugadores.len()
            invariant
                i <= self.jugadores@.len(),
                js == self@.jugadores,
                r0 == ranking_v(ranking@),
                ranking_v(tabla@) == ranking_tras_partida(r0, js, i as nat),
            decreases self.jugadores@.len() - i,
        {
            assert(js[i as int] == self.jugadores@[i as int]@);
            let ok = sumar_puntaje(
                &mut tabla,
                &self.jugadores[i].nombre_usuario,
                self.jugadores[i].puntos,
            );
            if !ok {
                proof {
                    assert(ranking_tras_partida(r0, js, (i + 1) as nat) == con_puntaje(
                        ranking_tras_partida(r0, js, i as nat),
                        js[i as int].nombre_usuario,
                        js[i as int].puntos,
                    ));
                    lema_desborda_tras_partida(r0, js, (i + 1) as nat, js.len());
                }
                return Err(CustomError::ErrorMostrandoRanking);
            }
            i = i + 1;
        }
        proof {
            let t = ranking_v(tabla@);
            if desborda(t) {
                let k = choose|k: int| 0 <= k < t.len() && (#[trigger] t[k]).1 > usize::MAX;
                assert(t[k].1 == tabla@[k].1);
            }
        }
        Ok(tabla)
    }

    /// Mensaje con la tabla de posiciones ordenada de mayor a menor puntaje.
    /// Una tabla vacia es un error, `ErrorRankingVacio`.
    pub fn mostrar_ranking(ranking: &Vec<(String, usize)>) -> (r: Result<Mensaje, CustomError>)
        ensures
            r is Err <==> ranking@.len() == 0,
            r is Err ==> r->Err_0 == CustomError::ErrorRankingVacio,
            r is Ok ==> r->Ok_0@ == MensajeV::Ranking(ordenado(ranking_v(ranking@))),
    {
        if ranking.len() == 0 {
            return Err(CustomError::ErrorRankingVacio);
        }
        Ok(Mensaje::Ranking(ordenar_ranking(ranking)))
    }

    /// Decide como sigue la partida. Si termino, informa el ganador y no
    /// cambia nada. Si no, pasa el turno al primer jugador con barcos desde
    /// el lugar actual de la ronda, saltando a los que no tienen, e indica
    /// si antes hay que correr el evento sorpresa, que se dispara una sola
    /// vez, en el primer turno que empieza con `EVENTO_SORPRESA` rondas
    /// jugadas o mas.
    pub fn comenzar_turno(&mut self) -> (r: Paso)
        ensures
            es_comienzo_de_turno(old(self)@, final(self)@, r),
            coherente(old(self)@) ==> coherente(final(self)@),
    {
        if self.finalizo() {
            let w = self.ganador();
            proof {
                if w is None {
                    assert(nadie_vivo(self@.jugadores)) by {
                        if !nadie_vivo(self@.jugadores) {
                            let i = choose|i: int| unico_vivo(self@.jugadores, i);
                        }
                    }
                }
            }
            return Paso::Fin(w);
        }
        let ghost js = self@.jugadores;
        let n = self.jugadores.len();
        assert(n > 0) by {
            if n == 0 {
                assert(nadie_vivo(js));
            }
        }
        let inicio: usize = if self.turno < n {
            self.turno
        } else {
            0
        };
        let mut idx: usize = inicio;
        let mut k: usize = 0;
        while k < n
            invariant
                n == js.len(),
                js == self@.jugadores,
                *self == *old(self),
                !terminada(js),
                n > 0,
                inicio < n,
                idx < n,
                k <= n,
                idx == (if inicio + k < n {
                    inicio + k
                } else {
                    inicio + k - n
                }),
                forall|m: int|
                    0 <= m < n && ((inicio <= m < inicio + k) || (0 <= m < inicio + k - n))
                        ==> !vivo(#[trigger] js[m]),
                proximo_vivo(js, old(self)@.turno) == buscar_vivo(js, idx as int, (n - k) as nat),
            decreases n - k,
        {
            assert(js[idx as int] == self.jugadores@[idx as int]@);
            if self.jugadores[idx].esta_vivo() {
                let evento = self.rondas >= EVENTO_SORPRESA && !self.evento_hecho;
                if evento {
                    self.evento_hecho = true;
                }
                self.turno = idx;
                proof {
                    if coherente(old(self)@) {
                        lema_mismas_flotas(old(self)@, self@);
                    }
                }
                return Paso::Turno { jugador: idx, evento_sorpresa: evento };
            }
            idx = if idx + 1 >= n {
                0
            } else {
                idx + 1
            };
            k = k + 1;
        }
        proof {
            assert(nadie_vivo(js));
        }
        Paso::Fin(None)
    }

    /// Mensajes con los que se le pide su accion al jugador de indice
    /// `jugador`: el aviso de que le toca y, si le quedan barcos, su vista
    /// del tablero con el resumen de su flota y sus monedas.
    pub fn pedir_accion(&self, jugador: usize) -> (r: Vec<Envio>)
        requires
            jugador < self.jugadores@.len(),
        ensures
            envios_v(r@) == envios_de_pedido(self@, jugador as int),
    {
        let id = self.jugadores[jugador].id;
        let mut envios: Vec<Envio> = Vec::new();
        let aviso = Envio { destinatario: id, mensaje: Mensaje::RealiceAccion };
        envios.push(aviso);
        assert(envios_v(envios@) =~= seq![aviso@]);
        match self.jugadores[jugador].manejar_turno(&self.mapa) {
            Some(mensaje) => {
                let tablero = Envio { destinatario: id, mensaje };
                envios.push(tablero);
                assert(envios_v(envios@) =~= seq![aviso@, tablero@]);
            },
            None => {},
        }
        envios
    }

    /// Cierra el turno del jugador al que apunta el turno: devuelve el
    /// mensaje con su puntaje, pasa el turno al lugar siguiente de la ronda
    /// y cuenta una ronda mas.
    pub fn terminar_turno(&mut self) -> (r: Envio)
        requires
            old(self)@.turno < old(self)@.jugadores.len(),
        ensures
            r@ == (EnvioV {
                destinatario: old(self)@.jugadores[old(self)@.turno as int].id,
                mensaje: MensajeV::Puntos(old(self)@.jugadores[old(self)@.turno as int].puntos),
            }),
            final(self)@ == (JuegoV {
                turno: siguiente_indice(
                    old(self)@.turno as int,
                    old(self)@.jugadores.len() as int,
                ) as nat,
                rondas: if old(self)@.rondas < usize::MAX {
                    old(self)@.rondas + 1
                } else {
                    old(self)@.rondas
                },
                ..old(self)@
            }),
            coherente(old(self)@) ==> coherente(final(self)@),
    {
        assert(self@.jugadores.len() == self.jugadores@.len());
        let envio = Envio {
            destinatario: self.jugadores[self.turno].id,
            mensaje: self.jugadores[self.turno].enviar_instrucciones(),
        };
        let n = self.jugadores.len();
        self.turno = if self.turno + 1 >= n {
            0
        } else {
            self.turno + 1
        };
        if self.rondas < usize::MAX {
            self.rondas = self.rondas + 1;
        }
        proof {
            if coherente(old(self)@) {
                lema_mismas_flotas(old(self)@, self@);
            }
        }
        envio
    }

    /// Valida y aplica la instruccion del jugador de indice
    /// `jugador_actual`. Una instruccion rechazada no cambia nada y deja el
    /// turno sin cumplir, con el mensaje de rechazo para el jugador.
    pub fn manejar_instruccion(
        &mut self,
        instruccion: Instruccion,
        jugador_actual: usize,
        ranking: &Vec<(String, usize)>,
    ) -> (r: Respuesta)
        requires
            jugador_actual < old(self).jugadores@.len(),
            instruccion is Ataque ==> cabe_ataque(old(self)@, jugador_actual as int),
        ensures
            es_respuesta(
                old(self)@,
                final(self)@,
                r.completa,
                envios_v(r.envios@),
                instruccion,
                jugador_actual as int,
                ranking_v(ranking@),
            ),
            misma_forma(old(self)@.mapa, final(self)@.mapa),
            coherente(old(self)@) ==> coherente(final(self)@),
    {
        let id = self.jugadores[jugador_actual].id;
        let mut envios: Vec<Envio> = Vec::new();
        assert(envios_v(envios@) =~= Seq::<EnvioV>::empty());
        let completa = match instruccion {
            Instruccion::Movimiento(barco_id, cordenadas) => {
                match self.procesar_movimiento(barco_id, cordenadas, jugador_actual) {
                    Ok(_) => true,
                    Err(mensaje) => {
                        let envio = Envio { destinatario: id, mensaje };
                        envios.push(envio);
                        assert(envios_v(envios@) =~= seq![envio@]);
                        false
                    },
                }
            },
            Instruccion::Ataque(_barco_id, coordenadas_ataque) => {
                let (_pierde, avisos) = self.procesar_ataque(coordenadas_ataque, jugador_actual);
                envios = avisos;
                true
            },
            Instruccion::Saltar => true,
            Instruccion::Compra(barco_elegido) => {
                match self.abrir_tienda(jugador_actual, barco_elegido) {
                    Ok(mensaje) => {
                        let envio = Envio { destinatario: id, mensaje };
                        envios.push(envio);
                        assert(envios_v(envios@) =~= seq![envio@]);
                        true
                    },
                    Err(mensaje) => {
                        let envio = Envio { destinatario: id, mensaje };
                        envios.push(envio);
                        assert(envios_v(envios@) =~= seq![envio@]);
                        false
                    },
                }
            },
            Instruccion::Ranking => {
                match Juego::mostrar_ranking(ranking) {
                    Ok(mensaje) => {
                        let envio = Envio { destinatario: id, mensaje };
                        envios.push(envio);
                        assert(envios_v(envios@) =~= seq![envio@]);
                        true
                    },
                    Err(_) => {
                        let envio = Envio {
                            destinatario: id,
                            mensaje: repetir_accion(
                                "El ranking esta vacio",
                                &self.jugadores[jugador_actual],
                                &self.mapa,
                            ),
                        };
                        envios.push(envio);
                        assert(envios_v(envios@) =~= seq![envio@]);
                        false
                    },
                }
            },
        };
        Respuesta { completa, envios }
    }

    /// Mensajes del cierre de la partida. Si hay un ganador, este recibe la
    /// felicitacion con su puntaje y cada jugador que no fue eliminado
    /// recibe el aviso de fin con el nombre y el puntaje del ganador. Si a
    /// nadie le quedan barcos, o la partida no termino, no se anuncia nada.
    pub fn cerrar_partida(&self) -> (r: Vec<Envio>)
        ensures
            match self.ganador_v() {
                Some(w) => envios_v(r@) == envios_de_cierre(self@.jugadores, w),
                None => envios_v(r@) == Seq::<EnvioV>::empty(),
            },
    {
        let mut envios: Vec<Envio> = Vec::new();
        assert(envios_v(envios@) =~= Seq::<EnvioV>::empty());
        let w = match self.ganador() {
            Some(w) => w,
            None => {
                return envios;
            },
        };
        proof {
            self.lema_ganador_unico(w as int);
        }
        let ghost js = self@.jugadores;
        assert(js[w as int] == self.jugadores@[w as int]@);
        let felicitacion = Envio {
            destinatario: self.jugadores[w].id,
            mensaje: Mensaje::Ganaste(self.jugadores[w].puntos),
        };
        envios.push(felicitacion);
        assert(envios_v(envios@) =~= seq![felicitacion@] + avisos_de_fin(js, w as int, 0));
        let mut i: usize = 0;
        while i < self.jugadores.len()
            invariant
                i <= self.jugadores@.len(),
                js == self@.jugadores,
                w < self.jugadores@.len(),
                envios_v(envios@) == seq![felicitacion@] + avisos_de_fin(js, w as int, i as nat),
            decreases self.jugadores@.len() - i,
        {
            assert(js[i as int] == self.jugadores@[i as int]@);
            assert(js[w as int] == self.jugadores@[w as int]@);
            let ghost antes = envios_v(envios@);
            if !self.jugadores[i].ha_perdido {
                let aviso = Envio {
                    destinatario: self.jugadores[i].id,
                    mensaje: Mensaje::FinPartida(
                        self.jugadores[w].nombre_usuario.clone(),
                        self.jugadores[w].puntos,
                    ),
                };
                envios.push(aviso);
                assert(envios_v(envios@) =~= antes.push(aviso@));
            }
            assert(envios_v(envios@) =~= seq![felicitacion@] + avisos_de_fin(
                js,
                w as int,
                (i + 1) as nat,
            ));
            i = i + 1;
        }
        envios
    }

    /// Indice del unico jugador con barcos, si hay exactamente uno.
    pub open spec fn ganador_v(&self) -> Option<int> {
        if exists|i: int| unico_vivo(self@.jugadores, i) {
            Some(choose|i: int| unico_vivo(self@.jugadores, i))
        } else {
            None
        }
    }

    /// Si el jugador de indice `w` es el unico con barcos, el ganador es el.
    pub proof fn lema_ganador_unico(&self, w: int)
        requires
            unico_vivo(self@.jugadores, w),
        ensures
            self.ganador_v() == Some(w),
    {
        let i = choose|i: int| unico_vivo(self@.jugadores, i);
        if i != w {
            assert(!vivo(self@.jugadores[i]));
        }
    }
}

} // verus!
