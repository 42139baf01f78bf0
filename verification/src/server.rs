//! La sesion: registro de jugadores, votacion de comienzo, fases de la
//! partida y evento sorpresa. Aqui solo estan las decisiones; las conexiones
//! las maneja quien usa la biblioteca y se identifican por el id del
//! jugador.

use crate::juego::{
    cabe_ataque, envios_de_ataque, es_comienzo_de_turno, indice_de_jugador, lema_cotas_tras_ataque,
    lema_total_barcos_igual, monedas_de_ataque, puntos_de_ataque, total_barcos, tras_ataque, Juego,
    JuegoV, Paso,
};
use crate::invariantes::{coherente, lema_mismas_flotas};
use crate::jugador::{es_ingreso, JugadorV};
use crate::mapa::{en_tablero, celda, misma_forma, VACIO};
use crate::mensaje::{envios_v, Envio, EnvioV, Mensaje, MensajeV};
use vstd::prelude::*;

verus! {

/// Cantidad minima de jugadores conectados para preguntar por el comienzo.
pub const MINIMO_JUGADORES: usize = 2;

/// Monedas que gana quien reclama primero el evento sorpresa.
pub const PREMIO: usize = 200;

/// Cantidad de celdas del bombardeo que sigue al evento sorpresa.
pub const CANTIDAD_BOMBAS: usize = 3;

/// Fase de la sesion.
#[derive(Debug, Clone, Copy, PartialEq, Eq, Structural)]
pub enum Fase {
    EsperandoJugadores,
    PreguntandoComienzo,
    EnCurso,
    Terminada,
}

/// De la fase `antes` se puede pasar a la fase `despues`: la sesion espera
/// jugadores, pregunta por el comienzo y de ahi vuelve a esperar o pasa a
/// jugar, y una partida en curso solo puede terminar.
pub open spec fn fase_sigue(antes: Fase, despues: Fase) -> bool {
    ||| antes == despues
    ||| antes == Fase::EsperandoJugadores && despues == Fase::PreguntandoComienzo
    ||| antes == Fase::PreguntandoComienzo && despues == Fase::EsperandoJugadores
    ||| antes == Fase::PreguntandoComienzo && despues == Fase::EnCurso
    ||| antes == Fase::EnCurso && despues == Fase::Terminada
}

/// Estado de la sesion.
pub struct Server {
    pub juego: Juego,
    /// Identificadores de los jugadores con conexion activa, en orden de
    /// registro.
    pub conexiones_jugadores: Vec<usize>,
    pub next_player_id: usize,
    pub fase: Fase,
}

/// Modelo matematico de la sesion.
pub ghost struct ServerV {
    pub juego: JuegoV,
    pub conexiones: Seq<nat>,
    pub next_player_id: nat,
    pub fase: Fase,
}

/// Modelo de una lista de identificadores.
pub open spec fn ids_v(ids: Seq<usize>) -> Seq<nat> {
    ids.map_values(|id: usize| id as nat)
}

impl View for Server {
    type V = ServerV;

    open spec fn view(&self) -> ServerV {
        ServerV {
            juego: self.juego@,
            conexiones: ids_v(self.conexiones_jugadores@),
            next_player_id: self.next_player_id as nat,
            fase: self.fase,
        }
    }
}

/// Modelo de una lista de textos.
pub open spec fn textos_v(textos: Seq<String>) -> Seq<Seq<char>> {
    textos.map_values(|t: String| t@)
}

/// Modelo de una lista de respuestas: identificador de quien responde y
/// texto de la respuesta.
pub open spec fn respuestas_v(respuestas: Seq<(usize, String)>) -> Seq<(nat, Seq<char>)> {
    respuestas.map_values(|r: (usize, String)| (r.0 as nat, r.1@))
}

/// El registro de la sesion es valido: ningun identificador se repite, ni
/// entre las conexiones ni entre los jugadores, y todos son menores que el
/// proximo identificador a entregar.
pub open spec fn sesion_valida(s: ServerV) -> bool {
    &&& forall|i: int, j: int|
        0 <= i < j < s.conexiones.len() ==> s.conexiones[i] != s.conexiones[j]
    &&& forall|i: int|
        0 <= i < s.conexiones.len() ==> #[trigger] s.conexiones[i] < s.next_player_id
    &&& forall|k: int|
        0 <= k < s.juego.jugadores.len() ==> (#[trigger] s.juego.jugadores[k]).id
            < s.next_player_id
    &&& forall|k1: int, k2: int|
        0 <= k1 < k2 < s.juego.jugadores.len() ==> s.juego.jugadores[k1].id
            != s.juego.jugadores[k2].id
}

/// Algun jugador de la lista ya usa ese nombre.
pub open spec fn nombre_usado(js: Seq<JugadorV>, nombre: Seq<char>) -> bool {
    exists|i: int| 0 <= i < js.len() && (#[trigger] js[i]).nombre_usuario == nombre
}

/// Los identificadores de `ids` distintos de `id`, en el mismo orden.
pub open spec fn sin_id(ids: Seq<nat>, id: nat) -> Seq<nat> {
    ids.filter(|x: nat| x != id)
}

/// El jugador con identificador `id` fue eliminado de la partida.
pub open spec fn eliminado(js: Seq<JugadorV>, id: nat) -> bool {
    match indice_de_jugador(js, id, 0) {
        Some(i) => js[i].ha_perdido,
        None => false,
    }
}

/// Los identificadores de `ids` cuyos jugadores no fueron eliminados, en el
/// mismo orden.
pub open spec fn sin_eliminados(ids: Seq<nat>, js: Seq<JugadorV>) -> Seq<nat> {
    ids.filter(|x: nat| !eliminado(js, x))
}

/// El mismo mensaje de aviso para cada identificador de la lista.
pub open spec fn difusion(ids: Seq<nat>, mensaje: MensajeV) -> Seq<EnvioV> {
    ids.map_values(|id: nat| EnvioV { destinatario: id, mensaje })
}

/// Texto con el que un jugador vota por comenzar.
pub open spec fn texto_si() -> Seq<char> {
    "si"@
}

/// Hay exactamente `n` respuestas y todas votan por comenzar.
pub open spec fn voto_unanime(respuestas: Seq<Seq<char>>, n: nat) -> bool {
    &&& respuestas.len() == n
    &&& forall|k: int| 0 <= k < respuestas.len() ==> #[trigger] respuestas[k] == texto_si()
}

/// Texto con el que un jugador reclama el premio del evento sorpresa.
pub open spec fn texto_reclamo() -> Seq<char> {
    "primero"@
}

/// Una respuesta reclama el premio de forma valida: trae el texto del
/// reclamo y viene de un jugador conectado que esta en la partida.
pub open spec fn reclamo_valido(s: ServerV, respuesta: (nat, Seq<char>)) -> bool {
    &&& respuesta.1 == texto_reclamo()
    &&& s.conexiones.contains(respuesta.0)
    &&& indice_de_jugador(s.juego.jugadores, respuesta.0, 0) is Some
}

/// Lugar, desde `k`, de la primera respuesta que reclama el premio de forma
/// valida. Las respuestas estan en orden de llegada.
pub open spec fn primer_reclamo(s: ServerV, respuestas: Seq<(nat, Seq<char>)>, k: int) -> Option<
    int,
>
    decreases respuestas.len() - k,
{
    if k < 0 || k >= respuestas.len() {
        None
    } else if reclamo_valido(s, respuestas[k]) {
        Some(k)
    } else {
        primer_reclamo(s, respuestas, k + 1)
    }
}

/// Resultado del evento para cada respuesta, en orden de llegada: gana solo
/// la del lugar `ganadora`.
pub open spec fn resultados(respuestas: Seq<(nat, Seq<char>)>, ganadora: Option<int>) -> Seq<
    EnvioV,
> {
    Seq::new(
        respuestas.len(),
        |k: int|
            EnvioV {
                destinatario: respuestas[k].0,
                mensaje: MensajeV::EventoSorpresaResultado(ganadora == Some(k)),
            },
    )
}

/// Celda numero `k` del bombardeo.
pub open spec fn bomba(k: int) -> (i32, i32) {
    if k == 0 {
        (1, 1)
    } else if k == 1 {
        (4, 4)
    } else {
        (7, 7)
    }
}

/// La partida `g` con el premio sumado a las monedas del jugador de indice
/// `w`.
pub open spec fn con_premio(g: JuegoV, w: int) -> JuegoV {
    JuegoV {
        jugadores: g.jugadores.update(
            w,
            JugadorV { monedas: g.jugadores[w].monedas + PREMIO as nat, ..g.jugadores[w] },
        ),
        ..g
    }
}

/// La partida `g` despues de que el jugador de indice `w` ataca, en orden,
/// las primeras `n` celdas del bombardeo.
pub open spec fn bombardeo(g: JuegoV, w: int, n: nat) -> JuegoV
    decreases n,
{
    if n == 0 {
        g
    } else {
        tras_ataque(bombardeo(g, w, (n - 1) as nat), w, bomba(n - 1))
    }
}

/// Envios de los primeros `n` ataques del bombardeo del jugador de indice
/// `w`.
pub open spec fn envios_bombardeo(g: JuegoV, w: int, n: nat) -> Seq<EnvioV>
    decreases n,
{
    if n == 0 {
        Seq::empty()
    } else {
        envios_bombardeo(g, w, (n - 1) as nat) + envios_de_ataque(
            bombardeo(g, w, (n - 1) as nat),
            w,
            bomba(n - 1),
        )
    }
}

/// El premio y todo lo que el jugador de indice `w` puede ganar con el
/// bombardeo caben en su puntaje y en su bolsa.
pub open spec fn cabe_evento(g: JuegoV, w: int) -> bool {
    &&& g.jugadores[w].puntos + 15 * CANTIDAD_BOMBAS * total_barcos(
        g.jugadores,
        g.jugadores.len(),
    ) <= usize::MAX
    &&& g.jugadores[w].monedas + PREMIO + 100 * CANTIDAD_BOMBAS * total_barcos(
        g.jugadores,
        g.jugadores.len(),
    ) <= usize::MAX
}

/// El evento cabe sea quien sea el ganador.
pub open spec fn cabe_evento_para_todos(g: JuegoV) -> bool {
    forall|w: int| 0 <= w < g.jugadores.len() ==> cabe_evento(g, w)
}

/// Indice en la partida del jugador que gana el evento, si alguna respuesta
/// lo reclama de forma valida.
pub open spec fn ganador_del_evento(s: ServerV, respuestas: Seq<(nat, Seq<char>)>) -> Option<int> {
    match primer_reclamo(s, respuestas, 0) {
        Some(k) => indice_de_jugador(s.juego.jugadores, respuestas[k].0, 0),
        None => None,
    }
}

/// La partida despues del evento sorpresa: el ganador, si hay uno, recibe el
/// premio y bombardea a los demas.
pub open spec fn juego_tras_evento(g: JuegoV, ganador: Option<int>) -> JuegoV {
    match ganador {
        Some(w) => bombardeo(con_premio(g, w), w, CANTIDAD_BOMBAS as nat),
        None => g,
    }
}

/// Envios del evento sorpresa: el resultado para cada respuesta, en orden de
/// llegada, y despues los del bombardeo.
pub open spec fn envios_del_evento(s: ServerV, respuestas: Seq<(nat, Seq<char>)>) -> Seq<EnvioV> {
    resultados(respuestas, primer_reclamo(s, respuestas, 0)) + (match ganador_del_evento(
        s,
        respuestas,
    ) {
        Some(w) => envios_bombardeo(con_premio(s.juego, w), w, CANTIDAD_BOMBAS as nat),
        None => Seq::empty(),
    })
}

/// En el evento sorpresa hay a lo sumo un ganador: dos respuestas que
/// reciben el resultado de ganador son la misma respuesta.
pub proof fn lema_un_solo_ganador(
    respuestas: Seq<(nat, Seq<char>)>,
    ganadora: Option<int>,
    k1: int,
    k2: int,
)
    requires
        0 <= k1 < respuestas.len(),
        0 <= k2 < respuestas.len(),
        resultados(respuestas, ganadora)[k1].mensaje == MensajeV::EventoSorpresaResultado(true),
        resultados(respuestas, ganadora)[k2].mensaje == MensajeV::EventoSorpresaResultado(true),
    ensures
        k1 == k2,
        ganadora == Some(k1),
{
}

/// Cada identificador que queda tras quitar `id` viene de un lugar distinto
/// de la lista previa, y el orden se conserva.
proof fn lema_indices_sin_id(ids: Seq<nat>, id: nat) -> (m: Seq<int>)
    ensures
        m.len() == sin_id(ids, id).len(),
        forall|j: int|
            0 <= j < m.len() ==> 0 <= #[trigger] m[j] < ids.len() && sin_id(ids, id)[j]
                == ids[m[j]],
        forall|j: int, j2: int| 0 <= j < j2 < m.len() ==> m[j] < m[j2],
    decreases ids.len(),
{
    reveal(Seq::filter);
    if ids.len() == 0 {
        Seq::empty()
    } else {
        let antes = lema_indices_sin_id(ids.drop_last(), id);
        if ids.last() != id {
            let m = antes.push(ids.len() - 1);
            assert forall|j: int| 0 <= j < m.len() implies 0 <= #[trigger] m[j] < ids.len()
                && sin_id(ids, id)[j] == ids[m[j]] by {
                if j < antes.len() {
                    assert(ids.drop_last()[antes[j]] == ids[antes[j]]);
                }
            }
            m
        } else {
            assert forall|j: int| 0 <= j < antes.len() implies 0 <= #[trigger] antes[j] < ids.len()
                && sin_id(ids, id)[j] == ids[antes[j]] by {
                assert(ids.drop_last()[antes[j]] == ids[antes[j]]);
            }
            antes
        }
    }
}

/// Cada identificador que queda tras filtrar a los eliminados viene de un
/// lugar distinto de la lista previa, y el orden se conserva.
proof fn lema_indices_sin_eliminados(ids: Seq<nat>, js: Seq<JugadorV>) -> (m: Seq<int>)
    ensures
        m.len() == sin_eliminados(ids, js).len(),
        forall|j: int|
            0 <= j < m.len() ==> 0 <= #[trigger] m[j] < ids.len() && sin_eliminados(ids, js)[j]
                == ids[m[j]],
        forall|j: int, j2: int| 0 <= j < j2 < m.len() ==> m[j] < m[j2],
    decreases ids.len(),
{
    reveal(Seq::filter);
    if ids.len() == 0 {
        Seq::empty()
    } else {
        let antes = lema_indices_sin_eliminados(ids.drop_last(), js);
        if !eliminado(js, ids.last()) {
            let m = antes.push(ids.len() - 1);
            assert forall|j: int| 0 <= j < m.len() implies 0 <= #[trigger] m[j] < ids.len()
                && sin_eliminados(ids, js)[j] == ids[m[j]] by {
                if j < antes.len() {
                    assert(ids.drop_last()[antes[j]] == ids[antes[j]]);
                }
            }
            m
        } else {
            assert forall|j: int| 0 <= j < antes.len() implies 0 <= #[trigger] antes[j] < ids.len()
                && sin_eliminados(ids, js)[j] == ids[antes[j]] by {
                assert(ids.drop_last()[antes[j]] == ids[antes[j]]);
            }
            antes
        }
    }
}

/// Una sesion valida sigue siendo valida si sus conexiones pasan a ser una
/// parte de las que tenia, en el mismo orden, y lo demas no cambia.
proof fn lema_registro_reducido(s0: ServerV, s1: ServerV, m: Seq<int>)
    requires
        sesion_valida(s0),
        s1 == (ServerV { conexiones: s1.conexiones, ..s0 }),
        m.len() == s1.conexiones.len(),
        forall|j: int|
            0 <= j < m.len() ==> 0 <= #[trigger] m[j] < s0.conexiones.len() && s1.conexiones[j]
                == s0.conexiones[m[j]],
        forall|j: int, j2: int| 0 <= j < j2 < m.len() ==> m[j] < m[j2],
    ensures
        sesion_valida(s1),
{
    assert forall|i: int, j: int| 0 <= i < j < s1.conexiones.len() implies s1.conexiones[i]
        != s1.conexiones[j] by {
        assert(m[i] < m[j]);
    }
    assert forall|i: int| 0 <= i < s1.conexiones.len() implies #[trigger] s1.conexiones[i]
        < s1.next_player_id by {
        assert(s0.conexiones[m[i]] < s0.next_player_id);
    }
}

/// Una sesion valida sigue siendo valida si su partida conserva la lista de
/// identificadores de los jugadores y lo demas, salvo la fase, no cambia.
proof fn lema_mismos_jugadores(s0: ServerV, s1: ServerV)
    requires
        sesion_valida(s0),
        s1.conexiones == s0.conexiones,
        s1.next_player_id == s0.next_player_id,
        s1.juego.jugadores.len() == s0.juego.jugadores.len(),
        forall|k: int|
            0 <= k < s0.juego.jugadores.len() ==> (#[trigger] s1.juego.jugadores[k]).id
                == s0.juego.jugadores[k].id,
    ensures
        sesion_valida(s1),
{
    assert forall|k: int| 0 <= k < s1.juego.jugadores.len() implies (
    #[trigger] s1.juego.jugadores[k]).id < s1.next_player_id by {
        assert(s0.juego.jugadores[k].id < s0.next_player_id);
    }
    assert forall|k1: int, k2: int| 0 <= k1 < k2 < s1.juego.jugadores.len() implies s1.juego.jugadores[k1].id
        != s1.juego.jugadores[k2].id by {
        assert(s1.juego.jugadores[k1].id == s0.juego.jugadores[k1].id);
        assert(s1.juego.jugadores[k2].id == s0.juego.jugadores[k2].id);
    }
}

/// Quitar un identificador de un prefijo extendido con un elemento es
/// quitarlo del prefijo y conservar el elemento si es otro.
proof fn lema_sin_id_paso(ids: Seq<nat>, k: int, id: nat)
    requires
        0 <= k < ids.len(),
    ensures
        sin_id(ids.take(k + 1), id) == (if ids[k] != id {
            sin_id(ids.take(k), id).push(ids[k])
        } else {
            sin_id(ids.take(k), id)
        }),
{
    reveal(Seq::filter);
    assert(ids.take(k + 1).drop_last() =~= ids.take(k));
}

/// Filtrar los eliminados de un prefijo extendido con un elemento es
/// filtrarlos del prefijo y conservar el elemento si no fue eliminado.
proof fn lema_sin_eliminados_paso(ids: Seq<nat>, k: int, js: Seq<JugadorV>)
    requires
        0 <= k < ids.len(),
    ensures
        sin_eliminados(ids.take(k + 1), js) == (if !eliminado(js, ids[k]) {
            sin_eliminados(ids.take(k), js).push(ids[k])
        } else {
            sin_eliminados(ids.take(k), js)
        }),
{
    reveal(Seq::filter);
    assert(ids.take(k + 1).drop_last() =~= ids.take(k));
}

/// Celda numero `k` del bombardeo.
pub fn coordenada_bomba(k: usize) -> (c: (i32, i32))
    ensures
        c == bomba(k as int),
{
    if k == 0 {
        (1, 1)
    } else if k == 1 {
        (4, 4)
    } else {
        (7, 7)
    }
}

impl Server {
    /// Crea una sesion sin jugadores, a la espera de conexiones, con un
    /// tablero vacio.
    pub fn new() -> (s: Server)
        ensures
            s@.juego.jugadores.len() == 0,
            s@.juego.turno == 0,
            s@.juego.rondas == 0,
            !s@.juego.evento_hecho,
            s.juego.mapa.wf(),
            forall|c: (i32, i32)| en_tablero(s@.juego.mapa, c) ==> celda(s@.juego.mapa, c) == VACIO,
            s@.conexiones.len() == 0,
            s@.next_player_id == 0,
            s@.fase == Fase::EsperandoJugadores,
            coherente(s@.juego),
            sesion_valida(s@),
    {
        Server {
            juego: Juego::new(0),
            conexiones_jugadores: Vec::new(),
            next_player_id: 0,
            fase: Fase::EsperandoJugadores,
        }
    }

    /// Indica si algun jugador de la partida ya usa ese nombre.
    pub fn nombre_en_uso(&self, nombre: &String) -> (b: bool)
        ensures
            b == nombre_usado(self@.juego.jugadores, nombre@),
    {
        let mut i: usize = 0;
        while i < self.juego.jugadores.len()
            invariant
                i <= self.juego.jugadores@.len(),
                forall|k: int|
                    0 <= k < i ==> (#[trigger] self@.juego.jugadores[k]).nombre_usuario != nombre@,
            decreases self.juego.jugadores@.len() - i,
        {
            assert(self@.juego.jugadores[i as int] == self.juego.jugadores@[i as int]@);
            if self.juego.jugadores[i].nombre_usuario == *nombre {
                return true;
            }
            i = i + 1;
        }
        false
    }

    /// Indica si el jugador con ese identificador tiene conexion activa.
    pub fn esta_conectado(&self, id_jugador: usize) -> (b: bool)
        ensures
            b == self@.conexiones.contains(id_jugador as nat),
    {
        let mut i: usize = 0;
        while i < self.conexiones_jugadores.len()
            invariant
                i <= self.conexiones_jugadores@.len(),
                forall|k: int| 0 <= k < i ==> #[trigger] self@.conexiones[k] != id_jugador as nat,
            decreases self.conexiones_jugadores@.len() - i,
        {
            if self.conexiones_jugadores[i] == id_jugador {
                assert(self@.conexiones[i as int] == id_jugador as nat);
                return true;
            }
            i = i + 1;
        }
        false
    }

    /// Registra una conexion nueva con el nombre dado. Un nombre que ya usa
    /// otro jugador se rechaza, sin cambiar nada, con el mensaje
    /// `NombreEnUso`. Si no, el jugador recibe el siguiente identificador,
    /// entra en la partida con su barco inicial y queda conectado.
    pub fn handle_client(&mut self, nombre_usuario: String) -> (r: Result<usize, Mensaje>)
        requires
            old(self).next_player_id < usize::MAX,
        ensures
            nombre_usado(old(self)@.juego.jugadores, nombre_usuario@) ==> {
                &&& r is Err
                &&& r->Err_0@ == MensajeV::NombreEnUso
                &&& final(self)@ == old(self)@
            },
            !nombre_usado(old(self)@.juego.jugadores, nombre_usuario@) ==> {
                &&& r == Ok::<usize, Mensaje>(old(self).next_player_id)
                &&& final(self)@.next_player_id == old(self)@.next_player_id + 1
                &&& final(self)@.conexiones == old(self)@.conexiones.push(old(self)@.next_player_id)
                &&& final(self)@.fase == old(self)@.fase
                &&& final(self)@.juego.jugadores.drop_last() == old(self)@.juego.jugadores
                &&& final(self)@.juego.jugadores.len() == old(self)@.juego.jugadores.len() + 1
                &&& es_ingreso(
                    old(self)@.juego.mapa,
                    final(self)@.juego.mapa,
                    final(self)@.juego.jugadores.last(),
                    old(self)@.next_player_id,
                    nombre_usuario@,
                )
                &&& final(self)@.juego.turno == old(self)@.juego.turno
                &&& final(self)@.juego.rondas == old(self)@.juego.rondas
                &&& final(self)@.juego.evento_hecho == old(self)@.juego.evento_hecho
            },
            misma_forma(old(self)@.juego.mapa, final(self)@.juego.mapa),
            coherente(old(self)@.juego) ==> coherente(final(self)@.juego),
            sesion_valida(old(self)@) ==> sesion_valida(final(self)@),
    {
        if self.nombre_en_uso(&nombre_usuario) {
            return Err(Mensaje::NombreEnUso);
        }
        let jugador_id = self.next_player_id;
        self.next_player_id = self.next_player_id + 1;
        self.conexiones_jugadores.push(jugador_id);
        assert(self@.conexiones =~= old(self)@.conexiones.push(jugador_id as nat));
        self.juego.agregar_jugador(jugador_id, nombre_usuario);
        proof {
            if sesion_valida(old(self)@) {
                let s0 = old(self)@;
                let s1 = self@;
                assert forall|k: int| 0 <= k < s0.juego.jugadores.len() implies #[trigger] s1.juego.jugadores[k]
                    == s0.juego.jugadores[k] by {
                    assert(s1.juego.jugadores.drop_last()[k] == s1.juego.jugadores[k]);
                }
                assert forall|k1: int, k2: int|
                    0 <= k1 < k2 < s1.juego.jugadores.len() implies s1.juego.jugadores[k1].id
                    != s1.juego.jugadores[k2].id by {
                    assert(s0.juego.jugadores[k1].id < s0.next_player_id);
                }
                assert forall|i: int, j: int| 0 <= i < j < s1.conexiones.len() implies s1.conexiones[i]
                    != s1.conexiones[j] by {
                    assert(s0.conexiones[i] < s0.next_player_id);
                }
            }
        }
        Ok(jugador_id)
    }

    /// Quita del registro de conexiones al jugador con ese identificador.
    pub fn desconectar(&mut self, id_jugador: usize)
        ensures
            final(self)@ == (ServerV {
                conexiones: sin_id(old(self)@.conexiones, id_jugador as nat),
                ..old(self)@
            }),
            sesion_valida(old(self)@) ==> sesion_valida(final(self)@),
    {
        let ghost ids = self@.conexiones;
        let mut i: usize = 0;
        let ghost mut k: int = 0;
        proof {
            reveal(Seq::filter);
            assert(ids.take(0) =~= Seq::empty());
            assert(ids.skip(0) =~= ids);
            assert(self@.conexiones =~= sin_id(ids.take(0), id_jugador as nat) + ids.skip(0));
        }
        while i < self.conexiones_jugadores.len()
            invariant
                ids == old(self)@.conexiones,
                0 <= k <= ids.len(),
                i == sin_id(ids.take(k), id_jugador as nat).len(),
                self@.conexiones == sin_id(ids.take(k), id_jugador as nat) + ids.skip(k),
                self.juego == old(self).juego,
                self.next_player_id == old(self).next_player_id,
                self.fase == old(self).fase,
            decreases ids.len() - k,
        {
            proof {
                lema_sin_id_paso(ids, k, id_jugador as nat);
                assert(self@.conexiones[i as int] == ids.skip(k)[0]);
            }
            let ghost antes = self@.conexiones;
            if self.conexiones_jugadores[i] == id_jugador {
                self.conexiones_jugadores.remove(i);
                assert(self@.conexiones =~= antes.remove(i as int));
                assert(self@.conexiones =~= sin_id(ids.take(k + 1), id_jugador as nat) + ids.skip(
                    k + 1,
                ));
            } else {
                assert(self@.conexiones =~= sin_id(ids.take(k + 1), id_jugador as nat) + ids.skip(
                    k + 1,
                ));
                i = i + 1;
            }
            proof {
                k = k + 1;
            }
        }
        proof {
            assert(k == ids.len()) by {
                if k < ids.len() {
                    assert((sin_id(ids.take(k), id_jugador as nat) + ids.skip(k)).len() > i);
                }
            }
            assert(ids.take(k) =~= ids);
            assert(ids.skip(k) =~= Seq::empty());
            if sesion_valida(old(self)@) {
                let m = lema_indices_sin_id(ids, id_jugador as nat);
                lema_registro_reducido(old(self)@, self@, m);
            }
        }
    }

    /// Quita del registro de conexiones a los jugadores eliminados de la
    /// partida.
    pub fn retirar_eliminados(&mut self)
        ensures
            final(self)@ == (ServerV {
                conexiones: sin_eliminados(old(self)@.conexiones, old(self)@.juego.jugadores),
                ..old(self)@
            }),
            sesion_valida(old(self)@) ==> sesion_valida(final(self)@),
    {
        let ghost ids = self@.conexiones;
        let ghost js = self@.juego.jugadores;
        let mut i: usize = 0;
        let ghost mut k: int = 0;
        proof {
            reveal(Seq::filter);
            assert(ids.take(0) =~= Seq::empty());
            assert(ids.skip(0) =~= ids);
            assert(self@.conexiones =~= sin_eliminados(ids.take(0), js) + ids.skip(0));
        }
        while i < self.conexiones_jugadores.len()
            invariant
                ids == old(self)@.conexiones,
                js == old(self)@.juego.jugadores,
                0 <= k <= ids.len(),
                i == sin_eliminados(ids.take(k), js).len(),
                self@.conexiones == sin_eliminados(ids.take(k), js) + ids.skip(k),
                self.juego == old(self).juego,
                self.next_player_id == old(self).next_player_id,
                self.fase == old(self).fase,
            decreases ids.len() - k,
        {
            proof {
                lema_sin_eliminados_paso(ids, k, js);
                assert(self@.conexiones[i as int] == ids.skip(k)[0]);
            }
            let ghost antes = self@.conexiones;
            assert(self@.conexiones[i as int] == self.conexiones_jugadores@[i as int] as nat);
            let id = self.conexiones_jugadores[i];
            assert(id as nat == ids[k]);
            assert(self.juego@.jugadores == js);
            let encontrado = self.juego.buscar_jugador(id);
            let fuera = match encontrado {
                Some(lugar) => {
                    assert(indice_de_jugador(js, id as nat, 0) == Some(lugar as int));
                    assert(js[lugar as int] == self.juego.jugadores@[lugar as int]@);
                    self.juego.jugadores[lugar].ha_perdido
                },
                None => {
                    assert(indice_de_jugador(js, id as nat, 0) is None);
                    false
                },
            };
            assert(fuera == eliminado(js, ids[k]));
            if fuera {
                self.conexiones_jugadores.remove(i);
                assert(self@.conexiones =~= antes.remove(i as int));
                assert(self@.conexiones =~= sin_eliminados(ids.take(k + 1), js) + ids.skip(k + 1));
            } else {
                assert(self@.conexiones =~= sin_eliminados(ids.take(k + 1), js) + ids.skip(k + 1));
                i = i + 1;
            }
            proof {
                k = k + 1;
            }
        }
        proof {
            assert(k == ids.len()) by {
                if k < ids.len() {
                    assert((sin_eliminados(ids.take(k), js) + ids.skip(k)).len() > i);
                }
            }
            assert(ids.take(k) =~= ids);
            assert(ids.skip(k) =~= Seq::empty());
            if sesion_valida(old(self)@) {
                let m = lema_indices_sin_eliminados(ids, js);
                lema_registro_reducido(old(self)@, self@, m);
            }
        }
    }

    /// Arma el mismo aviso para cada jugador conectado: la pregunta de
    /// comienzo si `pregunta` es verdadero, el aviso de espera si no.
    fn difundir(&self, pregunta: bool) -> (r: Vec<Envio>)
        ensures
            envios_v(r@) == difusion(
                self@.conexiones,
                if pregunta {
                    MensajeV::PreguntaComienzo
                } else {
                    MensajeV::Esperando
                },
            ),
    {
        let mut envios: Vec<Envio> = Vec::new();
        let mut i: usize = 0;
        while i < self.conexiones_jugadores.len()
            invariant
                i <= self.conexiones_jugadores@.len(),
                envios@.len() == i,
                forall|k: int|
                    0 <= k < i ==> (#[trigger] envios@[k])@ == (EnvioV {
                        destinatario: self@.conexiones[k],
                        mensaje: if pregunta {
                            MensajeV::PreguntaComienzo
                        } else {
                            MensajeV::Esperando
                        },
                    }),
            decreases self.conexiones_jugadores@.len() - i,
        {
            let mensaje = if pregunta {
                Mensaje::PreguntaComienzo
            } else {
                Mensaje::Esperando
            };
            envios.push(Envio { destinatario: self.conexiones_jugadores[i], mensaje });
            i = i + 1;
        }
        assert(envios_v(envios@) =~= difusion(
            self@.conexiones,
            if pregunta {
                MensajeV::PreguntaComienzo
            } else {
                MensajeV::Esperando
            },
        ));
        envios
    }

    /// Paso previo al comienzo. Con menos de `MINIMO_JUGADORES` conectados
    /// la sesion sigue esperando y cada conectado recibe el aviso de espera;
    /// con los suficientes, pasa a preguntar y cada conectado recibe la
    /// pregunta de comienzo. Con la partida en curso o terminada no hay
    /// nada que preguntar.
    pub fn preguntar_comienzo_juego(&mut self) -> (r: Vec<Envio>)
        ensures
            old(self)@.fase == Fase::EnCurso || old(self)@.fase == Fase::Terminada ==> {
                &&& final(self)@ == old(self)@
                &&& envios_v(r@) == Seq::<EnvioV>::empty()
            },
            !(old(self)@.fase == Fase::EnCurso || old(self)@.fase == Fase::Terminada) && old(
                self,
            )@.conexiones.len() < MINIMO_JUGADORES ==> {
                &&& final(self)@ == (ServerV { fase: Fase::EsperandoJugadores, ..old(self)@ })
                &&& envios_v(r@) == difusion(old(self)@.conexiones, MensajeV::Esperando)
            },
            !(old(self)@.fase == Fase::EnCurso || old(self)@.fase == Fase::Terminada) && old(
                self,
            )@.conexiones.len() >= MINIMO_JUGADORES ==> {
                &&& final(self)@ == (ServerV { fase: Fase::PreguntandoComienzo, ..old(self)@ })
                &&& envios_v(r@) == difusion(old(self)@.conexiones, MensajeV::PreguntaComienzo)
            },
            fase_sigue(old(self)@.fase, final(self)@.fase),
    {
        if self.fase == Fase::EnCurso || self.fase == Fase::Terminada {
            let vacio: Vec<Envio> = Vec::new();
            assert(envios_v(vacio@) =~= Seq::<EnvioV>::empty());
            return vacio;
        }
        if self.conexiones_jugadores.len() < MINIMO_JUGADORES {
            self.fase = Fase::EsperandoJugadores;
            self.difundir(false)
        } else {
            self.fase = Fase::PreguntandoComienzo;
            self.difundir(true)
        }
    }

    /// Resuelve la votacion de comienzo con una respuesta por cada jugador
    /// conectado. La partida pasa a estar en curso solo si la sesion estaba
    /// preguntando, hay al menos `MINIMO_JUGADORES` conectados y todos
    /// respondieron "si"; con cualquier otra respuesta vuelve a esperar.
    pub fn comenzar_juego(&mut self, respuestas: &Vec<String>) -> (comienza: bool)
        ensures
            old(self)@.fase != Fase::PreguntandoComienzo ==> !comienza && final(self)@ == old(
                self,
            )@,
            old(self)@.fase == Fase::PreguntandoComienzo ==> {
                &&& comienza == (old(self)@.conexiones.len() >= MINIMO_JUGADORES && voto_unanime(
                    textos_v(respuestas@),
                    old(self)@.conexiones.len(),
                ))
                &&& final(self)@ == (ServerV {
                    fase: if comienza {
                        Fase::EnCurso
                    } else {
                        Fase::EsperandoJugadores
                    },
                    ..old(self)@
                })
            },
            fase_sigue(old(self)@.fase, final(self)@.fase),
    {
        if self.fase != Fase::PreguntandoComienzo {
            return false;
        }
        let mut unanime = self.conexiones_jugadores.len() >= MINIMO_JUGADORES && respuestas.len()
            == self.conexiones_jugadores.len();
        let si: String = "si".to_owned();
        let mut i: usize = 0;
        while i < respuestas.len() && unanime
            invariant
                i <= respuestas@.len(),
                si@ == texto_si(),
                unanime ==> forall|k: int|
                    0 <= k < i ==> #[trigger] textos_v(respuestas@)[k] == texto_si(),
                !unanime ==> !(old(self)@.conexiones.len() >= MINIMO_JUGADORES && voto_unanime(
                    textos_v(respuestas@),
                    old(self)@.conexiones.len(),
                )),
                unanime ==> old(self)@.conexiones.len() >= MINIMO_JUGADORES && respuestas@.len()
                    == old(self)@.conexiones.len(),
                *self == *old(self),
            decreases respuestas@.len() - i,
        {
            if respuestas[i] != si {
                assert(textos_v(respuestas@)[i as int] != texto_si());
                unanime = false;
            }
            i = i + 1;
        }
        self.fase = if unanime {
            Fase::EnCurso
        } else {
            Fase::EsperandoJugadores
        };
        unanime
    }

    /// Empieza el turno que sigue. Solo hay turnos con la partida en curso;
    /// cuando la partida termina, la sesion pasa a terminada.
    pub fn iniciar_turno(&mut self) -> (r: Option<Paso>)
        ensures
            old(self)@.fase != Fase::EnCurso ==> r is None && final(self)@ == old(self)@,
            old(self)@.fase == Fase::EnCurso ==> {
                &&& r is Some
                &&& es_comienzo_de_turno(old(self)@.juego, final(self)@.juego, r->0)
                &&& final(self)@ == (ServerV {
                    juego: final(self)@.juego,
                    fase: if r->0 is Fin {
                        Fase::Terminada
                    } else {
                        Fase::EnCurso
                    },
                    ..old(self)@
                })
            },
            coherente(old(self)@.juego) ==> coherente(final(self)@.juego),
            fase_sigue(old(self)@.fase, final(self)@.fase),
            sesion_valida(old(self)@) ==> sesion_valida(final(self)@),
    {
        if self.fase != Fase::EnCurso {
            return None;
        }
        let paso = self.juego.comenzar_turno();
        match paso {
            Paso::Fin(_) => {
                self.fase = Fase::Terminada;
            },
            Paso::Turno { .. } => {},
        }
        proof {
            if sesion_valida(old(self)@) {
                lema_mismos_jugadores(old(self)@, self@);
            }
        }
        Some(paso)
    }
    /// Indica si el premio y las ganancias del bombardeo caben en el puntaje
    /// y en la bolsa de cualquier jugador que gane el evento.
    pub fn puede_correr_evento(&self) -> (b: bool)
        ensures
            b == cabe_evento_para_todos(self@.juego),
    {
        let ghost g = self@.juego;
        let total = match self.juego.contar_barcos() {
            Some(t) => t,
            None => {
                if self.juego.jugadores.len() > 0 {
                    assert(!cabe_evento(g, 0));
                }
                return self.juego.jugadores.len() == 0;
            },
        };
        if total > (usize::MAX - PREMIO) / 300 {
            if self.juego.jugadores.len() > 0 {
                assert(!cabe_evento(g, 0));
            }
            return self.juego.jugadores.len() == 0;
        }
        let por_puntos: usize = 45 * total;
        let por_monedas: usize = PREMIO + 300 * total;
        let mut i: usize = 0;
        while i < self.juego.jugadores.len()
            invariant
                i <= self.juego.jugadores@.len(),
                g == self@.juego,
                total == total_barcos(g.jugadores, g.jugadores.len()),
                por_puntos == 45 * total,
                por_monedas == PREMIO + 300 * total,
                forall|w: int| 0 <= w < i ==> cabe_evento(g, w),
            decreases self.juego.jugadores@.len() - i,
        {
            assert(g.jugadores[i as int] == self.juego.jugadores@[i as int]@);
            let puntos = self.juego.jugadores[i].puntos;
            let monedas = self.juego.jugadores[i].monedas;
            if puntos > usize::MAX - por_puntos || monedas > usize::MAX - por_monedas {
                assert(!cabe_evento(g, i as int));
                return false;
            }
            i = i + 1;
        }
        true
    }

    /// Un ataque del bombardeo: el jugador de indice `w` ataca la celda
    /// numero `k` y los envios del ataque se agregan a `envios`.
    fn bombardear(&mut self, w: usize, k: usize, envios: &mut Vec<Envio>)
        requires
            w < old(self)@.juego.jugadores.len(),
            cabe_ataque(old(self)@.juego, w as int),
        ensures
            final(self)@ == (ServerV {
                juego: tras_ataque(old(self)@.juego, w as int, bomba(k as int)),
                ..old(self)@
            }),
            envios_v(final(envios)@) == envios_v(old(envios)@) + envios_de_ataque(
                old(self)@.juego,
                w as int,
                bomba(k as int),
            ),
            coherente(old(self)@.juego) ==> coherente(final(self)@.juego),
            sesion_valida(old(self)@) ==> sesion_valida(final(self)@),
    {
        let ghost antes = envios_v(envios@);
        let (_pierde, mut nuevos) = self.juego.procesar_ataque(coordenada_bomba(k), w);
        let ghost agregados = envios_v(nuevos@);
        envios.append(&mut nuevos);
        assert(envios_v(envios@) =~= antes + agregados);
        proof {
            if sesion_valida(old(self)@) {
                lema_mismos_jugadores(old(self)@, self@);
            }
        }
    }

    /// Busca, en orden de llegada, la primera respuesta que reclama el
    /// premio de forma valida. Devuelve su lugar entre las respuestas y el
    /// indice de su jugador en la partida.
    fn buscar_reclamo(&self, respuestas: &Vec<(usize, String)>) -> (r: Option<(usize, usize)>)
        ensures
            match r {
                Some((p, w)) => {
                    &&& p < respuestas@.len()
                    &&& primer_reclamo(self@, respuestas_v(respuestas@), 0) == Some(p as int)
                    &&& w < self@.juego.jugadores.len()
                    &&& indice_de_jugador(
                        self@.juego.jugadores,
                        respuestas_v(respuestas@)[p as int].0,
                        0,
                    ) == Some(w as int)
                },
                None => primer_reclamo(self@, respuestas_v(respuestas@), 0) is None,
            },
    {
        let ghost rs = respuestas_v(respuestas@);
        let reclamo: String = "primero".to_owned();
        let mut k: usize = 0;
        while k < respuestas.len()
            invariant
                k <= respuestas@.len(),
                rs == respuestas_v(respuestas@),
                reclamo@ == texto_reclamo(),
                primer_reclamo(self@, rs, 0) == primer_reclamo(self@, rs, k as int),
            decreases respuestas@.len() - k,
        {
            assert(rs[k as int] == (respuestas@[k as int].0 as nat, respuestas@[k as int].1@));
            let id = respuestas[k].0;
            if respuestas[k].1 == reclamo {
                if self.esta_conectado(id) {
                    match self.juego.buscar_jugador(id) {
                        Some(lugar) => {
                            return Some((k, lugar));
                        },
                        None => {},
                    }
                }
            }
            assert(!reclamo_valido(self@, rs[k as int]));
            k = k + 1;
        }
        None
    }

    /// Arma el resultado del evento para cada respuesta, en orden de
    /// llegada: gana solo la del lugar `ganadora`.
    fn resultados_del_evento(respuestas: &Vec<(usize, String)>, ganadora: Option<usize>) -> (r:
        Vec<Envio>)
        ensures
            envios_v(r@) == resultados(
                respuestas_v(respuestas@),
                match ganadora {
                    Some(p) => Some(p as int),
                    None => None,
                },
            ),
    {
        let ghost rs = respuestas_v(respuestas@);
        let mut envios: Vec<Envio> = Vec::new();
        let mut i: usize = 0;
        while i < respuestas.len()
            invariant
                i <= respuestas@.len(),
                rs == respuestas_v(respuestas@),
                envios@.len() == i,
                forall|m: int|
                    0 <= m < i ==> (#[trigger] envios@[m])@ == (EnvioV {
                        destinatario: rs[m].0,
                        mensaje: MensajeV::EventoSorpresaResultado(
                            ganadora matches Some(p) && p == m,
                        ),
                    }),
            decreases respuestas@.len() - i,
        {
            assert(rs[i as int] == (respuestas@[i as int].0 as nat, respuestas@[i as int].1@));
            let gano = match ganadora {
                Some(p) => p == i,
                None => false,
            };
            envios.push(
                Envio {
                    destinatario: respuestas[i].0,
                    mensaje: Mensaje::EventoSorpresaResultado(gano),
                },
            );
            i = i + 1;
        }
        assert(envios_v(envios@) =~= resultados(
            rs,
            match ganadora {
                Some(p) => Some(p as int),
                None => None,
            },
        ));
        envios
    }

    /// Entrega el premio al jugador de indice `w` y lo hace bombardear a los
    /// demas; los envios de cada ataque se agregan a `envios`.
    fn premiar_y_bombardear(&mut self, w: usize, envios: &mut Vec<Envio>)
        requires
            w < old(self)@.juego.jugadores.len(),
            cabe_evento(old(self)@.juego, w as int),
        ensures
            final(self)@ == (ServerV {
                juego: bombardeo(
                    con_premio(old(self)@.juego, w as int),
                    w as int,
                    CANTIDAD_BOMBAS as nat,
                ),
                ..old(self)@
            }),
            envios_v(final(envios)@) == envios_v(old(envios)@) + envios_bombardeo(
                con_premio(old(self)@.juego, w as int),
                w as int,
                CANTIDAD_BOMBAS as nat,
            ),
            coherente(old(self)@.juego) ==> coherente(final(self)@.juego),
            sesion_valida(old(self)@) ==> sesion_valida(final(self)@),
    {
        let ghost s0 = self@;
        let ghost g0 = s0.juego;
        let ghost n = g0.jugadores.len();
        assert(g0.jugadores[w as int] == self.juego.jugadores@[w as int]@);
        self.juego.jugadores[w].monedas = self.juego.jugadores[w].monedas + PREMIO;
        let ghost g1 = self@.juego;
        proof {
            assert(g1.jugadores =~= con_premio(g0, w as int).jugadores);
            assert(g1 == con_premio(g0, w as int));
            lema_total_barcos_igual(g1.jugadores, g0.jugadores, n);
            if coherente(g0) {
                lema_mismas_flotas(g0, g1);
            }
            if sesion_valida(s0) {
                lema_mismos_jugadores(s0, self@);
            }
            reveal_with_fuel(bombardeo, 4);
            reveal_with_fuel(envios_bombardeo, 4);
        }
        let ghost base = envios_v(envios@);
        self.bombardear(w, 0, envios);
        let ghost g2 = self@.juego;
        proof {
            lema_cotas_tras_ataque(g1, w as int, bomba(0), n);
            assert(g2.jugadores[w as int].puntos == g1.jugadores[w as int].puntos
                + puntos_de_ataque(g1, w as int, bomba(0)));
            assert(g2.jugadores[w as int].monedas == g1.jugadores[w as int].monedas
                + monedas_de_ataque(g1, w as int, bomba(0)));
        }
        self.bombardear(w, 1, envios);
        let ghost g3 = self@.juego;
        proof {
            lema_cotas_tras_ataque(g2, w as int, bomba(1), n);
            assert(g3.jugadores[w as int].puntos == g2.jugadores[w as int].puntos
                + puntos_de_ataque(g2, w as int, bomba(1)));
            assert(g3.jugadores[w as int].monedas == g2.jugadores[w as int].monedas
                + monedas_de_ataque(g2, w as int, bomba(1)));
        }
        self.bombardear(w, 2, envios);
        proof {
            assert(self@.juego == bombardeo(g1, w as int, 3));
            assert(envios_v(envios@) =~= base + envios_bombardeo(g1, w as int, 3));
        }
    }

    /// Resuelve el evento sorpresa con las respuestas de los jugadores en
    /// orden de llegada. Gana la primera respuesta que reclama el premio de
    /// forma valida, y solo esa: su jugador recibe `PREMIO` monedas y cada
    /// respuesta recibe su resultado. Si hay ganador, despues bombardea a
    /// los demas jugadores: ataca en su nombre cada celda del bombardeo.
    pub fn crear_evento_sorpresa(&mut self, respuestas: &Vec<(usize, String)>) -> (r: Vec<Envio>)
        requires
            cabe_evento_para_todos(old(self)@.juego),
        ensures
            final(self)@ == (ServerV {
                juego: juego_tras_evento(
                    old(self)@.juego,
                    ganador_del_evento(old(self)@, respuestas_v(respuestas@)),
                ),
                ..old(self)@
            }),
            envios_v(r@) == envios_del_evento(old(self)@, respuestas_v(respuestas@)),
            coherente(old(self)@.juego) ==> coherente(final(self)@.juego),
            sesion_valida(old(self)@) ==> sesion_valida(final(self)@),
    {
        match self.buscar_reclamo(respuestas) {
            Some((p, w)) => {
                let mut envios = Server::resultados_del_evento(respuestas, Some(p));
                self.premiar_y_bombardear(w, &mut envios);
                envios
            },
            None => {
                let envios = Server::resultados_del_evento(respuestas, None);
                assert(envios_v(envios@) =~= envios_del_evento(
                    old(self)@,
                    respuestas_v(respuestas@),
                ));
                envios
            },
        }
    }
    /// Indica si el registro de la sesion es valido.
    pub fn es_valida(&self) -> (r: bool)
        ensures
            r == sesion_valida(self@),
    {
        let ghost s = self@;
        let mut i: usize = 0;
        while i < self.conexiones_jugadores.len()
            invariant
                i <= self.conexiones_jugadores@.len(),
                s == self@,
                forall|a: int, b: int| 0 <= a < b < i ==> s.conexiones[a] != s.conexiones[b],
                forall|a: int| 0 <= a < i ==> #[trigger] s.conexiones[a] < s.next_player_id,
            decreases self.conexiones_jugadores@.len() - i,
        {
            assert(s.conexiones[i as int] == self.conexiones_jugadores@[i as int] as nat);
            if self.conexiones_jugadores[i] >= self.next_player_id {
                return false;
            }
            let mut j: usize = 0;
            while j < i
                invariant
                    j <= i < self.conexiones_jugadores@.len(),
                    s == self@,
                    forall|a: int| 0 <= a < j ==> s.conexiones[a] != s.conexiones[i as int],
                decreases i - j,
            {
                assert(s.conexiones[j as int] == self.conexiones_jugadores@[j as int] as nat);
                assert(s.conexiones[i as int] == self.conexiones_jugadores@[i as int] as nat);
                if self.conexiones_jugadores[j] == self.conexiones_jugadores[i] {
                    return false;
                }
                j = j + 1;
            }
            i = i + 1;
        }
        let mut k: usize = 0;
        while k < self.juego.jugadores.len()
            invariant
                k <= self.juego.jugadores@.len(),
                s == self@,
                forall|a: int, b: int|
                    0 <= a < b < self.conexiones_jugadores@.len() ==> s.conexiones[a]
                        != s.conexiones[b],
                forall|a: int|
                    0 <= a < self.conexiones_jugadores@.len() ==> #[trigger] s.conexiones[a]
                        < s.next_player_id,
                forall|a: int, b: int|
                    0 <= a < b < k ==> s.juego.jugadores[a].id != s.juego.jugadores[b].id,
                forall|a: int| 0 <= a < k ==> (#[trigger] s.juego.jugadores[a]).id < s.next_player_id,
            decreases self.juego.jugadores@.len() - k,
        {
            assert(s.juego.jugadores[k as int] == self.juego.jugadores@[k as int]@);
            if self.juego.jugadores[k].id >= self.next_player_id {
                return false;
            }
            let mut j: usize = 0;
            while j < k
                invariant
                    j <= k < self.juego.jugadores@.len(),
                    s == self@,
                    forall|a: int|
                        0 <= a < j ==> (#[trigger] s.juego.jugadores[a]).id
                            != s.juego.jugadores[k as int].id,
                decreases k - j,
            {
                assert(s.juego.jugadores[j as int] == self.juego.jugadores@[j as int]@);
                assert(s.juego.jugadores[k as int] == self.juego.jugadores@[k as int]@);
                if self.juego.jugadores[j].id == self.juego.jugadores[k].id {
                    return false;
                }
                j = j + 1;
            }
            k = k + 1;
        }
        true
    }
}

} // verus!
