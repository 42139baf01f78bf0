//! Vocabulario de mensajes entre el servidor y los clientes.

use crate::instruccion::Instruccion;
use vstd::prelude::*;

verus! {

/// Mensaje del protocolo.
#[derive(Debug, PartialEq, Eq)]
pub enum Mensaje {
    PreguntaComienzo,
    RealiceAccion,
    Esperando,
    ComenzoJuego,
    Puntos(usize),
    Perdiste(usize),
    Ganaste(usize),
    NotificacionEliminacion(String),
    /// Tablero visible, resumen de la flota y monedas del jugador.
    Tablero(Vec<Vec<char>>, Vec<(usize, Vec<(i32, i32)>)>, usize),
    Accion(Instruccion, usize),
    AbrirTienda(usize),
    /// Motivo del rechazo, resumen de la flota y monedas del jugador.
    RepetirAccion(String, Vec<(usize, Vec<(i32, i32)>)>, usize),
    BarcoGolpead((i32, i32)),
    BarcoHundido,
    /// Puntos y monedas ganados con un ataque.
    MensajeInfoAtaque(usize, usize),
    EventoSorpresa,
    EventoSorpresaResultado(bool),
    Registro,
    NombreEnUso,
    Ranking(Vec<(String, usize)>),
    /// Monedas que le quedan al jugador y tipo de barco comprado.
    CompraExitosa(usize, usize),
    NotificacionCompra(String, usize),
    FinPartida(String, usize),
}

/// Modelo matematico de un mensaje.
pub ghost enum MensajeV {
    PreguntaComienzo,
    RealiceAccion,
    Esperando,
    ComenzoJuego,
    Puntos(nat),
    Perdiste(nat),
    Ganaste(nat),
    NotificacionEliminacion(Seq<char>),
    Tablero(Seq<Seq<char>>, Seq<(nat, Seq<(i32, i32)>)>, nat),
    Accion(Instruccion, nat),
    AbrirTienda(nat),
    RepetirAccion(Seq<char>, Seq<(nat, Seq<(i32, i32)>)>, nat),
    BarcoGolpead((i32, i32)),
    BarcoHundido,
    MensajeInfoAtaque(nat, nat),
    EventoSorpresa,
    EventoSorpresaResultado(bool),
    Registro,
    NombreEnUso,
    Ranking(Seq<(Seq<char>, nat)>),
    CompraExitosa(nat, nat),
    NotificacionCompra(Seq<char>, nat),
    FinPartida(Seq<char>, nat),
}

/// Modelo de una tabla de posiciones: nombre y puntaje de cada entrada.
pub open spec fn ranking_v(entradas: Seq<(String, usize)>) -> Seq<(Seq<char>, nat)> {
    entradas.map_values(|e: (String, usize)| (e.0@, e.1 as nat))
}

impl View for Mensaje {
    type V = MensajeV;

    open spec fn view(&self) -> MensajeV {
        match self {
            Mensaje::PreguntaComienzo => MensajeV::PreguntaComienzo,
            Mensaje::RealiceAccion => MensajeV::RealiceAccion,
            Mensaje::Esperando => MensajeV::Esperando,
            Mensaje::ComenzoJuego => MensajeV::ComenzoJuego,
            Mensaje::Puntos(p) => MensajeV::Puntos(*p as nat),
            Mensaje::Perdiste(p) => MensajeV::Perdiste(*p as nat),
            Mensaje::Ganaste(p) => MensajeV::Ganaste(*p as nat),
            Mensaje::NotificacionEliminacion(n) => MensajeV::NotificacionEliminacion(n@),
            Mensaje::Tablero(t, b, m) => MensajeV::Tablero(
                t@.map_values(|fila: Vec<char>| fila@),
                b@.map_values(|r: (usize, Vec<(i32, i32)>)| (r.0 as nat, r.1@)),
                *m as nat,
            ),
            Mensaje::Accion(i, m) => MensajeV::Accion(*i, *m as nat),
            Mensaje::AbrirTienda(m) => MensajeV::AbrirTienda(*m as nat),
            Mensaje::RepetirAccion(r, b, m) => MensajeV::RepetirAccion(
                r@,
                b@.map_values(|r: (usize, Vec<(i32, i32)>)| (r.0 as nat, r.1@)),
                *m as nat,
            ),
            Mensaje::BarcoGolpead(c) => MensajeV::BarcoGolpead(*c),
            Mensaje::BarcoHundido => MensajeV::BarcoHundido,
            Mensaje::MensajeInfoAtaque(p, m) => MensajeV::MensajeInfoAtaque(*p as nat, *m as nat),
            Mensaje::EventoSorpresa => MensajeV::EventoSorpresa,
            Mensaje::EventoSorpresaResultado(b) => MensajeV::EventoSorpresaResultado(*b),
            Mensaje::Registro => MensajeV::Registro,
            Mensaje::NombreEnUso => MensajeV::NombreEnUso,
            Mensaje::Ranking(r) => MensajeV::Ranking(ranking_v(r@)),
            Mensaje::CompraExitosa(m, t) => MensajeV::CompraExitosa(*m as nat, *t as nat),
            Mensaje::NotificacionCompra(n, t) => MensajeV::NotificacionCompra(n@, *t as nat),
            Mensaje::FinPartida(n, p) => MensajeV::FinPartida(n@, *p as nat),
        }
    }
}

/// Un mensaje con su destinatario, identificado por el id del jugador.
#[derive(Debug, PartialEq, Eq)]
pub struct Envio {
    pub destinatario: usize,
    pub mensaje: Mensaje,
}

/// Modelo matematico de un envio.
pub ghost struct EnvioV {
    pub destinatario: nat,
    pub mensaje: MensajeV,
}

impl View for Envio {
    type V = EnvioV;

    open spec fn view(&self) -> EnvioV {
        EnvioV { destinatario: self.destinatario as nat, mensaje: self.mensaje@ }
    }
}

/// Modelo de una lista de envios.
pub open spec fn envios_v(envios: Seq<Envio>) -> Seq<EnvioV> {
    envios.map_values(|e: Envio| e@)
}

} // verus!
