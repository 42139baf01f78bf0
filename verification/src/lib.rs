//! Reglas de un juego de batalla naval por turnos para varios jugadores:
//! el tablero, las flotas, la maquina de turnos y las decisiones de la
//! sesion, con sus contratos demostrados.

pub mod accion;
pub mod ataque;
pub mod azar;
pub mod barco;
pub mod cliente;
pub mod coordenadas;
pub mod cuadricula;
pub mod custom_error;
pub mod deserializador;
pub mod estado_barco;
pub mod flota;
pub mod instruccion;
pub mod invariantes;
pub mod juego;
pub mod jugador;
pub mod mapa;
pub mod mensaje;
pub mod movimiento;
pub mod ranking;
pub mod serializador;
pub mod server;
