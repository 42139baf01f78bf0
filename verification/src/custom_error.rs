//! Errores del juego.

use vstd::prelude::*;

verus! {

/// Errores que informa la biblioteca o la sesion.
#[derive(Debug, Clone, Copy, PartialEq, Eq, Structural)]
pub enum CustomError {
    /// Error sin descripcion.
    Desconocido,
    AccionInvalida,
    ErrorCreatingSocket,
    ErrorAceptandoConexion,
    ErrorEnviandoInstruccion,
    ErrorRecibiendoInstruccion,
    ErrorJugadorInexistente,
    ErrorParseandoInstruccion,
    LongitudNombreInvalida,
    ErrorEnviarMensaje,
    ErrorSerializacion,
    ErrorMostrandoRanking,
    ErrorRecibiendoMensaje,
    ErrorRankingVacio,
    ErrorCoordenadasIncorrectas,
    ErrorDeserealizandoMensaje,
    ErrorThreads,
}

impl CustomError {
    /// Texto que describe el error.
    pub open spec fn texto(self) -> Seq<char> {
        match self {
            CustomError::Desconocido => ""@,
            CustomError::AccionInvalida => "Error: Acción invalida"@,
            CustomError::ErrorCreatingSocket => "Error al crear el socket"@,
            CustomError::ErrorAceptandoConexion => "Error al aceptar la conexión"@,
            CustomError::ErrorEnviandoInstruccion => "Error al enviar la instrucción"@,
            CustomError::ErrorRecibiendoInstruccion => "Error al recibir la instrucción"@,
            CustomError::ErrorJugadorInexistente => "Error: Jugador inexistente"@,
            CustomError::ErrorParseandoInstruccion => "Error al parsear la instrucción"@,
            CustomError::LongitudNombreInvalida => "Error: Longitud de nombre invalida"@,
            CustomError::ErrorEnviarMensaje => "Error al enviar el mensaje"@,
            CustomError::ErrorSerializacion => "Error al serializar"@,
            CustomError::ErrorMostrandoRanking => "Error al mostrar el ranking"@,
            CustomError::ErrorRecibiendoMensaje => "Error al recibir el mensaje"@,
            CustomError::ErrorRankingVacio => "El ranking esta vacio"@,
            CustomError::ErrorCoordenadasIncorrectas => "Error: Coordenadas incorrectas"@,
            CustomError::ErrorDeserealizandoMensaje => "Error al deserealizar el mensaje"@,
            CustomError::ErrorThreads => "Error en los threads"@,
        }
    }

    /// Texto del error, tal como se le muestra a una persona.
    pub fn mensaje(&self) -> (s: String)
        ensures
            s@ == self.texto(),
    {
        let texto: &str = match self {
            CustomError::Desconocido => "",
            CustomError::AccionInvalida => "Error: Acción invalida",
            CustomError::ErrorCreatingSocket => "Error al crear el socket",
            CustomError::ErrorAceptandoConexion => "Error al aceptar la conexión",
            CustomError::ErrorEnviandoInstruccion => "Error al enviar la instrucción",
            CustomError::ErrorRecibiendoInstruccion => "Error al recibir la instrucción",
            CustomError::ErrorJugadorInexistente => "Error: Jugador inexistente",
            CustomError::ErrorParseandoInstruccion => "Error al parsear la instrucción",
            CustomError::LongitudNombreInvalida => "Error: Longitud de nombre invalida",
            CustomError::ErrorEnviarMensaje => "Error al enviar el mensaje",
            CustomError::ErrorSerializacion => "Error al serializar",
            CustomError::ErrorMostrandoRanking => "Error al mostrar el ranking",
            CustomError::ErrorRecibiendoMensaje => "Error al recibir el mensaje",
            CustomError::ErrorRankingVacio => "El ranking esta vacio",
            CustomError::ErrorCoordenadasIncorrectas => "Error: Coordenadas incorrectas",
            CustomError::ErrorDeserealizandoMensaje => "Error al deserealizar el mensaje",
            CustomError::ErrorThreads => "Error en los threads",
        };
        texto.to_owned()
    }
}

} // verus!
