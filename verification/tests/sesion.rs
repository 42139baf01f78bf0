use batalla_naval::barco::Barco;
use batalla_naval::custom_error::CustomError;
use batalla_naval::deserializador::Deserializador;
use batalla_naval::juego::Paso;
use batalla_naval::mensaje::{Envio, Mensaje};
use batalla_naval::serializador::Serializador;
use batalla_naval::server::{coordenada_bomba, Fase, Server, CANTIDAD_BOMBAS, MINIMO_JUGADORES, PREMIO};

fn servidor_con(nombres: &[&str]) -> Server {
    let mut server = Server::new();
    for nombre in nombres {
        server.handle_client(nombre.to_string()).unwrap();
    }
    server
}

fn reubicar(server: &mut Server, celdas: &[(i32, i32)]) {
    for jugador in 0..celdas.len() {
        let vieja = server.juego.jugadores[jugador].barcos[0].posiciones[0];
        server.juego.mapa.set(vieja.1 as usize, vieja.0 as usize, '.');
    }
    for (jugador, celda) in celdas.iter().enumerate() {
        let marca = batalla_naval::mapa::marcador(server.juego.jugadores[jugador].id);
        server.juego.mapa.set(celda.1 as usize, celda.0 as usize, marca);
        server.juego.jugadores[jugador].barcos = vec![Barco::new(0, 1, vec![*celda])];
    }
}

#[test]
fn sesion_nueva_espera_jugadores() {
    let server = Server::new();
    assert_eq!(server.fase, Fase::EsperandoJugadores);
    assert_eq!(server.next_player_id, 0);
    assert!(server.conexiones_jugadores.is_empty());
    assert!(server.juego.jugadores.is_empty());
    assert_eq!(MINIMO_JUGADORES, 2);
}

#[test]
fn el_registro_asigna_identificadores_crecientes() {
    let mut server = Server::new();
    assert_eq!(server.handle_client("ana".to_string()), Ok(0));
    assert_eq!(server.handle_client("beto".to_string()), Ok(1));
    assert_eq!(server.handle_client("caro".to_string()), Ok(2));
    assert_eq!(server.conexiones_jugadores, vec![0, 1, 2]);
    assert_eq!(server.next_player_id, 3);
    assert_eq!(server.juego.jugadores.len(), 3);
    assert_eq!(server.juego.jugadores[1].nombre_usuario, "beto");
    assert_eq!(server.juego.jugadores[1].id, 1);
    assert_eq!(server.juego.jugadores[1].barcos.len(), 1);
    assert!(server.esta_conectado(2));
    assert!(!server.esta_conectado(3));
}

#[test]
fn un_nombre_repetido_se_rechaza_sin_cambiar_nada() {
    let mut server = servidor_con(&["ana", "beto"]);
    assert!(server.nombre_en_uso(&"ana".to_string()));
    assert!(!server.nombre_en_uso(&"Ana".to_string()));
    assert_eq!(server.handle_client("ana".to_string()), Err(Mensaje::NombreEnUso));
    assert_eq!(server.next_player_id, 2);
    assert_eq!(server.conexiones_jugadores, vec![0, 1]);
    assert_eq!(server.juego.jugadores.len(), 2);
    assert_eq!(server.handle_client("caro".to_string()), Ok(2));
}

#[test]
fn desconectar_quita_del_registro() {
    let mut server = servidor_con(&["ana", "beto", "caro"]);
    server.desconectar(1);
    assert_eq!(server.conexiones_jugadores, vec![0, 2]);
    server.desconectar(7);
    assert_eq!(server.conexiones_jugadores, vec![0, 2]);
    assert_eq!(server.juego.jugadores.len(), 3);
}

#[test]
fn con_un_solo_jugador_se_sigue_esperando() {
    let mut server = servidor_con(&["ana"]);
    assert_eq!(
        server.preguntar_comienzo_juego(),
        vec![Envio { destinatario: 0, mensaje: Mensaje::Esperando }]
    );
    assert_eq!(server.fase, Fase::EsperandoJugadores);
    assert!(!server.comenzar_juego(&vec!["si".to_string()]));
    assert_eq!(server.fase, Fase::EsperandoJugadores);
}

#[test]
fn la_partida_empieza_con_voto_unanime() {
    let mut server = servidor_con(&["ana", "beto"]);
    assert_eq!(
        server.preguntar_comienzo_juego(),
        vec![
            Envio { destinatario: 0, mensaje: Mensaje::PreguntaComienzo },
            Envio { destinatario: 1, mensaje: Mensaje::PreguntaComienzo },
        ]
    );
    assert_eq!(server.fase, Fase::PreguntandoComienzo);
    assert_eq!(server.iniciar_turno(), None);
    assert!(server.comenzar_juego(&vec!["si".to_string(), "si".to_string()]));
    assert_eq!(server.fase, Fase::EnCurso);
    assert!(server.preguntar_comienzo_juego().is_empty());
    assert_eq!(server.fase, Fase::EnCurso);
    assert_eq!(
        server.iniciar_turno(),
        Some(Paso::Turno { jugador: 0, evento_sorpresa: false })
    );
}

#[test]
fn un_solo_no_vuelve_a_la_espera() {
    for respuestas in [
        vec!["si".to_string(), "no".to_string()],
        vec!["si".to_string()],
        vec!["si".to_string(), "si".to_string(), "si".to_string()],
        vec!["si".to_string(), "SI".to_string()],
        vec![],
    ] {
        let mut server = servidor_con(&["ana", "beto"]);
        let _ = server.preguntar_comienzo_juego();
        assert!(!server.comenzar_juego(&respuestas));
        assert_eq!(server.fase, Fase::EsperandoJugadores);
        let _ = server.preguntar_comienzo_juego();
        assert_eq!(server.fase, Fase::PreguntandoComienzo);
    }
}

#[test]
fn la_sesion_termina_cuando_termina_la_partida() {
    let mut server = servidor_con(&["ana", "beto"]);
    let _ = server.preguntar_comienzo_juego();
    assert!(server.comenzar_juego(&vec!["si".to_string(), "si".to_string()]));
    let celda = server.juego.jugadores[1].barcos[0].posiciones[0];
    let (pierde, _) = server.juego.procesar_ataque(celda, 0);
    assert!(pierde);
    server.retirar_eliminados();
    assert_eq!(server.conexiones_jugadores, vec![0]);
    assert_eq!(server.iniciar_turno(), Some(Paso::Fin(Some(0))));
    assert_eq!(server.fase, Fase::Terminada);
    assert_eq!(server.iniciar_turno(), None);
    assert!(server.preguntar_comienzo_juego().is_empty());
}

#[test]
fn en_el_evento_sorpresa_gana_solo_quien_llega_primero() {
    let mut server = servidor_con(&["ana", "beto", "caro"]);
    reubicar(&mut server, &[(0, 9), (1, 9), (2, 9)]);
    assert!(server.puede_correr_evento());
    let respuestas = vec![
        (1, "primero".to_string()),
        (2, "primero".to_string()),
        (0, "yo tambien".to_string()),
    ];
    let envios = server.crear_evento_sorpresa(&respuestas);
    assert_eq!(
        envios,
        vec![
            Envio { destinatario: 1, mensaje: Mensaje::EventoSorpresaResultado(true) },
            Envio { destinatario: 2, mensaje: Mensaje::EventoSorpresaResultado(false) },
            Envio { destinatario: 0, mensaje: Mensaje::EventoSorpresaResultado(false) },
            Envio { destinatario: 1, mensaje: Mensaje::MensajeInfoAtaque(0, 0) },
            Envio { destinatario: 1, mensaje: Mensaje::MensajeInfoAtaque(0, 0) },
            Envio { destinatario: 1, mensaje: Mensaje::MensajeInfoAtaque(0, 0) },
        ]
    );
    assert_eq!(PREMIO, 200);
    assert_eq!(server.juego.jugadores[0].monedas, 500);
    assert_eq!(server.juego.jugadores[1].monedas, 700);
    assert_eq!(server.juego.jugadores[2].monedas, 500);
}

#[test]
fn sin_reclamo_valido_nadie_gana_el_evento() {
    let mut server = servidor_con(&["ana", "beto"]);
    server.desconectar(1);
    let respuestas = vec![
        (0, "Primero".to_string()),
        (9, "primero".to_string()),
        (1, "primero".to_string()),
    ];
    let envios = server.crear_evento_sorpresa(&respuestas);
    assert_eq!(
        envios,
        vec![
            Envio { destinatario: 0, mensaje: Mensaje::EventoSorpresaResultado(false) },
            Envio { destinatario: 9, mensaje: Mensaje::EventoSorpresaResultado(false) },
            Envio { destinatario: 1, mensaje: Mensaje::EventoSorpresaResultado(false) },
        ]
    );
    assert_eq!(server.juego.jugadores[0].monedas, 500);
    assert_eq!(server.juego.jugadores[1].monedas, 500);
    assert!(server.crear_evento_sorpresa(&vec![]).is_empty());
}

#[test]
fn el_ganador_del_evento_bombardea_a_los_demas() {
    let mut server = servidor_con(&["ana", "beto", "caro"]);
    assert_eq!(CANTIDAD_BOMBAS, 3);
    assert_eq!(coordenada_bomba(0), (1, 1));
    assert_eq!(coordenada_bomba(1), (4, 4));
    assert_eq!(coordenada_bomba(2), (7, 7));
    reubicar(&mut server, &[(4, 4), (1, 1), (7, 7)]);
    let envios = server.crear_evento_sorpresa(&vec![(0, "primero".to_string())]);
    assert_eq!(
        envios,
        vec![
            Envio { destinatario: 0, mensaje: Mensaje::EventoSorpresaResultado(true) },
            Envio { destinatario: 1, mensaje: Mensaje::BarcoHundido },
            Envio { destinatario: 1, mensaje: Mensaje::Perdiste(0) },
            Envio { destinatario: 0, mensaje: Mensaje::MensajeInfoAtaque(15, 100) },
            Envio { destinatario: 0, mensaje: Mensaje::MensajeInfoAtaque(0, 0) },
            Envio { destinatario: 2, mensaje: Mensaje::BarcoHundido },
            Envio { destinatario: 2, mensaje: Mensaje::Perdiste(0) },
            Envio { destinatario: 0, mensaje: Mensaje::MensajeInfoAtaque(15, 100) },
        ]
    );
    assert_eq!(server.juego.jugadores[0].barcos.len(), 1);
    assert_eq!(server.juego.jugadores[0].puntos, 30);
    assert_eq!(server.juego.jugadores[0].monedas, 900);
    assert!(server.juego.jugadores[1].ha_perdido);
    assert!(server.juego.jugadores[2].ha_perdido);
    assert_eq!(server.juego.mapa.obtener((1, 1)), Some('X'));
    assert_eq!(server.juego.mapa.obtener((4, 4)), Some('0'));
    assert_eq!(server.juego.mapa.obtener((7, 7)), Some('X'));
    server.retirar_eliminados();
    assert_eq!(server.conexiones_jugadores, vec![0]);
}

#[test]
fn el_evento_no_corre_si_las_ganancias_no_caben() {
    let mut server = servidor_con(&["ana", "beto"]);
    assert!(server.puede_correr_evento());
    server.juego.jugadores[1].monedas = usize::MAX - 799;
    assert!(!server.puede_correr_evento());
    server.juego.jugadores[1].monedas = usize::MAX - 800;
    assert!(server.puede_correr_evento());
    server.juego.jugadores[0].puntos = usize::MAX - 89;
    assert!(!server.puede_correr_evento());
    assert!(Server::new().puede_correr_evento());
}

#[test]
fn la_trama_del_nombre_lleva_el_largo_en_cuatro_bytes() {
    let serializador = Serializador;
    assert_eq!(
        serializador.serializar_nombre_de_usuario("ana"),
        vec![0, 0, 0, 3, b'a', b'n', b'a']
    );
    assert_eq!(serializador.serializar_nombre_de_usuario(""), vec![0, 0, 0, 0]);
    assert_eq!(
        serializador.serializar_nombre_de_usuario("ñu"),
        vec![0, 0, 0, 3, 0xc3, 0xb1, b'u']
    );
    let largo = "x".repeat(300);
    let trama = serializador.serializar_nombre_de_usuario(&largo);
    assert_eq!(&trama[..4], &[0, 0, 1, 44]);
    assert_eq!(trama.len(), 304);
}

#[test]
fn el_nombre_vuelve_igual_de_su_trama() {
    let serializador = Serializador;
    for nombre in ["", "ana", "Jugador 1", "ñandú", "日本語", "a,b\n\tc", "🚢 barco"] {
        let trama = serializador.serializar_nombre_de_usuario(nombre);
        assert_eq!(
            Deserializador::deserializar_nombre_de_usuario(&trama),
            Ok(nombre.to_string())
        );
    }
}

#[test]
fn una_trama_incompleta_es_un_error_de_longitud() {
    for trama in [
        vec![],
        vec![0u8],
        vec![0, 0, 0],
        vec![0, 0, 0, 1],
        vec![0, 0, 0, 4, b'a', b'n', b'a'],
        vec![0, 0, 1, 0, b'a'],
        vec![255, 255, 255, 255, b'a', b'b'],
    ] {
        assert_eq!(
            Deserializador::deserializar_nombre_de_usuario(&trama),
            Err(CustomError::LongitudNombreInvalida)
        );
    }
}

#[test]
fn la_trama_puede_traer_bytes_de_mas_y_bytes_invalidos() {
    assert_eq!(
        Deserializador::deserializar_nombre_de_usuario(&[0, 0, 0, 2, b'a', b'b', b'c', b'd']),
        Ok("ab".to_string())
    );
    assert_eq!(
        Deserializador::deserializar_nombre_de_usuario(&[0, 0, 0, 0, b'z']),
        Ok(String::new())
    );
    assert_eq!(
        Deserializador::deserializar_nombre_de_usuario(&[0, 0, 0, 3, b'a', 0xff, b'b']),
        Ok("a\u{fffd}b".to_string())
    );
}

#[test]
fn cada_error_tiene_su_texto() {
    assert_eq!(CustomError::Desconocido.mensaje(), "");
    assert_eq!(CustomError::AccionInvalida.mensaje(), "Error: Acción invalida");
    assert_eq!(CustomError::ErrorCreatingSocket.mensaje(), "Error al crear el socket");
    assert_eq!(CustomError::ErrorAceptandoConexion.mensaje(), "Error al aceptar la conexión");
    assert_eq!(CustomError::ErrorEnviandoInstruccion.mensaje(), "Error al enviar la instrucción");
    assert_eq!(
        CustomError::ErrorRecibiendoInstruccion.mensaje(),
        "Error al recibir la instrucción"
    );
    assert_eq!(CustomError::ErrorJugadorInexistente.mensaje(), "Error: Jugador inexistente");
    assert_eq!(
        CustomError::ErrorParseandoInstruccion.mensaje(),
        "Error al parsear la instrucción"
    );
    assert_eq!(
        CustomError::LongitudNombreInvalida.mensaje(),
        "Error: Longitud de nombre invalida"
    );
    assert_eq!(CustomError::ErrorEnviarMensaje.mensaje(), "Error al enviar el mensaje");
    assert_eq!(CustomError::ErrorSerializacion.mensaje(), "Error al serializar");
    assert_eq!(CustomError::ErrorMostrandoRanking.mensaje(), "Error al mostrar el ranking");
    assert_eq!(CustomError::ErrorRecibiendoMensaje.mensaje(), "Error al recibir el mensaje");
    assert_eq!(CustomError::ErrorRankingVacio.mensaje(), "El ranking esta vacio");
    assert_eq!(
        CustomError::ErrorCoordenadasIncorrectas.mensaje(),
        "Error: Coordenadas incorrectas"
    );
    assert_eq!(
        CustomError::ErrorDeserealizandoMensaje.mensaje(),
        "Error al deserealizar el mensaje"
    );
    assert_eq!(CustomError::ErrorThreads.mensaje(), "Error en los threads");
}

#[test]
fn el_registro_sigue_valido_durante_la_sesion() {
    let mut server = Server::new();
    assert!(server.es_valida());
    assert!(server.juego.es_coherente());
    for nombre in ["ana", "beto", "ana", "caro", "dani"] {
        let _ = server.handle_client(nombre.to_string());
        assert!(server.es_valida());
        assert!(server.juego.es_coherente());
    }
    assert_eq!(server.conexiones_jugadores, vec![0, 1, 2, 3]);
    server.desconectar(2);
    assert!(server.es_valida());
    let _ = server.preguntar_comienzo_juego();
    assert!(server.comenzar_juego(&vec!["si".to_string(); 3]));
    let _ = server.iniciar_turno();
    let _ = server.crear_evento_sorpresa(&vec![(3, "primero".to_string()), (0, "primero".to_string())]);
    assert!(server.es_valida());
    assert!(server.juego.es_coherente());
    server.retirar_eliminados();
    assert!(server.es_valida());
}

#[test]
fn un_registro_con_identificadores_repetidos_no_es_valido() {
    let mut server = servidor_con(&["ana", "beto"]);
    server.conexiones_jugadores.push(1);
    assert!(!server.es_valida());

    let mut server = servidor_con(&["ana", "beto"]);
    server.conexiones_jugadores.push(2);
    assert!(!server.es_valida());

    let mut server = servidor_con(&["ana", "beto"]);
    server.juego.jugadores[1].id = 0;
    assert!(!server.es_valida());

    let mut server = servidor_con(&["ana", "beto"]);
    server.next_player_id = 1;
    assert!(!server.es_valida());

    let mut server = servidor_con(&["ana", "beto"]);
    server.conexiones_jugadores.clear();
    assert!(server.es_valida());
}
