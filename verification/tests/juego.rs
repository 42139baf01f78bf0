use batalla_naval::barco::Barco;
use batalla_naval::custom_error::CustomError;
use batalla_naval::estado_barco::EstadoBarco;
use batalla_naval::instruccion::Instruccion;
use batalla_naval::juego::{precio, Juego, Paso, EVENTO_SORPRESA};
use batalla_naval::jugador::Jugador;
use batalla_naval::mapa::Mapa;
use batalla_naval::mensaje::{Envio, Mensaje};
use batalla_naval::ranking::{ordenar_ranking, sumar_puntaje};

fn jugador_con(id: usize, nombre: &str, barcos: Vec<Barco>, mapa: &mut Mapa) -> Jugador {
    for barco in &barcos {
        mapa.estampar(&barco.posiciones, batalla_naval::mapa::marcador(id));
    }
    let siguiente_barco = barcos.len();
    Jugador {
        id,
        nombre_usuario: nombre.to_string(),
        barcos,
        puntos: 0,
        monedas: 500,
        ha_perdido: false,
        siguiente_barco,
    }
}

fn partida(flotas: Vec<Vec<Barco>>) -> Juego {
    let mut mapa = Mapa::new();
    let mut jugadores = Vec::new();
    for (id, barcos) in flotas.into_iter().enumerate() {
        let nombre = format!("Jugador {}", id);
        jugadores.push(jugador_con(id, &nombre, barcos, &mut mapa));
    }
    Juego { mapa, jugadores, turno: 0, rondas: 0, evento_hecho: false }
}

#[test]
fn test_nuevo_juego() {
    let juego = Juego::new(2);
    assert_eq!(juego.jugadores.len(), 2);
}

#[test]
fn test_agregar_jugador() {
    let mut juego = Juego::new(2);
    juego.agregar_jugador(2, "Jugador 3".to_string());
    assert_eq!(juego.jugadores.len(), 3);
}

#[test]
fn test_eliminar_jugador() {
    let mut juego = Juego::new(2);
    juego.eliminar_jugador(1);
    assert_eq!(juego.jugadores.len(), 1);
}

#[test]
fn juego_nuevo_numera_a_los_jugadores_y_no_encima_barcos() {
    let juego = Juego::new(5);
    assert_eq!(juego.turno, 0);
    assert_eq!(juego.rondas, 0);
    assert!(!juego.evento_hecho);
    let mut celdas = Vec::new();
    for (i, jugador) in juego.jugadores.iter().enumerate() {
        assert_eq!(jugador.id, i);
        assert_eq!(jugador.nombre_usuario, "");
        assert_eq!(jugador.barcos.len(), 1);
        let celda = jugador.barcos[0].posiciones[0];
        assert!(!celdas.contains(&celda));
        celdas.push(celda);
        assert_eq!(juego.mapa.obtener(celda), Some(batalla_naval::mapa::marcador(i)));
    }
}

#[test]
fn eliminar_jugador_conserva_el_orden_y_acomoda_el_turno() {
    let mut juego = Juego::new(4);
    juego.turno = 3;
    juego.eliminar_jugador(1);
    let ids: Vec<usize> = juego.jugadores.iter().map(|j| j.id).collect();
    assert_eq!(ids, vec![0, 2, 3]);
    assert_eq!(juego.turno, 0);
    juego.turno = 1;
    juego.eliminar_jugador(7);
    assert_eq!(juego.jugadores.len(), 3);
    assert_eq!(juego.turno, 1);
}

#[test]
fn partida_de_dos_jugadores_termina_con_un_ataque_certero() {
    let mut juego = Juego::new(0);
    juego.agregar_jugador(0, "A".to_string());
    juego.agregar_jugador(1, "B".to_string());
    assert!(!juego.finalizo());
    assert_eq!(juego.ganador(), None);
    let paso = juego.comenzar_turno();
    assert_eq!(paso, Paso::Turno { jugador: 0, evento_sorpresa: false });

    let celda = juego.jugadores[1].barcos[0].posiciones[0];
    assert!(juego.puede_atacar(0));
    let respuesta = juego.manejar_instruccion(Instruccion::Ataque(0, celda), 0, &vec![]);
    assert!(respuesta.completa);
    assert_eq!(
        respuesta.envios,
        vec![
            Envio { destinatario: 1, mensaje: Mensaje::BarcoHundido },
            Envio { destinatario: 1, mensaje: Mensaje::Perdiste(0) },
            Envio { destinatario: 0, mensaje: Mensaje::MensajeInfoAtaque(15, 100) },
        ]
    );
    assert!(juego.jugadores[1].barcos.is_empty());
    assert!(juego.jugadores[1].ha_perdido);
    assert!(!juego.jugadores[0].ha_perdido);
    assert_eq!(juego.jugadores[0].puntos, 15);
    assert_eq!(juego.jugadores[0].monedas, 600);
    assert_eq!(juego.mapa.obtener(celda), Some('X'));

    assert_eq!(juego.terminar_turno(), Envio { destinatario: 0, mensaje: Mensaje::Puntos(15) });
    assert!(juego.finalizo());
    assert_eq!(juego.ganador(), Some(0));
    assert_eq!(juego.comenzar_turno(), Paso::Fin(Some(0)));
    assert_eq!(
        juego.cerrar_partida(),
        vec![
            Envio { destinatario: 0, mensaje: Mensaje::Ganaste(15) },
            Envio { destinatario: 0, mensaje: Mensaje::FinPartida("A".to_string(), 15) },
        ]
    );
    let tabla = juego.actualizar_ranking(vec![("A".to_string(), 7)]).unwrap();
    assert_eq!(tabla, vec![("A".to_string(), 22), ("B".to_string(), 0)]);
}

#[test]
fn compra_sin_monedas_se_rechaza_y_no_cambia_nada() {
    let mut juego = partida(vec![vec![Barco::new(0, 1, vec![(0, 0)])], vec![]]);
    juego.jugadores[0].monedas = 100;
    let respuesta = juego.manejar_instruccion(Instruccion::Compra(3), 0, &vec![]);
    assert!(!respuesta.completa);
    assert_eq!(juego.jugadores[0].monedas, 100);
    assert_eq!(juego.jugadores[0].barcos.len(), 1);
    assert_eq!(
        respuesta.envios,
        vec![Envio {
            destinatario: 0,
            mensaje: Mensaje::RepetirAccion(
                "No cuenta con el dinero suficiente para comprar ese barco".to_string(),
                vec![(0, vec![(0, 0)])],
                100
            ),
        }]
    );
    for y in 0..10 {
        for x in 0..10 {
            let esperado = if (x, y) == (0, 0) { '0' } else { '.' };
            assert_eq!(juego.mapa.obtener((x, y)), Some(esperado));
        }
    }
}

#[test]
fn compra_aceptada_descuenta_el_precio_y_coloca_el_barco() {
    let mut juego = partida(vec![vec![Barco::new(0, 1, vec![(0, 0)])], vec![]]);
    assert_eq!(precio(1), Some(100));
    assert_eq!(precio(2), Some(200));
    assert_eq!(precio(3), Some(300));
    assert_eq!(precio(0), None);
    assert_eq!(precio(4), None);
    let respuesta = juego.manejar_instruccion(Instruccion::Compra(3), 0, &vec![]);
    assert!(respuesta.completa);
    assert_eq!(
        respuesta.envios,
        vec![Envio { destinatario: 0, mensaje: Mensaje::CompraExitosa(200, 3) }]
    );
    assert_eq!(juego.jugadores[0].monedas, 200);
    assert_eq!(juego.jugadores[0].barcos.len(), 2);
    let nuevo = &juego.jugadores[0].barcos[1];
    assert_eq!(nuevo.id, 1);
    assert_eq!(nuevo.tamano, 3);
    assert_eq!(nuevo.estado, EstadoBarco::Sano);
    assert_eq!(nuevo.posiciones.len(), 3);
    for c in &nuevo.posiciones {
        assert_ne!(*c, (0, 0));
        assert_eq!(juego.mapa.obtener(*c), Some('0'));
    }
}

#[test]
fn compra_de_un_tipo_fuera_del_catalogo_se_rechaza() {
    let mut juego = partida(vec![vec![Barco::new(0, 1, vec![(0, 0)])]]);
    for tipo in [0usize, 4, 100] {
        let r = juego.abrir_tienda(0, tipo);
        assert_eq!(
            r,
            Err(Mensaje::RepetirAccion(
                "El barco elegido no esta en la tienda, elija otra accion u otro barco."
                    .to_string(),
                vec![(0, vec![(0, 0)])],
                500
            ))
        );
    }
    assert_eq!(juego.jugadores[0].monedas, 500);
}

#[test]
fn compra_sin_lugar_en_el_tablero_se_rechaza() {
    let mut juego = partida(vec![vec![Barco::new(0, 1, vec![(0, 0)])]]);
    for y in 0..10 {
        for x in 0..10 {
            if (x, y) != (0, 0) && (x, y) != (9, 9) {
                juego.mapa.set(y, x, 'X');
            }
        }
    }
    let r = juego.abrir_tienda(0, 2);
    assert_eq!(
        r,
        Err(Mensaje::RepetirAccion(
            "No hay lugar en el tablero para un barco de ese tamaño.".to_string(),
            vec![(0, vec![(0, 0)])],
            500
        ))
    );
    assert_eq!(juego.jugadores[0].monedas, 500);
    assert_eq!(juego.abrir_tienda(0, 1), Ok(Mensaje::CompraExitosa(400, 1)));
    assert_eq!(juego.jugadores[0].barcos[1].posiciones, vec![(9, 9)]);
}

#[test]
fn un_barco_golpeado_no_se_puede_mover() {
    let mut juego = partida(vec![vec![Barco::new(0, 2, vec![(0, 0), (1, 0)])], vec![]]);
    juego.jugadores[0].barcos[0].estado = EstadoBarco::Golpeado;
    let motivo =
        "El barco seleccionado esta golpeado, no se puede mover, elija otra accion u otro barco.";
    for destino in [(5, 5), (0, 0), (9, 9), (-3, 40)] {
        let respuesta = juego.manejar_instruccion(Instruccion::Movimiento(0, destino), 0, &vec![]);
        assert!(!respuesta.completa);
        assert_eq!(
            respuesta.envios,
            vec![Envio {
                destinatario: 0,
                mensaje: Mensaje::RepetirAccion(
                    motivo.to_string(),
                    vec![(0, vec![(0, 0), (1, 0)])],
                    500
                ),
            }]
        );
        assert_eq!(juego.jugadores[0].barcos[0].posiciones, vec![(0, 0), (1, 0)]);
        assert_eq!(juego.mapa.obtener((5, 5)), Some('.'));
        assert_eq!(juego.mapa.obtener((0, 0)), Some('0'));
    }
    juego.jugadores[0].barcos[0].estado = EstadoBarco::Hundido;
    assert!(juego.procesar_movimiento(0, (5, 5), 0).is_err());
}

#[test]
fn movimiento_aceptado_actualiza_barco_y_tablero_juntos() {
    let mut juego = partida(vec![
        vec![Barco::new(0, 2, vec![(0, 0), (1, 0)])],
        vec![Barco::new(0, 1, vec![(6, 5)])],
    ]);
    let respuesta = juego.manejar_instruccion(Instruccion::Movimiento(0, (5, 5)), 0, &vec![]);
    assert!(respuesta.completa);
    assert!(respuesta.envios.is_empty());
    assert_eq!(juego.jugadores[0].barcos[0].posiciones, vec![(5, 5), (5, 6)]);
    assert_eq!(juego.jugadores[0].barcos[0].estado, EstadoBarco::Sano);
    assert_eq!(juego.mapa.obtener((0, 0)), Some('.'));
    assert_eq!(juego.mapa.obtener((1, 0)), Some('.'));
    assert_eq!(juego.mapa.obtener((5, 5)), Some('0'));
    assert_eq!(juego.mapa.obtener((5, 6)), Some('0'));
    assert_eq!(juego.mapa.obtener((6, 5)), Some('1'));
    assert_eq!(juego.jugadores[1].barcos[0].posiciones, vec![(6, 5)]);
}

#[test]
fn movimiento_sin_espacio_o_con_barco_inexistente_se_rechaza() {
    let mut juego = partida(vec![
        vec![Barco::new(0, 2, vec![(0, 0), (1, 0)])],
        vec![Barco::new(0, 1, vec![(9, 8)])],
    ]);
    assert_eq!(
        juego.procesar_movimiento(0, (9, 9), 0),
        Err(Mensaje::RepetirAccion(
            "No hay suficientes espacios contiguos disponibles para mover el barco.".to_string(),
            vec![(0, vec![(0, 0), (1, 0)])],
            500
        ))
    );
    assert_eq!(
        juego.procesar_movimiento(0, (0, 0), 0),
        Err(Mensaje::RepetirAccion(
            "No hay suficientes espacios contiguos disponibles para mover el barco.".to_string(),
            vec![(0, vec![(0, 0), (1, 0)])],
            500
        ))
    );
    assert_eq!(
        juego.procesar_movimiento(3, (5, 5), 0),
        Err(Mensaje::RepetirAccion(
            "El barco seleccionado no existe, elija otra accion u otro barco.".to_string(),
            vec![(0, vec![(0, 0), (1, 0)])],
            500
        ))
    );
    assert_eq!(juego.jugadores[0].barcos[0].posiciones, vec![(0, 0), (1, 0)]);
    assert_eq!(juego.mapa.obtener((0, 0)), Some('0'));
}

#[test]
fn el_ataque_se_resuelve_contra_todos_los_demas() {
    let mut juego = partida(vec![
        vec![Barco::new(0, 1, vec![(0, 0)])],
        vec![Barco::new(0, 2, vec![(3, 3), (4, 3)])],
        vec![Barco::new(0, 1, vec![(8, 8)]), Barco::new(1, 1, vec![(9, 9)])],
    ]);
    let (pierde, envios) = juego.procesar_ataque((3, 3), 0);
    assert!(!pierde);
    assert_eq!(
        envios,
        vec![
            Envio { destinatario: 1, mensaje: Mensaje::BarcoGolpead((3, 3)) },
            Envio { destinatario: 0, mensaje: Mensaje::MensajeInfoAtaque(5, 50) },
        ]
    );
    assert_eq!((juego.jugadores[0].puntos, juego.jugadores[0].monedas), (5, 550));
    assert_eq!(juego.jugadores[1].barcos[0].estado, EstadoBarco::Golpeado);
    assert_eq!(juego.jugadores[1].barcos[0].posiciones, vec![(4, 3)]);

    let (pierde, envios) = juego.procesar_ataque((8, 8), 1);
    assert!(!pierde);
    assert_eq!(
        envios,
        vec![
            Envio { destinatario: 2, mensaje: Mensaje::BarcoHundido },
            Envio { destinatario: 1, mensaje: Mensaje::MensajeInfoAtaque(15, 100) },
        ]
    );
    assert_eq!(juego.jugadores[2].barcos.len(), 1);
    assert!(!juego.jugadores[2].ha_perdido);
}

#[test]
fn atacar_la_propia_celda_o_una_vacia_es_agua() {
    let mut juego = partida(vec![
        vec![Barco::new(0, 1, vec![(0, 0)])],
        vec![Barco::new(0, 1, vec![(5, 5)])],
    ]);
    for celda in [(0, 0), (7, 7), (-1, 3), (10, 10)] {
        let (pierde, envios) = juego.procesar_ataque(celda, 0);
        assert!(!pierde);
        assert_eq!(
            envios,
            vec![Envio { destinatario: 0, mensaje: Mensaje::MensajeInfoAtaque(0, 0) }]
        );
    }
    assert_eq!(juego.jugadores[0].barcos[0].posiciones, vec![(0, 0)]);
    assert_eq!(juego.jugadores[1].barcos[0].posiciones, vec![(5, 5)]);
    assert_eq!(juego.jugadores[1].barcos[0].estado, EstadoBarco::Sano);
    assert_eq!((juego.jugadores[0].puntos, juego.jugadores[0].monedas), (0, 500));
    assert_eq!(juego.mapa.obtener((0, 0)), Some('0'));
    assert_eq!(juego.mapa.obtener((7, 7)), Some('.'));
}

#[test]
fn saltar_cumple_el_turno_sin_cambios() {
    let mut juego = partida(vec![vec![Barco::new(0, 1, vec![(0, 0)])], vec![]]);
    let respuesta = juego.manejar_instruccion(Instruccion::Saltar, 0, &vec![]);
    assert!(respuesta.completa);
    assert!(respuesta.envios.is_empty());
    assert_eq!(juego.jugadores[0].monedas, 500);
}

#[test]
fn ranking_vacio_es_un_error_y_pide_repetir() {
    let mut juego = partida(vec![vec![Barco::new(0, 1, vec![(0, 0)])]]);
    assert_eq!(Juego::mostrar_ranking(&vec![]), Err(CustomError::ErrorRankingVacio));
    let respuesta = juego.manejar_instruccion(Instruccion::Ranking, 0, &vec![]);
    assert!(!respuesta.completa);
    assert_eq!(
        respuesta.envios,
        vec![Envio {
            destinatario: 0,
            mensaje: Mensaje::RepetirAccion(
                "El ranking esta vacio".to_string(),
                vec![(0, vec![(0, 0)])],
                500
            ),
        }]
    );
}

#[test]
fn ranking_se_muestra_de_mayor_a_menor() {
    let mut juego = partida(vec![vec![Barco::new(0, 1, vec![(0, 0)])]]);
    let tabla = vec![
        ("ana".to_string(), 10),
        ("beto".to_string(), 30),
        ("caro".to_string(), 10),
        ("dani".to_string(), 20),
        ("eva".to_string(), 30),
    ];
    let ordenada = vec![
        ("beto".to_string(), 30),
        ("eva".to_string(), 30),
        ("dani".to_string(), 20),
        ("ana".to_string(), 10),
        ("caro".to_string(), 10),
    ];
    assert_eq!(ordenar_ranking(&tabla), ordenada);
    assert_eq!(Juego::mostrar_ranking(&tabla), Ok(Mensaje::Ranking(ordenada.clone())));
    let respuesta = juego.manejar_instruccion(Instruccion::Ranking, 0, &tabla);
    assert!(respuesta.completa);
    assert_eq!(
        respuesta.envios,
        vec![Envio { destinatario: 0, mensaje: Mensaje::Ranking(ordenada) }]
    );
}

#[test]
fn actualizar_ranking_suma_por_nombre() {
    let mut juego = partida(vec![vec![], vec![], vec![]]);
    juego.jugadores[0].nombre_usuario = "ana".to_string();
    juego.jugadores[0].puntos = 15;
    juego.jugadores[1].nombre_usuario = "beto".to_string();
    juego.jugadores[1].puntos = 5;
    juego.jugadores[2].nombre_usuario = "ana".to_string();
    juego.jugadores[2].puntos = 1;
    let tabla = vec![("zoe".to_string(), 3), ("beto".to_string(), 40)];
    assert_eq!(
        juego.actualizar_ranking(tabla),
        Ok(vec![("zoe".to_string(), 3), ("beto".to_string(), 45), ("ana".to_string(), 16)])
    );
}

#[test]
fn actualizar_ranking_falla_si_un_puntaje_no_cabe() {
    let mut juego = partida(vec![vec![]]);
    juego.jugadores[0].nombre_usuario = "ana".to_string();
    juego.jugadores[0].puntos = 2;
    assert_eq!(
        juego.actualizar_ranking(vec![("ana".to_string(), usize::MAX - 1)]),
        Err(CustomError::ErrorMostrandoRanking)
    );
    assert_eq!(
        juego.actualizar_ranking(vec![("ana".to_string(), usize::MAX - 2)]),
        Ok(vec![("ana".to_string(), usize::MAX)])
    );
    let mut tabla = vec![("ana".to_string(), usize::MAX)];
    assert!(!sumar_puntaje(&mut tabla, &"ana".to_string(), 1));
    assert_eq!(tabla, vec![("ana".to_string(), usize::MAX)]);
    assert!(sumar_puntaje(&mut tabla, &"beto".to_string(), 1));
    assert_eq!(tabla, vec![("ana".to_string(), usize::MAX), ("beto".to_string(), 1)]);
}

#[test]
fn el_turno_salta_a_los_jugadores_sin_barcos() {
    let mut juego = partida(vec![
        vec![Barco::new(0, 1, vec![(0, 0)])],
        vec![],
        vec![],
        vec![Barco::new(0, 1, vec![(5, 5)])],
    ]);
    assert_eq!(juego.comenzar_turno(), Paso::Turno { jugador: 0, evento_sorpresa: false });
    let _ = juego.terminar_turno();
    assert_eq!(juego.turno, 1);
    assert_eq!(juego.rondas, 1);
    assert_eq!(juego.comenzar_turno(), Paso::Turno { jugador: 3, evento_sorpresa: false });
    assert_eq!(juego.turno, 3);
    let _ = juego.terminar_turno();
    assert_eq!(juego.turno, 0);
    assert_eq!(juego.rondas, 2);
    juego.turno = 2;
    assert_eq!(juego.comenzar_turno(), Paso::Turno { jugador: 3, evento_sorpresa: false });
    juego.turno = 40;
    assert_eq!(juego.comenzar_turno(), Paso::Turno { jugador: 0, evento_sorpresa: false });
}

#[test]
fn el_evento_sorpresa_toca_una_sola_vez() {
    let mut juego = partida(vec![
        vec![Barco::new(0, 1, vec![(0, 0)])],
        vec![Barco::new(0, 1, vec![(5, 5)])],
    ]);
    let mut eventos = Vec::new();
    for _ in 0..12 {
        match juego.comenzar_turno() {
            Paso::Turno { evento_sorpresa, .. } => {
                if evento_sorpresa {
                    eventos.push(juego.rondas);
                }
            }
            Paso::Fin(_) => panic!("la partida no termino"),
        }
        let _ = juego.terminar_turno();
    }
    assert_eq!(eventos, vec![EVENTO_SORPRESA]);
    assert_eq!(EVENTO_SORPRESA, 5);
    assert!(juego.evento_hecho);
}

#[test]
fn sin_barcos_de_nadie_no_hay_ganador() {
    let mut juego = partida(vec![vec![], vec![]]);
    assert!(juego.finalizo());
    assert_eq!(juego.ganador(), None);
    assert_eq!(juego.comenzar_turno(), Paso::Fin(None));
    assert!(juego.cerrar_partida().is_empty());
    let mut vacio = Juego::new(0);
    assert!(vacio.finalizo());
    assert_eq!(vacio.comenzar_turno(), Paso::Fin(None));
}

#[test]
fn el_cierre_avisa_a_los_que_no_fueron_eliminados() {
    let mut juego = partida(vec![vec![], vec![Barco::new(0, 1, vec![(5, 5)])], vec![]]);
    juego.jugadores[0].ha_perdido = true;
    juego.jugadores[1].puntos = 35;
    assert_eq!(
        juego.cerrar_partida(),
        vec![
            Envio { destinatario: 1, mensaje: Mensaje::Ganaste(35) },
            Envio { destinatario: 1, mensaje: Mensaje::FinPartida("Jugador 1".to_string(), 35) },
            Envio { destinatario: 2, mensaje: Mensaje::FinPartida("Jugador 1".to_string(), 35) },
        ]
    );
    let en_curso = partida(vec![
        vec![Barco::new(0, 1, vec![(0, 0)])],
        vec![Barco::new(0, 1, vec![(5, 5)])],
    ]);
    assert!(en_curso.cerrar_partida().is_empty());
}

#[test]
fn puede_atacar_detecta_puntajes_que_no_caben() {
    let mut juego = partida(vec![
        vec![Barco::new(0, 1, vec![(0, 0)])],
        vec![Barco::new(0, 1, vec![(5, 5)])],
    ]);
    assert!(juego.puede_atacar(0));
    assert_eq!(juego.contar_barcos(), Some(2));
    juego.jugadores[0].puntos = usize::MAX - 29;
    assert!(!juego.puede_atacar(0));
    juego.jugadores[0].puntos = usize::MAX - 30;
    assert!(juego.puede_atacar(0));
    juego.jugadores[0].monedas = usize::MAX - 199;
    assert!(!juego.puede_atacar(0));
    assert!(juego.puede_atacar(1));
    assert_eq!(juego.buscar_jugador(1), Some(1));
    assert_eq!(juego.buscar_jugador(9), None);
}

#[test]
fn al_pedir_la_accion_el_jugador_recibe_el_aviso_y_su_tablero() {
    let juego = partida(vec![
        vec![Barco::new(0, 1, vec![(0, 0)])],
        vec![Barco::new(0, 1, vec![(5, 5)])],
        vec![],
    ]);
    let mut vista = vec![vec!['.'; 10]; 10];
    vista[5][5] = '1';
    assert_eq!(
        juego.pedir_accion(1),
        vec![
            Envio { destinatario: 1, mensaje: Mensaje::RealiceAccion },
            Envio {
                destinatario: 1,
                mensaje: Mensaje::Tablero(vista, vec![(0, vec![(5, 5)])], 500),
            },
        ]
    );
    assert_eq!(
        juego.pedir_accion(2),
        vec![Envio { destinatario: 2, mensaje: Mensaje::RealiceAccion }]
    );
}

#[test]
fn un_jugador_sin_barcos_queda_eliminado_con_el_primer_ataque() {
    let mut juego = partida(vec![
        vec![Barco::new(0, 1, vec![(0, 0)])],
        vec![],
        vec![Barco::new(0, 1, vec![(5, 5)])],
    ]);
    let (pierde, envios) = juego.procesar_ataque((9, 9), 0);
    assert!(pierde);
    assert_eq!(
        envios,
        vec![
            Envio { destinatario: 1, mensaje: Mensaje::Perdiste(0) },
            Envio { destinatario: 0, mensaje: Mensaje::MensajeInfoAtaque(0, 0) },
        ]
    );
    assert!(juego.jugadores[1].ha_perdido);
    let (pierde, envios) = juego.procesar_ataque((9, 9), 0);
    assert!(!pierde);
    assert_eq!(envios.len(), 1);
}

#[test]
fn la_partida_sigue_coherente_tras_jugar() {
    let mut juego = Juego::new(4);
    assert!(juego.es_coherente());
    juego.agregar_jugador(4, "Eva".to_string());
    assert!(juego.es_coherente());
    for ronda in 0..40usize {
        let jugador = match juego.comenzar_turno() {
            Paso::Turno { jugador, .. } => jugador,
            Paso::Fin(_) => break,
        };
        let celda = ((ronda * 7 % 10) as i32, (ronda * 3 % 10) as i32);
        let instruccion = match ronda % 4 {
            0 => Instruccion::Ataque(0, celda),
            1 => Instruccion::Movimiento(0, celda),
            2 => Instruccion::Compra(1 + ronda % 3),
            _ => Instruccion::Ataque(0, (celda.1, celda.0)),
        };
        assert!(juego.puede_atacar(jugador));
        let _ = juego.manejar_instruccion(instruccion, jugador, &vec![]);
        assert!(juego.es_coherente());
        let _ = juego.terminar_turno();
        assert!(juego.es_coherente());
    }
    juego.eliminar_jugador(2);
    assert!(juego.es_coherente());
}

#[test]
fn una_partida_rota_no_es_coherente() {
    let base = || {
        partida(vec![
            vec![Barco::new(0, 2, vec![(0, 0), (1, 0)]), Barco::new(1, 1, vec![(5, 5)])],
            vec![Barco::new(0, 1, vec![(7, 7)])],
        ])
    };
    assert!(base().es_coherente());

    let mut juego = base();
    juego.mapa.set(0, 1, '.');
    assert!(!juego.es_coherente());

    let mut juego = base();
    juego.mapa.set(7, 7, '0');
    assert!(!juego.es_coherente());

    let mut juego = base();
    juego.jugadores[0].barcos[1].posiciones = vec![(1, 0)];
    assert!(!juego.es_coherente());

    let mut juego = base();
    juego.jugadores[1].barcos[0].posiciones = vec![(7, 7), (7, 7)];
    assert!(!juego.es_coherente());

    let mut juego = base();
    juego.jugadores[0].barcos[0].posiciones = vec![(0, 0), (10, 0)];
    assert!(!juego.es_coherente());

    let mut juego = base();
    juego.jugadores[0].barcos[1].estado = EstadoBarco::Hundido;
    assert!(!juego.es_coherente());

    let mut juego = base();
    juego.mapa.set(5, 5, '.');
    juego.jugadores[0].barcos[1].posiciones = vec![];
    assert!(!juego.es_coherente());

    let mut juego = base();
    juego.jugadores[0].barcos[1].id = 0;
    assert!(!juego.es_coherente());

    let mut juego = base();
    juego.jugadores[0].siguiente_barco = 1;
    assert!(!juego.es_coherente());

    let mut juego = base();
    juego.jugadores[0].barcos[0].estado = EstadoBarco::Golpeado;
    juego.jugadores[0].puntos = 99;
    juego.turno = 5;
    assert!(juego.es_coherente());
}
