use batalla_naval::barco::Barco;
use batalla_naval::estado_barco::EstadoBarco;
use batalla_naval::jugador::{Jugador, MONEDAS_INICIALES};
use batalla_naval::mapa::Mapa;
use batalla_naval::mensaje::{Envio, Mensaje};

#[test]
fn test_new_jugador() {
    let jugador = Jugador::new(1, "Jugador 1".to_string(), &mut Mapa::new());
    assert_eq!(jugador.id, 1);
    assert_eq!(jugador.nombre_usuario, "Jugador 1");
    assert_eq!(jugador.barcos.len(), 1);
    assert_eq!(jugador.puntos, 0);
    assert_eq!(jugador.monedas, 500);
}

#[test]
fn test_agregar_barco() {
    let mut mapa = Mapa::new();
    let mut jugador = Jugador::new(1, "Jugador 1".to_string(), &mut mapa);
    jugador.agregar_barco(2, &mut mapa);
    assert_eq!(jugador.barcos.len(), 2);
}

#[test]
fn test_obtener_barco() {
    let mut mapa = Mapa::new();
    let mut jugador = Jugador::new(1, "Jugador 1".to_string(), &mut mapa);
    jugador.agregar_barco(2, &mut mapa);
    let barco = jugador.obtener_barco(1);
    assert_eq!(barco.tamano, 2);
}

#[test]
fn test_actualizar_posicion_barco() {
    let mut mapa = Mapa::new();
    let mut jugador = Jugador::new(1, "Jugador 1".to_string(), &mut mapa);
    jugador.agregar_barco(2, &mut mapa);
    jugador.actualizar_posicion_barco(vec![(0, 0), (0, 1)], 0, &mut mapa);
    assert_eq!(jugador.barcos[0].posiciones, vec![(0, 0)]);
}

#[test]
fn jugador_nuevo_ocupa_una_celda_con_su_marca() {
    let mut mapa = Mapa::new();
    let jugador = Jugador::new(4, "Ana".to_string(), &mut mapa);
    assert_eq!(MONEDAS_INICIALES, 500);
    assert!(!jugador.ha_perdido);
    assert!(jugador.esta_vivo());
    assert_eq!(jugador.barcos[0].id, 0);
    assert_eq!(jugador.barcos[0].tamano, 1);
    assert_eq!(jugador.barcos[0].estado, EstadoBarco::Sano);
    assert_eq!(jugador.barcos[0].posiciones.len(), 1);
    let celda = jugador.barcos[0].posiciones[0];
    let mut marcadas = 0;
    for y in 0..10 {
        for x in 0..10 {
            if mapa.obtener((x, y)) == Some('4') {
                marcadas += 1;
                assert_eq!((x, y), celda);
            } else {
                assert_eq!(mapa.obtener((x, y)), Some('.'));
            }
        }
    }
    assert_eq!(marcadas, 1);
}

#[test]
fn jugador_nuevo_en_tablero_lleno_queda_sin_barcos() {
    let mut mapa = Mapa::new();
    for y in 0..10 {
        for x in 0..10 {
            mapa.set(y, x, '9');
        }
    }
    let mut jugador = Jugador::new(2, "Beto".to_string(), &mut mapa);
    assert!(jugador.barcos.is_empty());
    assert!(!jugador.esta_vivo());
    jugador.agregar_barco(1, &mut mapa);
    assert!(jugador.barcos.is_empty());
    assert_eq!(jugador.manejar_turno(&mapa), None);
}

#[test]
fn los_barcos_nuevos_reciben_identificadores_sin_repetir() {
    let mut mapa = Mapa::new();
    let mut jugador = Jugador::new(1, "Ana".to_string(), &mut mapa);
    jugador.agregar_barco(2, &mut mapa);
    jugador.agregar_barco(3, &mut mapa);
    assert_eq!(jugador.barcos[1].id, 1);
    assert_eq!(jugador.barcos[2].id, 2);
    let celda = jugador.barcos[1].posiciones[0];
    let otra = jugador.barcos[1].posiciones[1];
    let _ = jugador.procesar_ataque(celda, &mut mapa);
    let _ = jugador.procesar_ataque(otra, &mut mapa);
    assert_eq!(jugador.barcos.len(), 2);
    jugador.agregar_barco(1, &mut mapa);
    assert_eq!(jugador.barcos.len(), 3);
    assert_eq!(jugador.barcos[0].id, 0);
    assert_eq!(jugador.barcos[1].id, 2);
    assert_eq!(jugador.barcos[2].id, 3);
}

#[test]
fn el_ataque_a_un_jugador_marca_la_celda_y_devuelve_el_premio() {
    let mut mapa = Mapa::new();
    let mut jugador = Jugador {
        id: 3,
        nombre_usuario: "Caro".to_string(),
        barcos: vec![Barco::new(0, 2, vec![(1, 1), (2, 1)]), Barco::new(1, 1, vec![(7, 7)])],
        puntos: 10,
        monedas: 20,
        ha_perdido: false,
        siguiente_barco: 2,
    };
    mapa.estampar(&vec![(1, 1), (2, 1), (7, 7)], '3');
    let (puntos, monedas, avisos) = jugador.procesar_ataque((9, 0), &mut mapa);
    assert_eq!((puntos, monedas), (0, 0));
    assert!(avisos.is_empty());
    assert_eq!(mapa.obtener((9, 0)), Some('.'));
    assert_eq!(jugador.barcos.len(), 2);

    let (puntos, monedas, avisos) = jugador.procesar_ataque((1, 1), &mut mapa);
    assert_eq!((puntos, monedas), (5, 50));
    assert_eq!(avisos, vec![Envio { destinatario: 3, mensaje: Mensaje::BarcoGolpead((1, 1)) }]);
    assert_eq!(mapa.obtener((1, 1)), Some('X'));
    assert_eq!(jugador.barcos[0].estado, EstadoBarco::Golpeado);

    let (puntos, monedas, avisos) = jugador.procesar_ataque((7, 7), &mut mapa);
    assert_eq!((puntos, monedas), (15, 100));
    assert_eq!(avisos, vec![Envio { destinatario: 3, mensaje: Mensaje::BarcoHundido }]);
    assert_eq!(mapa.obtener((7, 7)), Some('X'));
    assert_eq!(jugador.barcos.len(), 1);
    assert_eq!((jugador.puntos, jugador.monedas), (10, 20));

    let (puntos, monedas, avisos) = jugador.procesar_ataque((7, 7), &mut mapa);
    assert_eq!((puntos, monedas), (0, 0));
    assert!(avisos.is_empty());
}

#[test]
fn mover_trunca_el_destino_al_tamano_del_barco() {
    let mut mapa = Mapa::new();
    let mut jugador = Jugador {
        id: 5,
        nombre_usuario: "Dani".to_string(),
        barcos: vec![Barco::new(0, 2, vec![(1, 1), (2, 1)])],
        puntos: 0,
        monedas: 0,
        ha_perdido: false,
        siguiente_barco: 1,
    };
    mapa.estampar(&vec![(1, 1), (2, 1)], '5');
    jugador.actualizar_posicion_barco(vec![(4, 4), (5, 4), (6, 4)], 0, &mut mapa);
    assert_eq!(jugador.barcos[0].posiciones, vec![(4, 4), (5, 4)]);
    assert_eq!(mapa.obtener((1, 1)), Some('.'));
    assert_eq!(mapa.obtener((2, 1)), Some('.'));
    assert_eq!(mapa.obtener((4, 4)), Some('5'));
    assert_eq!(mapa.obtener((5, 4)), Some('5'));
    assert_eq!(mapa.obtener((6, 4)), Some('.'));
}

#[test]
fn mensajes_de_turno_del_jugador() {
    let mut mapa = Mapa::new();
    mapa.set(0, 0, '6');
    mapa.set(3, 3, '1');
    mapa.set(5, 5, 'X');
    let jugador = Jugador {
        id: 6,
        nombre_usuario: "Eva".to_string(),
        barcos: vec![Barco::new(0, 1, vec![(0, 0)])],
        puntos: 25,
        monedas: 350,
        ha_perdido: false,
        siguiente_barco: 1,
    };
    let mut vista = vec![vec!['.'; 10]; 10];
    vista[0][0] = '6';
    vista[5][5] = 'X';
    assert_eq!(
        jugador.manejar_turno(&mapa),
        Some(Mensaje::Tablero(vista, vec![(0, vec![(0, 0)])], 350))
    );
    assert_eq!(jugador.enviar_instrucciones(), Mensaje::Puntos(25));
}
