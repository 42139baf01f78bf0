use batalla_naval::barco::Barco;
use batalla_naval::custom_error::CustomError;
use batalla_naval::mapa::{
    from_bytes, marcador, origen_sorteado, Mapa, HUNDIDO, INTENTOS_AL_AZAR, LADO, VACIO,
};
use batalla_naval::mensaje::Mensaje;
use std::io::Write;

#[test]
fn test_mapa_new() {
    let mapa = Mapa::new();
    assert_eq!(mapa.nrows(), 10);
    assert_eq!(mapa.ncols(), 10);
}

#[test]
fn test_mapa_set() {
    let mut mapa = Mapa::new();
    mapa.set(0, 0, 'a');
    assert_eq!(mapa.obtener((0, 0)), Some('a'));
}

#[test]
fn test_mapa_imprimir_tablero() {
    let mut mapa = Mapa::new();
    mapa.set(0, 0, 'a');
    let output = Vec::new();
    let _ = std::io::stdout().write_all(&output);
    let _ = mapa.tablero_para('a');
    let output = String::from_utf8(output).unwrap();
    assert_eq!(output, "");
}

#[test]
fn tablero_nuevo_esta_vacio() {
    let mapa = Mapa::new();
    assert_eq!(LADO, 10);
    for y in 0..10 {
        for x in 0..10 {
            assert_eq!(mapa.obtener((x, y)), Some('.'));
            assert!(mapa.es_coordenada_vacia((x, y)));
        }
    }
}

#[test]
fn fuera_del_tablero_nada_esta_vacio() {
    let mapa = Mapa::new();
    assert!(!mapa.es_coordenada_vacia((-1, 0)));
    assert!(!mapa.es_coordenada_vacia((0, -1)));
    assert!(!mapa.es_coordenada_vacia((10, 0)));
    assert!(!mapa.es_coordenada_vacia((0, 10)));
    assert!(!mapa.es_coordenada_vacia((i32::MAX, i32::MAX)));
    assert!(!mapa.es_coordenada_vacia((i32::MIN, 3)));
    assert_eq!(mapa.obtener((10, 10)), None);
    assert_eq!(mapa.obtener((-1, 5)), None);
}

#[test]
fn set_fuera_de_rango_no_hace_nada() {
    let mut mapa = Mapa::new();
    mapa.set(10, 0, 'a');
    mapa.set(0, 10, 'a');
    assert_eq!(mapa.tablero_para('a'), vec![vec!['.'; 10]; 10]);
}

#[test]
fn set_usa_fila_y_columna() {
    let mut mapa = Mapa::new();
    mapa.set(2, 7, 'q');
    assert_eq!(mapa.obtener((7, 2)), Some('q'));
    assert_eq!(mapa.obtener((2, 7)), Some('.'));
}

#[test]
fn region_horizontal_tiene_preferencia() {
    let mapa = Mapa::new();
    assert_eq!(mapa.obtener_coordenadas_contiguas((2, 3), 3), vec![(2, 3), (3, 3), (4, 3)]);
    assert_eq!(mapa.obtener_coordenadas_contiguas((0, 0), 1), vec![(0, 0)]);
    assert_eq!(
        mapa.obtener_coordenadas_contiguas((5, 9), 5),
        vec![(5, 9), (6, 9), (7, 9), (8, 9), (9, 9)]
    );
}

#[test]
fn region_vertical_cuando_la_horizontal_esta_ocupada() {
    let mut mapa = Mapa::new();
    mapa.set(3, 4, '1');
    assert_eq!(mapa.obtener_coordenadas_contiguas((2, 3), 3), vec![(2, 3), (2, 4), (2, 5)]);
}

#[test]
fn region_vertical_cuando_la_horizontal_sale_del_tablero() {
    let mapa = Mapa::new();
    assert_eq!(mapa.obtener_coordenadas_contiguas((8, 0), 3), vec![(8, 0), (8, 1), (8, 2)]);
}

#[test]
fn sin_region_cuando_ninguna_direccion_alcanza() {
    let mut mapa = Mapa::new();
    assert!(mapa.obtener_coordenadas_contiguas((8, 8), 3).is_empty());
    assert!(mapa.obtener_coordenadas_contiguas((0, 0), 11).is_empty());
    assert!(mapa.obtener_coordenadas_contiguas((-1, 0), 1).is_empty());
    assert!(mapa.obtener_coordenadas_contiguas((0, 0), 0).is_empty());
    mapa.set(0, 1, '1');
    mapa.set(1, 0, '2');
    assert!(mapa.obtener_coordenadas_contiguas((0, 0), 2).is_empty());
    mapa.set(5, 5, 'X');
    assert!(mapa.obtener_coordenadas_contiguas((5, 5), 1).is_empty());
}

#[test]
fn region_desde_origen_ocupado_es_vacia() {
    let mut mapa = Mapa::new();
    mapa.set(3, 2, '1');
    assert!(mapa.obtener_coordenadas_contiguas((2, 3), 1).is_empty());
    assert!(mapa.obtener_coordenadas_contiguas((2, 3), 2).is_empty());
}

#[test]
fn la_region_nunca_incluye_celdas_ocupadas() {
    let mut mapa = Mapa::new();
    for k in 0..10 {
        mapa.set(k, (k * 3) % 10, '1');
        mapa.set((k * 7) % 10, k, '2');
    }
    for y in 0..10 {
        for x in 0..10 {
            for n in 1..5usize {
                let region = mapa.obtener_coordenadas_contiguas((x, y), n);
                assert!(region.is_empty() || region.len() == n);
                for c in region {
                    assert!(mapa.es_coordenada_vacia(c));
                }
            }
        }
    }
}

#[test]
fn marcar_hundido_pone_la_marca_y_no_se_borra_al_mover() {
    let mut mapa = Mapa::new();
    mapa.marcar_hundido((4, 6));
    assert_eq!(mapa.obtener((4, 6)), Some('X'));
    assert_eq!(HUNDIDO, 'X');
    assert!(!mapa.es_coordenada_vacia((4, 6)));
    mapa.marcar_hundido((40, 6));
    mapa.marcar_hundido((-4, 6));
    let barco = Barco::new(0, 1, vec![(0, 0)]);
    mapa.estampar(&vec![(0, 0)], '3');
    assert!(mapa.actualizar_posicion_barco(&barco, vec![(1, 1)], 3));
    assert_eq!(mapa.obtener((4, 6)), Some('X'));
}

#[test]
fn mover_vacia_el_origen_y_marca_el_destino() {
    let mut mapa = Mapa::new();
    mapa.estampar(&vec![(2, 2), (3, 2)], '7');
    let barco = Barco::new(0, 2, vec![(2, 2), (3, 2)]);
    let modifico = mapa.actualizar_posicion_barco(&barco, vec![(5, 5), (5, 6)], 7);
    assert!(modifico);
    assert_eq!(mapa.obtener((2, 2)), Some('.'));
    assert_eq!(mapa.obtener((3, 2)), Some('.'));
    assert_eq!(mapa.obtener((5, 5)), Some('7'));
    assert_eq!(mapa.obtener((5, 6)), Some('7'));
}

#[test]
fn mover_salta_las_celdas_fuera_del_tablero() {
    let mut mapa = Mapa::new();
    let barco = Barco::new(0, 2, vec![(-1, 0), (0, 0)]);
    mapa.estampar(&vec![(0, 0)], '1');
    let modifico = mapa.actualizar_posicion_barco(&barco, vec![(9, 9), (10, 9)], 1);
    assert!(modifico);
    assert_eq!(mapa.obtener((0, 0)), Some('.'));
    assert_eq!(mapa.obtener((9, 9)), Some('1'));
    let fuera = mapa.actualizar_posicion_barco(&barco, vec![(10, 10), (-3, 2)], 1);
    assert!(!fuera);
}

#[test]
fn estampar_informa_si_alguna_celda_cayo_dentro() {
    let mut mapa = Mapa::new();
    assert!(!mapa.estampar(&vec![], 'a'));
    assert!(!mapa.estampar(&vec![(10, 0), (0, -1)], 'a'));
    assert!(mapa.estampar(&vec![(10, 0), (3, 3)], 'a'));
    assert_eq!(mapa.obtener((3, 3)), Some('a'));
}

#[test]
fn la_vista_de_un_jugador_oculta_a_los_demas_y_muestra_lo_hundido() {
    let mut mapa = Mapa::new();
    mapa.set(0, 0, '1');
    mapa.set(0, 1, '2');
    mapa.set(9, 9, 'X');
    let vista = mapa.tablero_para('1');
    assert_eq!(vista.len(), 10);
    assert_eq!(vista[0].len(), 10);
    assert_eq!(vista[0][0], '1');
    assert_eq!(vista[0][1], '.');
    assert_eq!(vista[9][9], 'X');
    let otra = mapa.tablero_para('2');
    assert_eq!(otra[0][0], '.');
    assert_eq!(otra[0][1], '2');
    assert_eq!(otra[9][9], 'X');
    assert_eq!(VACIO, '.');
}

#[test]
fn el_marcador_es_el_primer_digito_del_identificador() {
    assert_eq!(marcador(0), '0');
    assert_eq!(marcador(7), '7');
    assert_eq!(marcador(10), '1');
    assert_eq!(marcador(42), '4');
    assert_eq!(marcador(987654), '9');
    for id in [0usize, 1, 9, 10, 19, 20, 99, 100, 256, 1000, 65535, usize::MAX] {
        assert_eq!(marcador(id), id.to_string().chars().next().unwrap());
    }
}

#[test]
fn resumen_de_barcos_lleva_id_y_posiciones() {
    let mapa = Mapa::new();
    let barcos = vec![Barco::new(3, 2, vec![(1, 1), (2, 1)]), Barco::new(8, 1, vec![(5, 5)])];
    assert_eq!(
        mapa.serializar_barcos(&barcos),
        vec![(3, vec![(1, 1), (2, 1)]), (8, vec![(5, 5)])]
    );
}

#[test]
fn colocar_al_azar_marca_una_region_que_estaba_libre() {
    for _ in 0..50 {
        let mut mapa = Mapa::new();
        mapa.set(4, 4, 'X');
        let region = mapa.colocar_al_azar('5', 3);
        assert_eq!(region.len(), 3);
        let horizontal = region[1] == (region[0].0 + 1, region[0].1)
            && region[2] == (region[0].0 + 2, region[0].1);
        let vertical = region[1] == (region[0].0, region[0].1 + 1)
            && region[2] == (region[0].0, region[0].1 + 2);
        assert!(horizontal || vertical);
        for y in 0..10 {
            for x in 0..10 {
                let esperado = if region.contains(&(x, y)) {
                    '5'
                } else if (x, y) == (4, 4) {
                    'X'
                } else {
                    '.'
                };
                assert_eq!(mapa.obtener((x, y)), Some(esperado));
            }
        }
    }
}

#[test]
fn colocar_al_azar_llena_el_tablero_y_despues_devuelve_vacio() {
    let mut mapa = Mapa::new();
    for _ in 0..100 {
        assert_eq!(mapa.colocar_al_azar('1', 1).len(), 1);
    }
    for y in 0..10 {
        for x in 0..10 {
            assert_eq!(mapa.obtener((x, y)), Some('1'));
        }
    }
    assert!(mapa.colocar_al_azar('1', 1).is_empty());
    assert!(mapa.primera_region_libre(1).is_empty());
    assert!(INTENTOS_AL_AZAR > 0);
}

#[test]
fn colocar_al_azar_encuentra_la_unica_region_que_queda() {
    let mut mapa = Mapa::new();
    for y in 0..10 {
        for x in 0..10 {
            if !(y == 6 && (x == 3 || x == 4)) {
                mapa.set(y as usize, x as usize, '2');
            }
        }
    }
    assert_eq!(mapa.primera_region_libre(2), vec![(3, 6), (4, 6)]);
    assert!(mapa.primera_region_libre(3).is_empty());
    assert_eq!(mapa.colocar_al_azar('8', 2), vec![(3, 6), (4, 6)]);
    assert_eq!(mapa.obtener((3, 6)), Some('8'));
    assert_eq!(mapa.obtener((4, 6)), Some('8'));
}

#[test]
fn posiciones_libres_contiguas_usa_el_primer_caracter_del_id() {
    let mut mapa = Mapa::new();
    let region = mapa.obtener_posiciones_libres_contiguas("37".to_string(), 2);
    assert_eq!(region.len(), 2);
    for c in region {
        assert_eq!(mapa.obtener(c), Some('3'));
    }
}

#[test]
fn el_mensaje_de_tablero_usa_la_marca_del_identificador() {
    let mut mapa = Mapa::new();
    mapa.set(1, 2, '4');
    mapa.set(3, 3, '5');
    let barcos = vec![Barco::new(0, 1, vec![(2, 1)])];
    let mut vista = vec![vec!['.'; 10]; 10];
    vista[1][2] = '4';
    assert_eq!(
        mapa.enviar_tablero("4".to_string(), &barcos, 120),
        Ok(Mensaje::Tablero(vista, vec![(0, vec![(2, 1)])], 120))
    );
    assert_eq!(
        mapa.enviar_tablero(String::new(), &barcos, 120),
        Err(CustomError::ErrorAceptandoConexion)
    );
}

#[test]
fn el_tablero_se_arma_de_sus_bytes_fila_por_fila() {
    let mut bytes = vec![b'.'; 100];
    bytes[0] = b'1';
    bytes[13] = b'2';
    bytes[99] = b'X';
    bytes.extend_from_slice(b"de mas");
    let mapa = from_bytes(&bytes);
    assert_eq!(mapa.nrows(), 10);
    assert_eq!(mapa.ncols(), 10);
    assert_eq!(mapa.obtener((0, 0)), Some('1'));
    assert_eq!(mapa.obtener((3, 1)), Some('2'));
    assert_eq!(mapa.obtener((9, 9)), Some('X'));
    assert_eq!(mapa.obtener((1, 3)), Some('.'));
    let corto = from_bytes(&[b'7', b'8', b'9']);
    assert_eq!(corto.obtener((0, 0)), Some('7'));
    assert_eq!(corto.obtener((2, 0)), Some('9'));
    assert_eq!(corto.obtener((3, 0)), Some('.'));
    assert_eq!(corto.obtener((0, 1)), Some('.'));
    assert_eq!(from_bytes(&[]).tablero_para('1'), vec![vec!['.'; 10]; 10]);
}

#[test]
fn colocar_al_azar_no_elige_siempre_el_mismo_lugar() {
    let mut lugares = Vec::new();
    for _ in 0..200 {
        let mut mapa = Mapa::new();
        let region = mapa.colocar_al_azar('1', 1);
        assert_eq!(region.len(), 1);
        let (x, y) = region[0];
        assert!((0..10).contains(&x) && (0..10).contains(&y));
        if !lugares.contains(&region[0]) {
            lugares.push(region[0]);
        }
    }
    assert!(lugares.len() > 1);
}

#[test]
fn el_origen_sorteado_lleva_la_columna_como_x_y_la_fila_como_y() {
    assert_eq!(origen_sorteado(0, 0), Some((0, 0)));
    assert_eq!(origen_sorteado(3, 7), Some((7, 3)));
    assert_eq!(origen_sorteado(9, 2), Some((2, 9)));
    assert_eq!(origen_sorteado(0x7fff_ffff, 0x7fff_ffff), Some((i32::MAX, i32::MAX)));
    assert_eq!(origen_sorteado(0x8000_0000, 0), None);
    assert_eq!(origen_sorteado(0, 0x8000_0000), None);
    assert_eq!(origen_sorteado(usize::MAX, usize::MAX), None);
}
