use batalla_naval::cliente::{accion_elegida, compra_elegida, Eleccion};
use batalla_naval::coordenadas::{es_espacio, leer_coordenadas, leer_indice};
use batalla_naval::custom_error::CustomError;
use batalla_naval::instruccion::Instruccion;

fn esperadas(texto: &str) -> Result<(i32, i32), CustomError> {
    let mut iter = texto.trim().split(',');
    if let (Some(x_str), Some(y_str)) = (iter.next(), iter.next()) {
        if let Ok(x) = x_str.trim().parse::<i32>() {
            if let Ok(y) = y_str.trim().parse::<i32>() {
                return Ok((x, y));
            }
        }
    }
    Err(CustomError::ErrorCoordenadasIncorrectas)
}

#[test]
fn coordenadas_bien_escritas() {
    assert_eq!(leer_coordenadas("1,2"), Ok((1, 2)));
    assert_eq!(leer_coordenadas(" 3 , 4 \n"), Ok((3, 4)));
    assert_eq!(leer_coordenadas("+5,-6"), Ok((5, -6)));
    assert_eq!(leer_coordenadas("-0,+0"), Ok((0, 0)));
    assert_eq!(leer_coordenadas("007,0010"), Ok((7, 10)));
    assert_eq!(leer_coordenadas("1,2,3"), Ok((1, 2)));
    assert_eq!(leer_coordenadas("1,2,"), Ok((1, 2)));
    assert_eq!(leer_coordenadas("1,2,basura"), Ok((1, 2)));
    assert_eq!(leer_coordenadas("2147483647,-2147483648"), Ok((i32::MAX, i32::MIN)));
    assert_eq!(leer_coordenadas("\u{a0}8\u{2003},\t9\u{3000}"), Ok((8, 9)));
}

#[test]
fn coordenadas_mal_escritas() {
    for texto in [
        "",
        " ",
        "1",
        ",",
        "1,",
        ",2",
        "a,b",
        "1;2",
        "1 2",
        "1 2,3",
        "1,2 3",
        "1,,2",
        "--1,2",
        "+-1,2",
        "+,1",
        "-,1",
        "1e3,2",
        "0x10,2",
        "1.5,2",
        "2147483648,0",
        "0,-2147483649",
        "99999999999999999999999999,1",
        "١,٢",
        "1,2\u{200b}",
    ] {
        assert_eq!(leer_coordenadas(texto), Err(CustomError::ErrorCoordenadasIncorrectas));
    }
}

#[test]
fn las_coordenadas_se_leen_como_las_lee_la_biblioteca_estandar() {
    let piezas = [
        "", " ", "0", "1", "-1", "+1", "12", "007", "2147483647", "2147483648", "-2147483648",
        "-2147483649", "a", "1a", "-", "+", "1 ", " 1", "\t9\n", "\u{a0}4", "4\u{85}", "3.0",
        "00000000000000000000000000000001", "4294967296", "\u{2009}5\u{202f}",
    ];
    let mut casos = 0;
    for a in piezas {
        for b in piezas {
            for texto in [
                format!("{},{}", a, b),
                format!(" {},{} ", a, b),
                format!("{},{},{}", a, b, a),
                format!("{}{}", a, b),
                format!("{} , {}\n", a, b),
            ] {
                assert_eq!(leer_coordenadas(&texto), esperadas(&texto));
                casos += 1;
            }
        }
    }
    assert_eq!(casos, 3125);
}

#[test]
fn numero_de_barco() {
    assert_eq!(leer_indice("0"), Some(0));
    assert_eq!(leer_indice(" 12\n"), Some(12));
    assert_eq!(leer_indice("+7"), Some(7));
    assert_eq!(leer_indice("0003"), Some(3));
    assert_eq!(leer_indice("-1"), None);
    assert_eq!(leer_indice("-0"), None);
    assert_eq!(leer_indice(""), None);
    assert_eq!(leer_indice("+"), None);
    assert_eq!(leer_indice("1 2"), None);
    assert_eq!(leer_indice("uno"), None);
    assert_eq!(leer_indice(&usize::MAX.to_string()), Some(usize::MAX));
    assert_eq!(leer_indice(&format!("{}0", usize::MAX)), None);
    assert_eq!(leer_indice("18446744073709551616"), None);
    for texto in ["5", " 5", "5 ", "+5", "-5", "05", "5a", "", "+", "99999999999999999999", "٣"] {
        assert_eq!(leer_indice(texto), texto.trim().parse::<usize>().ok());
    }
}

#[test]
fn los_espacios_son_los_de_la_biblioteca_estandar() {
    for u in 0..0x3100u32 {
        if let Some(c) = char::from_u32(u) {
            assert_eq!(es_espacio(c), c.is_whitespace());
        }
    }
    assert!(!es_espacio('\u{feff}'));
    assert!(!es_espacio('\u{10ffff}'));
}

#[test]
fn la_letra_elige_la_accion() {
    assert_eq!(accion_elegida("m"), Some(Eleccion::Mover));
    assert_eq!(accion_elegida("a"), Some(Eleccion::Atacar));
    assert_eq!(accion_elegida("t"), Some(Eleccion::Tienda));
    assert_eq!(accion_elegida("s"), Some(Eleccion::Saltar));
    assert_eq!(accion_elegida("r"), Some(Eleccion::Ranking));
    for texto in ["", "M", "x", "ma", " m", "m ", "mover", "á"] {
        assert_eq!(accion_elegida(texto), None);
    }
}

#[test]
fn la_opcion_de_la_tienda_elige_la_compra() {
    assert_eq!(compra_elegida("a", 500), (Instruccion::Compra(3), 300));
    assert_eq!(compra_elegida("a", 300), (Instruccion::Compra(3), 300));
    assert_eq!(compra_elegida("a", 299), (Instruccion::Saltar, 0));
    assert_eq!(compra_elegida("b", 200), (Instruccion::Compra(2), 200));
    assert_eq!(compra_elegida("b", 199), (Instruccion::Saltar, 0));
    assert_eq!(compra_elegida("c", 100), (Instruccion::Compra(1), 100));
    assert_eq!(compra_elegida("c", 0), (Instruccion::Saltar, 0));
    for opcion in ["", "d", "A", "ab", "3"] {
        assert_eq!(compra_elegida(opcion, 1000), (Instruccion::Compra(0), 0));
        assert_eq!(compra_elegida(opcion, 0), (Instruccion::Compra(0), 0));
    }
}
