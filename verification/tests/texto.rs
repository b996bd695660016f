use mdp_robot::cadenas::{
    decimal, digitos_fijos, formato_fijo, linea_csv, misma_cadena, potencia_de_diez,
    separar_campos,
};
use mdp_robot::config::{en_el_mapa, es_obstaculo, es_peligro, tipo_de_etiqueta, Celda};
use mdp_robot::experimentos::linea_resultado;

#[test]
fn igualdad_de_cadenas() {
    assert!(misma_cadena("", ""));
    assert!(misma_cadena("S10", "S10"));
    assert!(!misma_cadena("S1", "S10"));
    assert!(!misma_cadena("S10", "S11"));
    assert!(misma_cadena("señal", "señal"));
    assert!(!misma_cadena("señal", "senal"));
}

#[test]
fn numeros_decimales() {
    assert_eq!(decimal(0), "0");
    assert_eq!(decimal(7), "7");
    assert_eq!(decimal(80), "80");
    assert_eq!(decimal(1234567890), "1234567890");
    assert_eq!(decimal(u64::MAX), "18446744073709551615");
    assert_eq!(digitos_fijos(5, 2), "05");
    assert_eq!(digitos_fijos(123, 2), "23");
    assert_eq!(digitos_fijos(0, 6), "000000");
    assert_eq!(digitos_fijos(9, 0), "");
    assert_eq!(potencia_de_diez(0), 1);
    assert_eq!(potencia_de_diez(6), 1_000_000);
}

#[test]
fn formato_con_decimales_fijos() {
    assert_eq!(formato_fijo(800_000, 2), "0.80");
    assert_eq!(formato_fijo(100_000, 2), "0.10");
    assert_eq!(formato_fijo(1_000_000, 2), "1.00");
    assert_eq!(formato_fijo(0, 2), "0.00");
    assert_eq!(formato_fijo(125_000, 2), "0.13");
    assert_eq!(formato_fijo(124_999, 2), "0.12");
    assert_eq!(formato_fijo(999_999, 2), "1.00");
    assert_eq!(formato_fijo(-500_000, 2), "-0.50");
    assert_eq!(formato_fijo(-1, 2), "-0.00");
    assert_eq!(formato_fijo(9_300_000, 6), "9.300000");
    assert_eq!(formato_fijo(-123_456, 6), "-0.123456");
    assert_eq!(formato_fijo(12_500_000, 0), "13");
    assert_eq!(formato_fijo(i64::MAX, 6), "9223372036854.775807");
    assert_eq!(formato_fijo(i64::MIN, 6), "-9223372036854.775808");
}

#[test]
fn lineas_de_archivo() {
    assert_eq!(linea_csv(&vec![]), "");
    assert_eq!(linea_csv(&vec![900_000]), "0.90");
    assert_eq!(linea_csv(&vec![900_000, 100_000, 0]), "0.90,0.10,0.00");
    assert_eq!(linea_resultado(860_000, 500_000, 9_312_345), "0.86,0.50,9.312345");
    assert_eq!(linea_resultado(980_000, 900_000, -412_000), "0.98,0.90,-0.412000");
}

#[test]
fn tipos_de_etiqueta() {
    assert_eq!(tipo_de_etiqueta("M"), Celda::Meta);
    assert_eq!(tipo_de_etiqueta("P4"), Celda::Peligro);
    assert_eq!(tipo_de_etiqueta("O10"), Celda::Obstaculo);
    assert_eq!(tipo_de_etiqueta("S0"), Celda::Normal);
    assert_eq!(tipo_de_etiqueta("P5"), Celda::Normal);
    assert!(es_obstaculo("O1"));
    assert!(!es_obstaculo("O11"));
    assert!(es_peligro("P1"));
    assert!(!es_peligro("M"));
    assert!(en_el_mapa("O10"));
    assert!(en_el_mapa("S37"));
    assert!(!en_el_mapa("S2"));
    assert!(!en_el_mapa("S38"));
}

#[test]
fn campos_de_una_linea() {
    assert_eq!(separar_campos("0.86,0.50,9.312345"), vec!["0.86", "0.50", "9.312345"]);
    assert_eq!(separar_campos(""), vec![""]);
    assert_eq!(separar_campos("solo"), vec!["solo"]);
    assert_eq!(separar_campos(","), vec!["", ""]);
    assert_eq!(separar_campos("a,,b,"), vec!["a", "", "b", ""]);
    assert_eq!(separar_campos("λ,año,é"), vec!["λ", "año", "é"]);
    let linea = "discount_factor,success_probability,total_reward";
    assert_eq!(separar_campos(linea).join(","), linea);
    let esperado: Vec<&str> = linea.split(',').collect();
    assert_eq!(separar_campos(linea), esperado);
}
