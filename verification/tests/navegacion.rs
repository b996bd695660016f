use mdp_robot::config::{acciones, obtener_recompensas, recompensa_de};
use mdp_robot::mdp_model::{
    estado_de_etiqueta, etiqueta_de_estado, mover, obtener_estado, obtener_posicion,
};
use mdp_robot::mundo::mundo_base;

#[test]
fn acciones_en_orden_fijo() {
    assert_eq!(acciones(), vec!["N", "S", "E", "O"]);
}

#[test]
fn posicion_de_la_meta() {
    assert_eq!(obtener_posicion("M"), Ok((3, 4)));
}

#[test]
fn posicion_busca_tambien_entre_los_obstaculos() {
    assert_eq!(obtener_posicion("O5"), Ok((2, 3)));
    assert_eq!(obtener_posicion("S0"), Ok((0, 0)));
    assert_eq!(obtener_posicion("S37"), Ok((5, 7)));
    assert_eq!(obtener_posicion("P4"), Ok((4, 6)));
}

#[test]
fn posicion_y_estado_son_inversos() {
    for fila in 0..6isize {
        for col in 0..8isize {
            if let Some(estado) = obtener_estado(fila, col) {
                assert_eq!(obtener_posicion(estado), Ok((fila as usize, col as usize)));
            }
        }
    }
}

#[test]
fn posicion_de_etiqueta_desconocida() {
    assert_eq!(
        obtener_posicion("Z9"),
        Err(String::from("Estado 'Z9' no encontrado en el mapa"))
    );
}

#[test]
fn estado_fuera_del_mapa_o_en_obstaculo() {
    assert_eq!(obtener_estado(-1, 0), None);
    assert_eq!(obtener_estado(0, 8), None);
    assert_eq!(obtener_estado(6, 0), None);
    assert_eq!(obtener_estado(0, 3), None);
    assert_eq!(obtener_estado(0, 0), Some("S0"));
    assert_eq!(obtener_estado(5, 7), Some("S37"));
}

#[test]
fn mover_en_cada_direccion() {
    assert_eq!(mover(2, 3, "N"), (1, 3));
    assert_eq!(mover(2, 3, "S"), (3, 3));
    assert_eq!(mover(2, 3, "E"), (2, 4));
    assert_eq!(mover(2, 3, "O"), (2, 2));
    assert_eq!(mover(0, 0, "N"), (-1, 0));
    assert_eq!(mover(2, 3, "X"), (2, 3));
    assert_eq!(mover(2, 3, "n"), (2, 3));
    assert_eq!(mover(2, 3, ""), (2, 3));
    assert_eq!(mover(2, 3, "NO"), (2, 3));
}

#[test]
fn recompensas_por_tipo_de_celda() {
    let r = obtener_recompensas();
    assert_eq!(r.len(), 48);
    assert_eq!(r[3 * 8 + 4], 10_000_000);
    assert_eq!(r[2], -500_000);
    assert_eq!(r[0], -100_000);
    assert_eq!(recompensa_de("M"), 10_000_000);
    assert_eq!(recompensa_de("P3"), -500_000);
    assert_eq!(recompensa_de("S20"), -100_000);
    assert_eq!(recompensa_de("nada"), 0);
}

#[test]
fn etiquetas_y_estados_del_mundo() {
    let mundo = mundo_base();
    assert_eq!(etiqueta_de_estado(&mundo, 0), "S0");
    assert_eq!(etiqueta_de_estado(&mundo, 2), "P1");
    assert_eq!(etiqueta_de_estado(&mundo, 23), "M");
    assert_eq!(etiqueta_de_estado(&mundo, 37), "S37");
    assert_eq!(estado_de_etiqueta(&mundo, "M"), Some(23));
    assert_eq!(estado_de_etiqueta(&mundo, "P3"), Some(16));
    assert_eq!(estado_de_etiqueta(&mundo, "O3"), None);
    assert_eq!(estado_de_etiqueta(&mundo, "S2"), None);
    assert_eq!(estado_de_etiqueta(&mundo, ""), None);
    for s in 0..38 {
        assert_eq!(estado_de_etiqueta(&mundo, etiqueta_de_estado(&mundo, s)), Some(s));
    }
}
