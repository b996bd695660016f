use mdp_robot::config::{Accion, Celda};
use mdp_robot::mdp_model::obtener_estado;
use mdp_robot::mundo::{mundo_base, Mundo};

#[test]
fn mundo_base_tiene_treinta_y_ocho_estados() {
    let m = mundo_base();
    assert_eq!(m.filas, 6);
    assert_eq!(m.columnas, 8);
    assert_eq!(m.total_estados(), 38);
    assert_eq!(m.meta, 23);
    assert_eq!(m.posicion(23), (3, 4));
    assert_eq!(m.tipo(23), Celda::Meta);
    assert_eq!(m.recompensa(23), 10_000_000);
    assert_eq!(m.tipos.iter().filter(|t| **t == Celda::Obstaculo).count(), 10);
    assert_eq!(m.tipos.iter().filter(|t| **t == Celda::Peligro).count(), 4);
    assert_eq!(m.tipos.iter().filter(|t| **t == Celda::Meta).count(), 1);
}

#[test]
fn el_numero_de_la_etiqueta_es_el_del_estado() {
    let m = mundo_base();
    for s in 0..m.total_estados() {
        let (fila, col) = m.posicion(s);
        let etiqueta = obtener_estado(fila as isize, col as isize).unwrap();
        assert_eq!(m.estado_en(fila as isize, col as isize), Some(s));
        match m.tipo(s) {
            Celda::Normal => assert_eq!(etiqueta, format!("S{}", s)),
            Celda::Peligro => assert!(etiqueta.starts_with('P')),
            Celda::Meta => assert_eq!(etiqueta, "M"),
            Celda::Obstaculo => panic!("un obstaculo no es un estado"),
        }
    }
}

#[test]
fn destino_se_queda_ante_pared_u_obstaculo() {
    let m = mundo_base();
    // S0 in the corner: north and west leave the grid, south is an obstacle.
    assert_eq!(m.destino(0, Accion::N), 0);
    assert_eq!(m.destino(0, Accion::O), 0);
    assert_eq!(m.destino(0, Accion::S), 0);
    assert_eq!(m.destino(0, Accion::E), 1);
    // S22, west of the goal.
    assert_eq!(m.destino(22, Accion::E), 23);
    assert_eq!(m.destino(22, Accion::N), 22);
    assert_eq!(m.destino(22, Accion::O), 21);
    assert_eq!(m.destino(22, Accion::S), 27);
    // S37 in the last corner.
    assert_eq!(m.destino(37, Accion::S), 37);
    assert_eq!(m.destino(37, Accion::E), 37);
}

#[test]
fn estado_en_fuera_y_obstaculo() {
    let m = mundo_base();
    assert_eq!(m.estado_en(-1, 0), None);
    assert_eq!(m.estado_en(0, -1), None);
    assert_eq!(m.estado_en(6, 0), None);
    assert_eq!(m.estado_en(0, 8), None);
    assert_eq!(m.estado_en(0, 3), None);
    assert_eq!(m.estado_en(0, 4), Some(3));
}

#[test]
fn mapas_no_admisibles() {
    assert!(Mundo::nuevo(1, 2, vec![Celda::Normal, Celda::Normal]).is_none());
    assert!(Mundo::nuevo(1, 2, vec![Celda::Meta, Celda::Meta]).is_none());
    assert!(Mundo::nuevo(2, 2, vec![Celda::Meta, Celda::Normal]).is_none());
    assert!(Mundo::nuevo(0, 0, vec![]).is_none());
    assert!(Mundo::nuevo(usize::MAX, 2, vec![Celda::Meta]).is_none());
    assert!(Mundo::nuevo(1, 10_001, {
        let mut t = vec![Celda::Normal; 10_001];
        t[0] = Celda::Meta;
        t
    })
    .is_none());
    let m = Mundo::nuevo(1, 1, vec![Celda::Meta]).unwrap();
    assert_eq!(m.total_estados(), 1);
    assert_eq!(m.meta, 0);
}

#[test]
fn numeracion_salta_los_obstaculos() {
    let tipos = vec![
        Celda::Obstaculo,
        Celda::Normal,
        Celda::Obstaculo,
        Celda::Peligro,
        Celda::Meta,
        Celda::Obstaculo,
    ];
    let m = Mundo::nuevo(2, 3, tipos).unwrap();
    assert_eq!(m.celdas, vec![1, 3, 4]);
    assert_eq!(m.estados, vec![None, Some(0), None, Some(1), Some(2), None]);
    assert_eq!(m.meta, 2);
    assert_eq!(m.posicion(1), (1, 0));
    assert_eq!(m.destino(0, Accion::S), 2);
    assert_eq!(m.destino(1, Accion::E), 2);
    assert_eq!(m.destino(1, Accion::N), 1);
    assert_eq!(m.recompensa(1), -500_000);
    assert_eq!(m.recompensa(0), -100_000);
}
