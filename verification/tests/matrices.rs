use mdp_robot::config::{prob_transicion, Accion, Celda};
use mdp_robot::mundo::{mundo_base, Mundo};
use mdp_robot::robustness::construir_modelo_ruido;
use mdp_robot::transition_matrices::{
    construir_matriz_transicion, matriz_de_accion, nombre_archivo,
};

#[test]
fn cada_fila_suma_uno() {
    let mundo = mundo_base();
    for accion in ["N", "S", "E", "O"] {
        let matriz = construir_matriz_transicion(&mundo, accion);
        assert_eq!(matriz.lado(), 38);
        let filas = matriz.filas();
        assert_eq!(filas.len(), 38);
        for fila in filas {
            assert_eq!(fila.len(), 38);
            assert_eq!(fila.iter().map(|p| *p as u64).sum::<u64>(), 1_000_000);
        }
    }
}

#[test]
fn la_masa_se_acumula_al_chocar() {
    let mundo = mundo_base();
    let norte = construir_matriz_transicion(&mundo, "N");
    // S0: north and west both fold back onto S0.
    assert_eq!(norte.valor(0, 0), Some(900_000));
    assert_eq!(norte.valor(0, 1), Some(100_000));
    assert_eq!(norte.valor(0, 2), Some(0));
    // S22: north is an obstacle.
    assert_eq!(norte.valor(22, 22), Some(800_000));
    assert_eq!(norte.valor(22, 21), Some(100_000));
    assert_eq!(norte.valor(22, 23), Some(100_000));
    let este = construir_matriz_transicion(&mundo, "E");
    assert_eq!(este.valor(22, 23), Some(800_000));
    assert_eq!(este.valor(22, 22), Some(100_000));
    assert_eq!(este.valor(22, 27), Some(100_000));
    assert_eq!(este.valor(22, 21), Some(0));
    assert_eq!(este.valor(38, 0), None);
    assert_eq!(este.valor(0, 38), None);
}

#[test]
fn accion_desconocida_da_matriz_nula() {
    let mundo = mundo_base();
    let matriz = construir_matriz_transicion(&mundo, "X");
    assert_eq!(matriz.lado(), 38);
    for fila in matriz.filas() {
        assert_eq!(fila, vec![0u32; 38]);
    }
}

#[test]
fn matriz_de_un_mundo_pequeno() {
    let mundo = Mundo::nuevo(1, 3, vec![Celda::Normal, Celda::Obstaculo, Celda::Meta]).unwrap();
    let modelo = construir_modelo_ruido(200_000, 500_000, 300_000);
    let matriz = matriz_de_accion(&mundo, &modelo, Accion::E);
    // Every move from either state bumps: all the mass stays.
    assert_eq!(matriz.filas(), vec![vec![1_000_000, 0], vec![0, 1_000_000]]);
    let abierto = Mundo::nuevo(1, 3, vec![Celda::Normal, Celda::Normal, Celda::Meta]).unwrap();
    let matriz = matriz_de_accion(&abierto, &modelo, Accion::E);
    assert_eq!(
        matriz.filas(),
        vec![
            vec![500_000, 500_000, 0],
            vec![0, 500_000, 500_000],
            vec![0, 0, 1_000_000],
        ]
    );
    let oeste = matriz_de_accion(&abierto, &prob_transicion(), Accion::O);
    assert_eq!(oeste.valor(1, 0), Some(800_000));
    assert_eq!(oeste.valor(1, 1), Some(200_000));
}

#[test]
fn nombres_de_archivo() {
    assert_eq!(nombre_archivo(Accion::N), "matriz_transicion_N.csv");
    assert_eq!(nombre_archivo(Accion::O), "matriz_transicion_O.csv");
}
