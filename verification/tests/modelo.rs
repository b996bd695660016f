use mdp_robot::config::{prob_transicion, Accion, ESCALA};
use mdp_robot::experimentos::modelo_de_exito;
use mdp_robot::robustness::{construir_modelo_ruido, MODELOS_ROBUSTEZ};

const TODAS: [Accion; 4] = [Accion::N, Accion::S, Accion::E, Accion::O];

fn suma(fila: &[u32; 4]) -> u64 {
    fila.iter().map(|p| *p as u64).sum()
}

#[test]
fn modelo_por_defecto_reparte_ochenta_diez_diez() {
    let m = prob_transicion();
    assert_eq!(m.prob[0], [800_000, 0, 100_000, 100_000]);
    assert_eq!(m.prob[1], [0, 800_000, 100_000, 100_000]);
    assert_eq!(m.prob[2], [100_000, 100_000, 800_000, 0]);
    assert_eq!(m.prob[3], [100_000, 100_000, 0, 800_000]);
    assert!(m.es_estocastico());
}

#[test]
fn cada_accion_suma_uno() {
    for (izq, centro, der) in MODELOS_ROBUSTEZ {
        let m = construir_modelo_ruido(izq, centro, der);
        for fila in m.prob.iter() {
            assert_eq!(suma(fila), ESCALA as u64);
        }
        assert!(m.es_estocastico());
    }
}

#[test]
fn ruido_asimetrico_respeta_izquierda_y_derecha() {
    let m = construir_modelo_ruido(50_000, 700_000, 250_000);
    // N and S: O is on the left, E on the right.
    assert_eq!(m.probabilidad(Accion::N, Accion::N), 700_000);
    assert_eq!(m.probabilidad(Accion::N, Accion::O), 50_000);
    assert_eq!(m.probabilidad(Accion::N, Accion::E), 250_000);
    assert_eq!(m.probabilidad(Accion::N, Accion::S), 0);
    assert_eq!(m.probabilidad(Accion::S, Accion::S), 700_000);
    assert_eq!(m.probabilidad(Accion::S, Accion::O), 50_000);
    assert_eq!(m.probabilidad(Accion::S, Accion::E), 250_000);
    // E and O: N is on the left, S on the right.
    assert_eq!(m.probabilidad(Accion::E, Accion::E), 700_000);
    assert_eq!(m.probabilidad(Accion::E, Accion::N), 50_000);
    assert_eq!(m.probabilidad(Accion::E, Accion::S), 250_000);
    assert_eq!(m.probabilidad(Accion::E, Accion::O), 0);
    assert_eq!(m.probabilidad(Accion::O, Accion::O), 700_000);
    assert_eq!(m.probabilidad(Accion::O, Accion::N), 50_000);
    assert_eq!(m.probabilidad(Accion::O, Accion::S), 250_000);
}

#[test]
fn triple_que_no_suma_uno_no_es_valido() {
    assert!(!construir_modelo_ruido(100_000, 800_000, 100_001).es_estocastico());
    assert!(!construir_modelo_ruido(0, 0, 0).es_estocastico());
    assert!(construir_modelo_ruido(0, 1_000_000, 0).es_estocastico());
}

#[test]
fn consulta_por_simbolo_desconocido_da_cero() {
    let m = prob_transicion();
    assert_eq!(m.probabilidad_de("N", "N"), 800_000);
    assert_eq!(m.probabilidad_de("E", "S"), 100_000);
    assert_eq!(m.probabilidad_de("N", "S"), 0);
    assert_eq!(m.probabilidad_de("X", "N"), 0);
    assert_eq!(m.probabilidad_de("N", "norte"), 0);
    assert_eq!(m.probabilidad_de("", ""), 0);
}

#[test]
fn modelo_de_exito_reparte_el_resto() {
    let m = modelo_de_exito(500_000);
    assert_eq!(m.prob[0], [500_000, 0, 250_000, 250_000]);
    let impar = modelo_de_exito(700_001);
    assert_eq!(impar.prob[0], [700_001, 0, 150_000, 149_999]);
    assert!(impar.es_estocastico());
    for a in TODAS {
        assert_eq!(impar.probabilidad(a, a), 700_001);
    }
}

#[test]
fn acciones_y_simbolos() {
    for (i, a) in TODAS.iter().enumerate() {
        assert_eq!(a.indice(), i);
        assert_eq!(Accion::desde_indice(i), *a);
        assert_eq!(Accion::desde_simbolo(a.simbolo()), Some(*a));
    }
    assert_eq!(Accion::N.simbolo(), "N");
    assert_eq!(Accion::O.simbolo(), "O");
    assert_eq!(Accion::desde_simbolo("W"), None);
    assert_eq!(Accion::N.izquierda(), Accion::O);
    assert_eq!(Accion::N.derecha(), Accion::E);
    assert_eq!(Accion::E.izquierda(), Accion::N);
    assert_eq!(Accion::O.derecha(), Accion::S);
}
