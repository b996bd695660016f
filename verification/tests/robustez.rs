use mdp_robot::config::Accion;
use mdp_robot::mdp_model::value_iteration;
use mdp_robot::mundo::mundo_base;
use mdp_robot::robustness::{
    construir_modelo_ruido, contar_diferencias, etiqueta_modelo, evaluar_robustez,
    MODELOS_ROBUSTEZ,
};

#[test]
fn catalogo_de_modelos() {
    assert_eq!(
        MODELOS_ROBUSTEZ,
        [
            (100_000, 800_000, 100_000),
            (50_000, 900_000, 50_000),
            (150_000, 700_000, 150_000),
            (250_000, 500_000, 250_000),
        ]
    );
}

#[test]
fn cuenta_de_diferencias() {
    let base = vec![Some(Accion::N), Some(Accion::S), None, Some(Accion::E)];
    assert_eq!(contar_diferencias(&base, &base), 0);
    let otra = vec![Some(Accion::N), Some(Accion::E), Some(Accion::O), Some(Accion::O)];
    assert_eq!(contar_diferencias(&base, &otra), 2);
    // A state missing from the adapted policy counts; one missing from the
    // baseline does not.
    let corta = vec![Some(Accion::N)];
    assert_eq!(contar_diferencias(&base, &corta), 2);
    let sin_accion = vec![None, Some(Accion::S), None, None];
    assert_eq!(contar_diferencias(&base, &sin_accion), 2);
    assert_eq!(contar_diferencias(&sin_accion, &base), 0);
    assert_eq!(contar_diferencias(&vec![], &base), 0);
    assert_eq!(contar_diferencias(&base, &vec![]), 3);
}

#[test]
fn la_cuenta_es_el_cardinal_del_conjunto() {
    let mundo = mundo_base();
    let (base, _) = value_iteration(&mundo, 900_000, None, None).unwrap();
    for (izq, centro, der) in MODELOS_ROBUSTEZ {
        let modelo = construir_modelo_ruido(izq, centro, der);
        let (adaptada, _) = value_iteration(&mundo, 900_000, None, Some(&modelo)).unwrap();
        let conjunto: Vec<usize> = (0..base.len())
            .filter(|s| base[*s].is_some() && base[*s] != adaptada[*s])
            .collect();
        assert_eq!(contar_diferencias(&base, &adaptada), conjunto.len());
    }
}

#[test]
fn robustez_de_la_politica_base() {
    let mundo = mundo_base();
    let (base, _) = value_iteration(&mundo, 900_000, Some(1_000), None).unwrap();
    let copia = base.clone();
    let pares = evaluar_robustez(&mundo, &base, 900_000).unwrap();
    assert_eq!(
        pares,
        vec![
            (String::from("80%"), 0),
            (String::from("90%"), 0),
            (String::from("70%"), 2),
            (String::from("50%"), 4),
        ]
    );
    assert_eq!(base, copia);
}

#[test]
fn mas_ruido_no_da_una_politica_mas_estable() {
    let mundo = mundo_base();
    let (base, _) = value_iteration(&mundo, 900_000, Some(1_000), None).unwrap();
    let pares = evaluar_robustez(&mundo, &base, 900_000).unwrap();
    let con_mucho_ruido = pares[3].1;
    let con_poco_ruido = pares[1].1;
    assert!(con_mucho_ruido >= con_poco_ruido);
}

#[test]
fn etiquetas_de_los_modelos() {
    assert_eq!(etiqueta_modelo(800_000), "80%");
    assert_eq!(etiqueta_modelo(50_000), "5%");
    assert_eq!(etiqueta_modelo(1_000_000), "100%");
    assert_eq!(etiqueta_modelo(0), "0%");
    assert_eq!(etiqueta_modelo(999_999), "99%");
}
