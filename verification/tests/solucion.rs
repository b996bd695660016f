use mdp_robot::aritmetica::dividir_abajo;
use mdp_robot::bellman::{
    barrido_q_valores, barrido_valores, calcular_respaldo, primer_maximo, valores_de_tabla,
};
use mdp_robot::config::{prob_transicion, Accion, Celda};
use mdp_robot::mdp_model::{
    q_value_iteration, resolver_q, resolver_valores, value_iteration, ErrorMdp,
};
use mdp_robot::mundo::{mundo_base, Mundo};
use mdp_robot::robustness::construir_modelo_ruido;

const VALORES_FINALES: [i64; 38] = [
    3170299, 3749961, 3975589, 6130794, 4472245, 3804749, 4454156, 5250500, 6130794, 7121189,
    6209190, 5315792, 4391971, 4848463, 6108166, 8486934, 6923455, 6029895, 5172568, 5083886,
    6108166, 7252885, 8542212, 10000000, 8378189, 7001752, 4341854, 7482370, 8428491, 7278653,
    5852984, 4978105, 3690205, 5453269, 6349559, 6178930, 5357789, 4621557,
];

const VALORES_Q: [i64; 38] = [
    3170625, 3750122, 3975659, 6130799, 4472299, 3804871, 4454218, 5250525, 6130799, 7121191,
    6209194, 5315809, 4392036, 4848488, 6108173, 8486935, 6923456, 6029903, 5172586, 5083923,
    6108173, 7252887, 8542212, 10000000, 8378189, 7001755, 4341931, 7482370, 8428492, 7278654,
    5852988, 4978118, 3690371, 5453270, 6349560, 6178934, 5357799, 4621577,
];

const POLITICA_FINAL: &str = "ESSSSOESESOOSESSOSOEEEE-OONNNOOONENNOO";

fn texto(politica: &[Option<Accion>]) -> String {
    politica
        .iter()
        .map(|a| match a {
            Some(a) => a.simbolo(),
            None => "-",
        })
        .collect()
}

#[test]
fn primer_barrido_da_las_recompensas() {
    let mundo = mundo_base();
    let modelo = prob_transicion();
    let ceros = vec![0i64; 38];
    let (valores, politica, delta) = barrido_valores(&mundo, &modelo, 900_000, &ceros);
    for (s, v) in valores.iter().enumerate() {
        let esperado = match s {
            23 => 10_000_000,
            2 | 13 | 16 | 30 => -500_000,
            _ => -100_000,
        };
        assert_eq!(*v, esperado, "estado {}", s);
    }
    // All four backups tie, so the first action of the fixed order wins.
    assert_eq!(texto(&politica), "NNNNNNNNNNNNNNNNNNNNNNN-NNNNNNNNNNNNNN");
    // The goal's own change (10.0) does not count.
    assert_eq!(delta, 500_000);
}

#[test]
fn segundo_barrido_valores_exactos() {
    let mundo = mundo_base();
    let modelo = prob_transicion();
    let ceros = vec![0i64; 38];
    let (v1, _, _) = barrido_valores(&mundo, &modelo, 900_000, &ceros);
    // S22, west of the goal: E reaches the goal 8 times in 10.
    // -0.1 + 0.9 * (0.8 * 10 + 0.1 * -0.1 + 0.1 * -0.1) = 7.082
    assert_eq!(calcular_respaldo(&mundo, &modelo, 900_000, &v1, 22, Accion::E), 7_082_000);
    // N bumps into an obstacle: -0.1 + 0.9 * (0.8 * -0.1 + 0.1 * 10 + 0.1 * -0.1) = 0.719
    assert_eq!(calcular_respaldo(&mundo, &modelo, 900_000, &v1, 22, Accion::N), 719_000);
    let (v2, p2, delta) = barrido_valores(&mundo, &modelo, 900_000, &v1);
    assert_eq!(v2[22], 7_082_000);
    assert_eq!(v2[15], 7_046_000);
    assert_eq!(v2[2], -626_000);
    assert_eq!(v2[0], -190_000);
    assert_eq!(v2[23], 10_000_000);
    assert_eq!(texto(&p2), "NOSNNNNSNNNNONESNENNSNE-ONNNNONENNNNSN");
    assert_eq!(delta, 7_182_000);
    // The old values were only read.
    assert_eq!(v1[22], -100_000);
}

#[test]
fn iteracion_de_valores_en_el_mapa() {
    let mundo = mundo_base();
    let (politica, valores) = value_iteration(&mundo, 900_000, Some(1_000), None).unwrap();
    assert_eq!(valores, VALORES_FINALES.to_vec());
    assert_eq!(texto(&politica), POLITICA_FINAL);
    assert_eq!(politica.len(), 38);
}

#[test]
fn valor_de_la_meta_es_su_recompensa() {
    let mundo = mundo_base();
    assert_eq!(mundo.meta, 23);
    for lambda in [1u32, 500_000, 900_000, 990_000] {
        for (izq, centro, der) in [(100_000, 800_000, 100_000), (250_000, 500_000, 250_000)] {
            let modelo = construir_modelo_ruido(izq, centro, der);
            let (politica, valores) =
                value_iteration(&mundo, lambda, None, Some(&modelo)).unwrap();
            assert_eq!(valores[23], 10_000_000);
            assert_eq!(politica[23], None);
            let (q, politica_q, valores_q) =
                q_value_iteration(&mundo, lambda, None, Some(&modelo)).unwrap();
            assert_eq!(q[23], [10_000_000; 4]);
            assert_eq!(valores_q[23], 10_000_000);
            assert_eq!(politica_q[23], None);
        }
    }
}

#[test]
fn umbral_enorme_converge_en_el_primer_barrido_con_la_meta_fijada() {
    let mundo = mundo_base();
    let modelo = prob_transicion();
    let (_, valores) = resolver_valores(&mundo, &modelo, 900_000, 500_000, 1).unwrap();
    assert_eq!(valores[23], 10_000_000);
    assert_eq!(valores[0], -100_000);
    let (q, _, valores_q) = resolver_q(&mundo, &modelo, 900_000, 500_000, 1).unwrap();
    assert_eq!(q[23], [10_000_000; 4]);
    assert_eq!(valores_q[0], -100_000);
}

#[test]
fn converge_para_cada_factor_de_descuento() {
    let mundo = mundo_base();
    for lambda in [500_000u32, 860_000, 940_000, 990_000] {
        assert!(value_iteration(&mundo, lambda, Some(1_000), None).is_ok());
        assert!(q_value_iteration(&mundo, lambda, Some(1_000), None).is_ok());
    }
    // A threshold of 1 / (1 - lambda) millionths is enough.
    assert!(value_iteration(&mundo, 500_000, Some(2), None).is_ok());
    assert!(value_iteration(&mundo, 990_000, Some(100), None).is_ok());
}

#[test]
fn barridos_insuficientes_no_convergen() {
    let mundo = mundo_base();
    let modelo = prob_transicion();
    assert_eq!(
        resolver_valores(&mundo, &modelo, 900_000, 1_000, 21),
        Err(ErrorMdp::NoConverge)
    );
    assert!(resolver_valores(&mundo, &modelo, 900_000, 1_000, 22).is_ok());
    assert_eq!(resolver_valores(&mundo, &modelo, 900_000, 1_000, 0), Err(ErrorMdp::NoConverge));
    assert_eq!(resolver_q(&mundo, &modelo, 900_000, 1_000, 22), Err(ErrorMdp::NoConverge));
    assert!(resolver_q(&mundo, &modelo, 900_000, 1_000, 23).is_ok());
}

#[test]
fn iteracion_q_en_el_mapa() {
    let mundo = mundo_base();
    let (q, politica, valores) = q_value_iteration(&mundo, 900_000, Some(1_000), None).unwrap();
    assert_eq!(q.len(), 38);
    assert_eq!(q[22], [7603152, 6840066, 8542212, 6564289]);
    // N and S both bump at S0: equal entries, and E is the largest.
    assert_eq!(q[0], [2805438, 2805438, 3170625, 2753269]);
    assert_eq!(valores, VALORES_Q.to_vec());
    assert_eq!(texto(&politica), POLITICA_FINAL);
    assert_eq!(valores_de_tabla(&q), valores);
}

#[test]
fn valores_de_q_coinciden_con_los_de_valores() {
    let mundo = mundo_base();
    for lambda in [500_000u32, 860_000, 900_000, 940_000, 980_000] {
        let (_, v) = value_iteration(&mundo, lambda, Some(1_000), None).unwrap();
        let (_, _, vq) = q_value_iteration(&mundo, lambda, Some(1_000), None).unwrap();
        for s in 0..38 {
            assert!((v[s] - vq[s]).abs() <= 10_000, "lambda {} estado {}", lambda, s);
        }
    }
}

#[test]
fn valores_de_q_dentro_del_umbral() {
    let mundo = mundo_base();
    for (lambda, umbral) in [(900_000u32, 1_000u32), (940_000, 100), (500_000, 1), (990_000, 5_000)]
    {
        let modelo = construir_modelo_ruido(250_000, 500_000, 250_000);
        let (_, v) = resolver_valores(&mundo, &modelo, lambda, umbral, 100_000).unwrap();
        let (_, _, vq) = resolver_q(&mundo, &modelo, lambda, umbral, 100_000).unwrap();
        for s in 0..38 {
            assert!((v[s] - vq[s]).abs() <= umbral as i64, "lambda {} estado {}", lambda, s);
        }
    }
}

#[test]
fn q_se_detiene_a_lo_sumo_un_barrido_despues() {
    let mundo = mundo_base();
    let modelo = prob_transicion();
    for lambda in [500_000u32, 900_000, 980_000] {
        let barridos_v = (1..200u64)
            .find(|max| resolver_valores(&mundo, &modelo, lambda, 1_000, *max).is_ok())
            .unwrap();
        let barridos_q = (1..200u64)
            .find(|max| resolver_q(&mundo, &modelo, lambda, 1_000, *max).is_ok())
            .unwrap();
        assert!(barridos_v <= barridos_q && barridos_q <= barridos_v + 1);
    }
}

#[test]
fn los_dos_barridos_llevan_los_mismos_valores() {
    let mundo = mundo_base();
    let modelo = construir_modelo_ruido(150_000, 700_000, 150_000);
    let mut v = vec![0i64; 38];
    let mut q = vec![[0i64; 4]; 38];
    for _ in 0..15 {
        let (nuevo_v, _, delta_v) = barrido_valores(&mundo, &modelo, 940_000, &v);
        let (nuevo_q, delta_q) = barrido_q_valores(&mundo, &modelo, 940_000, &q);
        assert_eq!(valores_de_tabla(&nuevo_q), nuevo_v);
        assert!(delta_v <= delta_q);
        v = nuevo_v;
        q = nuevo_q;
    }
}

#[test]
fn junto_a_la_meta_la_accion_apunta_a_la_meta() {
    let mundo = mundo_base();
    let (politica, valores) = value_iteration(&mundo, 900_000, Some(1_000), None).unwrap();
    assert_eq!(valores[mundo.meta], 10_000_000);
    let oeste = mundo.estado_en(3, 3).unwrap();
    let este = mundo.estado_en(3, 5).unwrap();
    let norte = mundo.estado_en(2, 4).unwrap();
    let sur = mundo.estado_en(4, 4).unwrap();
    assert_eq!(politica[oeste], Some(Accion::E));
    assert_eq!(politica[este], Some(Accion::O));
    assert_eq!(politica[norte], Some(Accion::S));
    assert_eq!(politica[sur], Some(Accion::N));
}

#[test]
fn mundo_pequeno_valores_exactos() {
    // One row: a normal cell, a hazard and the goal.
    let mundo = Mundo::nuevo(1, 3, vec![Celda::Normal, Celda::Peligro, Celda::Meta]).unwrap();
    let modelo = construir_modelo_ruido(0, 1_000_000, 0);
    let (v1, p1, d1) = barrido_valores(&mundo, &modelo, 500_000, &vec![0, 0, 0]);
    assert_eq!(v1, vec![-100_000, -500_000, 10_000_000]);
    assert_eq!(p1, vec![Some(Accion::N), Some(Accion::N), None]);
    assert_eq!(d1, 500_000);
    let (v2, p2, d2) = barrido_valores(&mundo, &modelo, 500_000, &v1);
    // Normal cell: staying gives -0.1 + 0.5 * -0.1 = -0.15, better than the hazard.
    // Hazard: E gives -0.5 + 0.5 * 10 = 4.5.
    assert_eq!(v2, vec![-150_000, 4_500_000, 10_000_000]);
    assert_eq!(p2, vec![Some(Accion::N), Some(Accion::E), None]);
    assert_eq!(d2, 5_000_000);
    let (politica, valores) = resolver_valores(&mundo, &modelo, 500_000, 0, 100).unwrap();
    assert_eq!(valores, vec![2_150_000, 4_500_000, 10_000_000]);
    assert_eq!(politica, vec![Some(Accion::E), Some(Accion::E), None]);
}

#[test]
fn el_respaldo_redondea_hacia_abajo() {
    let mundo = Mundo::nuevo(1, 2, vec![Celda::Normal, Celda::Meta]).unwrap();
    let modelo = construir_modelo_ruido(0, 1_000_000, 0);
    // 0.333333 * 0.000001 is below one millionth: rounded down to 0.
    assert_eq!(calcular_respaldo(&mundo, &modelo, 333_333, &vec![0, 1], 0, Accion::E), -100_000);
    // Of a negative value the floor is one millionth further down.
    assert_eq!(calcular_respaldo(&mundo, &modelo, 333_333, &vec![0, -1], 0, Accion::E), -100_001);
    assert_eq!(calcular_respaldo(&mundo, &modelo, 333_333, &vec![0, 3], 0, Accion::E), -100_000);
    assert_eq!(calcular_respaldo(&mundo, &modelo, 333_333, &vec![0, 4], 0, Accion::E), -99_999);
    assert_eq!(dividir_abajo(7, 2), 3);
    assert_eq!(dividir_abajo(-7, 2), -4);
    assert_eq!(dividir_abajo(-8, 2), -4);
    assert_eq!(dividir_abajo(0, 5), 0);
}

#[test]
fn el_primer_maximo_gana_los_empates() {
    assert_eq!(primer_maximo(1, 1, 1, 1), (0, 1));
    assert_eq!(primer_maximo(1, 2, 2, 1), (1, 2));
    assert_eq!(primer_maximo(-5, -7, -5, -4), (3, -4));
    assert_eq!(primer_maximo(0, 0, 3, 3), (2, 3));
}
