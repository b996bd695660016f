use mdp_robot::config::{Accion, Celda};
use mdp_robot::experimentos::evaluar_combinacion;
use mdp_robot::mdp_model::value_iteration;
use mdp_robot::mundo::{mundo_base, Mundo};
use mdp_robot::simulation::{
    accion_de, episodio, estados_iniciales, paso_ruidoso, recompensa_media,
    simulacion_1000_pasos, Paso, Recorrido,
};

#[test]
fn estados_iniciales_son_todos_menos_la_meta() {
    let mundo = mundo_base();
    let v = estados_iniciales(&mundo);
    assert_eq!(v.len(), 37);
    assert!(!v.contains(&23));
    assert_eq!(v[22], 22);
    assert_eq!(v[23], 24);
    assert_eq!(v[36], 37);
}

#[test]
fn paso_con_los_dados_echados() {
    let mundo = mundo_base();
    let (politica, _) = value_iteration(&mundo, 900_000, None, None).unwrap();
    assert_eq!(paso_ruidoso(&mundo, &politica, 23, true, Accion::N), Paso::Meta);
    assert_eq!(paso_ruidoso(&mundo, &politica, 2, true, Accion::N), Paso::Peligro);
    assert_eq!(
        paso_ruidoso(&mundo, &politica, 22, true, Accion::O),
        Paso::Movimiento { estado: 23, recompensa: 10_000_000 }
    );
    assert_eq!(
        paso_ruidoso(&mundo, &politica, 22, false, Accion::O),
        Paso::Movimiento { estado: 21, recompensa: -100_000 }
    );
    assert_eq!(
        paso_ruidoso(&mundo, &politica, 22, false, Accion::N),
        Paso::Movimiento { estado: 22, recompensa: -100_000 }
    );
    assert_eq!(paso_ruidoso(&mundo, &vec![], 22, true, Accion::N), Paso::Fin);
    assert_eq!(accion_de(&politica, 22), Some(Accion::E));
    assert_eq!(accion_de(&politica, 23), None);
    assert_eq!(accion_de(&politica, 38), None);
}

#[test]
fn caminata_sin_ruido_en_un_pasillo() {
    // The only start is the normal cell; every move east reaches the goal.
    let mundo = Mundo::nuevo(1, 2, vec![Celda::Normal, Celda::Meta]).unwrap();
    let politica = vec![Some(Accion::E), None];
    assert_eq!(simulacion_1000_pasos(&mundo, &politica, 10, 1_000_000), (5, 0, 50_000_000));
    assert_eq!(simulacion_1000_pasos(&mundo, &politica, 0, 1_000_000), (0, 0, 0));
    // A policy that bumps west never arrives.
    let choca = vec![Some(Accion::O), None];
    assert_eq!(simulacion_1000_pasos(&mundo, &choca, 10, 1_000_000), (0, 0, -1_000_000));
    // No action: the walk ends at once.
    assert_eq!(simulacion_1000_pasos(&mundo, &vec![], 10, 1_000_000), (0, 0, 0));
}

#[test]
fn caminata_con_solo_la_meta() {
    let mundo = Mundo::nuevo(1, 1, vec![Celda::Meta]).unwrap();
    assert_eq!(simulacion_1000_pasos(&mundo, &vec![None], 1000, 800_000), (0, 0, 0));
    assert_eq!(recompensa_media(&mundo, &vec![None], 10, 10), None);
}

#[test]
fn caminata_ruidosa_respeta_los_limites() {
    let mundo = mundo_base();
    let (politica, _) = value_iteration(&mundo, 900_000, None, None).unwrap();
    for prob in [0u32, 500_000, 800_000, 1_000_000] {
        let (metas, peligros, total) = simulacion_1000_pasos(&mundo, &politica, 1000, prob);
        assert!(metas + peligros <= 1000);
        let movimientos = (1000 - metas - peligros) as i128;
        assert!(total.abs() <= movimientos * 10_000_000);
    }
}

#[test]
fn caminata_encerrada_cae_siempre_en_el_mismo_sitio() {
    // The only start is walled in: whatever the dice, it stays and pays.
    let mundo = Mundo::nuevo(1, 3, vec![Celda::Normal, Celda::Obstaculo, Celda::Meta]).unwrap();
    let politica = vec![Some(Accion::E), None];
    for prob in [0u32, 300_000, 1_000_000] {
        assert_eq!(simulacion_1000_pasos(&mundo, &politica, 50, prob), (0, 0, -5_000_000));
    }
    // A hazard as the only start: every step is a fall.
    let mundo = Mundo::nuevo(1, 2, vec![Celda::Peligro, Celda::Meta]).unwrap();
    assert_eq!(simulacion_1000_pasos(&mundo, &politica, 7, 500_000), (0, 7, 0));
}

#[test]
fn episodios_sin_ruido() {
    let mundo = mundo_base();
    let (politica, _) = value_iteration(&mundo, 900_000, None, None).unwrap();
    assert_eq!(episodio(&mundo, &politica, 0, 100), 9_300_000);
    assert_eq!(episodio(&mundo, &politica, 5, 100), 9_400_000);
    assert_eq!(episodio(&mundo, &politica, 22, 100), 9_900_000);
    assert_eq!(episodio(&mundo, &politica, 37, 100), 9_500_000);
    assert_eq!(episodio(&mundo, &politica, 0, 3), -400_000);
    assert_eq!(episodio(&mundo, &politica, 0, 0), -100_000);
    assert_eq!(episodio(&mundo, &politica, 23, 100), 10_000_000);
    assert_eq!(episodio(&mundo, &vec![], 4, 100), -100_000);
}

#[test]
fn media_de_episodios() {
    let mundo = Mundo::nuevo(1, 2, vec![Celda::Normal, Celda::Meta]).unwrap();
    let politica = vec![Some(Accion::E), None];
    assert_eq!(recompensa_media(&mundo, &politica, 7, 100), Some(9_900_000));
    assert_eq!(recompensa_media(&mundo, &politica, 0, 100), None);
    let base = mundo_base();
    let (politica, _) = value_iteration(&base, 900_000, None, None).unwrap();
    let media = recompensa_media(&base, &politica, 200, 100).unwrap();
    assert!(media.abs() <= 101 * 10_000_000);
    assert!(media > 0);
}

#[test]
fn combinacion_de_experimento() {
    let mundo = Mundo::nuevo(1, 2, vec![Celda::Normal, Celda::Meta]).unwrap();
    assert_eq!(evaluar_combinacion(&mundo, 900_000, 800_000, 5, 100), Ok(Some(9_900_000)));
    assert_eq!(evaluar_combinacion(&mundo, 900_000, 800_000, 0, 100), Ok(None));
}

#[test]
fn recorrido_paso_a_paso() {
    let mundo = mundo_base();
    let (politica, _) = value_iteration(&mundo, 900_000, None, None).unwrap();
    let mut r = Recorrido::iniciar(&mundo, 21);
    assert_eq!(r.recompensa, -100_000);
    assert_eq!(r.historial, vec![21]);
    assert!(!r.terminado(&mundo, 100));
    r.avanzar(&mundo, &politica, 100);
    assert_eq!((r.estado, r.paso, r.recompensa), (22, 1, -200_000));
    r.avanzar(&mundo, &politica, 100);
    assert_eq!((r.estado, r.paso, r.recompensa), (23, 2, 9_800_000));
    assert_eq!(r.historial, vec![21, 22, 23]);
    assert!(r.terminado(&mundo, 100));
    let fresco = Recorrido::iniciar(&mundo, 0);
    assert!(fresco.terminado(&mundo, 0));
}

#[test]
fn recorrido_ante_los_bordes() {
    let mundo = mundo_base();
    // North from the first row enters the same state again.
    let al_norte = vec![Some(Accion::N); 38];
    let mut r = Recorrido::iniciar(&mundo, 0);
    r.avanzar(&mundo, &al_norte, 10);
    assert_eq!((r.estado, r.paso, r.recompensa), (0, 1, -200_000));
    assert_eq!(r.historial, vec![0, 0]);
    // West from the first column too.
    let al_oeste = vec![Some(Accion::O); 38];
    let mut r = Recorrido::iniciar(&mundo, 0);
    r.avanzar(&mundo, &al_oeste, 10);
    assert_eq!((r.estado, r.paso, r.recompensa), (0, 1, -200_000));
    // South into an obstacle changes nothing but the count.
    let al_sur = vec![Some(Accion::S); 38];
    let mut r = Recorrido::iniciar(&mundo, 0);
    r.avanzar(&mundo, &al_sur, 10);
    assert_eq!((r.estado, r.paso, r.recompensa), (0, 1, -100_000));
    assert_eq!(r.historial, vec![0]);
    // East out of the grid from the last corner too.
    let al_este = vec![Some(Accion::E); 38];
    let mut r = Recorrido::iniciar(&mundo, 37);
    r.avanzar(&mundo, &al_este, 10);
    assert_eq!((r.estado, r.paso, r.recompensa), (37, 1, -100_000));
}
