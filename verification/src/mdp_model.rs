//! Navigation on the map by label, and the two solvers of the decision
//! process on it.

use crate::aritmetica::magnitud;
use crate::bellman::{
    acotado, barrido_q_valores, barrido_valores, cerca_q, cerca_v, enteros, es_cambio_maximo_q,
    es_cambio_maximo_v, iterar_q, iterar_v, politica_de_q, politica_de_tabla, politica_de_v,
    primer_convergente_q, primer_convergente_v, tabla, tabla_acotada, valores_de_q,
    valores_de_tabla,
};
use crate::cadenas::misma_cadena;
use crate::config::{
    en_mapa, es_obstaculo, es_obstaculo_spec, etiqueta_spec, lema_etiquetas_unicas, lema_huellas,
    lema_plano, prob_transicion, prob_transicion_spec, tipo_de_etiqueta_spec, Accion,
    COLUMNAS_MAPA, ESCALA, FILAS_MAPA, MAPA_ESTADOS, MAX_BARRIDOS, RECOMPENSA_META,
    UMBRAL_CONVERGENCIA,
};
use crate::convergencia::{lema_iteracion_converge, lema_iteracion_q_converge, umbral_suficiente};
use crate::mundo::{es_mundo_del_mapa, lema_recompensa_meta, paso_spec, Mundo};
use crate::transicion::ModeloTransicion;
use vstd::prelude::*;
use vstd::string::*;

verus! {

/// Whether the first position comes before the second, row by row.
pub open spec fn antes(f1: int, c1: int, f2: int, c2: int) -> bool {
    f1 < f2 || (f1 == f2 && c1 < c2)
}

/// The message for a label that the map does not hold.
pub open spec fn mensaje_no_encontrado(estado: Seq<char>) -> Seq<char> {
    "Estado '"@ + estado + "' no encontrado en el mapa"@
}

/// The state at a position of the map: none outside the map, none on an
/// obstacle, else the label of the cell.
pub open spec fn estado_en_mapa(fila: int, col: int) -> Option<Seq<char>> {
    if en_mapa(fila, col) && !es_obstaculo_spec(etiqueta_spec(fila, col)) {
        Some(etiqueta_spec(fila, col))
    } else {
        None
    }
}

/// The position reached by a move named by its symbol; a symbol that names no
/// action moves nowhere.
pub open spec fn mover_spec(fila: int, col: int, accion: Seq<char>) -> (int, int) {
    match Accion::desde_simbolo_spec(accion) {
        Some(d) => paso_spec(fila, col, d),
        None => (fila, col),
    }
}

/// Navigation by label and navigation in the world of the map agree: a
/// position holds a state of the world exactly when it holds a labelled state
/// of the map, and that state of the world sits at that position.
pub proof fn lema_navegacion_coincide(m: &Mundo, fila: int, col: int)
    requires
        es_mundo_del_mapa(m),
    ensures
        match m.estado_en_spec(fila, col) {
            Some(s) => {
                &&& estado_en_mapa(fila, col) == Some(etiqueta_spec(fila, col))
                &&& 0 <= s < m.n()
                &&& m.posicion_spec(s) == (fila, col)
            },
            None => estado_en_mapa(fila, col) is None,
        },
{
    if en_mapa(fila, col) {
        let k = fila * COLUMNAS_MAPA + col;
        assert(m.tipos@[k] == tipo_de_etiqueta_spec(etiqueta_spec(fila, col)));
        lema_plano(fila, col);
        lema_huellas();
        match m.estados@[k] {
            Some(s) => {
                assert(m.celdas@[s as int] == k);
            },
            None => {},
        }
    }
}

/// Row and column of the first cell of the map, row by row, that carries the
/// label. Obstacles are looked at too. Fails with the not-found message when no
/// cell carries it.
pub fn obtener_posicion(estado: &str) -> (r: Result<(usize, usize), String>)
    ensures
        match r {
            Ok((fila, col)) => {
                &&& en_mapa(fila as int, col as int)
                &&& etiqueta_spec(fila as int, col as int) == estado@
                &&& forall|f: int, c: int|
                    en_mapa(f, c) && antes(f, c, fila as int, col as int) ==>
                        #[trigger] etiqueta_spec(f, c) != estado@
            },
            Err(mensaje) => {
                &&& forall|f: int, c: int| en_mapa(f, c) ==>
                    #[trigger] etiqueta_spec(f, c) != estado@
                &&& mensaje@ == mensaje_no_encontrado(estado@)
            },
        },
{
    let mut fila: usize = 0;
    while fila < FILAS_MAPA
        invariant
            fila <= FILAS_MAPA,
            forall|f: int, c: int|
                0 <= f < fila && 0 <= c < COLUMNAS_MAPA ==> #[trigger] etiqueta_spec(f, c)
                    != estado@,
        decreases FILAS_MAPA - fila,
    {
        let mut col: usize = 0;
        while col < COLUMNAS_MAPA
            invariant
                fila < FILAS_MAPA,
                col <= COLUMNAS_MAPA,
                forall|f: int, c: int|
                    0 <= f < fila && 0 <= c < COLUMNAS_MAPA ==> #[trigger] etiqueta_spec(f, c)
                        != estado@,
                forall|c: int| 0 <= c < col ==> #[trigger] etiqueta_spec(fila as int, c) != estado@,
            decreases COLUMNAS_MAPA - col,
        {
            if misma_cadena(MAPA_ESTADOS[fila][col], estado) {
                return Ok((fila, col));
            }
            col += 1;
        }
        fila += 1;
    }
    let mut mensaje = String::from_str("Estado '");
    mensaje.append(estado);
    mensaje.append("' no encontrado en el mapa");
    Err(mensaje)
}

/// The label of the state at a position: none outside the map, none on an
/// obstacle.
pub fn obtener_estado(fila: isize, col: isize) -> (r: Option<&'static str>)
    ensures
        match r {
            Some(estado) => estado_en_mapa(fila as int, col as int) == Some(estado@),
            None => estado_en_mapa(fila as int, col as int) is None,
        },
{
    if fila >= 0 && fila < FILAS_MAPA as isize && col >= 0 && col < COLUMNAS_MAPA as isize {
        let estado = MAPA_ESTADOS[fila as usize][col as usize];
        if es_obstaculo(estado) {
            None
        } else {
            Some(estado)
        }
    } else {
        None
    }
}

/// The coordinates one step away in the direction that the symbol names: N
/// is one row up, S one row down, E one column right, O one column left. Any
/// other symbol leaves the coordinates as they are. No bound and no obstacle
/// is looked at.
pub fn mover(fila: usize, col: usize, accion: &str) -> (r: (isize, isize))
    requires
        fila < isize::MAX,
        col < isize::MAX,
    ensures
        r.0 == mover_spec(fila as int, col as int, accion@).0,
        r.1 == mover_spec(fila as int, col as int, accion@).1,
{
    let f = fila as isize;
    let c = col as isize;
    match Accion::desde_simbolo(accion) {
        Some(Accion::N) => (f - 1, c),
        Some(Accion::S) => (f + 1, c),
        Some(Accion::E) => (f, c + 1),
        Some(Accion::O) => (f, c - 1),
        None => (f, c),
    }
}

/// The label of a state of the world of the map.
pub fn etiqueta_de_estado(mundo: &Mundo, estado: usize) -> (r: &'static str)
    requires
        es_mundo_del_mapa(mundo),
        estado < mundo.n(),
    ensures
        r@ == etiqueta_spec(
            mundo.posicion_spec(estado as int).0,
            mundo.posicion_spec(estado as int).1,
        ),
        estado_en_mapa(
            mundo.posicion_spec(estado as int).0,
            mundo.posicion_spec(estado as int).1,
        ) == Some(r@),
{
    let (fila, col) = mundo.posicion(estado);
    proof {
        lema_navegacion_coincide(mundo, fila as int, col as int);
        assert(mundo.estados@[fila * COLUMNAS_MAPA + col] == Some(estado));
    }
    MAPA_ESTADOS[fila][col]
}

/// The state of the world of the map that a label names: none for a label
/// that the map does not hold, none for the label of an obstacle.
pub fn estado_de_etiqueta(mundo: &Mundo, etiqueta: &str) -> (r: Option<usize>)
    requires
        es_mundo_del_mapa(mundo),
    ensures
        match r {
            Some(s) => {
                &&& s < mundo.n()
                &&& estado_en_mapa(
                    mundo.posicion_spec(s as int).0,
                    mundo.posicion_spec(s as int).1,
                ) == Some(etiqueta@)
            },
            None => forall|fila: int, col: int| #[trigger]
                estado_en_mapa(fila, col) != Some(etiqueta@),
        },
{
    match obtener_posicion(etiqueta) {
        Ok((fila, col)) => {
            proof {
                lema_navegacion_coincide(mundo, fila as int, col as int);
                assert forall|f: int, c: int|
                    etiqueta_spec(fila as int, col as int) == etiqueta_spec(f, c) && en_mapa(
                        f,
                        c,
                    ) implies f == fila && c == col by {
                    lema_etiquetas_unicas(fila as int, col as int, f, c);
                }
            }
            mundo.estado_en(fila as isize, col as isize)
        },
        Err(_) => None,
    }
}

/// Why a solver gave no solution.
#[derive(Clone, Copy, Debug, PartialEq, Eq, Structural)]
pub enum ErrorMdp {
    /// No sweep within the allowed number changed every value by at most the
    /// convergence threshold.
    NoConverge,
}

/// The threshold that a solver uses: the given one, or
/// `UMBRAL_CONVERGENCIA` when none is given.
pub open spec fn umbral_spec(epsilon: Option<u32>) -> int {
    match epsilon {
        Some(e) => e as int,
        None => UMBRAL_CONVERGENCIA as int,
    }
}

/// The model that a solver uses: the given one, or the default model when
/// none is given.
pub open spec fn modelo_spec(modelo: Option<&ModeloTransicion>) -> ModeloTransicion {
    match modelo {
        Some(dado) => *dado,
        None => prob_transicion_spec(),
    }
}

/// Value iteration: sweeps from all-zero values until a sweep changes no
/// value (the goal aside) by more than `epsilon`, for at most `max_barridos`
/// sweeps.
///
/// On success hands back the policy recorded by the last sweep and the values
/// after it; the value of the goal is its reward. Fails with `NoConverge`
/// exactly when none of the first `max_barridos` sweeps converges.
pub fn resolver_valores(
    m: &Mundo,
    modelo: &ModeloTransicion,
    lambda: u32,
    epsilon: u32,
    max_barridos: u64,
) -> (r: Result<(Vec<Option<Accion>>, Vec<i64>), ErrorMdp>)
    requires
        m.es_valido(),
        modelo.es_valido(),
        lambda < ESCALA,
    ensures
        umbral_suficiente(lambda as int, epsilon as int) && max_barridos >= MAX_BARRIDOS ==>
            r is Ok,
        match r {
            Ok((politica, valores)) => {
                &&& primer_convergente_v(
                    m,
                    modelo,
                    lambda as int,
                    epsilon as int,
                    0,
                    max_barridos as nat,
                ) matches Some(k)
                &&& enteros(valores@) == iterar_v(m, modelo, lambda as int, k + 1)
                &&& politica@ == politica_de_v(
                    m,
                    modelo,
                    lambda as int,
                    iterar_v(m, modelo, lambda as int, k),
                )
                &&& valores@.len() == m.n()
                &&& valores@[m.meta as int] == RECOMPENSA_META
                &&& politica@.len() == m.n()
                &&& forall|s: int| 0 <= s < m.n() ==>
                    (#[trigger] politica@[s] is None <==> s == m.meta)
            },
            Err(e) => primer_convergente_v(
                m,
                modelo,
                lambda as int,
                epsilon as int,
                0,
                max_barridos as nat,
            ) is None,
        },
{
    proof {
        lema_recompensa_meta(m);
        if umbral_suficiente(lambda as int, epsilon as int) && max_barridos >= MAX_BARRIDOS {
            lema_iteracion_converge(m, modelo, lambda as int, epsilon as int, max_barridos as nat);
        }
    }
    let n = m.total_estados();
    let mut v: Vec<i64> = Vec::new();
    let mut s: usize = 0;
    while s < n
        invariant
            s <= n,
            v@.len() == s,
            forall|j: int| 0 <= j < s ==> #[trigger] v@[j] == 0,
        decreases n - s,
    {
        v.push(0);
        s += 1;
    }
    assert(enteros(v@) =~= iterar_v(m, modelo, lambda as int, 0));
    let mut k: u64 = 0;
    while k < max_barridos
        invariant
            m.es_valido(),
            modelo.es_valido(),
            lambda < ESCALA,
            n == m.n(),
            k <= max_barridos,
            v@.len() == n,
            enteros(v@) == iterar_v(m, modelo, lambda as int, k as nat),
            acotado(enteros(v@)),
            primer_convergente_v(m, modelo, lambda as int, epsilon as int, 0, max_barridos as nat)
                == primer_convergente_v(
                m,
                modelo,
                lambda as int,
                epsilon as int,
                k as nat,
                max_barridos as nat,
            ),
        decreases max_barridos - k,
    {
        let (nuevo, politica, delta) = barrido_valores(m, modelo, lambda, &v);
        proof {
            let antes = iterar_v(m, modelo, lambda as int, k as nat);
            let despues = iterar_v(m, modelo, lambda as int, (k + 1) as nat);
            assert(despues == enteros(nuevo@));
            assert(es_cambio_maximo_v(antes, despues, m.meta as int, delta as int));
            if delta <= epsilon {
                assert(cerca_v(antes, despues, m.meta as int, epsilon as int));
            } else {
                let j = choose|j: int|
                    0 <= j < antes.len() && j != m.meta
                        && magnitud(#[trigger] antes[j] - despues[j])
                        == delta;
                assert(!cerca_v(antes, despues, m.meta as int, epsilon as int));
            }
        }
        if delta <= epsilon as i64 {
            assert(enteros(nuevo@)[m.meta as int] == nuevo@[m.meta as int]);
            return Ok((politica, nuevo));
        }
        v = nuevo;
        k += 1;
    }
    Err(ErrorMdp::NoConverge)
}

/// Q-value iteration: sweeps from an all-zero table until a sweep changes no
/// entry (those of the goal aside) by more than `epsilon`, for at most
/// `max_barridos` sweeps.
///
/// On success hands back the table after the last sweep, its policy (ties go
/// to the first action in the order N, S, E, O; the goal has none) and its
/// values; every entry of the goal is its reward. Fails with `NoConverge`
/// exactly when none of the first `max_barridos` sweeps converges.
pub fn resolver_q(
    m: &Mundo,
    modelo: &ModeloTransicion,
    lambda: u32,
    epsilon: u32,
    max_barridos: u64,
) -> (r: Result<(Vec<[i64; 4]>, Vec<Option<Accion>>, Vec<i64>), ErrorMdp>)
    requires
        m.es_valido(),
        modelo.es_valido(),
        lambda < ESCALA,
    ensures
        umbral_suficiente(lambda as int, epsilon as int) && max_barridos >= MAX_BARRIDOS ==>
            r is Ok,
        match r {
            Ok((q_valores, politica, valores)) => {
                &&& primer_convergente_q(
                    m,
                    modelo,
                    lambda as int,
                    epsilon as int,
                    0,
                    max_barridos as nat,
                ) matches Some(k)
                &&& tabla(q_valores@) == iterar_q(m, modelo, lambda as int, k + 1)
                &&& politica@ == politica_de_q(m, tabla(q_valores@))
                &&& enteros(valores@) == valores_de_q(tabla(q_valores@))
                &&& valores@.len() == m.n()
                &&& valores@[m.meta as int] == RECOMPENSA_META
                &&& q_valores@.len() == m.n()
                &&& forall|a: int| 0 <= a < 4 ==>
                    #[trigger] q_valores@[m.meta as int][a] == RECOMPENSA_META
                &&& politica@.len() == m.n()
                &&& forall|s: int| 0 <= s < m.n() ==>
                    (#[trigger] politica@[s] is None <==> s == m.meta)
            },
            Err(e) => primer_convergente_q(
                m,
                modelo,
                lambda as int,
                epsilon as int,
                0,
                max_barridos as nat,
            ) is None,
        },
{
    proof {
        lema_recompensa_meta(m);
        if umbral_suficiente(lambda as int, epsilon as int) && max_barridos >= MAX_BARRIDOS {
            lema_iteracion_q_converge(m, modelo, lambda as int, epsilon as int,
                max_barridos as nat);
        }
    }
    let n = m.total_estados();
    let mut q: Vec<[i64; 4]> = Vec::new();
    let mut s: usize = 0;
    while s < n
        invariant
            s <= n,
            q@.len() == s,
            forall|j: int, a: int| 0 <= j < s && 0 <= a < 4 ==> #[trigger] q@[j][a] == 0,
        decreases n - s,
    {
        q.push([0, 0, 0, 0]);
        s += 1;
    }
    proof {
        let cero = iterar_q(m, modelo, lambda as int, 0);
        let t = tabla(q@);
        assert forall|j: int| 0 <= j < n implies #[trigger] t[j] =~= cero[j] by {
            assert forall|a: int| 0 <= a < 4 implies t[j][a] == cero[j][a] by {
                assert(q@[j][a] == 0);
            }
        }
        assert(t =~= cero);
    }
    let mut k: u64 = 0;
    while k < max_barridos
        invariant
            m.es_valido(),
            modelo.es_valido(),
            lambda < ESCALA,
            n == m.n(),
            k <= max_barridos,
            q@.len() == n,
            tabla(q@) == iterar_q(m, modelo, lambda as int, k as nat),
            tabla_acotada(tabla(q@)),
            primer_convergente_q(m, modelo, lambda as int, epsilon as int, 0, max_barridos as nat)
                == primer_convergente_q(
                m,
                modelo,
                lambda as int,
                epsilon as int,
                k as nat,
                max_barridos as nat,
            ),
        decreases max_barridos - k,
    {
        let (nuevo, delta) = barrido_q_valores(m, modelo, lambda, &q);
        proof {
            let antes = iterar_q(m, modelo, lambda as int, k as nat);
            let despues = iterar_q(m, modelo, lambda as int, (k + 1) as nat);
            assert(despues == tabla(nuevo@));
            assert(es_cambio_maximo_q(antes, despues, m.meta as int, delta as int));
            if delta <= epsilon {
                assert(cerca_q(antes, despues, m.meta as int, epsilon as int));
            } else {
                let (j, a) = choose|j: int, a: int|
                    0 <= j < antes.len() && j != m.meta && 0 <= a < 4 && magnitud(
                        #[trigger] antes[j][a] - despues[j][a],
                    ) == delta;
                assert(!cerca_q(antes, despues, m.meta as int, epsilon as int));
            }
        }
        if delta <= epsilon as i64 {
            let politica = politica_de_tabla(m, &nuevo);
            let valores = valores_de_tabla(&nuevo);
            proof {
                let t = tabla(nuevo@);
                let meta = m.meta as int;
                assert(enteros(valores@).len() == valores@.len());
                assert(enteros(valores@)[meta] == valores@[meta]);
                assert(t[meta][0] == m.recompensa_spec(meta));
                assert(t[meta][1] == m.recompensa_spec(meta));
                assert(t[meta][2] == m.recompensa_spec(meta));
                assert(t[meta][3] == m.recompensa_spec(meta));
                assert forall|a: int| 0 <= a < 4 implies #[trigger] nuevo@[meta][a]
                    == RECOMPENSA_META by {
                    assert(t[meta][a] == nuevo@[meta][a]);
                }
                assert(t.len() == nuevo@.len());
            }
            return Ok((nuevo, politica, valores));
        }
        q = nuevo;
        k += 1;
    }
    Err(ErrorMdp::NoConverge)
}

/// Value iteration with the defaults filled in: the threshold
/// `UMBRAL_CONVERGENCIA` when none is given, the default transition model when
/// none is given, and at most `MAX_BARRIDOS` sweeps.
pub fn value_iteration(
    mundo: &Mundo,
    lambda: u32,
    epsilon: Option<u32>,
    modelo: Option<&ModeloTransicion>,
) -> (r: Result<(Vec<Option<Accion>>, Vec<i64>), ErrorMdp>)
    requires
        mundo.es_valido(),
        lambda < ESCALA,
        modelo matches Some(dado) ==> dado.es_valido(),
    ensures
        umbral_suficiente(lambda as int, umbral_spec(epsilon)) ==> r is Ok,
        match r {
            Ok((politica, valores)) => {
                &&& primer_convergente_v(
                    mundo,
                    &modelo_spec(modelo),
                    lambda as int,
                    umbral_spec(epsilon),
                    0,
                    MAX_BARRIDOS as nat,
                ) matches Some(k)
                &&& enteros(valores@) == iterar_v(mundo, &modelo_spec(modelo), lambda as int, k + 1)
                &&& politica@ == politica_de_v(
                    mundo,
                    &modelo_spec(modelo),
                    lambda as int,
                    iterar_v(mundo, &modelo_spec(modelo), lambda as int, k),
                )
                &&& valores@.len() == mundo.n()
                &&& valores@[mundo.meta as int] == RECOMPENSA_META
                &&& politica@.len() == mundo.n()
                &&& forall|s: int|
                    0 <= s < mundo.n() ==> (#[trigger] politica@[s] is None <==> s == mundo.meta)
            },
            Err(e) => primer_convergente_v(
                mundo,
                &modelo_spec(modelo),
                lambda as int,
                umbral_spec(epsilon),
                0,
                MAX_BARRIDOS as nat,
            ) is None,
        },
{
    let umbral = match epsilon {
        Some(e) => e,
        None => UMBRAL_CONVERGENCIA,
    };
    match modelo {
        Some(dado) => resolver_valores(mundo, dado, lambda, umbral, MAX_BARRIDOS),
        None => {
            let defecto = prob_transicion();
            resolver_valores(mundo, &defecto, lambda, umbral, MAX_BARRIDOS)
        },
    }
}

/// Q-value iteration with the defaults filled in: the threshold
/// `UMBRAL_CONVERGENCIA` when none is given, the default transition model when
/// none is given, and at most `MAX_BARRIDOS` sweeps. Hands back the Q-table,
/// the policy and the values.
pub fn q_value_iteration(
    mundo: &Mundo,
    lambda: u32,
    epsilon: Option<u32>,
    modelo: Option<&ModeloTransicion>,
) -> (r: Result<(Vec<[i64; 4]>, Vec<Option<Accion>>, Vec<i64>), ErrorMdp>)
    requires
        mundo.es_valido(),
        lambda < ESCALA,
        modelo matches Some(dado) ==> dado.es_valido(),
    ensures
        umbral_suficiente(lambda as int, umbral_spec(epsilon)) ==> r is Ok,
        match r {
            Ok((q_valores, politica, valores)) => {
                &&& primer_convergente_q(
                    mundo,
                    &modelo_spec(modelo),
                    lambda as int,
                    umbral_spec(epsilon),
                    0,
                    MAX_BARRIDOS as nat,
                ) matches Some(k)
                &&& tabla(q_valores@) == iterar_q(mundo, &modelo_spec(modelo), lambda as int, k + 1)
                &&& politica@ == politica_de_q(mundo, tabla(q_valores@))
                &&& enteros(valores@) == valores_de_q(tabla(q_valores@))
                &&& valores@.len() == mundo.n()
                &&& valores@[mundo.meta as int] == RECOMPENSA_META
                &&& q_valores@.len() == mundo.n()
                &&& forall|a: int|
                    0 <= a < 4 ==> #[trigger] q_valores@[mundo.meta as int][a] == RECOMPENSA_META
                &&& politica@.len() == mundo.n()
                &&& forall|s: int|
                    0 <= s < mundo.n() ==> (#[trigger] politica@[s] is None <==> s == mundo.meta)
            },
            Err(e) => primer_convergente_q(
                mundo,
                &modelo_spec(modelo),
                lambda as int,
                umbral_spec(epsilon),
                0,
                MAX_BARRIDOS as nat,
            ) is None,
        },
{
    let umbral = match epsilon {
        Some(e) => e,
        None => UMBRAL_CONVERGENCIA,
    };
    match modelo {
        Some(dado) => resolver_q(mundo, dado, lambda, umbral, MAX_BARRIDOS),
        None => {
            let defecto = prob_transicion();
            resolver_q(mundo, &defecto, lambda, umbral, MAX_BARRIDOS)
        },
    }
}

} // verus!
