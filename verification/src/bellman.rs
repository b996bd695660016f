//! The Bellman backup in fixed-point arithmetic, and the sweeps of value
//! iteration and of Q-value iteration that are made of it.
//!
//! The mathematics is stated over unbounded integers; the executable sweeps
//! compute it in machine integers, with every value kept within
//! `COTA_VALOR`.

use crate::aritmetica::{dividir_abajo, lema_cociente_acotado, lema_producto_acotado, magnitud};
use crate::config::{Accion, ESCALA};
use crate::mundo::{lema_destino_en_rango, Mundo};
use crate::transicion::ModeloTransicion;
use vstd::prelude::*;

verus! {

/// Bound on the magnitude of every value that a solver holds: the largest
/// reward times `ESCALA`.
pub const COTA_VALOR: i64 = 10_000_000_000_000;

/// The divisor of a backup: a probability times a discount factor, both in
/// millionths.
pub const ESCALA_CUADRADA: i128 = 1_000_000_000_000;

/// The values of a vector of machine integers.
pub open spec fn enteros(v: Seq<i64>) -> Seq<int> {
    Seq::new(v.len(), |i: int| v[i] as int)
}

/// The values of a table of machine integers, one row of four per state.
pub open spec fn tabla(q: Seq<[i64; 4]>) -> Seq<Seq<int>> {
    Seq::new(q.len(), |s: int| Seq::new(4, |a: int| q[s][a] as int))
}

/// Whether every entry of a vector lies within `COTA_VALOR` of zero.
pub open spec fn acotado(v: Seq<int>) -> bool {
    forall|s: int| 0 <= s < v.len() ==> -COTA_VALOR <= #[trigger] v[s] <= COTA_VALOR
}

/// Whether every entry of a table lies within `COTA_VALOR` of zero.
pub open spec fn tabla_acotada(q: Seq<Seq<int>>) -> bool {
    forall|s: int, a: int|
        0 <= s < q.len() && 0 <= a < 4 ==> -COTA_VALOR <= #[trigger] q[s][a] <= COTA_VALOR
}

/// The largest of four numbers.
pub open spec fn maximo4(q0: int, q1: int, q2: int, q3: int) -> int {
    let a = if q0 >= q1 {
        q0
    } else {
        q1
    };
    let b = if q2 >= q3 {
        q2
    } else {
        q3
    };
    if a >= b {
        a
    } else {
        b
    }
}

/// The first position, in the order 0, 1, 2, 3, that holds the largest of four
/// numbers.
pub open spec fn indice_maximo(q0: int, q1: int, q2: int, q3: int) -> int {
    let m = maximo4(q0, q1, q2, q3);
    if q0 == m {
        0
    } else if q1 == m {
        1
    } else if q2 == m {
        2
    } else {
        3
    }
}

/// Expected value of the destination when `a` is attempted in state `s`, times
/// `ESCALA`: each effective direction's probability times the value of where
/// that direction leads.
pub open spec fn esperado(
    m: &Mundo,
    modelo: &ModeloTransicion,
    v: Seq<int>,
    s: int,
    a: Accion,
) -> int {
    modelo.p(a, Accion::N) * v[m.destino_spec(s, Accion::N)] + modelo.p(a, Accion::S)
        * v[m.destino_spec(s, Accion::S)] + modelo.p(a, Accion::E) * v[m.destino_spec(
        s,
        Accion::E,
    )] + modelo.p(a, Accion::O) * v[m.destino_spec(s, Accion::O)]
}

/// The Bellman backup of a state and an action: the state's reward plus the
/// discounted expected value of the destination, rounded down to a whole
/// number of millionths.
pub open spec fn respaldo(
    m: &Mundo,
    modelo: &ModeloTransicion,
    lambda: int,
    v: Seq<int>,
    s: int,
    a: Accion,
) -> int {
    m.recompensa_spec(s) + (lambda * esperado(m, modelo, v, s, a)) / (ESCALA_CUADRADA as int)
}

/// The largest backup of a state over the four actions.
pub open spec fn mejor_valor(
    m: &Mundo,
    modelo: &ModeloTransicion,
    lambda: int,
    v: Seq<int>,
    s: int,
) -> int {
    maximo4(
        respaldo(m, modelo, lambda, v, s, Accion::N),
        respaldo(m, modelo, lambda, v, s, Accion::S),
        respaldo(m, modelo, lambda, v, s, Accion::E),
        respaldo(m, modelo, lambda, v, s, Accion::O),
    )
}

/// The first action, in the order N, S, E, O, whose backup is the largest.
pub open spec fn mejor_accion(
    m: &Mundo,
    modelo: &ModeloTransicion,
    lambda: int,
    v: Seq<int>,
    s: int,
) -> Accion {
    Accion::desde_indice_spec(
        indice_maximo(
            respaldo(m, modelo, lambda, v, s, Accion::N),
            respaldo(m, modelo, lambda, v, s, Accion::S),
            respaldo(m, modelo, lambda, v, s, Accion::E),
            respaldo(m, modelo, lambda, v, s, Accion::O),
        ),
    )
}

/// The best action is the first of the largest backup: its backup is the best
/// value, no action's backup is above it, and every action before it in the
/// order N, S, E, O has a strictly smaller backup.
pub proof fn lema_mejor_accion(
    m: &Mundo,
    modelo: &ModeloTransicion,
    lambda: int,
    v: Seq<int>,
    s: int,
    otra: Accion,
)
    ensures
        respaldo(m, modelo, lambda, v, s, mejor_accion(m, modelo, lambda, v, s)) == mejor_valor(
            m,
            modelo,
            lambda,
            v,
            s,
        ),
        respaldo(m, modelo, lambda, v, s, otra) <= mejor_valor(m, modelo, lambda, v, s),
        otra.indice_spec() < mejor_accion(m, modelo, lambda, v, s).indice_spec() ==> respaldo(
            m,
            modelo,
            lambda,
            v,
            s,
            otra,
        ) < mejor_valor(m, modelo, lambda, v, s),
{
}

/// One sweep of value iteration: the goal takes its reward, every other state
/// its largest backup from the values before the sweep.
pub open spec fn barrido_v(
    m: &Mundo,
    modelo: &ModeloTransicion,
    lambda: int,
    v: Seq<int>,
) -> Seq<int> {
    Seq::new(
        m.n() as nat,
        |s: int|
            if s == m.meta {
                m.recompensa_spec(s)
            } else {
                mejor_valor(m, modelo, lambda, v, s)
            },
    )
}

/// The policy that a sweep of value iteration records: no action at the goal,
/// the best action from the values before the sweep everywhere else.
pub open spec fn politica_de_v(
    m: &Mundo,
    modelo: &ModeloTransicion,
    lambda: int,
    v: Seq<int>,
) -> Seq<Option<Accion>> {
    Seq::new(
        m.n() as nat,
        |s: int|
            if s == m.meta {
                None
            } else {
                Some(mejor_accion(m, modelo, lambda, v, s))
            },
    )
}

/// The values after `k` sweeps of value iteration from all zeros.
pub open spec fn iterar_v(m: &Mundo, modelo: &ModeloTransicion, lambda: int, k: nat) -> Seq<int>
    decreases k,
{
    if k == 0 {
        Seq::new(m.n() as nat, |s: int| 0int)
    } else {
        barrido_v(m, modelo, lambda, iterar_v(m, modelo, lambda, (k - 1) as nat))
    }
}

/// The value of each state under a Q-table: the largest of its four entries.
pub open spec fn valores_de_q(q: Seq<Seq<int>>) -> Seq<int> {
    Seq::new(q.len(), |s: int| maximo4(q[s][0], q[s][1], q[s][2], q[s][3]))
}

/// The policy of a Q-table: no action at the goal, elsewhere the first action
/// in the order N, S, E, O whose entry is the largest.
pub open spec fn politica_de_q(m: &Mundo, q: Seq<Seq<int>>) -> Seq<Option<Accion>> {
    Seq::new(
        q.len(),
        |s: int|
            if s == m.meta {
                None
            } else {
                Some(
                    Accion::desde_indice_spec(indice_maximo(q[s][0], q[s][1], q[s][2], q[s][3])),
                )
            },
    )
}

/// One sweep of Q-value iteration: every entry of the goal takes its reward,
/// every other entry its backup from the values of the table before the sweep.
pub open spec fn barrido_q(
    m: &Mundo,
    modelo: &ModeloTransicion,
    lambda: int,
    q: Seq<Seq<int>>,
) -> Seq<Seq<int>> {
    Seq::new(
        m.n() as nat,
        |s: int|
            Seq::new(
                4,
                |a: int|
                    if s == m.meta {
                        m.recompensa_spec(s)
                    } else {
                        respaldo(
                            m,
                            modelo,
                            lambda,
                            valores_de_q(q),
                            s,
                            Accion::desde_indice_spec(a),
                        )
                    },
            ),
    )
}

/// The Q-table after `k` sweeps of Q-value iteration from all zeros.
pub open spec fn iterar_q(
    m: &Mundo,
    modelo: &ModeloTransicion,
    lambda: int,
    k: nat,
) -> Seq<Seq<int>>
    decreases k,
{
    if k == 0 {
        Seq::new(m.n() as nat, |s: int| Seq::new(4, |a: int| 0int))
    } else {
        barrido_q(m, modelo, lambda, iterar_q(m, modelo, lambda, (k - 1) as nat))
    }
}

/// Whether two value vectors differ by at most `eps` at every state but the
/// goal: the sup-norm test of convergence.
pub open spec fn cerca_v(v: Seq<int>, w: Seq<int>, meta: int, eps: int) -> bool {
    forall|s: int| 0 <= s < v.len() && s != meta ==> magnitud(#[trigger] v[s] - w[s]) <= eps
}

/// Whether two Q-tables differ by at most `eps` at every entry but those of
/// the goal.
pub open spec fn cerca_q(q: Seq<Seq<int>>, r: Seq<Seq<int>>, meta: int, eps: int) -> bool {
    forall|s: int, a: int|
        0 <= s < q.len() && s != meta && 0 <= a < 4 ==>
            magnitud(#[trigger] q[s][a] - r[s][a]) <= eps
}

/// Whether sweep number `k + 1` of value iteration changes no value by more
/// than `eps`.
pub open spec fn converge_v(
    m: &Mundo,
    modelo: &ModeloTransicion,
    lambda: int,
    eps: int,
    k: nat,
) -> bool {
    cerca_v(
        iterar_v(m, modelo, lambda, k),
        iterar_v(m, modelo, lambda, k + 1),
        m.meta as int,
        eps,
    )
}

/// Whether sweep number `k + 1` of Q-value iteration changes no entry by more
/// than `eps`.
pub open spec fn converge_q(
    m: &Mundo,
    modelo: &ModeloTransicion,
    lambda: int,
    eps: int,
    k: nat,
) -> bool {
    cerca_q(
        iterar_q(m, modelo, lambda, k),
        iterar_q(m, modelo, lambda, k + 1),
        m.meta as int,
        eps,
    )
}

/// The first `k` from `desde` on and below `max` at which value iteration
/// converges, if there is one.
pub open spec fn primer_convergente_v(
    m: &Mundo,
    modelo: &ModeloTransicion,
    lambda: int,
    eps: int,
    desde: nat,
    max: nat,
) -> Option<nat>
    decreases max - desde,
{
    if desde >= max {
        None
    } else if converge_v(m, modelo, lambda, eps, desde) {
        Some(desde)
    } else {
        primer_convergente_v(m, modelo, lambda, eps, desde + 1, max)
    }
}

/// The first `k` from `desde` on and below `max` at which Q-value iteration
/// converges, if there is one.
pub open spec fn primer_convergente_q(
    m: &Mundo,
    modelo: &ModeloTransicion,
    lambda: int,
    eps: int,
    desde: nat,
    max: nat,
) -> Option<nat>
    decreases max - desde,
{
    if desde >= max {
        None
    } else if converge_q(m, modelo, lambda, eps, desde) {
        Some(desde)
    } else {
        primer_convergente_q(m, modelo, lambda, eps, desde + 1, max)
    }
}

/// A backup of bounded values is bounded: with valid inputs and a discount
/// factor below one, the magnitude of a backup never exceeds `COTA_VALOR`.
pub proof fn lema_respaldo_acotado(
    m: &Mundo,
    modelo: &ModeloTransicion,
    lambda: int,
    v: Seq<int>,
    s: int,
    a: Accion,
)
    requires
        m.es_valido(),
        modelo.es_valido(),
        0 <= lambda < ESCALA,
        v.len() == m.n(),
        acotado(v),
        0 <= s < m.n(),
    ensures
        -(ESCALA as int) * COTA_VALOR <= esperado(m, modelo, v, s, a) <= ESCALA * COTA_VALOR,
        -COTA_VALOR <= respaldo(m, modelo, lambda, v, s, a) <= COTA_VALOR,
{
    lema_destino_en_rango(m, s, Accion::N);
    lema_destino_en_rango(m, s, Accion::S);
    lema_destino_en_rango(m, s, Accion::E);
    lema_destino_en_rango(m, s, Accion::O);
    let pn = modelo.p(a, Accion::N);
    let ps = modelo.p(a, Accion::S);
    let pe = modelo.p(a, Accion::E);
    let po = modelo.p(a, Accion::O);
    let vn = v[m.destino_spec(s, Accion::N)];
    let vs = v[m.destino_spec(s, Accion::S)];
    let ve = v[m.destino_spec(s, Accion::E)];
    let vo = v[m.destino_spec(s, Accion::O)];
    let c = COTA_VALOR as int;
    assert(modelo.suma_fila(a) == ESCALA);
    lema_producto_acotado(pn, vn, c);
    lema_producto_acotado(ps, vs, c);
    lema_producto_acotado(pe, ve, c);
    lema_producto_acotado(po, vo, c);
    let e = esperado(m, modelo, v, s, a);
    assert(e == pn * vn + ps * vs + pe * ve + po * vo);
    assert((pn + ps + pe + po) * c == pn * c + ps * c + pe * c + po * c) by (nonlinear_arith);
    assert(-(ESCALA as int) * c <= e <= ESCALA * c);
    let x = lambda * e;
    let tope = lambda * 10_000_000;
    assert(-tope * ESCALA_CUADRADA <= x <= tope * ESCALA_CUADRADA) by (nonlinear_arith)
        requires
            x == lambda * e,
            tope == lambda * 10_000_000,
            0 <= lambda,
            -1_000_000 * 10_000_000_000_000 <= e <= 1_000_000 * 10_000_000_000_000,
            ESCALA_CUADRADA == 1_000_000_000_000,
    ;
    lema_cociente_acotado(x, ESCALA_CUADRADA as int, tope);
    assert(-10_000_000 <= m.recompensa_spec(s) <= 10_000_000);
}

/// Whether `d` is the largest change between two value vectors over the
/// states other than the goal (0 when there is no such state).
pub open spec fn es_cambio_maximo_v(v: Seq<int>, w: Seq<int>, meta: int, d: int) -> bool {
    &&& d >= 0
    &&& cerca_v(v, w, meta, d)
    &&& d == 0 || exists|s: int| 0 <= s < v.len() && s != meta
        && magnitud(#[trigger] v[s] - w[s]) == d
}

/// Whether `d` is the largest change between two Q-tables over the entries of
/// the states other than the goal (0 when there is no such state).
pub open spec fn es_cambio_maximo_q(q: Seq<Seq<int>>, r: Seq<Seq<int>>, meta: int, d: int) -> bool {
    &&& d >= 0
    &&& cerca_q(q, r, meta, d)
    &&& d == 0 || exists|s: int, a: int|
        0 <= s < q.len() && s != meta && 0 <= a < 4 && magnitud(#[trigger] q[s][a] - r[s][a]) == d
}

/// The Bellman backup of state `s` and action `a` from the values `v`.
pub fn calcular_respaldo(
    m: &Mundo,
    modelo: &ModeloTransicion,
    lambda: u32,
    v: &Vec<i64>,
    s: usize,
    a: Accion,
) -> (q: i64)
    requires
        m.es_valido(),
        modelo.es_valido(),
        lambda < ESCALA,
        v@.len() == m.n(),
        acotado(enteros(v@)),
        s < m.n(),
    ensures
        q == respaldo(m, modelo, lambda as int, enteros(v@), s as int, a),
        -COTA_VALOR <= q <= COTA_VALOR,
{
    let tn = m.destino(s, Accion::N);
    let ts = m.destino(s, Accion::S);
    let te = m.destino(s, Accion::E);
    let to = m.destino(s, Accion::O);
    let pn = modelo.probabilidad(a, Accion::N) as i128;
    let ps = modelo.probabilidad(a, Accion::S) as i128;
    let pe = modelo.probabilidad(a, Accion::E) as i128;
    let po = modelo.probabilidad(a, Accion::O) as i128;
    let vn = v[tn] as i128;
    let vs = v[ts] as i128;
    let ve = v[te] as i128;
    let vo = v[to] as i128;
    proof {
        let w = enteros(v@);
        assert(w[tn as int] == vn && w[ts as int] == vs && w[te as int] == ve
            && w[to as int] == vo);
        assert(modelo.suma_fila(a) == ESCALA);
        lema_producto_acotado(pn as int, vn as int, COTA_VALOR as int);
        lema_producto_acotado(ps as int, vs as int, COTA_VALOR as int);
        lema_producto_acotado(pe as int, ve as int, COTA_VALOR as int);
        lema_producto_acotado(po as int, vo as int, COTA_VALOR as int);
        assert(pn * COTA_VALOR <= 1_000_000 * 10_000_000_000_000) by (nonlinear_arith)
            requires
                0 <= pn <= 1_000_000,
                COTA_VALOR == 10_000_000_000_000,
        ;
        assert(ps * COTA_VALOR <= 1_000_000 * 10_000_000_000_000) by (nonlinear_arith)
            requires
                0 <= ps <= 1_000_000,
                COTA_VALOR == 10_000_000_000_000,
        ;
        assert(pe * COTA_VALOR <= 1_000_000 * 10_000_000_000_000) by (nonlinear_arith)
            requires
                0 <= pe <= 1_000_000,
                COTA_VALOR == 10_000_000_000_000,
        ;
        assert(po * COTA_VALOR <= 1_000_000 * 10_000_000_000_000) by (nonlinear_arith)
            requires
                0 <= po <= 1_000_000,
                COTA_VALOR == 10_000_000_000_000,
        ;
        lema_respaldo_acotado(m, modelo, lambda as int, w, s as int, a);
    }
    let e: i128 = pn * vn + ps * vs + pe * ve + po * vo;
    assert(e == esperado(m, modelo, enteros(v@), s as int, a));
    assert(-10_000_000_000_000_000_000_000_000 <= lambda * e
        <= 10_000_000_000_000_000_000_000_000) by (nonlinear_arith)
        requires
            0 <= lambda < 1_000_000,
            -10_000_000_000_000_000_000 <= e <= 10_000_000_000_000_000_000,
    ;
    let x: i128 = (lambda as i128) * e;
    let descontado = dividir_abajo(x, ESCALA_CUADRADA);
    let q: i128 = (m.recompensa(s) as i128) + descontado;
    q as i64
}

/// The largest of four numbers and the first position that holds it, found by
/// a scan that moves on only to a strictly larger number.
pub fn primer_maximo(q0: i64, q1: i64, q2: i64, q3: i64) -> (r: (usize, i64))
    ensures
        r.0 == indice_maximo(q0 as int, q1 as int, q2 as int, q3 as int),
        r.1 == maximo4(q0 as int, q1 as int, q2 as int, q3 as int),
{
    let mut indice: usize = 0;
    let mut mejor: i64 = q0;
    if q1 > mejor {
        indice = 1;
        mejor = q1;
    }
    if q2 > mejor {
        indice = 2;
        mejor = q2;
    }
    if q3 > mejor {
        indice = 3;
        mejor = q3;
    }
    (indice, mejor)
}

/// The magnitude of the difference of two bounded values.
pub fn cambio(x: i64, y: i64) -> (d: i64)
    requires
        -COTA_VALOR <= x <= COTA_VALOR,
        -COTA_VALOR <= y <= COTA_VALOR,
    ensures
        d == magnitud(x - y),
{
    if x >= y {
        x - y
    } else {
        y - x
    }
}

/// One sweep of value iteration over all states: the new values, the policy
/// that the sweep records, and the largest change of a value (the sup-norm
/// delta; the goal does not count). The old values are only read.
pub fn barrido_valores(
    m: &Mundo,
    modelo: &ModeloTransicion,
    lambda: u32,
    v: &Vec<i64>,
) -> (r: (Vec<i64>, Vec<Option<Accion>>, i64))
    requires
        m.es_valido(),
        modelo.es_valido(),
        lambda < ESCALA,
        v@.len() == m.n(),
        acotado(enteros(v@)),
    ensures
        enteros(r.0@) == barrido_v(m, modelo, lambda as int, enteros(v@)),
        r.1@ == politica_de_v(m, modelo, lambda as int, enteros(v@)),
        es_cambio_maximo_v(enteros(v@), enteros(r.0@), m.meta as int, r.2 as int),
        acotado(enteros(r.0@)),
{
    let n = m.total_estados();
    let ghost antes = enteros(v@);
    let ghost meta = m.meta as int;
    let ghost esperados = barrido_v(m, modelo, lambda as int, antes);
    let ghost acciones = politica_de_v(m, modelo, lambda as int, antes);
    let mut nuevo: Vec<i64> = Vec::new();
    let mut politica: Vec<Option<Accion>> = Vec::new();
    let mut delta: i64 = 0;
    let mut s: usize = 0;
    while s < n
        invariant
            m.es_valido(),
            modelo.es_valido(),
            lambda < ESCALA,
            n == m.n(),
            v@.len() == n,
            antes == enteros(v@),
            acotado(antes),
            meta == m.meta,
            esperados == barrido_v(m, modelo, lambda as int, antes),
            acciones == politica_de_v(m, modelo, lambda as int, antes),
            s <= n,
            nuevo@.len() == s,
            politica@.len() == s,
            forall|j: int| 0 <= j < s ==> #[trigger] nuevo@[j] == esperados[j],
            forall|j: int| 0 <= j < s ==> -COTA_VALOR <= #[trigger] nuevo@[j] <= COTA_VALOR,
            forall|j: int| 0 <= j < s ==> #[trigger] politica@[j] == acciones[j],
            0 <= delta,
            forall|j: int| 0 <= j < s && j != meta ==>
                magnitud(#[trigger] antes[j] - nuevo@[j]) <= delta,
            delta == 0 || exists|j: int|
                0 <= j < s && j != meta && magnitud(#[trigger] antes[j] - nuevo@[j]) == delta,
        decreases n - s,
    {
        if s == m.meta {
            nuevo.push(m.recompensa(s));
            politica.push(None);
        } else {
            let qn = calcular_respaldo(m, modelo, lambda, v, s, Accion::N);
            let qs = calcular_respaldo(m, modelo, lambda, v, s, Accion::S);
            let qe = calcular_respaldo(m, modelo, lambda, v, s, Accion::E);
            let qo = calcular_respaldo(m, modelo, lambda, v, s, Accion::O);
            let (indice, mejor) = primer_maximo(qn, qs, qe, qo);
            let ghost delta_antes = delta;
            let ghost nuevo_antes = nuevo@;
            assert(antes[s as int] == v@[s as int]);
            let d = cambio(v[s], mejor);
            if d > delta {
                delta = d;
            }
            nuevo.push(mejor);
            politica.push(Some(Accion::desde_indice(indice)));
            proof {
                assert(magnitud(antes[s as int] - nuevo@[s as int]) == d);
                if delta_antes != 0 && d <= delta_antes {
                    let j = choose|j: int|
                        0 <= j < s && j != meta && magnitud(#[trigger] antes[j] - nuevo_antes[j])
                            == delta_antes;
                    assert(nuevo@[j] == nuevo_antes[j]);
                    assert(magnitud(antes[j] - nuevo@[j]) == delta);
                }
            }
        }
        s += 1;
    }
    proof {
        assert(enteros(nuevo@) =~= esperados);
        assert(politica@ =~= acciones);
        let w = enteros(nuevo@);
        assert forall|j: int| 0 <= j < antes.len() && j != meta implies magnitud(
            #[trigger] antes[j] - w[j],
        ) <= delta by {
            assert(magnitud(antes[j] - nuevo@[j]) <= delta);
        }
        if delta != 0 {
            let j = choose|j: int|
                0 <= j < s && j != meta && magnitud(#[trigger] antes[j] - nuevo@[j]) == delta;
            assert(magnitud(antes[j] - w[j]) == delta);
        }
    }
    (nuevo, politica, delta)
}

/// The value of each state under a Q-table: the largest entry of its row.
pub fn valores_de_tabla(q: &Vec<[i64; 4]>) -> (v: Vec<i64>)
    ensures
        enteros(v@) == valores_de_q(tabla(q@)),
        tabla_acotada(tabla(q@)) ==> acotado(enteros(v@)),
{
    let ghost t = tabla(q@);
    let ghost esperados = valores_de_q(t);
    let mut v: Vec<i64> = Vec::new();
    let mut s: usize = 0;
    while s < q.len()
        invariant
            s <= q@.len(),
            t == tabla(q@),
            esperados == valores_de_q(t),
            v@.len() == s,
            forall|j: int| 0 <= j < s ==> #[trigger] v@[j] == esperados[j],
        decreases q@.len() - s,
    {
        let fila = q[s];
        assert(t[s as int][0] == fila[0] && t[s as int][1] == fila[1] && t[s as int][2] == fila[2]
            && t[s as int][3] == fila[3]);
        let (_, mejor) = primer_maximo(fila[0], fila[1], fila[2], fila[3]);
        v.push(mejor);
        s += 1;
    }
    proof {
        assert(enteros(v@) =~= esperados);
        if tabla_acotada(t) {
            assert forall|j: int| 0 <= j < v@.len() implies -COTA_VALOR <= #[trigger] enteros(
                v@,
            )[j] <= COTA_VALOR by {
                assert(-COTA_VALOR <= t[j][0] <= COTA_VALOR);
                assert(-COTA_VALOR <= t[j][1] <= COTA_VALOR);
                assert(-COTA_VALOR <= t[j][2] <= COTA_VALOR);
                assert(-COTA_VALOR <= t[j][3] <= COTA_VALOR);
            }
        }
    }
    v
}

/// The policy of a Q-table: no action at the goal, elsewhere the first action
/// in the order N, S, E, O whose entry is the largest.
pub fn politica_de_tabla(m: &Mundo, q: &Vec<[i64; 4]>) -> (p: Vec<Option<Accion>>)
    ensures
        p@ == politica_de_q(m, tabla(q@)),
{
    let ghost t = tabla(q@);
    let ghost esperadas = politica_de_q(m, t);
    let mut p: Vec<Option<Accion>> = Vec::new();
    let mut s: usize = 0;
    while s < q.len()
        invariant
            s <= q@.len(),
            t == tabla(q@),
            esperadas == politica_de_q(m, t),
            p@.len() == s,
            forall|j: int| 0 <= j < s ==> #[trigger] p@[j] == esperadas[j],
        decreases q@.len() - s,
    {
        if s == m.meta {
            p.push(None);
        } else {
            let fila = q[s];
            assert(t[s as int][0] == fila[0] && t[s as int][1] == fila[1] && t[s as int][2]
                == fila[2] && t[s as int][3] == fila[3]);
            let (indice, _) = primer_maximo(fila[0], fila[1], fila[2], fila[3]);
            p.push(Some(Accion::desde_indice(indice)));
        }
        s += 1;
    }
    proof {
        assert(p@ =~= esperadas);
    }
    p
}

/// One sweep of Q-value iteration over all states and actions: the new table
/// and the largest change of an entry (the sup-norm delta; the entries of the
/// goal do not count). The old table is only read.
pub fn barrido_q_valores(
    m: &Mundo,
    modelo: &ModeloTransicion,
    lambda: u32,
    q: &Vec<[i64; 4]>,
) -> (r: (Vec<[i64; 4]>, i64))
    requires
        m.es_valido(),
        modelo.es_valido(),
        lambda < ESCALA,
        q@.len() == m.n(),
        tabla_acotada(tabla(q@)),
    ensures
        tabla(r.0@) == barrido_q(m, modelo, lambda as int, tabla(q@)),
        es_cambio_maximo_q(tabla(q@), tabla(r.0@), m.meta as int, r.1 as int),
        tabla_acotada(tabla(r.0@)),
{
    let n = m.total_estados();
    let v = valores_de_tabla(q);
    let ghost antes = tabla(q@);
    assert(enteros(v@).len() == v@.len() && valores_de_q(antes).len() == q@.len());
    let ghost meta = m.meta as int;
    let ghost esperados = barrido_q(m, modelo, lambda as int, antes);
    let mut nuevo: Vec<[i64; 4]> = Vec::new();
    let mut delta: i64 = 0;
    let mut s: usize = 0;
    while s < n
        invariant
            m.es_valido(),
            modelo.es_valido(),
            lambda < ESCALA,
            n == m.n(),
            q@.len() == n,
            v@.len() == n,
            antes == tabla(q@),
            tabla_acotada(antes),
            enteros(v@) == valores_de_q(antes),
            acotado(enteros(v@)),
            meta == m.meta,
            esperados == barrido_q(m, modelo, lambda as int, antes),
            s <= n,
            nuevo@.len() == s,
            forall|j: int, a: int|
                0 <= j < s && 0 <= a < 4 ==> (#[trigger] nuevo@[j][a]) as int == esperados[j][a],
            forall|j: int, a: int|
                0 <= j < s && 0 <= a < 4 ==> -COTA_VALOR <= #[trigger] nuevo@[j][a] <= COTA_VALOR,
            0 <= delta,
            forall|j: int, a: int|
                0 <= j < s && j != meta && 0 <= a < 4 ==> magnitud(
                    antes[j][a] - #[trigger] nuevo@[j][a],
                ) <= delta,
            delta == 0 || exists|j: int, a: int|
                0 <= j < s && j != meta && 0 <= a < 4 && magnitud(
                    antes[j][a] - #[trigger] nuevo@[j][a],
                ) == delta,
        decreases n - s,
    {
        let ghost delta_antes = delta;
        let ghost nuevo_antes = nuevo@;
        if s == m.meta {
            let r = m.recompensa(s);
            nuevo.push([r, r, r, r]);
            proof {
                if delta != 0 {
                    let (j, a) = choose|j: int, a: int|
                        0 <= j < s && j != meta && 0 <= a < 4 && magnitud(
                            antes[j][a] - #[trigger] nuevo_antes[j][a],
                        ) == delta;
                    assert(nuevo@[j] == nuevo_antes[j]);
                    assert(magnitud(antes[j][a] - nuevo@[j][a]) == delta);
                }
            }
        } else {
            let qn = calcular_respaldo(m, modelo, lambda, &v, s, Accion::N);
            let qs = calcular_respaldo(m, modelo, lambda, &v, s, Accion::S);
            let qe = calcular_respaldo(m, modelo, lambda, &v, s, Accion::E);
            let qo = calcular_respaldo(m, modelo, lambda, &v, s, Accion::O);
            let fila = q[s];
            proof {
                assert(antes[s as int][0] == fila[0] && antes[s as int][1] == fila[1]
                    && antes[s as int][2] == fila[2] && antes[s as int][3] == fila[3]);
                assert(-COTA_VALOR <= antes[s as int][0] <= COTA_VALOR);
                assert(-COTA_VALOR <= antes[s as int][1] <= COTA_VALOR);
                assert(-COTA_VALOR <= antes[s as int][2] <= COTA_VALOR);
                assert(-COTA_VALOR <= antes[s as int][3] <= COTA_VALOR);
            }
            let dn = cambio(fila[0], qn);
            let ds = cambio(fila[1], qs);
            let de = cambio(fila[2], qe);
            let d_o = cambio(fila[3], qo);
            let (donde, d) = primer_maximo(dn, ds, de, d_o);
            if d > delta {
                delta = d;
            }
            nuevo.push([qn, qs, qe, qo]);
            proof {
                let fila_nueva = nuevo@[s as int];
                assert(fila_nueva[0] == qn && fila_nueva[1] == qs && fila_nueva[2] == qe
                    && fila_nueva[3] == qo);
                assert(magnitud(antes[s as int][0] - nuevo@[s as int][0]) == dn);
                assert(magnitud(antes[s as int][1] - nuevo@[s as int][1]) == ds);
                assert(magnitud(antes[s as int][2] - nuevo@[s as int][2]) == de);
                assert(magnitud(antes[s as int][3] - nuevo@[s as int][3]) == d_o);
                if d > delta_antes {
                    assert(magnitud(antes[s as int][donde as int] - nuevo@[s as int][donde as int])
                        == delta);
                } else if delta_antes != 0 {
                    let (j, a) = choose|j: int, a: int|
                        0 <= j < s && j != meta && 0 <= a < 4 && magnitud(
                            antes[j][a] - #[trigger] nuevo_antes[j][a],
                        ) == delta_antes;
                    assert(nuevo@[j] == nuevo_antes[j]);
                    assert(magnitud(antes[j][a] - nuevo@[j][a]) == delta);
                }
            }
        }
        proof {
            assert forall|j: int, a: int| 0 <= j < s + 1 && 0 <= a < 4 implies (
            #[trigger] nuevo@[j][a]) as int == esperados[j][a] && -COTA_VALOR <= nuevo@[j][a]
                <= COTA_VALOR by {
                if j < s {
                    assert(nuevo@[j] == nuevo_antes[j]);
                    assert(nuevo_antes[j][a] as int == esperados[j][a]);
                } else {
                    assert(Accion::desde_indice_spec(a).indice_spec() == a);
                }
            }
            assert forall|j: int, a: int| 0 <= j < s + 1 && j != meta && 0 <= a < 4 implies
                magnitud(
                antes[j][a] - #[trigger] nuevo@[j][a],
            ) <= delta by {
                if j < s {
                    assert(nuevo@[j] == nuevo_antes[j]);
                    assert(magnitud(antes[j][a] - nuevo_antes[j][a]) <= delta_antes);
                }
            }
        }
        s += 1;
    }
    proof {
        let w = tabla(nuevo@);
        assert forall|j: int| 0 <= j < n implies #[trigger] w[j] =~= esperados[j] by {
            assert forall|a: int| 0 <= a < 4 implies w[j][a] == esperados[j][a] by {
                assert(nuevo@[j][a] as int == esperados[j][a]);
            }
        }
        assert(w =~= esperados);
        assert forall|j: int, a: int| 0 <= j < w.len() && 0 <= a < 4 implies -COTA_VALOR
            <= #[trigger] w[j][a] <= COTA_VALOR by {
            assert(-COTA_VALOR <= nuevo@[j][a] <= COTA_VALOR);
        }
        assert forall|j: int, a: int| 0 <= j < antes.len() && j != meta && 0 <= a < 4 implies
            magnitud(
            #[trigger] antes[j][a] - w[j][a],
        ) <= delta by {
            assert(magnitud(antes[j][a] - nuevo@[j][a]) <= delta);
        }
        if delta != 0 {
            let (j, a) = choose|j: int, a: int|
                0 <= j < s && j != meta && 0 <= a < 4 && magnitud(
                    antes[j][a] - #[trigger] nuevo@[j][a],
                ) == delta;
            assert(magnitud(antes[j][a] - w[j][a]) == delta);
        }
    }
    (nuevo, delta)
}

} // verus!
