//! Why the solvers stop: a sweep is a contraction in the sup norm, up to the
//! rounding of the backup, so the change from one sweep to the next shrinks
//! until it is within the convergence threshold.

use crate::aritmetica::{lema_piso_cercano, lema_producto_acotado, magnitud};
use crate::bellman::{
    barrido_q, barrido_v, cerca_v, converge_q, converge_v, esperado, iterar_q, iterar_v,
    maximo4, politica_de_q, politica_de_v, primer_convergente_q, primer_convergente_v, respaldo,
    valores_de_q, ESCALA_CUADRADA,
};
use crate::config::{Accion, ESCALA, MAX_BARRIDOS, RECOMPENSA_META};
use crate::mundo::{lema_destino_en_rango, Mundo};
use crate::transicion::ModeloTransicion;
use vstd::prelude::*;

verus! {

/// Whether two value vectors differ by at most `d` at every state, the goal
/// included.
pub open spec fn cerca_total(v: Seq<int>, w: Seq<int>, d: int) -> bool {
    forall|s: int| 0 <= s < v.len() ==> magnitud(#[trigger] v[s] - w[s]) <= d
}

/// What a sweep makes of a distance `d` between two value vectors: `lambda`
/// times `d`, rounded up to a whole number of millionths.
pub open spec fn contraer(lambda: int, d: int) -> int {
    (lambda * d + ESCALA - 1) / (ESCALA as int)
}

/// A bound on the change made by sweep number `k + 1`: the largest reward for
/// the first sweep, contracted once for each sweep after it.
pub open spec fn cota_cambio(lambda: int, k: nat) -> int
    decreases k,
{
    if k == 0 {
        RECOMPENSA_META as int
    } else {
        contraer(lambda, cota_cambio(lambda, (k - 1) as nat))
    }
}

/// Whether a threshold is large enough for a discount factor: at least
/// `1 / (1 - lambda)` millionths.
pub open spec fn umbral_suficiente(lambda: int, eps: int) -> bool {
    eps * (ESCALA - lambda) >= ESCALA
}

/// The largest of four numbers moves by no more than the numbers do.
pub proof fn lema_maximo4_cercano(
    a0: int,
    a1: int,
    a2: int,
    a3: int,
    b0: int,
    b1: int,
    b2: int,
    b3: int,
    d: int,
)
    requires
        magnitud(a0 - b0) <= d,
        magnitud(a1 - b1) <= d,
        magnitud(a2 - b2) <= d,
        magnitud(a3 - b3) <= d,
    ensures
        magnitud(maximo4(a0, a1, a2, a3) - maximo4(b0, b1, b2, b3)) <= d,
{
}

/// `contraer` rounds up: it is the least whole number of millionths that is
/// not below `lambda * d / ESCALA`.
pub proof fn lema_contraer(lambda: int, d: int)
    ensures
        ESCALA * contraer(lambda, d) >= lambda * d,
        ESCALA * contraer(lambda, d) <= lambda * d + ESCALA - 1,
{
    let x = lambda * d + ESCALA - 1;
    vstd::arithmetic::div_mod::lemma_fundamental_div_mod(x, ESCALA as int);
    vstd::arithmetic::div_mod::lemma_mod_bound(x, ESCALA as int);
}

/// The expected value of the destination moves by no more than the values do
/// (times `ESCALA`, as the probabilities of an action sum to `ESCALA`).
pub proof fn lema_esperado_cercano(
    m: &Mundo,
    modelo: &ModeloTransicion,
    v: Seq<int>,
    w: Seq<int>,
    s: int,
    a: Accion,
    d: int,
)
    requires
        m.es_valido(),
        modelo.es_valido(),
        v.len() == m.n(),
        w.len() == m.n(),
        cerca_total(v, w, d),
        0 <= s < m.n(),
    ensures
        magnitud(esperado(m, modelo, v, s, a) - esperado(m, modelo, w, s, a)) <= ESCALA * d,
{
    lema_destino_en_rango(m, s, Accion::N);
    lema_destino_en_rango(m, s, Accion::S);
    lema_destino_en_rango(m, s, Accion::E);
    lema_destino_en_rango(m, s, Accion::O);
    let tn = m.destino_spec(s, Accion::N);
    let ts = m.destino_spec(s, Accion::S);
    let te = m.destino_spec(s, Accion::E);
    let to = m.destino_spec(s, Accion::O);
    let pn = modelo.p(a, Accion::N);
    let ps = modelo.p(a, Accion::S);
    let pe = modelo.p(a, Accion::E);
    let po = modelo.p(a, Accion::O);
    assert(modelo.suma_fila(a) == ESCALA);
    let dn = v[tn] - w[tn];
    let ds = v[ts] - w[ts];
    let de = v[te] - w[te];
    let d_o = v[to] - w[to];
    assert(magnitud(dn) <= d && magnitud(ds) <= d && magnitud(de) <= d && magnitud(d_o) <= d);
    lema_producto_acotado(pn, dn, d);
    lema_producto_acotado(ps, ds, d);
    lema_producto_acotado(pe, de, d);
    lema_producto_acotado(po, d_o, d);
    assert(pn * dn == pn * v[tn] - pn * w[tn]) by (nonlinear_arith)
        requires
            dn == v[tn] - w[tn],
    ;
    assert(ps * ds == ps * v[ts] - ps * w[ts]) by (nonlinear_arith)
        requires
            ds == v[ts] - w[ts],
    ;
    assert(pe * de == pe * v[te] - pe * w[te]) by (nonlinear_arith)
        requires
            de == v[te] - w[te],
    ;
    assert(po * d_o == po * v[to] - po * w[to]) by (nonlinear_arith)
        requires
            d_o == v[to] - w[to],
    ;
    assert((pn + ps + pe + po) * d == pn * d + ps * d + pe * d + po * d) by (nonlinear_arith);
    assert(ESCALA * d == (pn + ps + pe + po) * d);
}

/// A backup moves by no more than the contracted distance of the values.
pub proof fn lema_respaldo_cercano(
    m: &Mundo,
    modelo: &ModeloTransicion,
    lambda: int,
    v: Seq<int>,
    w: Seq<int>,
    s: int,
    a: Accion,
    d: int,
)
    requires
        m.es_valido(),
        modelo.es_valido(),
        0 <= lambda,
        v.len() == m.n(),
        w.len() == m.n(),
        cerca_total(v, w, d),
        0 <= s < m.n(),
    ensures
        magnitud(respaldo(m, modelo, lambda, v, s, a) - respaldo(m, modelo, lambda, w, s, a))
            <= contraer(lambda, d),
{
    lema_esperado_cercano(m, modelo, v, w, s, a, d);
    lema_contraer(lambda, d);
    let ev = esperado(m, modelo, v, s, a);
    let ew = esperado(m, modelo, w, s, a);
    let c = contraer(lambda, d);
    assert(magnitud(lambda * ev - lambda * ew) <= c * ESCALA_CUADRADA) by (nonlinear_arith)
        requires
            0 <= lambda,
            ev - ew <= 1_000_000 * d,
            ew - ev <= 1_000_000 * d,
            1_000_000 * c >= lambda * d,
            ESCALA_CUADRADA == 1_000_000_000_000,
    ;
    lema_piso_cercano(lambda * ev, lambda * ew, ESCALA_CUADRADA as int, c);
}

/// A sweep of value iteration is a contraction: the results of sweeping two
/// value vectors are no further apart than the contracted distance of the
/// vectors.
pub proof fn lema_barrido_contrae(
    m: &Mundo,
    modelo: &ModeloTransicion,
    lambda: int,
    v: Seq<int>,
    w: Seq<int>,
    d: int,
)
    requires
        m.es_valido(),
        modelo.es_valido(),
        0 <= lambda,
        0 <= d,
        v.len() == m.n(),
        w.len() == m.n(),
        cerca_total(v, w, d),
    ensures
        cerca_total(
            barrido_v(m, modelo, lambda, v),
            barrido_v(m, modelo, lambda, w),
            contraer(lambda, d),
        ),
{
    let bv = barrido_v(m, modelo, lambda, v);
    let bw = barrido_v(m, modelo, lambda, w);
    let c = contraer(lambda, d);
    lema_contraer(lambda, d);
    assert(c >= 0) by (nonlinear_arith)
        requires
            1_000_000 * c >= lambda * d,
            0 <= lambda,
            0 <= d,
    ;
    assert forall|s: int| 0 <= s < bv.len() implies magnitud(#[trigger] bv[s] - bw[s]) <= c by {
        if s != m.meta {
            lema_respaldo_cercano(m, modelo, lambda, v, w, s, Accion::N, d);
            lema_respaldo_cercano(m, modelo, lambda, v, w, s, Accion::S, d);
            lema_respaldo_cercano(m, modelo, lambda, v, w, s, Accion::E, d);
            lema_respaldo_cercano(m, modelo, lambda, v, w, s, Accion::O, d);
            lema_maximo4_cercano(
                respaldo(m, modelo, lambda, v, s, Accion::N),
                respaldo(m, modelo, lambda, v, s, Accion::S),
                respaldo(m, modelo, lambda, v, s, Accion::E),
                respaldo(m, modelo, lambda, v, s, Accion::O),
                respaldo(m, modelo, lambda, w, s, Accion::N),
                respaldo(m, modelo, lambda, w, s, Accion::S),
                respaldo(m, modelo, lambda, w, s, Accion::E),
                respaldo(m, modelo, lambda, w, s, Accion::O),
                c,
            );
        }
    }
}

/// The values after any number of sweeps are as many as the states.
pub proof fn lema_longitud_iterar_v(m: &Mundo, modelo: &ModeloTransicion, lambda: int, k: nat)
    ensures
        iterar_v(m, modelo, lambda, k).len() == m.n(),
{
    if k > 0 {
        assert(iterar_v(m, modelo, lambda, k) == barrido_v(
            m,
            modelo,
            lambda,
            iterar_v(m, modelo, lambda, (k - 1) as nat),
        ));
    }
}

/// A backup from all-zero values is the reward of the state.
pub proof fn lema_respaldo_de_ceros(
    m: &Mundo,
    modelo: &ModeloTransicion,
    lambda: int,
    s: int,
    a: Accion,
)
    requires
        m.es_valido(),
        0 <= s < m.n(),
    ensures
        respaldo(m, modelo, lambda, Seq::new(m.n() as nat, |j: int| 0int), s, a)
            == m.recompensa_spec(s),
{
    lema_destino_en_rango(m, s, Accion::N);
    lema_destino_en_rango(m, s, Accion::S);
    lema_destino_en_rango(m, s, Accion::E);
    lema_destino_en_rango(m, s, Accion::O);
    let ceros = Seq::new(m.n() as nat, |j: int| 0int);
    let e = esperado(m, modelo, ceros, s, a);
    assert(e == 0) by (nonlinear_arith)
        requires
            e == modelo.p(a, Accion::N) * 0 + modelo.p(a, Accion::S) * 0 + modelo.p(a, Accion::E)
                * 0 + modelo.p(a, Accion::O) * 0,
    ;
    assert(lambda * e == 0) by (nonlinear_arith)
        requires
            e == 0,
    ;
}

/// Sweep number `k + 1` of value iteration changes no value, the goal's
/// included, by more than `cota_cambio(lambda, k)`.
pub proof fn lema_cambio_acotado(m: &Mundo, modelo: &ModeloTransicion, lambda: int, k: nat)
    requires
        m.es_valido(),
        modelo.es_valido(),
        0 <= lambda,
    ensures
        cerca_total(
            iterar_v(m, modelo, lambda, k),
            iterar_v(m, modelo, lambda, k + 1),
            cota_cambio(lambda, k),
        ),
        0 <= cota_cambio(lambda, k),
    decreases k,
{
    let v = iterar_v(m, modelo, lambda, k);
    let w = iterar_v(m, modelo, lambda, k + 1);
    lema_longitud_iterar_v(m, modelo, lambda, k);
    lema_longitud_iterar_v(m, modelo, lambda, k + 1);
    assert(w == barrido_v(m, modelo, lambda, v));
    if k == 0 {
        assert forall|s: int| 0 <= s < v.len() implies magnitud(#[trigger] v[s] - w[s])
            <= RECOMPENSA_META by {
            lema_respaldo_de_ceros(m, modelo, lambda, s, Accion::N);
            lema_respaldo_de_ceros(m, modelo, lambda, s, Accion::S);
            lema_respaldo_de_ceros(m, modelo, lambda, s, Accion::E);
            lema_respaldo_de_ceros(m, modelo, lambda, s, Accion::O);
            assert(v =~= Seq::new(m.n() as nat, |j: int| 0int));
            assert(w[s] == m.recompensa_spec(s));
        }
    } else {
        let u = iterar_v(m, modelo, lambda, (k - 1) as nat);
        lema_longitud_iterar_v(m, modelo, lambda, (k - 1) as nat);
        lema_cambio_acotado(m, modelo, lambda, (k - 1) as nat);
        assert(v == barrido_v(m, modelo, lambda, u));
        let d = cota_cambio(lambda, (k - 1) as nat);
        lema_barrido_contrae(m, modelo, lambda, u, v, d);
        lema_contraer(lambda, d);
        assert(contraer(lambda, d) >= 0) by (nonlinear_arith)
            requires
                1_000_000 * contraer(lambda, d) >= lambda * d,
                0 <= lambda,
                0 <= d,
        ;
    }
}

/// With a threshold large enough for the discount factor, the bound on the
/// change falls by at least one millionth per sweep until it is within the
/// threshold.
pub proof fn lema_cota_decrece(lambda: int, eps: int, k: nat)
    requires
        0 <= lambda < ESCALA,
        umbral_suficiente(lambda, eps),
    ensures
        0 <= cota_cambio(lambda, k),
        cota_cambio(lambda, k) <= eps || cota_cambio(lambda, k) <= RECOMPENSA_META - k,
    decreases k,
{
    if k > 0 {
        lema_cota_decrece(lambda, eps, (k - 1) as nat);
        let x = cota_cambio(lambda, (k - 1) as nat);
        let c = contraer(lambda, x);
        lema_contraer(lambda, x);
        assert(c >= 0) by (nonlinear_arith)
            requires
                1_000_000 * c >= lambda * x,
                0 <= lambda,
                0 <= x,
        ;
        if x <= eps {
            assert(c <= eps) by (nonlinear_arith)
                requires
                    1_000_000 * c <= lambda * x + 1_000_000 - 1,
                    0 <= lambda < 1_000_000,
                    0 <= x <= eps,
            ;
        } else {
            assert(c <= x - 1) by (nonlinear_arith)
                requires
                    1_000_000 * c <= lambda * x + 1_000_000 - 1,
                    0 <= lambda < 1_000_000,
                    x > eps,
                    eps * (1_000_000 - lambda) >= 1_000_000,
            ;
        }
    }
}

/// A sweep that converges at or after `desde` and below `max` is found.
pub proof fn lema_primer_convergente_v(
    m: &Mundo,
    modelo: &ModeloTransicion,
    lambda: int,
    eps: int,
    desde: nat,
    max: nat,
    k: nat,
)
    requires
        desde <= k < max,
        converge_v(m, modelo, lambda, eps, k),
    ensures
        primer_convergente_v(m, modelo, lambda, eps, desde, max) is Some,
    decreases max - desde,
{
    if !converge_v(m, modelo, lambda, eps, desde) {
        lema_primer_convergente_v(m, modelo, lambda, eps, desde + 1, max, k);
    }
}

/// Value iteration converges in a finite number of sweeps for every discount
/// factor below one: with a valid world and model and a threshold of at least
/// `1 / (1 - lambda)` millionths, one of the first `MAX_BARRIDOS`
/// sweeps changes no value by more than the threshold.
pub proof fn lema_iteracion_converge(
    m: &Mundo,
    modelo: &ModeloTransicion,
    lambda: int,
    eps: int,
    max: nat,
)
    requires
        m.es_valido(),
        modelo.es_valido(),
        0 <= lambda < ESCALA,
        umbral_suficiente(lambda, eps),
        max >= MAX_BARRIDOS,
    ensures
        primer_convergente_v(m, modelo, lambda, eps, 0, max) is Some,
{
    let k: nat = (MAX_BARRIDOS - 1) as nat;
    lema_cambio_acotado(m, modelo, lambda, k);
    lema_cota_decrece(lambda, eps, k);
    assert(eps >= 1) by (nonlinear_arith)
        requires
            eps * (1_000_000 - lambda) >= 1_000_000,
            0 <= lambda < 1_000_000,
    ;
    let v = iterar_v(m, modelo, lambda, k);
    let w = iterar_v(m, modelo, lambda, k + 1);
    assert(cerca_v(v, w, m.meta as int, eps));
    lema_primer_convergente_v(m, modelo, lambda, eps, 0, max, k);
}

/// The Q-table after any number of sweeps has a row for every state.
pub proof fn lema_longitud_iterar_q(m: &Mundo, modelo: &ModeloTransicion, lambda: int, k: nat)
    ensures
        iterar_q(m, modelo, lambda, k).len() == m.n(),
{
    if k > 0 {
        assert(iterar_q(m, modelo, lambda, k) == barrido_q(
            m,
            modelo,
            lambda,
            iterar_q(m, modelo, lambda, (k - 1) as nat),
        ));
    }
}

/// Q-value iteration and value iteration hold the same values sweep by sweep:
/// after any number of sweeps, the largest entry of each state's row of the
/// Q-table is that state's value under value iteration, to the last millionth.
/// The policy of the Q-table after one more sweep is the policy that value
/// iteration records in that sweep.
pub proof fn lema_q_coincide_con_v(m: &Mundo, modelo: &ModeloTransicion, lambda: int, k: nat)
    ensures
        valores_de_q(iterar_q(m, modelo, lambda, k)) == iterar_v(m, modelo, lambda, k),
        politica_de_q(m, iterar_q(m, modelo, lambda, k + 1)) == politica_de_v(
            m,
            modelo,
            lambda,
            iterar_v(m, modelo, lambda, k),
        ),
    decreases k,
{
    let q = iterar_q(m, modelo, lambda, k);
    let v = iterar_v(m, modelo, lambda, k);
    lema_longitud_iterar_q(m, modelo, lambda, k);
    lema_longitud_iterar_v(m, modelo, lambda, k);
    if k == 0 {
        assert(valores_de_q(q) =~= v);
    } else {
        lema_q_coincide_con_v(m, modelo, lambda, (k - 1) as nat);
        let q0 = iterar_q(m, modelo, lambda, (k - 1) as nat);
        let v0 = iterar_v(m, modelo, lambda, (k - 1) as nat);
        assert(q == barrido_q(m, modelo, lambda, q0));
        assert(v == barrido_v(m, modelo, lambda, v0));
        assert(valores_de_q(q) =~= v);
    }
    let q1 = iterar_q(m, modelo, lambda, k + 1);
    assert(q1 == barrido_q(m, modelo, lambda, q));
    assert(politica_de_q(m, q1) =~= politica_de_v(m, modelo, lambda, v));
}

/// Value iteration stops no later than Q-value iteration: a sweep that
/// changes no entry of the Q-table by more than the threshold changes no value
/// by more than it.
pub proof fn lema_q_converge_despues(
    m: &Mundo,
    modelo: &ModeloTransicion,
    lambda: int,
    eps: int,
    k: nat,
)
    requires
        converge_q(m, modelo, lambda, eps, k),
    ensures
        converge_v(m, modelo, lambda, eps, k),
{
    let q = iterar_q(m, modelo, lambda, k);
    let r = iterar_q(m, modelo, lambda, k + 1);
    let v = iterar_v(m, modelo, lambda, k);
    let w = iterar_v(m, modelo, lambda, k + 1);
    lema_q_coincide_con_v(m, modelo, lambda, k);
    lema_q_coincide_con_v(m, modelo, lambda, k + 1);
    lema_longitud_iterar_q(m, modelo, lambda, k);
    lema_longitud_iterar_q(m, modelo, lambda, k + 1);
    lema_longitud_iterar_v(m, modelo, lambda, k);
    assert forall|s: int| 0 <= s < v.len() && s != m.meta implies magnitud(#[trigger] v[s] - w[s])
        <= eps by {
        assert(magnitud(q[s][0] - r[s][0]) <= eps);
        assert(magnitud(q[s][1] - r[s][1]) <= eps);
        assert(magnitud(q[s][2] - r[s][2]) <= eps);
        assert(magnitud(q[s][3] - r[s][3]) <= eps);
        lema_maximo4_cercano(
            q[s][0],
            q[s][1],
            q[s][2],
            q[s][3],
            r[s][0],
            r[s][1],
            r[s][2],
            r[s][3],
            eps,
        );
        assert(valores_de_q(q)[s] == v[s]);
        assert(valores_de_q(r)[s] == w[s]);
    }
}

/// A sweep of Q-value iteration that converges at or after `desde` and below
/// `max` is found.
pub proof fn lema_primer_convergente_q(
    m: &Mundo,
    modelo: &ModeloTransicion,
    lambda: int,
    eps: int,
    desde: nat,
    max: nat,
    k: nat,
)
    requires
        desde <= k < max,
        converge_q(m, modelo, lambda, eps, k),
    ensures
        primer_convergente_q(m, modelo, lambda, eps, desde, max) is Some,
    decreases max - desde,
{
    if !converge_q(m, modelo, lambda, eps, desde) {
        lema_primer_convergente_q(m, modelo, lambda, eps, desde + 1, max, k);
    }
}

/// Q-value iteration converges in a finite number of sweeps under the same
/// conditions as value iteration.
pub proof fn lema_iteracion_q_converge(
    m: &Mundo,
    modelo: &ModeloTransicion,
    lambda: int,
    eps: int,
    max: nat,
)
    requires
        m.es_valido(),
        modelo.es_valido(),
        0 <= lambda < ESCALA,
        umbral_suficiente(lambda, eps),
        max >= MAX_BARRIDOS,
    ensures
        primer_convergente_q(m, modelo, lambda, eps, 0, max) is Some,
{
    let k: nat = (MAX_BARRIDOS - 1) as nat;
    let j: nat = (k - 1) as nat;
    lema_cambio_acotado(m, modelo, lambda, j);
    lema_cota_decrece(lambda, eps, k);
    assert(eps >= 1) by (nonlinear_arith)
        requires
            eps * (1_000_000 - lambda) >= 1_000_000,
            0 <= lambda < 1_000_000,
    ;
    let u = iterar_v(m, modelo, lambda, j);
    let v = iterar_v(m, modelo, lambda, k);
    lema_longitud_iterar_v(m, modelo, lambda, j);
    lema_longitud_iterar_v(m, modelo, lambda, k);
    let p = iterar_q(m, modelo, lambda, j);
    let q = iterar_q(m, modelo, lambda, k);
    let r = iterar_q(m, modelo, lambda, k + 1);
    lema_longitud_iterar_q(m, modelo, lambda, k);
    lema_q_coincide_con_v(m, modelo, lambda, j);
    lema_q_coincide_con_v(m, modelo, lambda, k);
    assert(q == barrido_q(m, modelo, lambda, p));
    assert(r == barrido_q(m, modelo, lambda, q));
    assert(cota_cambio(lambda, k) == contraer(lambda, cota_cambio(lambda, j)));
    assert forall|s: int, a: int| 0 <= s < q.len() && s != m.meta && 0 <= a < 4 implies magnitud(
        #[trigger] q[s][a] - r[s][a],
    ) <= eps by {
        let accion = Accion::desde_indice_spec(a);
        lema_respaldo_cercano(m, modelo, lambda, u, v, s, accion, cota_cambio(lambda, j));
        assert(q[s][a] == respaldo(m, modelo, lambda, u, s, accion));
        assert(r[s][a] == respaldo(m, modelo, lambda, v, s, accion));
    }
    lema_primer_convergente_q(m, modelo, lambda, eps, 0, max, k);
}

/// What the first converging sweep of value iteration is: it converges, it
/// lies between `desde` and `max`, and no sweep from `desde` on before it
/// converges.
pub proof fn lema_primero_v(
    m: &Mundo,
    modelo: &ModeloTransicion,
    lambda: int,
    eps: int,
    desde: nat,
    max: nat,
    k: nat,
)
    requires
        primer_convergente_v(m, modelo, lambda, eps, desde, max) == Some(k),
    ensures
        desde <= k < max,
        converge_v(m, modelo, lambda, eps, k),
        forall|j: nat| desde <= j < k ==> !converge_v(m, modelo, lambda, eps, j),
    decreases max - desde,
{
    if desde < max && !converge_v(m, modelo, lambda, eps, desde) {
        lema_primero_v(m, modelo, lambda, eps, desde + 1, max, k);
    }
}

/// What the first converging sweep of Q-value iteration is: it converges, it
/// lies between `desde` and `max`, and no sweep from `desde` on before it
/// converges.
pub proof fn lema_primero_q(
    m: &Mundo,
    modelo: &ModeloTransicion,
    lambda: int,
    eps: int,
    desde: nat,
    max: nat,
    k: nat,
)
    requires
        primer_convergente_q(m, modelo, lambda, eps, desde, max) == Some(k),
    ensures
        desde <= k < max,
        converge_q(m, modelo, lambda, eps, k),
        forall|j: nat| desde <= j < k ==> !converge_q(m, modelo, lambda, eps, j),
    decreases max - desde,
{
    if desde < max && !converge_q(m, modelo, lambda, eps, desde) {
        lema_primero_q(m, modelo, lambda, eps, desde + 1, max, k);
    }
}

/// One sweep after value iteration converges, Q-value iteration converges
/// too; and when value iteration converges in its first sweep, so does
/// Q-value iteration.
pub proof fn lema_q_converge_un_barrido_despues(
    m: &Mundo,
    modelo: &ModeloTransicion,
    lambda: int,
    eps: int,
    k: nat,
)
    requires
        m.es_valido(),
        modelo.es_valido(),
        0 <= lambda < ESCALA,
        0 <= eps,
        converge_v(m, modelo, lambda, eps, k),
    ensures
        k == 0 ==> converge_q(m, modelo, lambda, eps, 0),
        k > 0 ==> converge_q(m, modelo, lambda, eps, k + 1),
        k > 0 ==> cerca_total(
            iterar_v(m, modelo, lambda, k + 1),
            iterar_v(m, modelo, lambda, k + 2),
            contraer(lambda, eps),
        ),
        0 <= contraer(lambda, eps) <= eps,
{
    lema_contraer(lambda, eps);
    assert(0 <= contraer(lambda, eps) <= eps) by (nonlinear_arith)
        requires
            1_000_000 * contraer(lambda, eps) >= lambda * eps,
            1_000_000 * contraer(lambda, eps) <= lambda * eps + 1_000_000 - 1,
            0 <= lambda < 1_000_000,
            0 <= eps,
    ;
    let v = iterar_v(m, modelo, lambda, k);
    let w = iterar_v(m, modelo, lambda, k + 1);
    lema_longitud_iterar_v(m, modelo, lambda, k);
    lema_longitud_iterar_v(m, modelo, lambda, k + 1);
    lema_longitud_iterar_q(m, modelo, lambda, k);
    lema_longitud_iterar_q(m, modelo, lambda, k + 1);
    lema_longitud_iterar_q(m, modelo, lambda, k + 2);
    if k == 0 {
        let q0 = iterar_q(m, modelo, lambda, 0);
        let q1 = iterar_q(m, modelo, lambda, 1);
        lema_q_coincide_con_v(m, modelo, lambda, 0);
        assert(q1 == barrido_q(m, modelo, lambda, q0));
        assert(w == barrido_v(m, modelo, lambda, v));
        assert(v =~= Seq::new(m.n() as nat, |j: int| 0int));
        assert forall|s: int, a: int| 0 <= s < q0.len() && s != m.meta && 0 <= a < 4 implies
            magnitud(
            #[trigger] q0[s][a] - q1[s][a],
        ) <= eps by {
            lema_respaldo_de_ceros(m, modelo, lambda, s, Accion::N);
            lema_respaldo_de_ceros(m, modelo, lambda, s, Accion::S);
            lema_respaldo_de_ceros(m, modelo, lambda, s, Accion::E);
            lema_respaldo_de_ceros(m, modelo, lambda, s, Accion::O);
            lema_respaldo_de_ceros(m, modelo, lambda, s, Accion::desde_indice_spec(a));
            assert(w[s] == m.recompensa_spec(s));
            assert(magnitud(v[s] - w[s]) <= eps);
        }
    } else {
        let u = iterar_v(m, modelo, lambda, (k - 1) as nat);
        assert(v == barrido_v(m, modelo, lambda, u));
        assert(w == barrido_v(m, modelo, lambda, v));
        assert forall|s: int| 0 <= s < v.len() implies magnitud(#[trigger] v[s] - w[s]) <= eps by {
            if s != m.meta {
                assert(magnitud(v[s] - w[s]) <= eps);
            }
        }
        lema_barrido_contrae(m, modelo, lambda, v, w, eps);
        let x = iterar_v(m, modelo, lambda, k + 2);
        assert(x == barrido_v(m, modelo, lambda, w));
        let q1 = iterar_q(m, modelo, lambda, k + 1);
        let q2 = iterar_q(m, modelo, lambda, k + 2);
        lema_q_coincide_con_v(m, modelo, lambda, k);
        lema_q_coincide_con_v(m, modelo, lambda, k + 1);
        assert(q1 == barrido_q(m, modelo, lambda, iterar_q(m, modelo, lambda, k)));
        assert(q2 == barrido_q(m, modelo, lambda, q1));
        assert forall|s: int, a: int| 0 <= s < q1.len() && s != m.meta && 0 <= a < 4 implies
            magnitud(
            #[trigger] q1[s][a] - q2[s][a],
        ) <= eps by {
            let accion = Accion::desde_indice_spec(a);
            lema_respaldo_cercano(m, modelo, lambda, v, w, s, accion, eps);
            assert(q1[s][a] == respaldo(m, modelo, lambda, v, s, accion));
            assert(q2[s][a] == respaldo(m, modelo, lambda, w, s, accion));
        }
    }
}

/// The value maps that the two solvers hand back agree within the threshold:
/// Q-value iteration stops at the same sweep as value iteration or one sweep
/// later, and at every state, the goal included, the values derived from its
/// Q-table differ from those of value iteration by no more than the threshold
/// contracted once, which is no more than the threshold.
pub proof fn lema_soluciones_cercanas(
    m: &Mundo,
    modelo: &ModeloTransicion,
    lambda: int,
    eps: int,
    max: nat,
    kv: nat,
    kq: nat,
)
    requires
        m.es_valido(),
        modelo.es_valido(),
        0 <= lambda < ESCALA,
        0 <= eps,
        primer_convergente_v(m, modelo, lambda, eps, 0, max) == Some(kv),
        primer_convergente_q(m, modelo, lambda, eps, 0, max) == Some(kq),
    ensures
        kv <= kq <= kv + 1,
        cerca_total(
            iterar_v(m, modelo, lambda, kv + 1),
            valores_de_q(iterar_q(m, modelo, lambda, kq + 1)),
            contraer(lambda, eps),
        ),
        0 <= contraer(lambda, eps) <= eps,
{
    lema_primero_v(m, modelo, lambda, eps, 0, max, kv);
    lema_primero_q(m, modelo, lambda, eps, 0, max, kq);
    lema_q_converge_despues(m, modelo, lambda, eps, kq);
    lema_q_converge_un_barrido_despues(m, modelo, lambda, eps, kv);
    lema_q_coincide_con_v(m, modelo, lambda, kq + 1);
    lema_longitud_iterar_v(m, modelo, lambda, kv + 1);
    if kq == kv {
    } else {
        assert(kv > 0);
        assert(kq == kv + 1);
    }
}

} // verus!
