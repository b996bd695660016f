//! Noise models and the robustness of a policy: how many states change their
//! action when the problem is solved again under another transition model.

use crate::bellman::{iterar_v, politica_de_v, primer_convergente_v};
use crate::cadenas::{decimal, decimal_spec};
use crate::config::{Accion, ESCALA, MAX_BARRIDOS, UMBRAL_CONVERGENCIA};
use crate::convergencia::umbral_suficiente;
use crate::mdp_model::{value_iteration, ErrorMdp};
use crate::mundo::Mundo;
use crate::transicion::ModeloTransicion;
use vstd::prelude::*;
use vstd::string::*;

verus! {

/// The noise triples (left, intended, right) under which a policy is tried:
/// the standard 80% of success, then 90%, 70% and 50%.
pub const MODELOS_ROBUSTEZ: [(u32, u32, u32); 4] = [
    (100_000, 800_000, 100_000),
    (50_000, 900_000, 50_000),
    (150_000, 700_000, 150_000),
    (250_000, 500_000, 250_000),
];

/// Probability that a noise triple gives to the effective direction `d` when
/// `a` is attempted: `centro` to `a` itself, `izq` to the direction on its left,
/// `der` to the one on its right, nothing to the opposite direction.
pub open spec fn ruido_spec(izq: int, centro: int, der: int, a: Accion, d: Accion) -> int {
    if d == a {
        centro
    } else if d == a.izquierda_spec() {
        izq
    } else if d == a.derecha_spec() {
        der
    } else {
        0
    }
}

/// The model of a noise triple: row by row N, S, E, O, and in each row the
/// probabilities of the effective directions N, S, E, O.
pub open spec fn modelo_ruido_spec(izq: u32, centro: u32, der: u32) -> ModeloTransicion {
    ModeloTransicion {
        prob: [
            [centro, 0, der, izq],
            [0, centro, der, izq],
            [izq, der, centro, 0],
            [izq, der, 0, centro],
        ],
    }
}

/// The model of a noise triple (left deviation, intended direction, right
/// deviation), each in millionths.
///
/// Every action's outcomes sum to `izq + centro + der`, so the model is valid
/// exactly when the triple sums to one.
pub fn construir_modelo_ruido(izq: u32, centro: u32, der: u32) -> (m: ModeloTransicion)
    ensures
        m == modelo_ruido_spec(izq, centro, der),
        forall|a: Accion, d: Accion| #[trigger] m.p(a, d)
            == ruido_spec(izq as int, centro as int, der as int, a, d),
        forall|a: Accion| #[trigger] m.suma_fila(a) == izq + centro + der,
        m.es_valido() <==> izq + centro + der == ESCALA,
{
    let m = ModeloTransicion {
        prob: [
            [centro, 0, der, izq],
            [0, centro, der, izq],
            [izq, der, centro, 0],
            [izq, der, 0, centro],
        ],
    };
    assert forall|a: Accion, d: Accion| #[trigger] m.p(a, d)
        == ruido_spec(izq as int, centro as int, der as int, a, d) by {
    }
    assert forall|a: Accion| #[trigger] m.suma_fila(a) == izq + centro + der by {
    }
    assert(m.suma_fila(Accion::N) == izq + centro + der);
    m
}

/// Whether state `s` counts as a difference between a baseline policy and an
/// adapted one: the baseline prescribes an action there, and the adapted
/// policy prescribes another one or has no entry for the state.
pub open spec fn difiere(base: Seq<Option<Accion>>, adaptada: Seq<Option<Accion>>, s: int) -> bool {
    &&& 0 <= s < base.len()
    &&& base[s] is Some
    &&& s >= adaptada.len() || adaptada[s] != base[s]
}

/// The states at which the adapted policy differs from the baseline.
pub open spec fn estados_distintos(
    base: Seq<Option<Accion>>,
    adaptada: Seq<Option<Accion>>,
) -> Set<int> {
    Set::new(|s: int| difiere(base, adaptada, s))
}

/// The states below `hasta` at which the adapted policy differs from the
/// baseline.
pub open spec fn distintos_hasta(
    base: Seq<Option<Accion>>,
    adaptada: Seq<Option<Accion>>,
    hasta: int,
) -> Set<int> {
    Set::new(|s: int| s < hasta && difiere(base, adaptada, s))
}

/// Between two policies over the same states, where the adapted one has no
/// action wherever the baseline has none, the states that differ are simply
/// those at which the two policies are not equal.
pub proof fn lema_distintos_son_los_desiguales(
    base: Seq<Option<Accion>>,
    adaptada: Seq<Option<Accion>>,
)
    requires
        base.len() == adaptada.len(),
        forall|s: int| 0 <= s < base.len() && base[s] is None ==> #[trigger] adaptada[s] is None,
    ensures
        estados_distintos(base, adaptada) == Set::new(
            |s: int| 0 <= s < base.len() && base[s] != adaptada[s],
        ),
{
    let desiguales = Set::new(|s: int| 0 <= s < base.len() && base[s] != adaptada[s]);
    assert forall|s: int| estados_distintos(base, adaptada).contains(s) == desiguales.contains(
        s,
    ) by {
        if 0 <= s < base.len() && base[s] is None {
            assert(adaptada[s] is None);
        }
    }
    assert(estados_distintos(base, adaptada) =~= desiguales);
}

/// Whether two entries of a policy are the same.
pub fn misma_accion(a: Option<Accion>, b: Option<Accion>) -> (r: bool)
    ensures
        r == (a == b),
{
    match a {
        Some(x) => match b {
            Some(y) => x == y,
            None => false,
        },
        None => match b {
            Some(_) => false,
            None => true,
        },
    }
}

/// The number of states whose action under the adapted policy differs from
/// their action under the baseline: the size of `estados_distintos`.
pub fn contar_diferencias(base: &Vec<Option<Accion>>, adaptada: &Vec<Option<Accion>>) -> (n: usize)
    ensures
        estados_distintos(base@, adaptada@).finite(),
        n == estados_distintos(base@, adaptada@).len(),
        n <= base@.len(),
{
    let mut n: usize = 0;
    let mut s: usize = 0;
    proof {
        assert(distintos_hasta(base@, adaptada@, 0) =~= Set::<int>::empty());
    }
    while s < base.len()
        invariant
            s <= base@.len(),
            n <= s,
            distintos_hasta(base@, adaptada@, s as int).finite(),
            n == distintos_hasta(base@, adaptada@, s as int).len(),
        decreases base@.len() - s,
    {
        let distinto = match base[s] {
            Some(_) => s >= adaptada.len() || !misma_accion(adaptada[s], base[s]),
            None => false,
        };
        proof {
            let antes = distintos_hasta(base@, adaptada@, s as int);
            let despues = distintos_hasta(base@, adaptada@, s + 1);
            assert(distinto == difiere(base@, adaptada@, s as int));
            if distinto {
                assert(despues =~= antes.insert(s as int));
            } else {
                assert(despues =~= antes);
            }
        }
        if distinto {
            n += 1;
        }
        s += 1;
    }
    proof {
        assert(distintos_hasta(base@, adaptada@, s as int) =~= estados_distintos(base@, adaptada@));
    }
    n
}

/// The label of a noise model: the probability of the intended direction as a
/// whole percentage, followed by a percent sign.
pub open spec fn etiqueta_modelo_spec(centro: u32) -> Seq<char> {
    decimal_spec((centro / 10_000) as nat) + "%"@
}

/// The label of a noise model, such as `80%` for an intended direction taken
/// eight times in ten.
pub fn etiqueta_modelo(centro: u32) -> (s: String)
    ensures
        s@ == etiqueta_modelo_spec(centro),
{
    let mut s = decimal((centro / 10_000) as u64);
    s.append("%");
    s
}

/// The model of entry `i` of the catalogue `MODELOS_ROBUSTEZ`.
pub open spec fn modelo_catalogo_spec(i: int) -> ModeloTransicion {
    modelo_ruido_spec(MODELOS_ROBUSTEZ[i].0, MODELOS_ROBUSTEZ[i].1, MODELOS_ROBUSTEZ[i].2)
}

/// Every model of the catalogue is valid: the outcomes of each action sum to
/// one.
pub proof fn lema_catalogo_valido(i: int)
    requires
        0 <= i < 4,
    ensures
        modelo_catalogo_spec(i).es_valido(),
{
    let m = modelo_catalogo_spec(i);
    assert forall|a: Accion| #[trigger] m.suma_fila(a) == ESCALA by {
    }
}

/// The policy that value iteration finds under entry `i` of the catalogue,
/// with the default threshold and number of sweeps; none when it does not
/// converge.
pub open spec fn politica_adaptada_spec(m: &Mundo, lambda: int, i: int) -> Option<
    Seq<Option<Accion>>,
> {
    match primer_convergente_v(
        m,
        &modelo_catalogo_spec(i),
        lambda,
        UMBRAL_CONVERGENCIA as int,
        0,
        MAX_BARRIDOS as nat,
    ) {
        Some(k) => Some(
            politica_de_v(
                m,
                &modelo_catalogo_spec(i),
                lambda,
                iterar_v(m, &modelo_catalogo_spec(i), lambda, k),
            ),
        ),
        None => None,
    }
}

/// Whether a pair of label and count is the one of entry `i` of the
/// catalogue: value iteration converges under that model, the count is the
/// number of states at which the policy it finds differs from the baseline, and
/// the label is the model's.
pub open spec fn par_de_modelo(
    m: &Mundo,
    base: Seq<Option<Accion>>,
    lambda: int,
    i: int,
    etiqueta: Seq<char>,
    cambios: int,
) -> bool {
    match politica_adaptada_spec(m, lambda, i) {
        Some(adaptada) => cambios == estados_distintos(base, adaptada).len() && etiqueta
            == etiqueta_modelo_spec(MODELOS_ROBUSTEZ[i].1),
        None => false,
    }
}

/// Solves the problem again under each noise model of the catalogue, with the
/// same discount factor, and counts for each the states whose action differs
/// from the baseline policy. One pair of label and count per model, in the
/// order of the catalogue. The baseline policy is only read.
///
/// Fails with `NoConverge` exactly when value iteration does not converge
/// under one of the models.
pub fn evaluar_robustez(
    mundo: &Mundo,
    politica_base: &Vec<Option<Accion>>,
    lambda: u32,
) -> (r: Result<Vec<(String, usize)>, ErrorMdp>)
    requires
        mundo.es_valido(),
        lambda < ESCALA,
    ensures
        umbral_suficiente(lambda as int, UMBRAL_CONVERGENCIA as int) ==> r is Ok,
        match r {
            Ok(pares) => {
                &&& pares@.len() == 4
                &&& forall|i: int|
                    0 <= i < 4 ==> par_de_modelo(
                        mundo,
                        politica_base@,
                        lambda as int,
                        i,
                        (#[trigger] pares@[i]).0@,
                        pares@[i].1 as int,
                    )
            },
            Err(e) => exists|i: int|
                0 <= i < 4 && #[trigger] politica_adaptada_spec(mundo, lambda as int, i) is None,
        },
{
    let mut pares: Vec<(String, usize)> = Vec::new();
    let mut i: usize = 0;
    while i < 4
        invariant
            mundo.es_valido(),
            lambda < ESCALA,
            i <= 4,
            pares@.len() == i,
            forall|j: int|
                0 <= j < i ==> par_de_modelo(
                    mundo,
                    politica_base@,
                    lambda as int,
                    j,
                    (#[trigger] pares@[j]).0@,
                    pares@[j].1 as int,
                ),
        decreases 4 - i,
    {
        let (izq, centro, der) = MODELOS_ROBUSTEZ[i];
        assert(izq + centro + der == ESCALA);
        let modelo = construir_modelo_ruido(izq, centro, der);
        assert(modelo == modelo_catalogo_spec(i as int));
        match value_iteration(mundo, lambda, None, Some(&modelo)) {
            Ok((adaptada, _)) => {
                let cambios = contar_diferencias(politica_base, &adaptada);
                let etiqueta = etiqueta_modelo(centro);
                let ghost antes = pares@;
                proof {
                    assert(politica_adaptada_spec(mundo, lambda as int, i as int) == Some(
                        adaptada@,
                    ));
                    assert(par_de_modelo(
                        mundo,
                        politica_base@,
                        lambda as int,
                        i as int,
                        etiqueta@,
                        cambios as int,
                    ));
                }
                pares.push((etiqueta, cambios));
                proof {
                    assert forall|j: int| 0 <= j < i + 1 implies par_de_modelo(
                        mundo,
                        politica_base@,
                        lambda as int,
                        j,
                        (#[trigger] pares@[j]).0@,
                        pares@[j].1 as int,
                    ) by {
                        if j < i {
                            assert(pares@[j] == antes[j]);
                        }
                    }
                }
            },
            Err(e) => {
                proof {
                    assert(politica_adaptada_spec(mundo, lambda as int, i as int) is None);
                }
                return Err(e);
            },
        }
        i += 1;
    }
    Ok(pares)
}

} // verus!
