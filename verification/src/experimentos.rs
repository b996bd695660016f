//! Experiments over discount factors and noise levels: the noise model of a
//! probability of success, the mean reward that the policy solved under it
//! earns, and the text of a line of results.

use crate::bellman::{iterar_q, politica_de_q, primer_convergente_q};
use crate::cadenas::{formato_fijo, formato_fijo_spec};
use crate::config::{Accion, ESCALA, MAX_BARRIDOS, RECOMPENSA_META, UMBRAL_CONVERGENCIA};
use crate::convergencia::umbral_suficiente;
use crate::mdp_model::{q_value_iteration, ErrorMdp};
use crate::mundo::Mundo;
use crate::robustness::{construir_modelo_ruido, modelo_ruido_spec};
use crate::simulation::{es_media_de, recompensa_media};
use crate::transicion::ModeloTransicion;
use vstd::prelude::*;
use vstd::string::*;

verus! {

/// The noise model of a probability of success: what is left of one is split
/// between the two deviations, the left one rounded down to a whole number of
/// millionths and the right one taking the rest.
pub open spec fn modelo_de_exito_spec(centro: u32) -> ModeloTransicion {
    modelo_ruido_spec(
        ((ESCALA - centro) / 2) as u32,
        centro,
        (ESCALA - centro - (ESCALA - centro) / 2) as u32,
    )
}

/// The text of a line of results: the discount factor and the probability of
/// success with two decimals, the mean reward with six, separated by commas.
pub open spec fn linea_resultado_spec(lambda: u32, centro: u32, media: i64) -> Seq<char> {
    formato_fijo_spec(lambda as int, 2) + ","@ + formato_fijo_spec(centro as int, 2) + ","@
        + formato_fijo_spec(media as int, 6)
}

/// The noise model of a probability of success `centro`, in millionths.
pub fn modelo_de_exito(centro: u32) -> (m: ModeloTransicion)
    requires
        centro <= ESCALA,
    ensures
        m == modelo_de_exito_spec(centro),
        m.es_valido(),
{
    let resto = ESCALA - centro;
    let izq = resto / 2;
    let der = resto - izq;
    construir_modelo_ruido(izq, centro, der)
}

/// The policy that Q-value iteration finds under the noise model of
/// `centro`, with the default threshold and number of sweeps; none when it
/// does not converge.
pub open spec fn politica_de_exito_spec(mundo: &Mundo, lambda: int, centro: u32) -> Option<
    Seq<Option<Accion>>,
> {
    match primer_convergente_q(
        mundo,
        &modelo_de_exito_spec(centro),
        lambda,
        UMBRAL_CONVERGENCIA as int,
        0,
        MAX_BARRIDOS as nat,
    ) {
        Some(k) => Some(
            politica_de_q(mundo, iterar_q(mundo, &modelo_de_exito_spec(centro), lambda, k + 1)),
        ),
        None => None,
    }
}

/// Whether `media` is the mean of `episodios` episodes under a policy, for
/// some starts; or none, where there is no episode or no state to start from.
pub open spec fn es_media_bajo(
    mundo: &Mundo,
    politica: Seq<Option<Accion>>,
    episodios: int,
    max_pasos: nat,
    media: Option<i128>,
) -> bool {
    match media {
        Some(x) => exists|inicios: Seq<usize>| #[trigger]
            es_media_de(mundo, politica, max_pasos, episodios, inicios, x as int),
        None => episodios == 0 || mundo.n() <= 1,
    }
}

/// One combination of an experiment: solves the problem by Q-value iteration
/// under the noise model of `centro`, with the default threshold, and runs
/// `episodios` noiseless episodes of at most `max_pasos` moves under the policy
/// found, each from a drawn state. Hands back their mean reward; none when
/// there is no episode or no state to start from.
///
/// Fails with `NoConverge` exactly when Q-value iteration does not converge.
pub fn evaluar_combinacion(
    mundo: &Mundo,
    lambda: u32,
    centro: u32,
    episodios: usize,
    max_pasos: usize,
) -> (r: Result<Option<i128>, ErrorMdp>)
    requires
        mundo.es_valido(),
        lambda < ESCALA,
        centro <= ESCALA,
        episodios * (max_pasos + 1) <= u64::MAX,
    ensures
        umbral_suficiente(lambda as int, UMBRAL_CONVERGENCIA as int) ==> r is Ok,
        match r {
            Ok(media) => {
                &&& politica_de_exito_spec(mundo, lambda as int, centro) is Some
                &&& es_media_bajo(
                    mundo,
                    politica_de_exito_spec(mundo, lambda as int, centro).unwrap(),
                    episodios as int,
                    max_pasos as nat,
                    media,
                )
                &&& media is None <==> episodios == 0 || mundo.n() <= 1
            },
            Err(e) => politica_de_exito_spec(mundo, lambda as int, centro) is None,
        },
        r matches Ok(Some(media)) ==> -(max_pasos + 1) * RECOMPENSA_META <= media <= (max_pasos
            + 1) * RECOMPENSA_META,
{
    let modelo = modelo_de_exito(centro);
    match q_value_iteration(mundo, lambda, Some(UMBRAL_CONVERGENCIA), Some(&modelo)) {
        Ok((_, politica, _)) => {
            let media = recompensa_media(mundo, &politica, episodios, max_pasos);
            assert(politica_de_exito_spec(mundo, lambda as int, centro) == Some(politica@));
            Ok(media)
        },
        Err(e) => Err(e),
    }
}

/// The text of a line of results.
pub fn linea_resultado(lambda: u32, centro: u32, media: i64) -> (s: String)
    ensures
        s@ == linea_resultado_spec(lambda, centro, media),
{
    let mut s = formato_fijo(lambda as i64, 2);
    s.append(",");
    let segundo = formato_fijo(centro as i64, 2);
    s.append(segundo.as_str());
    s.append(",");
    let tercero = formato_fijo(media, 6);
    s.append(tercero.as_str());
    proof {
        assert(s@ =~= linea_resultado_spec(lambda, centro, media));
    }
    s
}

} // verus!
