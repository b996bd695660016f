//! Walks of the agent through the world under a policy: the noisy walk with
//! restarts, the noiseless episode, and the step-by-step walk that a display
//! follows. Chance comes from the `rand` crate; what is decided once the dice
//! have fallen is decided here.

use crate::config::{Accion, Celda, ESCALA, RECOMPENSA_META};
use crate::mundo::Mundo;
use rand::seq::SliceRandom;
use rand::Rng;
use vstd::prelude::*;

verus! {

/// `choose` of `rand::seq::SliceRandom` on the candidates, with the generator
/// of `rand::thread_rng`: one of the candidates, or none when there is no
/// candidate. Which one is left to chance.
#[verifier::external_body]
fn elegir(candidatos: &Vec<usize>) -> (r: Option<usize>)
    ensures
        candidatos@.len() == 0 ==> r is None,
        candidatos@.len() > 0 ==> r is Some && candidatos@.contains(r.unwrap()),
{
    candidatos.choose(&mut rand::thread_rng()).copied()
}

/// `gen_ratio` of `rand::Rng`, with the generator of `rand::thread_rng`: true
/// with probability `numerador / denominador`; always true when the two are
/// equal and never when the numerator is 0. The call panics on a zero
/// denominator and on a numerator above the denominator.
#[verifier::external_body]
fn sortear(numerador: u32, denominador: u32) -> (r: bool)
    requires
        0 < denominador,
        numerador <= denominador,
    ensures
        numerador == denominador ==> r,
        numerador == 0 ==> !r,
{
    rand::thread_rng().gen_ratio(numerador, denominador)
}

/// What a step of the noisy walk comes to.
#[derive(Clone, Copy, Debug, PartialEq, Eq, Structural)]
pub enum Paso {
    /// The agent stood on the goal: the visit is counted and the walk restarts.
    Meta,
    /// The agent stood on a hazard: the fall is counted and the walk restarts.
    Peligro,
    /// The agent moved (or bumped and stayed): the state it is in now and that
    /// state's reward.
    Movimiento { estado: usize, recompensa: i64 },
    /// The policy has no action for the state: the walk ends.
    Fin,
}

/// The action that a policy prescribes at a state, if any.
pub open spec fn accion_de_spec(politica: Seq<Option<Accion>>, estado: int) -> Option<Accion> {
    if 0 <= estado < politica.len() {
        politica[estado]
    } else {
        None
    }
}

/// The states from which a walk may start: all but the goal, in order.
pub open spec fn estados_iniciales_spec(mundo: &Mundo) -> Seq<usize> {
    Seq::new(
        (mundo.n() - 1) as nat,
        |i: int|
            if i < mundo.meta {
                i as usize
            } else {
                (i + 1) as usize
            },
    )
}

/// What a step of the noisy walk comes to, once it is known whether the move
/// succeeds and where a failed move goes instead.
pub open spec fn paso_ruidoso_spec(
    mundo: &Mundo,
    politica: Seq<Option<Accion>>,
    estado: int,
    exito: bool,
    desvio: Accion,
) -> Paso {
    if estado == mundo.meta {
        Paso::Meta
    } else if mundo.tipo_spec(estado) == Celda::Peligro {
        Paso::Peligro
    } else {
        match accion_de_spec(politica, estado) {
            Some(a) => {
                let d = if exito {
                    a
                } else {
                    desvio
                };
                let t = mundo.destino_spec(estado, d);
                Paso::Movimiento { estado: t as usize, recompensa: mundo.recompensa_spec(t) as i64 }
            },
            None => Paso::Fin,
        }
    }
}

/// The reward gathered after the start of a noiseless episode: from `estado`,
/// for at most `pasos` moves, each move follows the policy and earns the reward
/// of the state it ends in; the episode ends on the goal and where the policy
/// has no action.
pub open spec fn recompensa_restante(
    mundo: &Mundo,
    politica: Seq<Option<Accion>>,
    estado: int,
    pasos: nat,
) -> int
    decreases pasos,
{
    if pasos == 0 || estado == mundo.meta {
        0
    } else {
        match accion_de_spec(politica, estado) {
            Some(a) => {
                let t = mundo.destino_spec(estado, a);
                mundo.recompensa_spec(t) + recompensa_restante(
                    mundo,
                    politica,
                    t,
                    (pasos - 1) as nat,
                )
            },
            None => 0,
        }
    }
}

/// The reward of a noiseless episode: that of the starting state plus what is
/// gathered after it.
pub open spec fn recompensa_episodio(
    mundo: &Mundo,
    politica: Seq<Option<Accion>>,
    inicio: int,
    max_pasos: nat,
) -> int {
    mundo.recompensa_spec(inicio) + recompensa_restante(mundo, politica, inicio, max_pasos)
}

/// The action that a policy prescribes at a state, if any.
pub fn accion_de(politica: &Vec<Option<Accion>>, estado: usize) -> (r: Option<Accion>)
    ensures
        r == accion_de_spec(politica@, estado as int),
{
    if estado < politica.len() {
        politica[estado]
    } else {
        None
    }
}

/// The states from which a walk may start: all but the goal.
pub fn estados_iniciales(mundo: &Mundo) -> (v: Vec<usize>)
    requires
        mundo.es_valido(),
    ensures
        v@ == estados_iniciales_spec(mundo),
        forall|i: int| 0 <= i < v@.len() ==> #[trigger] v@[i] < mundo.n() && v@[i] != mundo.meta,
{
    let n = mundo.total_estados();
    let mut v: Vec<usize> = Vec::new();
    let mut s: usize = 0;
    while s < n
        invariant
            n == mundo.n(),
            mundo.meta < n,
            s <= n,
            v@.len() == (if s <= mundo.meta {
                s as int
            } else {
                s - 1
            }),
            forall|i: int| 0 <= i < v@.len() ==>
                #[trigger] v@[i] == estados_iniciales_spec(mundo)[i],
        decreases n - s,
    {
        if s != mundo.meta {
            v.push(s);
        }
        s += 1;
    }
    assert(v@ =~= estados_iniciales_spec(mundo));
    v
}

/// One step of the noisy walk, once the dice have fallen.
pub fn paso_ruidoso(
    mundo: &Mundo,
    politica: &Vec<Option<Accion>>,
    estado: usize,
    exito: bool,
    desvio: Accion,
) -> (r: Paso)
    requires
        mundo.es_valido(),
        estado < mundo.n(),
    ensures
        r == paso_ruidoso_spec(mundo, politica@, estado as int, exito, desvio),
        r matches Paso::Movimiento { estado: t, recompensa } ==> t < mundo.n() && -RECOMPENSA_META
            <= recompensa <= RECOMPENSA_META,
{
    if estado == mundo.meta {
        return Paso::Meta;
    }
    match mundo.tipo(estado) {
        Celda::Peligro => {
            return Paso::Peligro;
        },
        _ => {},
    }
    match accion_de(politica, estado) {
        Some(a) => {
            let d = if exito {
                a
            } else {
                desvio
            };
            let t = mundo.destino(estado, d);
            Paso::Movimiento { estado: t, recompensa: mundo.recompensa(t) }
        },
        None => Paso::Fin,
    }
}

/// The dice of one step of the noisy walk: whether the move succeeds, the
/// direction of a failed move, and the state from which the walk restarts.
pub struct Tirada {
    pub exito: bool,
    pub desvio: Accion,
    pub reinicio: usize,
}

/// Where a noisy walk stands: the state of the agent, the visits to the goal,
/// the falls into hazards, the reward gathered, and whether the walk has ended
/// for want of an action.
pub struct Caminata {
    pub estado: int,
    pub metas: int,
    pub peligros: int,
    pub total: int,
    pub fin: bool,
}

/// One step of a noisy walk under given dice. A walk that has ended stays as
/// it is.
pub open spec fn paso_de_caminata(
    mundo: &Mundo,
    politica: Seq<Option<Accion>>,
    c: Caminata,
    t: Tirada,
) -> Caminata {
    if c.fin {
        c
    } else {
        match paso_ruidoso_spec(mundo, politica, c.estado, t.exito, t.desvio) {
            Paso::Meta => Caminata { estado: t.reinicio as int, metas: c.metas + 1, ..c },
            Paso::Peligro => Caminata { estado: t.reinicio as int, peligros: c.peligros + 1, ..c },
            Paso::Movimiento { estado, recompensa } => Caminata {
                estado: estado as int,
                total: c.total + recompensa,
                ..c
            },
            Paso::Fin => Caminata { fin: true, ..c },
        }
    }
}

/// The noisy walk from `inicio` under a sequence of dice, one per step.
pub open spec fn caminata_spec(
    mundo: &Mundo,
    politica: Seq<Option<Accion>>,
    inicio: int,
    tiradas: Seq<Tirada>,
) -> Caminata
    decreases tiradas.len(),
{
    if tiradas.len() == 0 {
        Caminata { estado: inicio, metas: 0, peligros: 0, total: 0, fin: false }
    } else {
        paso_de_caminata(
            mundo,
            politica,
            caminata_spec(mundo, politica, inicio, tiradas.drop_last()),
            tiradas.last(),
        )
    }
}

/// Dice that can fall: the restart is a state other than the goal, a move
/// that is sure to succeed succeeds and one that cannot succeed fails.
pub open spec fn tirada_posible(mundo: &Mundo, prob_exito: int, t: Tirada) -> bool {
    &&& t.reinicio < mundo.n()
    &&& t.reinicio != mundo.meta
    &&& prob_exito == ESCALA ==> t.exito
    &&& prob_exito == 0 ==> !t.exito
}

/// Whether `r` is what a noisy walk of at most `max_pasos` steps comes to when
/// it starts in `inicio` and the dice fall as `tiradas`: one throw per step, as
/// many as `max_pasos` unless the walk ends before.
pub open spec fn es_caminata_de(
    mundo: &Mundo,
    politica: Seq<Option<Accion>>,
    max_pasos: int,
    prob_exito: int,
    inicio: int,
    tiradas: Seq<Tirada>,
    r: (usize, usize, i128),
) -> bool {
    let c = caminata_spec(mundo, politica, inicio, tiradas);
    &&& 0 <= inicio < mundo.n()
    &&& inicio != mundo.meta
    &&& tiradas.len() <= max_pasos
    &&& c.fin || tiradas.len() == max_pasos
    &&& forall|i: int| 0 <= i < tiradas.len() ==>
        tirada_posible(mundo, prob_exito, #[trigger] tiradas[i])
    &&& r.0 == c.metas
    &&& r.1 == c.peligros
    &&& r.2 == c.total
}

/// A noisy walk of at most `max_pasos` steps under a policy. The walk starts
/// in a state drawn among those that are not the goal. A step on the goal or on
/// a hazard is counted and the walk restarts from another drawn state. Any
/// other step follows the policy with probability `prob_exito` (in
/// millionths) and a drawn direction otherwise, and earns the reward of the
/// state it ends in. The walk ends early where the policy has no action.
///
/// Hands back the visits to the goal, the falls into hazards and the reward
/// gathered: those of `caminata_spec` for the start and the dice that were
/// drawn. Whatever the dice, the counted steps are no more than `max_pasos`,
/// and each of the others earns a reward no larger in magnitude than the
/// goal's. A world whose only state is the goal gives all zeros.
pub fn simulacion_1000_pasos(
    mundo: &Mundo,
    politica: &Vec<Option<Accion>>,
    max_pasos: usize,
    prob_exito: u32,
) -> (r: (usize, usize, i128))
    requires
        mundo.es_valido(),
        prob_exito <= ESCALA,
    ensures
        mundo.n() <= 1 ==> r == (0usize, 0usize, 0i128),
        mundo.n() > 1 ==> exists|inicio: int, tiradas: Seq<Tirada>| #[trigger]
            es_caminata_de(
                mundo,
                politica@,
                max_pasos as int,
                prob_exito as int,
                inicio,
                tiradas,
                r,
            ),
        r.0 + r.1 <= max_pasos,
        -(max_pasos - r.0 - r.1) * RECOMPENSA_META <= r.2 <= (max_pasos - r.0 - r.1)
            * RECOMPENSA_META,
{
    let validos = estados_iniciales(mundo);
    let direcciones: Vec<usize> = vec![0, 1, 2, 3];
    let inicio = match elegir(&validos) {
        Some(s) => s,
        None => {
            return (0, 0, 0);
        },
    };
    let mut estado = inicio;
    let mut metas: usize = 0;
    let mut peligros: usize = 0;
    let mut total: i128 = 0;
    let mut sigue = true;
    let mut i: usize = 0;
    let ghost mut tiradas: Seq<Tirada> = Seq::empty();
    while sigue && i < max_pasos
        invariant
            mundo.es_valido(),
            prob_exito <= ESCALA,
            validos@ == estados_iniciales_spec(mundo),
            validos@.len() > 0,
            forall|j: int|
                0 <= j < validos@.len() ==> #[trigger] validos@[j] < mundo.n() && validos@[j]
                    != mundo.meta,
            direcciones@.len() == 4,
            estado < mundo.n(),
            inicio < mundo.n(),
            inicio != mundo.meta,
            i <= max_pasos,
            tiradas.len() == i,
            forall|j: int|
                0 <= j < tiradas.len() ==> tirada_posible(
                    mundo,
                    prob_exito as int,
                    #[trigger] tiradas[j],
                ),
            caminata_spec(mundo, politica@, inicio as int, tiradas) == (Caminata {
                estado: estado as int,
                metas: metas as int,
                peligros: peligros as int,
                total: total as int,
                fin: !sigue,
            }),
            metas + peligros <= i,
            -(i - metas - peligros) * RECOMPENSA_META <= total <= (i - metas - peligros)
                * RECOMPENSA_META,
        decreases max_pasos - i,
    {
        let exito = sortear(prob_exito, ESCALA);
        let desvio = if exito {
            Accion::N
        } else {
            match elegir(&direcciones) {
                Some(k) => Accion::desde_indice(k),
                None => Accion::N,
            }
        };
        let ghost antes = tiradas;
        let ghost mut reinicio = validos@[0];
        match paso_ruidoso(mundo, politica, estado, exito, desvio) {
            Paso::Meta => {
                metas += 1;
                estado = elegir(&validos).unwrap();
                proof {
                    reinicio = estado;
                }
            },
            Paso::Peligro => {
                peligros += 1;
                estado = elegir(&validos).unwrap();
                proof {
                    reinicio = estado;
                }
            },
            Paso::Movimiento { estado: t, recompensa } => {
                total = total + recompensa as i128;
                estado = t;
            },
            Paso::Fin => {
                sigue = false;
            },
        }
        proof {
            let t = Tirada { exito, desvio, reinicio };
            tiradas = antes.push(t);
            assert(tiradas.drop_last() =~= antes);
            assert(tiradas.last() == t);
            assert forall|j: int| 0 <= j < tiradas.len() implies tirada_posible(
                mundo,
                prob_exito as int,
                #[trigger] tiradas[j],
            ) by {
                if j < antes.len() {
                    assert(tiradas[j] == antes[j]);
                }
            }
        }
        i += 1;
    }
    proof {
        assert(es_caminata_de(
            mundo,
            politica@,
            max_pasos as int,
            prob_exito as int,
            inicio as int,
            tiradas,
            (metas, peligros, total),
        ));
    }
    (metas, peligros, total)
}

/// The reward of a noiseless episode of at most `max_pasos` moves from
/// `inicio`: the reward of the starting state, then that of every state that a
/// move ends in. A move that leaves the grid or hits an obstacle stays in
/// place and earns the reward of that place again.
pub fn episodio(
    mundo: &Mundo,
    politica: &Vec<Option<Accion>>,
    inicio: usize,
    max_pasos: usize,
) -> (r: i128)
    requires
        mundo.es_valido(),
        inicio < mundo.n(),
    ensures
        r == recompensa_episodio(mundo, politica@, inicio as int, max_pasos as nat),
        -(max_pasos + 1) * RECOMPENSA_META <= r <= (max_pasos + 1) * RECOMPENSA_META,
{
    let mut estado = inicio;
    let mut total: i128 = mundo.recompensa(inicio) as i128;
    let mut sigue = true;
    let mut i: usize = 0;
    while sigue && i < max_pasos
        invariant
            mundo.es_valido(),
            estado < mundo.n(),
            i <= max_pasos,
            -(i + 1) * RECOMPENSA_META <= total <= (i + 1) * RECOMPENSA_META,
            total + recompensa_restante(mundo, politica@, estado as int, (max_pasos - i) as nat)
                == recompensa_episodio(mundo, politica@, inicio as int, max_pasos as nat),
            !sigue ==> recompensa_restante(
                mundo,
                politica@,
                estado as int,
                (max_pasos - i) as nat,
            ) == 0,
        decreases max_pasos - i, sigue as int,
    {
        if estado == mundo.meta {
            sigue = false;
        } else {
            match accion_de(politica, estado) {
                Some(a) => {
                    let t = mundo.destino(estado, a);
                    total = total + mundo.recompensa(t) as i128;
                    estado = t;
                    i += 1;
                },
                None => {
                    sigue = false;
                },
            }
        }
    }
    total
}

/// The reward of a run of noiseless episodes, one from each of the starts.
pub open spec fn suma_de_episodios(
    mundo: &Mundo,
    politica: Seq<Option<Accion>>,
    inicios: Seq<usize>,
    max_pasos: nat,
) -> int
    decreases inicios.len(),
{
    if inicios.len() == 0 {
        0
    } else {
        suma_de_episodios(mundo, politica, inicios.drop_last(), max_pasos) + recompensa_episodio(
            mundo,
            politica,
            inicios.last() as int,
            max_pasos,
        )
    }
}

/// Whether `media` is the mean reward, rounded down, of `episodios`
/// noiseless episodes that start in `inicios`, each a state other than the
/// goal.
pub open spec fn es_media_de(
    mundo: &Mundo,
    politica: Seq<Option<Accion>>,
    max_pasos: nat,
    episodios: int,
    inicios: Seq<usize>,
    media: int,
) -> bool {
    &&& inicios.len() == episodios
    &&& episodios > 0
    &&& forall|i: int|
        0 <= i < inicios.len() ==> #[trigger] inicios[i] < mundo.n() && inicios[i] != mundo.meta
    &&& media == suma_de_episodios(mundo, politica, inicios, max_pasos) / (inicios.len() as int)
}

/// The mean reward of `episodios` noiseless episodes, each from a state drawn
/// among those that are not the goal, rounded down. None when there is no
/// episode or no state to start from. Whatever the starts drawn, the mean is no
/// larger in magnitude than the largest reward of one episode.
pub fn recompensa_media(
    mundo: &Mundo,
    politica: &Vec<Option<Accion>>,
    episodios: usize,
    max_pasos: usize,
) -> (r: Option<i128>)
    requires
        mundo.es_valido(),
        episodios * (max_pasos + 1) <= u64::MAX,
    ensures
        r is None <==> episodios == 0 || mundo.n() <= 1,
        match r {
            Some(media) => {
                &&& exists|inicios: Seq<usize>| #[trigger]
                    es_media_de(mundo, politica@, max_pasos as nat, episodios as int, inicios,
                        media as int)
                &&& -(max_pasos + 1) * RECOMPENSA_META <= media <= (max_pasos + 1) * RECOMPENSA_META
            },
            None => true,
        },
{
    let validos = estados_iniciales(mundo);
    if episodios == 0 || validos.len() == 0 {
        return None;
    }
    let ghost tope = (max_pasos + 1) * RECOMPENSA_META;
    let ghost mut cota: int = 0;
    let ghost mut inicios: Seq<usize> = Seq::empty();
    let mut total: i128 = 0;
    let mut i: usize = 0;
    proof {
        assert(episodios * tope == episodios * (max_pasos + 1) * 10_000_000) by (nonlinear_arith)
            requires
                tope == (max_pasos + 1) * 10_000_000,
        ;
    }
    while i < episodios
        invariant
            mundo.es_valido(),
            validos@.len() > 0,
            forall|j: int|
                0 <= j < validos@.len() ==> #[trigger] validos@[j] < mundo.n() && validos@[j]
                    != mundo.meta,
            i <= episodios,
            tope == (max_pasos + 1) * RECOMPENSA_META,
            episodios * tope <= u64::MAX * 10_000_000,
            cota == i * tope,
            -cota <= total <= cota,
            inicios.len() == i,
            forall|j: int|
                0 <= j < inicios.len() ==> #[trigger] inicios[j] < mundo.n() && inicios[j]
                    != mundo.meta,
            total == suma_de_episodios(mundo, politica@, inicios, max_pasos as nat),
        decreases episodios - i,
    {
        let inicio = elegir(&validos).unwrap();
        let ganado = episodio(mundo, politica, inicio, max_pasos);
        proof {
            assert((i + 1) * tope == i * tope + tope) by (nonlinear_arith);
            assert((i + 1) * tope <= episodios * tope) by (nonlinear_arith)
                requires
                    i + 1 <= episodios,
                    tope >= 0,
            ;
            cota = cota + tope;
            let antes = inicios;
            inicios = antes.push(inicio);
            assert(inicios.drop_last() =~= antes);
            assert(inicios.last() == inicio);
        }
        total = total + ganado;
        i += 1;
    }
    proof {
        assert(-tope * episodios <= total <= tope * episodios) by (nonlinear_arith)
            requires
                cota == episodios * tope,
                -cota <= total <= cota,
        ;
        crate::aritmetica::lema_cociente_acotado(total as int, episodios as int, tope);
    }
    let media = crate::aritmetica::dividir_abajo(total, episodios as i128);
    proof {
        assert(es_media_de(
            mundo,
            politica@,
            max_pasos as nat,
            episodios as int,
            inicios,
            media as int,
        ));
    }
    Some(media)
}

/// The position one step away in a direction, held at the first row and the
/// first column: a step north from row 0 and a step west from column 0 stay
/// where they are.
pub open spec fn paso_saturado_spec(fila: int, col: int, d: Accion) -> (int, int) {
    match d {
        Accion::N => (
            if fila > 0 {
                fila - 1
            } else {
                0
            },
            col,
        ),
        Accion::S => (fila + 1, col),
        Accion::E => (fila, col + 1),
        Accion::O => (
            fila,
            if col > 0 {
                col - 1
            } else {
                0
            },
        ),
    }
}

/// The state that the displayed walk enters by a move from `s`: the state at
/// the position one held step away, if there is one. A move north from the
/// first row or west from the first column enters `s` itself again.
pub open spec fn entrada_spec(mundo: &Mundo, s: int, d: Accion) -> Option<int> {
    let (fila, col) = mundo.posicion_spec(s);
    let (f2, c2) = paso_saturado_spec(fila, col, d);
    mundo.estado_en_spec(f2, c2)
}

/// The walk that a display follows, one move per tick: where the agent is,
/// how many moves were tried, the reward gathered and the states entered so
/// far.
pub struct Recorrido {
    pub estado: usize,
    pub paso: usize,
    pub recompensa: i128,
    pub historial: Vec<usize>,
}

impl Recorrido {
    /// The agent is in a state of the world, which is the last one entered, and
    /// the reward is that of the start and of at most one state per move tried.
    pub open spec fn es_valido(&self, mundo: &Mundo) -> bool {
        &&& self.estado < mundo.n()
        &&& self.historial@.len() > 0
        &&& self.historial@.last() == self.estado
        &&& -(self.paso + 1) * RECOMPENSA_META <= self.recompensa <= (self.paso + 1)
            * RECOMPENSA_META
    }

    /// The walk is over after `pasos` moves or on the goal.
    pub open spec fn terminado_spec(&self, mundo: &Mundo, pasos: int) -> bool {
        self.paso >= pasos || self.estado == mundo.meta
    }

    /// A walk that starts in `inicio`, with the reward of that state.
    pub fn iniciar(mundo: &Mundo, inicio: usize) -> (r: Recorrido)
        requires
            mundo.es_valido(),
            inicio < mundo.n(),
        ensures
            r.es_valido(mundo),
            r.estado == inicio,
            r.paso == 0,
            r.recompensa == mundo.recompensa_spec(inicio as int),
            r.historial@ == seq![inicio],
    {
        let mut historial: Vec<usize> = Vec::new();
        historial.push(inicio);
        Recorrido { estado: inicio, paso: 0, recompensa: mundo.recompensa(inicio) as i128,
            historial }
    }

    /// Whether the walk is over: after `pasos` moves, or on the goal.
    pub fn terminado(&self, mundo: &Mundo, pasos: usize) -> (r: bool)
        ensures
            r == self.terminado_spec(mundo, pasos as int),
    {
        self.paso >= pasos || self.estado == mundo.meta
    }

    /// One move of a walk that is not over, along the action that the policy
    /// prescribes. When the move enters a state, the agent is there, the state's
    /// reward is gathered and the state is recorded; when it leaves the grid or
    /// hits an obstacle nothing changes but the count of moves.
    pub fn avanzar(&mut self, mundo: &Mundo, politica: &Vec<Option<Accion>>, pasos: usize)
        requires
            mundo.es_valido(),
            old(self).es_valido(mundo),
            !old(self).terminado_spec(mundo, pasos as int),
            accion_de_spec(politica@, old(self).estado as int) is Some,
        ensures
            final(self).es_valido(mundo),
            final(self).paso == old(self).paso + 1,
            match entrada_spec(
                mundo,
                old(self).estado as int,
                accion_de_spec(politica@, old(self).estado as int).unwrap(),
            ) {
                Some(t) => {
                    &&& final(self).estado == t
                    &&& final(self).recompensa == old(self).recompensa + mundo.recompensa_spec(t)
                    &&& final(self).historial@ == old(self).historial@.push(t as usize)
                },
                None => {
                    &&& final(self).estado == old(self).estado
                    &&& final(self).recompensa == old(self).recompensa
                    &&& final(self).historial@ == old(self).historial@
                },
            },
    {
        let a = accion_de(politica, self.estado).unwrap();
        let (fila, col) = mundo.posicion(self.estado);
        let f = fila as isize;
        let c = col as isize;
        let entrada = match a {
            Accion::N => mundo.estado_en(
                if fila > 0 {
                    f - 1
                } else {
                    0
                },
                c,
            ),
            Accion::S => mundo.estado_en(f + 1, c),
            Accion::E => mundo.estado_en(f, c + 1),
            Accion::O => mundo.estado_en(
                f,
                if col > 0 {
                    c - 1
                } else {
                    0
                },
            ),
        };
        match entrada {
            Some(t) => {
                self.recompensa = self.recompensa + mundo.recompensa(t) as i128;
                self.estado = t;
                self.historial.push(t);
            },
            None => {},
        }
        self.paso = self.paso + 1;
    }
}

} // verus!
