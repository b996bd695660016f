//! The world and its parameters: the map of named cells, the reward of each
//! kind of cell, the four actions and the default transition model.

use crate::cadenas::misma_cadena;
use crate::robustness::{construir_modelo_ruido, modelo_ruido_spec, ruido_spec};
use crate::transicion::ModeloTransicion;
use vstd::prelude::*;
use vstd::string::*;

verus! {

/// Fixed-point unit: every real quantity is held as a count of millionths.
pub const ESCALA: u32 = 1_000_000;

/// Rows of the map.
pub const FILAS_MAPA: usize = 6;

/// Columns of the map.
pub const COLUMNAS_MAPA: usize = 8;

/// Default convergence threshold of the solvers (0.001).
pub const UMBRAL_CONVERGENCIA: u32 = 1_000;

/// Number of sweeps that a solver allows when none is given. A solver whose
/// threshold is large enough for its discount factor converges within it.
pub const MAX_BARRIDOS: u64 = 10_000_000;

/// Reward of the goal cell (10.0).
pub const RECOMPENSA_META: i64 = 10_000_000;

/// Reward of a hazardous cell (-0.5).
pub const RECOMPENSA_PELIGRO: i64 = -500_000;

/// Reward of every other cell (-0.1), the cost of living.
pub const RECOMPENSA_NORMAL: i64 = -100_000;

/// Label of the goal cell.
pub const ESTADO_META: &'static str = "M";

/// Labels of the hazardous cells.
pub const ESTADOS_PELIGRO: [&'static str; 4] = ["P1", "P2", "P3", "P4"];

/// Labels of the obstacle cells.
pub const OBSTACULOS: [&'static str; 10] = [
    "O1", "O2", "O3", "O4", "O5", "O6", "O7", "O8", "O9", "O10",
];

/// The map, row by row. S cells are safe, P cells hazardous, O cells
/// obstacles and M is the goal.
pub const MAPA_ESTADOS: [[&'static str; 8]; 6] = [
    ["S0", "S1", "P1", "O1", "S3", "O2", "S4", "S5"],
    ["O3", "S6", "S7", "S8", "S9", "S10", "S11", "O4"],
    ["S12", "P2", "S14", "O5", "S15", "P3", "S17", "S18"],
    ["S19", "S20", "S21", "S22", "M", "S24", "S25", "O6"],
    ["S26", "O7", "O8", "S27", "S28", "S29", "P4", "S31"],
    ["S32", "O9", "S33", "S34", "O10", "S35", "S36", "S37"],
];

/// One of the four cardinal directions, in the fixed order N, S, E, O that
/// breaks ties between equally good actions.
#[derive(Clone, Copy, Debug, PartialEq, Eq, Structural)]
pub enum Accion {
    N,
    S,
    E,
    O,
}

/// What a cell of the map is.
#[derive(Clone, Copy, Debug, PartialEq, Eq, Structural)]
pub enum Celda {
    Normal,
    Peligro,
    Obstaculo,
    Meta,
}

impl Accion {
    /// Position in the fixed order: N is 0, S is 1, E is 2, O is 3.
    pub open spec fn indice_spec(self) -> int {
        match self {
            Accion::N => 0,
            Accion::S => 1,
            Accion::E => 2,
            Accion::O => 3,
        }
    }

    /// The action at a position of the fixed order (O from 3 on).
    pub open spec fn desde_indice_spec(i: int) -> Accion {
        if i == 0 {
            Accion::N
        } else if i == 1 {
            Accion::S
        } else if i == 2 {
            Accion::E
        } else {
            Accion::O
        }
    }

    /// The one-letter symbol of the action.
    pub open spec fn simbolo_spec(self) -> Seq<char> {
        match self {
            Accion::N => "N"@,
            Accion::S => "S"@,
            Accion::E => "E"@,
            Accion::O => "O"@,
        }
    }

    /// The action that a symbol names, if any. The symbols are tried in the
    /// fixed order.
    pub open spec fn desde_simbolo_spec(s: Seq<char>) -> Option<Accion> {
        if s == "N"@ {
            Some(Accion::N)
        } else if s == "S"@ {
            Some(Accion::S)
        } else if s == "E"@ {
            Some(Accion::E)
        } else if s == "O"@ {
            Some(Accion::O)
        } else {
            None
        }
    }

    /// The direction 90 degrees to the "left" of the intended one: O for
    /// N and S, N for E and O.
    pub open spec fn izquierda_spec(self) -> Accion {
        match self {
            Accion::N => Accion::O,
            Accion::S => Accion::O,
            Accion::E => Accion::N,
            Accion::O => Accion::N,
        }
    }

    /// The direction 90 degrees to the "right" of the intended one: E for
    /// N and S, S for E and O.
    pub open spec fn derecha_spec(self) -> Accion {
        match self {
            Accion::N => Accion::E,
            Accion::S => Accion::E,
            Accion::E => Accion::S,
            Accion::O => Accion::S,
        }
    }

    /// Position in the fixed order.
    pub fn indice(self) -> (i: usize)
        ensures
            i == self.indice_spec(),
    {
        match self {
            Accion::N => 0,
            Accion::S => 1,
            Accion::E => 2,
            Accion::O => 3,
        }
    }

    /// The action at a position of the fixed order (O from 3 on).
    pub fn desde_indice(i: usize) -> (a: Accion)
        ensures
            a == Self::desde_indice_spec(i as int),
            i < 4 ==> a.indice_spec() == i,
    {
        if i == 0 {
            Accion::N
        } else if i == 1 {
            Accion::S
        } else if i == 2 {
            Accion::E
        } else {
            Accion::O
        }
    }

    /// The one-letter symbol of the action.
    pub fn simbolo(self) -> (s: &'static str)
        ensures
            s@ == self.simbolo_spec(),
    {
        match self {
            Accion::N => "N",
            Accion::S => "S",
            Accion::E => "E",
            Accion::O => "O",
        }
    }

    /// The action that a symbol names, if any.
    pub fn desde_simbolo(s: &str) -> (a: Option<Accion>)
        ensures
            a == Self::desde_simbolo_spec(s@),
    {
        if misma_cadena(s, "N") {
            Some(Accion::N)
        } else if misma_cadena(s, "S") {
            Some(Accion::S)
        } else if misma_cadena(s, "E") {
            Some(Accion::E)
        } else if misma_cadena(s, "O") {
            Some(Accion::O)
        } else {
            None
        }
    }

    /// The direction on the left of the intended one.
    pub fn izquierda(self) -> (a: Accion)
        ensures
            a == self.izquierda_spec(),
    {
        match self {
            Accion::N => Accion::O,
            Accion::S => Accion::O,
            Accion::E => Accion::N,
            Accion::O => Accion::N,
        }
    }

    /// The direction on the right of the intended one.
    pub fn derecha(self) -> (a: Accion)
        ensures
            a == self.derecha_spec(),
    {
        match self {
            Accion::N => Accion::E,
            Accion::S => Accion::E,
            Accion::E => Accion::S,
            Accion::O => Accion::S,
        }
    }
}

/// The four symbols are pairwise different, so a symbol names the action it
/// was taken from.
pub proof fn lema_simbolos(a: Accion)
    ensures
        Accion::desde_simbolo_spec(a.simbolo_spec()) == Some(a),
{
    reveal_strlit("N");
    reveal_strlit("S");
    reveal_strlit("E");
    reveal_strlit("O");
    assert("N"@[0] == 'N' && "S"@[0] == 'S' && "E"@[0] == 'E' && "O"@[0] == 'O');
}

/// The symbols of the valid actions, in the fixed order N, S, E, O.
pub fn acciones() -> (r: Vec<&'static str>)
    ensures
        r@.len() == 4,
        forall|i: int| 0 <= i < 4 ==>
            (#[trigger] r@[i])@ == Accion::desde_indice_spec(i).simbolo_spec(),
{
    vec!["N", "S", "E", "O"]
}

/// Whether a position lies on the map.
pub open spec fn en_mapa(fila: int, col: int) -> bool {
    0 <= fila < FILAS_MAPA && 0 <= col < COLUMNAS_MAPA
}

/// The label written on the map at a position.
pub open spec fn etiqueta_spec(fila: int, col: int) -> Seq<char> {
    MAPA_ESTADOS[fila][col]@
}

/// Whether some cell of the map carries the label.
pub open spec fn en_el_mapa_spec(etiqueta: Seq<char>) -> bool {
    exists|fila: int, col: int| en_mapa(fila, col)
        && #[trigger] etiqueta_spec(fila, col) == etiqueta
}

/// Whether the label is one of the obstacle labels.
pub open spec fn es_obstaculo_spec(etiqueta: Seq<char>) -> bool {
    ||| etiqueta == "O1"@
    ||| etiqueta == "O2"@
    ||| etiqueta == "O3"@
    ||| etiqueta == "O4"@
    ||| etiqueta == "O5"@
    ||| etiqueta == "O6"@
    ||| etiqueta == "O7"@
    ||| etiqueta == "O8"@
    ||| etiqueta == "O9"@
    ||| etiqueta == "O10"@
}

/// Whether the label is one of the hazard labels.
pub open spec fn es_peligro_spec(etiqueta: Seq<char>) -> bool {
    ||| etiqueta == "P1"@
    ||| etiqueta == "P2"@
    ||| etiqueta == "P3"@
    ||| etiqueta == "P4"@
}

/// The kind of cell that a label stands for: the goal label first, then the
/// hazard labels, then the obstacle labels; any other label is a normal cell.
pub open spec fn tipo_de_etiqueta_spec(etiqueta: Seq<char>) -> Celda {
    if etiqueta == ESTADO_META@ {
        Celda::Meta
    } else if es_peligro_spec(etiqueta) {
        Celda::Peligro
    } else if es_obstaculo_spec(etiqueta) {
        Celda::Obstaculo
    } else {
        Celda::Normal
    }
}

/// The reward of a kind of cell. An obstacle is never entered; it is given
/// the reward of a normal cell.
pub open spec fn recompensa_de_tipo_spec(tipo: Celda) -> int {
    match tipo {
        Celda::Meta => RECOMPENSA_META as int,
        Celda::Peligro => RECOMPENSA_PELIGRO as int,
        Celda::Normal => RECOMPENSA_NORMAL as int,
        Celda::Obstaculo => RECOMPENSA_NORMAL as int,
    }
}

/// The goal attracts and the hazards repel: the goal's reward is above that
/// of a hazard, which is below that of a normal cell; and no reward is larger
/// in magnitude than the goal's.
pub proof fn lema_orden_de_recompensas(tipo: Celda)
    ensures
        recompensa_de_tipo_spec(Celda::Meta) > recompensa_de_tipo_spec(Celda::Peligro),
        recompensa_de_tipo_spec(Celda::Peligro) < recompensa_de_tipo_spec(Celda::Normal),
        -RECOMPENSA_META <= recompensa_de_tipo_spec(tipo) <= RECOMPENSA_META,
{
}

/// The reward looked up by label: that of the label's kind of cell when the
/// map holds the label, and 0 when it does not.
pub open spec fn recompensa_de_spec(etiqueta: Seq<char>) -> int {
    if en_el_mapa_spec(etiqueta) {
        recompensa_de_tipo_spec(tipo_de_etiqueta_spec(etiqueta))
    } else {
        0
    }
}

/// Whether the label is one of `OBSTACULOS`.
pub fn es_obstaculo(etiqueta: &str) -> (r: bool)
    ensures
        r == es_obstaculo_spec(etiqueta@),
{
    let mut i: usize = 0;
    while i < 10
        invariant
            i <= 10,
            forall|j: int| 0 <= j < i ==> (#[trigger] OBSTACULOS[j])@ != etiqueta@,
        decreases 10 - i,
    {
        if misma_cadena(OBSTACULOS[i], etiqueta) {
            return true;
        }
        i += 1;
    }
    assert(OBSTACULOS[0]@ == "O1"@ && OBSTACULOS[1]@ == "O2"@ && OBSTACULOS[2]@ == "O3"@
        && OBSTACULOS[3]@ == "O4"@ && OBSTACULOS[4]@ == "O5"@ && OBSTACULOS[5]@ == "O6"@
        && OBSTACULOS[6]@ == "O7"@ && OBSTACULOS[7]@ == "O8"@ && OBSTACULOS[8]@ == "O9"@
        && OBSTACULOS[9]@ == "O10"@);
    false
}

/// Whether the label is one of `ESTADOS_PELIGRO`.
pub fn es_peligro(etiqueta: &str) -> (r: bool)
    ensures
        r == es_peligro_spec(etiqueta@),
{
    let mut i: usize = 0;
    while i < 4
        invariant
            i <= 4,
            forall|j: int| 0 <= j < i ==> (#[trigger] ESTADOS_PELIGRO[j])@ != etiqueta@,
        decreases 4 - i,
    {
        if misma_cadena(ESTADOS_PELIGRO[i], etiqueta) {
            return true;
        }
        i += 1;
    }
    assert(ESTADOS_PELIGRO[0]@ == "P1"@ && ESTADOS_PELIGRO[1]@ == "P2"@ && ESTADOS_PELIGRO[2]@
        == "P3"@ && ESTADOS_PELIGRO[3]@ == "P4"@);
    false
}

/// The kind of cell that a label stands for.
pub fn tipo_de_etiqueta(etiqueta: &str) -> (t: Celda)
    ensures
        t == tipo_de_etiqueta_spec(etiqueta@),
{
    if misma_cadena(etiqueta, ESTADO_META) {
        Celda::Meta
    } else if es_peligro(etiqueta) {
        Celda::Peligro
    } else if es_obstaculo(etiqueta) {
        Celda::Obstaculo
    } else {
        Celda::Normal
    }
}

/// The reward of a kind of cell.
pub fn recompensa_de_tipo(tipo: Celda) -> (r: i64)
    ensures
        r == recompensa_de_tipo_spec(tipo),
{
    match tipo {
        Celda::Meta => RECOMPENSA_META,
        Celda::Peligro => RECOMPENSA_PELIGRO,
        Celda::Normal => RECOMPENSA_NORMAL,
        Celda::Obstaculo => RECOMPENSA_NORMAL,
    }
}

/// Whether the map holds the label.
pub fn en_el_mapa(etiqueta: &str) -> (r: bool)
    ensures
        r == en_el_mapa_spec(etiqueta@),
{
    let mut fila: usize = 0;
    while fila < FILAS_MAPA
        invariant
            fila <= FILAS_MAPA,
            forall|f: int, c: int|
                0 <= f < fila && 0 <= c < COLUMNAS_MAPA ==> #[trigger] etiqueta_spec(f, c)
                    != etiqueta@,
        decreases FILAS_MAPA - fila,
    {
        let mut col: usize = 0;
        while col < COLUMNAS_MAPA
            invariant
                fila < FILAS_MAPA,
                col <= COLUMNAS_MAPA,
                forall|f: int, c: int|
                    0 <= f < fila && 0 <= c < COLUMNAS_MAPA ==> #[trigger] etiqueta_spec(f, c)
                        != etiqueta@,
                forall|c: int| 0 <= c < col ==>
                    #[trigger] etiqueta_spec(fila as int, c) != etiqueta@,
            decreases COLUMNAS_MAPA - col,
        {
            if misma_cadena(MAPA_ESTADOS[fila][col], etiqueta) {
                assert(en_mapa(fila as int, col as int) && etiqueta_spec(fila as int, col as int)
                    == etiqueta@);
                return true;
            }
            col += 1;
        }
        fila += 1;
    }
    false
}

/// The reward of the cell that a label names; 0 for a label that the map
/// does not hold.
pub fn recompensa_de(etiqueta: &str) -> (r: i64)
    ensures
        r == recompensa_de_spec(etiqueta@),
{
    if en_el_mapa(etiqueta) {
        recompensa_de_tipo(tipo_de_etiqueta(etiqueta))
    } else {
        0
    }
}

/// The reward of every cell of the map, row by row: entry
/// `fila * COLUMNAS_MAPA + col` is the reward of the cell at that position.
pub fn obtener_recompensas() -> (r: Vec<i64>)
    ensures
        r@.len() == FILAS_MAPA * COLUMNAS_MAPA,
        forall|fila: int, col: int|
            en_mapa(fila, col) ==> r@[fila * COLUMNAS_MAPA + col] == recompensa_de_tipo_spec(
                tipo_de_etiqueta_spec(#[trigger] etiqueta_spec(fila, col)),
            ),
{
    let mut r: Vec<i64> = Vec::new();
    let mut fila: usize = 0;
    while fila < FILAS_MAPA
        invariant
            fila <= FILAS_MAPA,
            r@.len() == fila * COLUMNAS_MAPA,
            forall|f: int, c: int|
                0 <= f < fila && 0 <= c < COLUMNAS_MAPA ==> r@[f * COLUMNAS_MAPA + c]
                    == recompensa_de_tipo_spec(
                    tipo_de_etiqueta_spec(#[trigger] etiqueta_spec(f, c)),
                ),
        decreases FILAS_MAPA - fila,
    {
        let mut col: usize = 0;
        while col < COLUMNAS_MAPA
            invariant
                fila < FILAS_MAPA,
                col <= COLUMNAS_MAPA,
                r@.len() == fila * COLUMNAS_MAPA + col,
                forall|f: int, c: int|
                    0 <= f < fila && 0 <= c < COLUMNAS_MAPA ==> r@[f * COLUMNAS_MAPA + c]
                        == recompensa_de_tipo_spec(
                        tipo_de_etiqueta_spec(#[trigger] etiqueta_spec(f, c)),
                    ),
                forall|c: int|
                    0 <= c < col ==> r@[fila * COLUMNAS_MAPA + c] == recompensa_de_tipo_spec(
                        tipo_de_etiqueta_spec(#[trigger] etiqueta_spec(fila as int, c)),
                    ),
            decreases COLUMNAS_MAPA - col,
        {
            r.push(recompensa_de_tipo(tipo_de_etiqueta(MAPA_ESTADOS[fila][col])));
            col += 1;
        }
        fila += 1;
    }
    r
}

/// The default transition model.
pub open spec fn prob_transicion_spec() -> ModeloTransicion {
    modelo_ruido_spec(100_000, 800_000, 100_000)
}

/// The default transition model: the intended direction with probability
/// 0.8, each of the two perpendicular directions with probability 0.1.
pub fn prob_transicion() -> (m: ModeloTransicion)
    ensures
        m == prob_transicion_spec(),
        forall|a: Accion, d: Accion| #[trigger] m.p(a, d)
            == ruido_spec(100_000, 800_000, 100_000, a, d),
        m.es_valido(),
{
    construir_modelo_ruido(100_000, 800_000, 100_000)
}

/// The kind of each cell of the map by position: the goal in row 3, column 4,
/// four hazards, ten obstacles, and normal cells everywhere else.
pub open spec fn plano_spec(fila: int, col: int) -> Celda {
    if fila == 3 && col == 4 {
        Celda::Meta
    } else if (fila == 0 && col == 2)
        || (fila == 2 && col == 1)
        || (fila == 2 && col == 5)
        || (fila == 4 && col == 6) {
        Celda::Peligro
    } else if (fila == 0 && col == 3)
        || (fila == 0 && col == 5)
        || (fila == 1 && col == 0)
        || (fila == 1 && col == 7)
        || (fila == 2 && col == 3)
        || (fila == 3 && col == 7)
        || (fila == 4 && col == 1)
        || (fila == 4 && col == 2)
        || (fila == 5 && col == 1)
        || (fila == 5 && col == 4) {
        Celda::Obstaculo
    } else {
        Celda::Normal
    }
}

/// Length and first three characters of a label (blank where it is shorter).
pub open spec fn huella(etiqueta: Seq<char>) -> (int, char, char, char) {
    (
        etiqueta.len() as int,
        if etiqueta.len() > 0 {
            etiqueta[0]
        } else {
            ' '
        },
        if etiqueta.len() > 1 {
            etiqueta[1]
        } else {
            ' '
        },
        if etiqueta.len() > 2 {
            etiqueta[2]
        } else {
            ' '
        },
    )
}

/// What each label of the map is made of.
pub proof fn lema_huellas()
    ensures
        huella("S0"@) == (2int, 'S', '0', ' '),
        huella("S1"@) == (2int, 'S', '1', ' '),
        huella("P1"@) == (2int, 'P', '1', ' '),
        huella("O1"@) == (2int, 'O', '1', ' '),
        huella("S3"@) == (2int, 'S', '3', ' '),
        huella("O2"@) == (2int, 'O', '2', ' '),
        huella("S4"@) == (2int, 'S', '4', ' '),
        huella("S5"@) == (2int, 'S', '5', ' '),
        huella("O3"@) == (2int, 'O', '3', ' '),
        huella("S6"@) == (2int, 'S', '6', ' '),
        huella("S7"@) == (2int, 'S', '7', ' '),
        huella("S8"@) == (2int, 'S', '8', ' '),
        huella("S9"@) == (2int, 'S', '9', ' '),
        huella("S10"@) == (3int, 'S', '1', '0'),
        huella("S11"@) == (3int, 'S', '1', '1'),
        huella("O4"@) == (2int, 'O', '4', ' '),
        huella("S12"@) == (3int, 'S', '1', '2'),
        huella("P2"@) == (2int, 'P', '2', ' '),
        huella("S14"@) == (3int, 'S', '1', '4'),
        huella("O5"@) == (2int, 'O', '5', ' '),
        huella("S15"@) == (3int, 'S', '1', '5'),
        huella("P3"@) == (2int, 'P', '3', ' '),
        huella("S17"@) == (3int, 'S', '1', '7'),
        huella("S18"@) == (3int, 'S', '1', '8'),
        huella("S19"@) == (3int, 'S', '1', '9'),
        huella("S20"@) == (3int, 'S', '2', '0'),
        huella("S21"@) == (3int, 'S', '2', '1'),
        huella("S22"@) == (3int, 'S', '2', '2'),
        huella("M"@) == (1int, 'M', ' ', ' '),
        huella("S24"@) == (3int, 'S', '2', '4'),
        huella("S25"@) == (3int, 'S', '2', '5'),
        huella("O6"@) == (2int, 'O', '6', ' '),
        huella("S26"@) == (3int, 'S', '2', '6'),
        huella("O7"@) == (2int, 'O', '7', ' '),
        huella("O8"@) == (2int, 'O', '8', ' '),
        huella("S27"@) == (3int, 'S', '2', '7'),
        huella("S28"@) == (3int, 'S', '2', '8'),
        huella("S29"@) == (3int, 'S', '2', '9'),
        huella("P4"@) == (2int, 'P', '4', ' '),
        huella("S31"@) == (3int, 'S', '3', '1'),
        huella("S32"@) == (3int, 'S', '3', '2'),
        huella("O9"@) == (2int, 'O', '9', ' '),
        huella("S33"@) == (3int, 'S', '3', '3'),
        huella("S34"@) == (3int, 'S', '3', '4'),
        huella("O10"@) == (3int, 'O', '1', '0'),
        huella("S35"@) == (3int, 'S', '3', '5'),
        huella("S36"@) == (3int, 'S', '3', '6'),
        huella("S37"@) == (3int, 'S', '3', '7'),
{
    reveal_strlit("S0");
    reveal_strlit("S1");
    reveal_strlit("P1");
    reveal_strlit("O1");
    reveal_strlit("S3");
    reveal_strlit("O2");
    reveal_strlit("S4");
    reveal_strlit("S5");
    reveal_strlit("O3");
    reveal_strlit("S6");
    reveal_strlit("S7");
    reveal_strlit("S8");
    reveal_strlit("S9");
    reveal_strlit("S10");
    reveal_strlit("S11");
    reveal_strlit("O4");
    reveal_strlit("S12");
    reveal_strlit("P2");
    reveal_strlit("S14");
    reveal_strlit("O5");
    reveal_strlit("S15");
    reveal_strlit("P3");
    reveal_strlit("S17");
    reveal_strlit("S18");
    reveal_strlit("S19");
    reveal_strlit("S20");
    reveal_strlit("S21");
    reveal_strlit("S22");
    reveal_strlit("M");
    reveal_strlit("S24");
    reveal_strlit("S25");
    reveal_strlit("O6");
    reveal_strlit("S26");
    reveal_strlit("O7");
    reveal_strlit("O8");
    reveal_strlit("S27");
    reveal_strlit("S28");
    reveal_strlit("S29");
    reveal_strlit("P4");
    reveal_strlit("S31");
    reveal_strlit("S32");
    reveal_strlit("O9");
    reveal_strlit("S33");
    reveal_strlit("S34");
    reveal_strlit("O10");
    reveal_strlit("S35");
    reveal_strlit("S36");
    reveal_strlit("S37");
}

/// The labels of the map say what `plano_spec` says: the kind read off a
/// cell's label is the kind of its position.
pub proof fn lema_plano(fila: int, col: int)
    requires
        en_mapa(fila, col),
    ensures
        tipo_de_etiqueta_spec(etiqueta_spec(fila, col)) == plano_spec(fila, col),
{
    lema_huellas();
}

/// No two cells of the map carry the same label.
pub proof fn lema_etiquetas_unicas(f1: int, c1: int, f2: int, c2: int)
    requires
        en_mapa(f1, c1),
        en_mapa(f2, c2),
        etiqueta_spec(f1, c1) == etiqueta_spec(f2, c2),
    ensures
        f1 == f2,
        c1 == c2,
{
    lema_huellas();
}

} // verus!
