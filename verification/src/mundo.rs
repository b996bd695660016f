//! The topology of a grid world: a rectangular layout of cells, each normal,
//! hazardous, an obstacle or the goal. The cells that are not obstacles are the
//! states; they are numbered densely, row by row.

use crate::config::{
    en_mapa, etiqueta_spec, lema_plano, plano_spec, recompensa_de_tipo, recompensa_de_tipo_spec,
    tipo_de_etiqueta, tipo_de_etiqueta_spec, Accion, Celda, COLUMNAS_MAPA, FILAS_MAPA,
    MAPA_ESTADOS, RECOMPENSA_META,
};
use vstd::prelude::*;

verus! {

/// Largest number of cells of a world.
pub const MAX_CELDAS: usize = 10_000;

/// A grid world. `tipos` holds the kind of each cell, row by row; `celdas[s]`
/// is the cell of state `s`; `estados[k]` is the state of cell `k`, and `None`
/// for an obstacle; `meta` is the state of the goal.
pub struct Mundo {
    pub filas: usize,
    pub columnas: usize,
    pub tipos: Vec<Celda>,
    pub celdas: Vec<usize>,
    pub estados: Vec<Option<usize>>,
    pub meta: usize,
}

/// The position one step away in a direction. No bound is looked at.
pub open spec fn paso_spec(fila: int, col: int, d: Accion) -> (int, int) {
    match d {
        Accion::N => (fila - 1, col),
        Accion::S => (fila + 1, col),
        Accion::E => (fila, col + 1),
        Accion::O => (fila, col - 1),
    }
}

/// A layout from which a world can be made: as many kinds as cells, no more
/// than `MAX_CELDAS` of them, and exactly one goal.
pub open spec fn mapa_admisible(filas: int, columnas: int, tipos: Seq<Celda>) -> bool {
    &&& filas * columnas == tipos.len()
    &&& tipos.len() <= MAX_CELDAS
    &&& exists|k: int|
        0 <= k < tipos.len() && #[trigger] tipos[k] == Celda::Meta && forall|j: int|
            0 <= j < tipos.len() && j != k ==> #[trigger] tipos[j] != Celda::Meta
}

impl Mundo {
    /// Number of states.
    pub open spec fn n(&self) -> int {
        self.celdas@.len() as int
    }

    /// The states are exactly the cells that are not obstacles, numbered in
    /// row-major order, and exactly one cell is the goal.
    pub open spec fn es_valido(&self) -> bool {
        &&& self.filas * self.columnas == self.tipos@.len()
        &&& self.tipos@.len() <= MAX_CELDAS
        &&& self.estados@.len() == self.tipos@.len()
        &&& self.celdas@.len() <= self.tipos@.len()
        &&& forall|s: int|
            0 <= s < self.celdas@.len() ==> {
                &&& (#[trigger] self.celdas@[s]) < self.tipos@.len()
                &&& self.tipos@[self.celdas@[s] as int] != Celda::Obstaculo
                &&& self.estados@[self.celdas@[s] as int] == Some(s as usize)
            }
        &&& forall|k: int|
            0 <= k < self.tipos@.len() ==> match #[trigger] self.estados@[k] {
                Some(s) => s < self.celdas@.len() && self.celdas@[s as int] == k && self.tipos@[k]
                    != Celda::Obstaculo,
                None => self.tipos@[k] == Celda::Obstaculo,
            }
        &&& forall|s1: int, s2: int|
            0 <= s1 < s2 < self.celdas@.len() ==> #[trigger] self.celdas@[s1]
                < #[trigger] self.celdas@[s2]
        &&& self.meta < self.celdas@.len()
        &&& forall|k: int|
            0 <= k < self.tipos@.len() ==> (#[trigger] self.tipos@[k] == Celda::Meta <==> k
                == self.celdas@[self.meta as int])
    }

    /// Kind of the cell of a state.
    pub open spec fn tipo_spec(&self, s: int) -> Celda {
        self.tipos@[self.celdas@[s] as int]
    }

    /// Reward of a state.
    pub open spec fn recompensa_spec(&self, s: int) -> int {
        recompensa_de_tipo_spec(self.tipo_spec(s))
    }

    /// Row and column of a state.
    pub open spec fn posicion_spec(&self, s: int) -> (int, int) {
        (self.celdas@[s] as int / self.columnas as int,
            self.celdas@[s] as int % self.columnas as int)
    }

    /// The state at a position: none outside the grid, none on an obstacle.
    pub open spec fn estado_en_spec(&self, fila: int, col: int) -> Option<int> {
        if 0 <= fila < self.filas && 0 <= col < self.columnas {
            match self.estados@[fila * self.columnas + col] {
                Some(s) => Some(s as int),
                None => None,
            }
        } else {
            None
        }
    }

    /// Where a move in direction `d` from state `s` ends: the neighbouring
    /// state, or `s` itself when the move leaves the grid or hits an obstacle.
    pub open spec fn destino_spec(&self, s: int, d: Accion) -> int {
        let (fila, col) = self.posicion_spec(s);
        let (f2, c2) = paso_spec(fila, col, d);
        match self.estado_en_spec(f2, c2) {
            Some(t) => t,
            None => s,
        }
    }

    /// Makes the world of a layout, numbering its states. `None` when the
    /// layout is not admissible.
    pub fn nuevo(filas: usize, columnas: usize, tipos: Vec<Celda>) -> (r: Option<Mundo>)
        ensures
            r is Some <==> mapa_admisible(filas as int, columnas as int, tipos@),
            r matches Some(m) ==> m.es_valido() && m.filas == filas && m.columnas == columnas
                && m.tipos@ == tipos@,
    {
        let total = tipos.len();
        if total > MAX_CELDAS {
            return None;
        }
        match filas.checked_mul(columnas) {
            Some(producto) => {
                if producto != total {
                    return None;
                }
            },
            None => {
                return None;
            },
        }
        let mut celdas: Vec<usize> = Vec::new();
        let mut estados: Vec<Option<usize>> = Vec::new();
        let mut metas: usize = 0;
        let mut meta: usize = 0;
        let mut k: usize = 0;
        while k < total
            invariant
                total == tipos@.len(),
                total <= MAX_CELDAS,
                k <= total,
                estados@.len() == k,
                celdas@.len() <= k,
                forall|s: int|
                    0 <= s < celdas@.len() ==> {
                        &&& (#[trigger] celdas@[s]) < k
                        &&& tipos@[celdas@[s] as int] != Celda::Obstaculo
                        &&& estados@[celdas@[s] as int] == Some(s as usize)
                    },
                forall|j: int|
                    0 <= j < k ==> match #[trigger] estados@[j] {
                        Some(s) => s < celdas@.len() && celdas@[s as int] == j && tipos@[j]
                            != Celda::Obstaculo,
                        None => tipos@[j] == Celda::Obstaculo,
                    },
                forall|s1: int, s2: int|
                    0 <= s1 < s2 < celdas@.len() ==>
                        #[trigger] celdas@[s1] < #[trigger] celdas@[s2],
                metas <= 2,
                metas == 0 ==> forall|j: int| 0 <= j < k ==> #[trigger] tipos@[j] != Celda::Meta,
                metas == 1 ==> meta < celdas@.len() && forall|j: int|
                    0 <= j < k ==>
                        (#[trigger] tipos@[j] == Celda::Meta <==> j == celdas@[meta as int]),
                metas == 2 ==> exists|j1: int, j2: int|
                    0 <= j1 < j2 < k && #[trigger] tipos@[j1] == Celda::Meta
                        && #[trigger] tipos@[j2]
                        == Celda::Meta,
            decreases total - k,
        {
            let ghost celdas_antes = celdas@;
            let ghost estados_antes = estados@;
            match tipos[k] {
                Celda::Obstaculo => {
                    estados.push(None);
                },
                Celda::Meta => {
                    if metas == 0 {
                        metas = 1;
                        meta = celdas.len();
                    } else {
                        proof {
                            if metas == 1 {
                                assert(tipos@[celdas_antes[meta as int] as int] == Celda::Meta);
                                assert(tipos@[k as int] == Celda::Meta);
                            }
                        }
                        metas = 2;
                    }
                    estados.push(Some(celdas.len()));
                    celdas.push(k);
                },
                _ => {
                    estados.push(Some(celdas.len()));
                    celdas.push(k);
                },
            }
            proof {
                assert forall|j: int| 0 <= j < k + 1 implies match #[trigger] estados@[j] {
                    Some(s) => s < celdas@.len() && celdas@[s as int] == j && tipos@[j]
                        != Celda::Obstaculo,
                    None => tipos@[j] == Celda::Obstaculo,
                } by {
                    if j < k {
                        assert(estados@[j] == estados_antes[j]);
                    }
                }
                assert forall|s: int| 0 <= s < celdas@.len() implies {
                    &&& (#[trigger] celdas@[s]) < k + 1
                    &&& tipos@[celdas@[s] as int] != Celda::Obstaculo
                    &&& estados@[celdas@[s] as int] == Some(s as usize)
                } by {
                    if s < celdas_antes.len() {
                        assert(celdas@[s] == celdas_antes[s]);
                        assert(estados@[celdas@[s] as int] == estados_antes[celdas@[s] as int]);
                    }
                }
            }
            k += 1;
        }
        if metas != 1 {
            proof {
                if metas == 0 {
                    assert(!mapa_admisible(filas as int, columnas as int, tipos@));
                } else {
                    let (j1, j2) = choose|j1: int, j2: int|
                        0 <= j1 < j2 < k && #[trigger] tipos@[j1] == Celda::Meta
                            && #[trigger] tipos@[j2] == Celda::Meta;
                    assert(!mapa_admisible(filas as int, columnas as int, tipos@));
                }
            }
            return None;
        }
        let m = Mundo { filas, columnas, tipos, celdas, estados, meta };
        proof {
            assert(m.tipos@[m.celdas@[meta as int] as int] == Celda::Meta);
        }
        Some(m)
    }

    /// Number of states.
    pub fn total_estados(&self) -> (n: usize)
        ensures
            n == self.n(),
    {
        self.celdas.len()
    }

    /// Kind of the cell of a state.
    pub fn tipo(&self, s: usize) -> (t: Celda)
        requires
            self.es_valido(),
            s < self.n(),
        ensures
            t == self.tipo_spec(s as int),
    {
        self.tipos[self.celdas[s]]
    }

    /// Reward of a state.
    pub fn recompensa(&self, s: usize) -> (r: i64)
        requires
            self.es_valido(),
            s < self.n(),
        ensures
            r == self.recompensa_spec(s as int),
    {
        recompensa_de_tipo(self.tipo(s))
    }

    /// Row and column of a state.
    pub fn posicion(&self, s: usize) -> (p: (usize, usize))
        requires
            self.es_valido(),
            s < self.n(),
        ensures
            p.0 == self.posicion_spec(s as int).0,
            p.1 == self.posicion_spec(s as int).1,
            p.0 < self.filas,
            p.1 < self.columnas,
            p.0 * self.columnas + p.1 == self.celdas@[s as int],
    {
        let k = self.celdas[s];
        proof {
            lema_celda_en_rejilla(self.filas as int, self.columnas as int, k as int);
        }
        (k / self.columnas, k % self.columnas)
    }

    /// The state at a position: none outside the grid, none on an obstacle.
    pub fn estado_en(&self, fila: isize, col: isize) -> (r: Option<usize>)
        requires
            self.es_valido(),
        ensures
            match r {
                Some(s) => self.estado_en_spec(fila as int, col as int) == Some(s as int) && s
                    < self.n(),
                None => self.estado_en_spec(fila as int, col as int) is None,
            },
    {
        if fila < 0 || col < 0 {
            return None;
        }
        let f = fila as usize;
        let c = col as usize;
        if f >= self.filas || c >= self.columnas {
            return None;
        }
        proof {
            lema_posicion_en_rejilla(self.filas as int, self.columnas as int, f as int, c as int);
        }
        self.estados[f * self.columnas + c]
    }

    /// Where a move in direction `d` from state `s` ends.
    pub fn destino(&self, s: usize, d: Accion) -> (t: usize)
        requires
            self.es_valido(),
            s < self.n(),
        ensures
            t == self.destino_spec(s as int, d),
            t < self.n(),
    {
        let (fila, col) = self.posicion(s);
        let f = fila as isize;
        let c = col as isize;
        let r = match d {
            Accion::N => self.estado_en(f - 1, c),
            Accion::S => self.estado_en(f + 1, c),
            Accion::E => self.estado_en(f, c + 1),
            Accion::O => self.estado_en(f, c - 1),
        };
        match r {
            Some(t) => t,
            None => s,
        }
    }
}

/// The number of cells that are not obstacles among the first `k` of a
/// layout.
pub open spec fn libres_antes(tipos: Seq<Celda>, k: int) -> int
    decreases k,
{
    if k <= 0 {
        0
    } else {
        libres_antes(tipos, k - 1) + if tipos[k - 1] == Celda::Obstaculo {
            0int
        } else {
            1int
        }
    }
}

/// Among the first `k` cells of a valid world lie exactly its first
/// `libres_antes(k)` states.
pub proof fn lema_estados_antes(m: &Mundo, k: int)
    requires
        m.es_valido(),
        0 <= k <= m.tipos@.len(),
    ensures
        0 <= libres_antes(m.tipos@, k) <= m.n(),
        forall|s: int|
            0 <= s < m.n() ==> (#[trigger] m.celdas@[s] < k <==> s < libres_antes(m.tipos@, k)),
    decreases k,
{
    if k > 0 {
        lema_estados_antes(m, k - 1);
        let c = libres_antes(m.tipos@, k - 1);
        match m.estados@[k - 1] {
            Some(t) => {
                assert(m.celdas@[t as int] == k - 1);
                if t > c {
                    assert(m.celdas@[c] < m.celdas@[t as int]);
                }
                assert(t == c);
                assert forall|s: int| 0 <= s < m.n() implies (#[trigger] m.celdas@[s] < k <==> s < c
                    + 1) by {
                    if s < c {
                        assert(m.celdas@[s] < k - 1);
                    } else if s > c {
                        assert(m.celdas@[c] < m.celdas@[s]);
                    }
                }
            },
            None => {
                assert forall|s: int| 0 <= s < m.n() implies (#[trigger] m.celdas@[s] < k <==> s
                    < c) by {
                    assert(m.tipos@[m.celdas@[s] as int] != Celda::Obstaculo);
                }
            },
        }
    }
}

/// The numbering of a valid world: the states are as many as the cells that
/// are not obstacles, and the state of such a cell is the number of cells that
/// are not obstacles before it.
pub proof fn lema_numeracion(m: &Mundo, k: int)
    requires
        m.es_valido(),
        0 <= k < m.tipos@.len(),
    ensures
        m.n() == libres_antes(m.tipos@, m.tipos@.len() as int),
        m.tipos@[k] != Celda::Obstaculo ==> m.estados@[k] == Some(
            libres_antes(m.tipos@, k) as usize,
        ),
{
    let total = m.tipos@.len() as int;
    lema_estados_antes(m, total);
    if m.n() > libres_antes(m.tipos@, total) {
        let s = m.n() - 1;
        assert(m.celdas@[s] < total);
    }
    lema_estados_antes(m, k);
    lema_estados_antes(m, k + 1);
    match m.estados@[k] {
        Some(t) => {
            assert(m.celdas@[t as int] == k);
        },
        None => {},
    }
}

/// The first `s` states of two valid worlds of the same layout are the same
/// cells.
pub proof fn lema_prefijo_de_celdas(a: &Mundo, b: &Mundo, s: int)
    requires
        a.es_valido(),
        b.es_valido(),
        a.tipos@ == b.tipos@,
        0 <= s <= a.n(),
    ensures
        s <= b.n(),
        forall|i: int| 0 <= i < s ==> #[trigger] a.celdas@[i] == b.celdas@[i],
    decreases s,
{
    if s > 0 {
        lema_prefijo_de_celdas(a, b, s - 1);
        let i = s - 1;
        let k = a.celdas@[i] as int;
        assert(a.tipos@[k] != Celda::Obstaculo);
        match b.estados@[k] {
            Some(t) => {
                assert(b.celdas@[t as int] == k);
                if t < i {
                    assert(a.celdas@[t as int] == b.celdas@[t as int]);
                    assert(a.celdas@[t as int] < a.celdas@[i]);
                } else if t > i {
                    let k2 = b.celdas@[i] as int;
                    assert(b.celdas@[i] < b.celdas@[t as int]);
                    assert(b.tipos@[k2] != Celda::Obstaculo);
                    match a.estados@[k2] {
                        Some(u) => {
                            assert(a.celdas@[u as int] == k2);
                            if u >= i {
                                if u > i {
                                    assert(a.celdas@[i] < a.celdas@[u as int]);
                                }
                            } else {
                                assert(a.celdas@[u as int] == b.celdas@[u as int]);
                                assert(b.celdas@[u as int] < b.celdas@[i]);
                            }
                        },
                        None => {},
                    }
                }
            },
            None => {},
        }
    }
}

/// A layout has one numbering: two valid worlds with the same kinds of cells
/// have the same states, in the same cells, and the same goal.
pub proof fn lema_numeracion_unica(a: &Mundo, b: &Mundo)
    requires
        a.es_valido(),
        b.es_valido(),
        a.tipos@ == b.tipos@,
    ensures
        a.celdas@ == b.celdas@,
        a.estados@ == b.estados@,
        a.meta == b.meta,
{
    lema_prefijo_de_celdas(a, b, a.n());
    lema_prefijo_de_celdas(b, a, b.n());
    assert(a.celdas@ =~= b.celdas@);
    assert forall|k: int| 0 <= k < a.estados@.len() implies a.estados@[k] == b.estados@[k] by {
        match a.estados@[k] {
            Some(s) => {
                match b.estados@[k] {
                    Some(t) => {
                        if s < t {
                            assert(b.celdas@[s as int] < b.celdas@[t as int]);
                        } else if t < s {
                            assert(b.celdas@[t as int] < b.celdas@[s as int]);
                        }
                    },
                    None => {},
                }
            },
            None => {},
        }
    }
    assert(a.estados@ =~= b.estados@);
    let ka = a.celdas@[a.meta as int] as int;
    let kb = b.celdas@[b.meta as int] as int;
    assert(a.tipos@[ka] == Celda::Meta);
    assert(b.tipos@[kb] == Celda::Meta);
    assert(ka == kb);
    if a.meta < b.meta {
        assert(b.celdas@[a.meta as int] < b.celdas@[b.meta as int]);
    } else if b.meta < a.meta {
        assert(b.celdas@[b.meta as int] < b.celdas@[a.meta as int]);
    }
}

/// A move from a state of a valid world ends in a state of that world.
pub proof fn lema_destino_en_rango(m: &Mundo, s: int, d: Accion)
    requires
        m.es_valido(),
        0 <= s < m.n(),
    ensures
        0 <= m.destino_spec(s, d) < m.n(),
{
    let k = m.celdas@[s] as int;
    lema_celda_en_rejilla(m.filas as int, m.columnas as int, k);
    let (fila, col) = m.posicion_spec(s);
    let (f2, c2) = paso_spec(fila, col, d);
    if 0 <= f2 < m.filas && 0 <= c2 < m.columnas {
        lema_posicion_en_rejilla(m.filas as int, m.columnas as int, f2, c2);
        let k2 = f2 * m.columnas + c2;
        assert(0 <= k2 < m.tipos@.len());
        match m.estados@[k2] {
            Some(t) => {
                assert(t < m.celdas@.len());
            },
            None => {},
        }
    }
}

/// The goal of a valid world is a goal cell, so its reward is the goal's.
pub proof fn lema_recompensa_meta(m: &Mundo)
    requires
        m.es_valido(),
    ensures
        m.tipo_spec(m.meta as int) == Celda::Meta,
        m.recompensa_spec(m.meta as int) == RECOMPENSA_META,
{
    let k = m.celdas@[m.meta as int] as int;
    assert(m.tipos@[k] == Celda::Meta);
}

/// A cell index below `filas * columnas` splits into a row below `filas` and a
/// column below `columnas`.
pub proof fn lema_celda_en_rejilla(filas: int, columnas: int, k: int)
    requires
        0 <= filas,
        0 <= columnas,
        0 <= k < filas * columnas,
    ensures
        columnas > 0,
        0 <= k / columnas < filas,
        0 <= k % columnas < columnas,
        (k / columnas) * columnas + k % columnas == k,
{
    assert(columnas > 0) by (nonlinear_arith)
        requires
            0 <= columnas,
            0 <= k < filas * columnas,
    ;
    vstd::arithmetic::div_mod::lemma_fundamental_div_mod(k, columnas);
    vstd::arithmetic::div_mod::lemma_mod_bound(k, columnas);
    let q = k / columnas;
    let r = k % columnas;
    assert(k == columnas * q + r);
    assert(0 <= q < filas) by (nonlinear_arith)
        requires
            k == columnas * q + r,
            0 <= r < columnas,
            0 <= k < filas * columnas,
            0 <= filas,
    ;
    assert(q * columnas == columnas * q) by (nonlinear_arith);
}

/// A row below `filas` and a column below `columnas` make a cell index below
/// `filas * columnas`, from which they are read back.
pub proof fn lema_posicion_en_rejilla(filas: int, columnas: int, fila: int, col: int)
    requires
        0 <= fila < filas,
        0 <= col < columnas,
    ensures
        0 <= fila * columnas + col < filas * columnas,
        (fila * columnas + col) / columnas == fila,
        (fila * columnas + col) % columnas == col,
{
    assert(0 <= fila * columnas + col < filas * columnas) by (nonlinear_arith)
        requires
            0 <= fila < filas,
            0 <= col < columnas,
    ;
    vstd::arithmetic::div_mod::lemma_fundamental_div_mod_converse(
        fila * columnas + col,
        columnas,
        fila,
        col,
    );
}

/// Whether a world is the world of the map: its size, and the kind of each
/// cell read off the cell's label.
pub open spec fn es_mundo_del_mapa(m: &Mundo) -> bool {
    &&& m.es_valido()
    &&& m.filas == FILAS_MAPA
    &&& m.columnas == COLUMNAS_MAPA
    &&& forall|fila: int, col: int|
        en_mapa(fila, col) ==> m.tipos@[fila * COLUMNAS_MAPA + col] == tipo_de_etiqueta_spec(
            #[trigger] etiqueta_spec(fila, col),
        )
}

/// The world of the map `MAPA_ESTADOS`: the kind of each cell is read off its
/// label. It has 38 states, and the goal is state 23.
pub fn mundo_base() -> (m: Mundo)
    ensures
        es_mundo_del_mapa(&m),
        m.n() == 38,
        m.meta == 23,
{
    let mut tipos: Vec<Celda> = Vec::new();
    let mut fila: usize = 0;
    while fila < FILAS_MAPA
        invariant
            fila <= FILAS_MAPA,
            tipos@.len() == fila * COLUMNAS_MAPA,
            forall|f: int, c: int|
                0 <= f < fila && 0 <= c < COLUMNAS_MAPA ==> tipos@[f * COLUMNAS_MAPA + c]
                    == tipo_de_etiqueta_spec(#[trigger] etiqueta_spec(f, c)),
        decreases FILAS_MAPA - fila,
    {
        let mut col: usize = 0;
        while col < COLUMNAS_MAPA
            invariant
                fila < FILAS_MAPA,
                col <= COLUMNAS_MAPA,
                tipos@.len() == fila * COLUMNAS_MAPA + col,
                forall|f: int, c: int|
                    0 <= f < fila && 0 <= c < COLUMNAS_MAPA ==> tipos@[f * COLUMNAS_MAPA + c]
                        == tipo_de_etiqueta_spec(#[trigger] etiqueta_spec(f, c)),
                forall|c: int|
                    0 <= c < col ==> tipos@[fila * COLUMNAS_MAPA + c] == tipo_de_etiqueta_spec(
                        #[trigger] etiqueta_spec(fila as int, c),
                    ),
            decreases COLUMNAS_MAPA - col,
        {
            tipos.push(tipo_de_etiqueta(MAPA_ESTADOS[fila][col]));
            col += 1;
        }
        fila += 1;
    }
    proof {
        assert forall|k: int| 0 <= k < 48 implies
            #[trigger] tipos@[k] == plano_spec(k / 8, k % 8) by {
            let f = k / 8;
            let c = k % 8;
            assert(en_mapa(f, c));
            assert(f * COLUMNAS_MAPA + c == k);
            assert(tipos@[f * COLUMNAS_MAPA + c] == tipo_de_etiqueta_spec(etiqueta_spec(f, c)));
            lema_plano(f, c);
        }
        assert(tipos@[28] == Celda::Meta);
        assert(mapa_admisible(FILAS_MAPA as int, COLUMNAS_MAPA as int, tipos@));
    }
    let ghost plano = tipos@;
    let m = Mundo::nuevo(FILAS_MAPA, COLUMNAS_MAPA, tipos).unwrap();
    proof {
        lema_libres_del_mapa(plano);
        lema_numeracion(&m, 28);
        assert(m.estados@[28] == Some(23usize));
    }
    m
}

/// The map has 38 cells that are not obstacles, 23 of them before the goal.
proof fn lema_libres_del_mapa(tipos: Seq<Celda>)
    requires
        tipos.len() == 48,
        forall|k: int| 0 <= k < 48 ==> #[trigger] tipos[k] == plano_spec(k / 8, k % 8),
    ensures
        libres_antes(tipos, 28) == 23,
        libres_antes(tipos, 48) == 38,
{
    assert(libres_antes(tipos, 0) == 0);
    assert(libres_antes(tipos, 1) == 1);
    assert(libres_antes(tipos, 2) == 2);
    assert(libres_antes(tipos, 3) == 3);
    assert(libres_antes(tipos, 4) == 3);
    assert(libres_antes(tipos, 5) == 4);
    assert(libres_antes(tipos, 6) == 4);
    assert(libres_antes(tipos, 7) == 5);
    assert(libres_antes(tipos, 8) == 6);
    assert(libres_antes(tipos, 9) == 6);
    assert(libres_antes(tipos, 10) == 7);
    assert(libres_antes(tipos, 11) == 8);
    assert(libres_antes(tipos, 12) == 9);
    assert(libres_antes(tipos, 13) == 10);
    assert(libres_antes(tipos, 14) == 11);
    assert(libres_antes(tipos, 15) == 12);
    assert(libres_antes(tipos, 16) == 12);
    assert(libres_antes(tipos, 17) == 13);
    assert(libres_antes(tipos, 18) == 14);
    assert(libres_antes(tipos, 19) == 15);
    assert(libres_antes(tipos, 20) == 15);
    assert(libres_antes(tipos, 21) == 16);
    assert(libres_antes(tipos, 22) == 17);
    assert(libres_antes(tipos, 23) == 18);
    assert(libres_antes(tipos, 24) == 19);
    assert(libres_antes(tipos, 25) == 20);
    assert(libres_antes(tipos, 26) == 21);
    assert(libres_antes(tipos, 27) == 22);
    assert(libres_antes(tipos, 28) == 23);
    assert(libres_antes(tipos, 29) == 24);
    assert(libres_antes(tipos, 30) == 25);
    assert(libres_antes(tipos, 31) == 26);
    assert(libres_antes(tipos, 32) == 26);
    assert(libres_antes(tipos, 33) == 27);
    assert(libres_antes(tipos, 34) == 27);
    assert(libres_antes(tipos, 35) == 27);
    assert(libres_antes(tipos, 36) == 28);
    assert(libres_antes(tipos, 37) == 29);
    assert(libres_antes(tipos, 38) == 30);
    assert(libres_antes(tipos, 39) == 31);
    assert(libres_antes(tipos, 40) == 32);
    assert(libres_antes(tipos, 41) == 33);
    assert(libres_antes(tipos, 42) == 33);
    assert(libres_antes(tipos, 43) == 34);
    assert(libres_antes(tipos, 44) == 35);
    assert(libres_antes(tipos, 45) == 35);
    assert(libres_antes(tipos, 46) == 36);
    assert(libres_antes(tipos, 47) == 37);
    assert(libres_antes(tipos, 48) == 38);
}

} // verus!
