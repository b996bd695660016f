//! The transition matrix of an action: entry `[s][t]` is the probability that
//! attempting the action in state `s` leaves the agent in state `t`. A move that
//! leaves the grid or hits an obstacle folds back onto `s`, so the mass of
//! several directions may add up in one entry.

use crate::config::{prob_transicion, prob_transicion_spec, Accion, ESCALA};
use crate::mundo::{lema_destino_en_rango, Mundo, MAX_CELDAS};
use crate::transicion::ModeloTransicion;
use vstd::prelude::*;
use vstd::string::*;

verus! {

/// A dense square matrix of probabilities in millionths, held in an
/// `ndarray::Array2<u32>`. What it holds is `contenido_matriz`.
#[verifier::external_body]
pub struct MatrizTransicion {
    datos: ndarray::Array2<u32>,
}

/// The rows of a matrix, each a sequence of entries.
pub uninterp spec fn contenido_matriz(m: MatrizTransicion) -> Seq<Seq<int>>;

/// Whether rows are `n` sequences of `n` entries.
pub open spec fn es_cuadrada(filas: Seq<Seq<int>>, n: int) -> bool {
    &&& filas.len() == n
    &&& forall|i: int| 0 <= i < n ==> (#[trigger] filas[i]).len() == n
}

/// `ndarray::Array2::<u32>::zeros` on the shape `(n, n)`: a matrix of `n` rows
/// and `n` columns whose entries are all 0. The call panics when the number of
/// entries overflows `isize`; the bound on `n` keeps their size in bytes below
/// that too.
#[verifier::external_body]
fn matriz_ceros(n: usize) -> (m: MatrizTransicion)
    requires
        n <= MAX_CELDAS,
    ensures
        es_cuadrada(contenido_matriz(m), n as int),
        forall|i: int, j: int|
            0 <= i < n && 0 <= j < n ==> #[trigger] contenido_matriz(m)[i][j] == 0,
{
    MatrizTransicion { datos: ndarray::Array2::<u32>::zeros((n, n)) }
}

/// `ndarray::ArrayBase::nrows`: the number of rows.
#[verifier::external_body]
fn matriz_filas(m: &MatrizTransicion) -> (n: usize)
    ensures
        n == contenido_matriz(*m).len(),
{
    m.datos.nrows()
}

/// `ndarray::ArrayBase::ncols`: the number of columns, which is the number of
/// entries of every row.
#[verifier::external_body]
fn matriz_columnas(m: &MatrizTransicion) -> (n: usize)
    ensures
        forall|i: int|
            0 <= i < contenido_matriz(*m).len() ==> (#[trigger] contenido_matriz(*m)[i]).len() == n,
{
    m.datos.ncols()
}

/// Indexing an `ndarray` matrix by `[[i, j]]` to read: the entry of row `i`,
/// column `j`. The index must lie within the matrix.
#[verifier::external_body]
fn matriz_leer(m: &MatrizTransicion, i: usize, j: usize) -> (v: u32)
    requires
        i < contenido_matriz(*m).len(),
        j < contenido_matriz(*m)[i as int].len(),
    ensures
        v == contenido_matriz(*m)[i as int][j as int],
{
    m.datos[[i, j]]
}

/// Indexing an `ndarray` matrix by `[[i, j]]` to write: the entry of row `i`,
/// column `j` becomes `v` and no other entry changes. The index must lie within
/// the matrix.
#[verifier::external_body]
fn matriz_escribir(m: &mut MatrizTransicion, i: usize, j: usize, v: u32)
    requires
        i < contenido_matriz(*old(m)).len(),
        j < contenido_matriz(*old(m))[i as int].len(),
    ensures
        contenido_matriz(*final(m)) == contenido_matriz(*old(m)).update(
            i as int,
            contenido_matriz(*old(m))[i as int].update(j as int, v as int),
        ),
{
    m.datos[[i, j]] = v;
}

/// What direction `d` adds to entry `[s][t]` of the matrix of action `a`: its
/// probability when a move in that direction from `s` ends in `t`, else
/// nothing.
pub open spec fn aporte(
    m: &Mundo,
    modelo: &ModeloTransicion,
    a: Accion,
    s: int,
    t: int,
    d: Accion,
) -> int {
    if m.destino_spec(s, d) == t {
        modelo.p(a, d)
    } else {
        0
    }
}

/// What the first `k` directions of the order N, S, E, O add to entry
/// `[s][t]` of the matrix of action `a`.
pub open spec fn masa_parcial(
    m: &Mundo,
    modelo: &ModeloTransicion,
    a: Accion,
    s: int,
    t: int,
    k: int,
) -> int {
    (if k > 0 {
        aporte(m, modelo, a, s, t, Accion::N)
    } else {
        0
    }) + (if k > 1 {
        aporte(m, modelo, a, s, t, Accion::S)
    } else {
        0
    }) + (if k > 2 {
        aporte(m, modelo, a, s, t, Accion::E)
    } else {
        0
    }) + (if k > 3 {
        aporte(m, modelo, a, s, t, Accion::O)
    } else {
        0
    })
}

/// Entry `[s][t]` of the matrix of action `a`: the probability mass of the
/// directions whose move from `s` ends in `t`.
pub open spec fn masa(m: &Mundo, modelo: &ModeloTransicion, a: Accion, s: int, t: int) -> int {
    masa_parcial(m, modelo, a, s, t, 4)
}

/// The sum of the first `k` entries of a row.
pub open spec fn suma_prefijo(fila: Seq<int>, k: nat) -> int
    decreases k,
{
    if k == 0 {
        0
    } else {
        suma_prefijo(fila, (k - 1) as nat) + fila[k - 1]
    }
}

/// The sum of a row.
pub open spec fn suma_fila(fila: Seq<int>) -> int {
    suma_prefijo(fila, fila.len())
}

/// Whether the rows are the transition matrix of action `a`.
pub open spec fn es_matriz_de(
    filas: Seq<Seq<int>>,
    m: &Mundo,
    modelo: &ModeloTransicion,
    a: Accion,
) -> bool {
    &&& es_cuadrada(filas, m.n())
    &&& forall|s: int, t: int|
        0 <= s < m.n() && 0 <= t < m.n() ==> #[trigger] filas[s][t] == masa(m, modelo, a, s, t)
}

/// Whether the rows are all zeros, `n` by `n`.
pub open spec fn es_matriz_nula(filas: Seq<Seq<int>>, n: int) -> bool {
    &&& es_cuadrada(filas, n)
    &&& forall|s: int, t: int| 0 <= s < n && 0 <= t < n ==> #[trigger] filas[s][t] == 0
}

/// The first `k` entries of a row of the matrix of action `a` hold the mass of
/// the directions that end before state `k`.
pub proof fn lema_suma_prefijo(
    m: &Mundo,
    modelo: &ModeloTransicion,
    a: Accion,
    s: int,
    fila: Seq<int>,
    k: nat,
)
    requires
        m.es_valido(),
        0 <= s < m.n(),
        fila.len() == m.n(),
        k <= m.n(),
        forall|t: int| 0 <= t < m.n() ==> #[trigger] fila[t] == masa(m, modelo, a, s, t),
    ensures
        suma_prefijo(fila, k) == (if m.destino_spec(s, Accion::N) < k {
            modelo.p(a, Accion::N)
        } else {
            0
        }) + (if m.destino_spec(s, Accion::S) < k {
            modelo.p(a, Accion::S)
        } else {
            0
        }) + (if m.destino_spec(s, Accion::E) < k {
            modelo.p(a, Accion::E)
        } else {
            0
        }) + (if m.destino_spec(s, Accion::O) < k {
            modelo.p(a, Accion::O)
        } else {
            0
        }),
    decreases k,
{
    lema_destino_en_rango(m, s, Accion::N);
    lema_destino_en_rango(m, s, Accion::S);
    lema_destino_en_rango(m, s, Accion::E);
    lema_destino_en_rango(m, s, Accion::O);
    if k > 0 {
        lema_suma_prefijo(m, modelo, a, s, fila, (k - 1) as nat);
        assert(fila[k - 1] == masa(m, modelo, a, s, k - 1));
    }
}

/// Every row of the transition matrix of an action sums to the total
/// probability of the action's outcomes: to one, when the model is valid.
pub proof fn lema_filas_suman_uno(
    m: &Mundo,
    modelo: &ModeloTransicion,
    a: Accion,
    filas: Seq<Seq<int>>,
    s: int,
)
    requires
        m.es_valido(),
        es_matriz_de(filas, m, modelo, a),
        0 <= s < m.n(),
    ensures
        suma_fila(filas[s]) == modelo.suma_fila(a),
        modelo.es_valido() ==> suma_fila(filas[s]) == ESCALA,
{
    let fila = filas[s];
    assert forall|t: int| 0 <= t < m.n() implies #[trigger] fila[t] == masa(m, modelo, a, s, t) by {
        assert(filas[s][t] == masa(m, modelo, a, s, t));
    }
    lema_suma_prefijo(m, modelo, a, s, fila, m.n() as nat);
    lema_destino_en_rango(m, s, Accion::N);
    lema_destino_en_rango(m, s, Accion::S);
    lema_destino_en_rango(m, s, Accion::E);
    lema_destino_en_rango(m, s, Accion::O);
    if modelo.es_valido() {
        assert(modelo.suma_fila(a) == ESCALA);
    }
}

impl MatrizTransicion {
    /// Number of rows.
    pub fn lado(&self) -> (n: usize)
        ensures
            n == contenido_matriz(*self).len(),
    {
        matriz_filas(self)
    }

    /// The entry of row `i`, column `j`; none outside the matrix.
    pub fn valor(&self, i: usize, j: usize) -> (r: Option<u32>)
        ensures
            match r {
                Some(v) => i < contenido_matriz(*self).len() && j < contenido_matriz(
                    *self,
                )[i as int].len() && v == contenido_matriz(*self)[i as int][j as int],
                None => i >= contenido_matriz(*self).len() || j >= contenido_matriz(
                    *self,
                )[i as int].len(),
            },
    {
        let filas = matriz_filas(self);
        let columnas = matriz_columnas(self);
        if i < filas && j < columnas {
            Some(matriz_leer(self, i, j))
        } else {
            None
        }
    }

    /// The rows of the matrix, each a vector of its entries.
    pub fn filas(&self) -> (r: Vec<Vec<u32>>)
        ensures
            r@.len() == contenido_matriz(*self).len(),
            forall|i: int|
                0 <= i < r@.len() ==> (#[trigger] r@[i])@.len() == contenido_matriz(*self)[i].len(),
            forall|i: int, j: int|
                0 <= i < r@.len() && 0 <= j < r@[i]@.len() ==> (#[trigger] r@[i]@[j]) as int
                    == contenido_matriz(*self)[i][j],
    {
        let n = matriz_filas(self);
        let c = matriz_columnas(self);
        let mut r: Vec<Vec<u32>> = Vec::new();
        let mut i: usize = 0;
        while i < n
            invariant
                n == contenido_matriz(*self).len(),
                forall|k: int| 0 <= k < n ==> (#[trigger] contenido_matriz(*self)[k]).len() == c,
                i <= n,
                r@.len() == i,
                forall|k: int| 0 <= k < i ==> (#[trigger] r@[k])@.len() == c,
                forall|k: int, j: int|
                    0 <= k < i && 0 <= j < c ==> (#[trigger] r@[k]@[j]) as int == contenido_matriz(
                        *self,
                    )[k][j],
            decreases n - i,
        {
            let mut fila: Vec<u32> = Vec::new();
            let mut j: usize = 0;
            while j < c
                invariant
                    n == contenido_matriz(*self).len(),
                    contenido_matriz(*self)[i as int].len() == c,
                    i < n,
                    j <= c,
                    fila@.len() == j,
                    forall|k: int|
                        0 <= k < j ==> (#[trigger] fila@[k]) as int == contenido_matriz(
                            *self,
                        )[i as int][k],
                decreases c - j,
            {
                fila.push(matriz_leer(self, i, j));
                j += 1;
            }
            r.push(fila);
            i += 1;
        }
        r
    }
}

/// The transition matrix of an action under a model: for every state `s` and
/// every direction, the direction's probability is added to the entry of `s`
/// and of the state where that move ends. Every row sums to one.
pub fn matriz_de_accion(
    mundo: &Mundo,
    modelo: &ModeloTransicion,
    a: Accion,
) -> (r: MatrizTransicion)
    requires
        mundo.es_valido(),
        modelo.es_valido(),
    ensures
        es_matriz_de(contenido_matriz(r), mundo, modelo, a),
        forall|s: int| 0 <= s < mundo.n() ==>
            suma_fila(#[trigger] contenido_matriz(r)[s]) == ESCALA,
{
    let n = mundo.total_estados();
    let mut matriz = matriz_ceros(n);
    let mut s: usize = 0;
    while s < n
        invariant
            mundo.es_valido(),
            modelo.es_valido(),
            n == mundo.n(),
            s <= n,
            es_cuadrada(contenido_matriz(matriz), n as int),
            forall|i: int, t: int|
                0 <= i < s && 0 <= t < n ==> #[trigger] contenido_matriz(matriz)[i][t] == masa(
                    mundo,
                    modelo,
                    a,
                    i,
                    t,
                ),
            forall|i: int, t: int|
                s <= i < n && 0 <= t < n ==> #[trigger] contenido_matriz(matriz)[i][t] == 0,
        decreases n - s,
    {
        let mut k: usize = 0;
        while k < 4
            invariant
                mundo.es_valido(),
                modelo.es_valido(),
                n == mundo.n(),
                s < n,
                k <= 4,
                es_cuadrada(contenido_matriz(matriz), n as int),
                forall|i: int, t: int|
                    0 <= i < s && 0 <= t < n ==> #[trigger] contenido_matriz(matriz)[i][t] == masa(
                        mundo,
                        modelo,
                        a,
                        i,
                        t,
                    ),
                forall|t: int|
                    0 <= t < n ==> #[trigger] contenido_matriz(matriz)[s as int][t] == masa_parcial(
                        mundo,
                        modelo,
                        a,
                        s as int,
                        t,
                        k as int,
                    ),
                forall|i: int, t: int|
                    s < i < n && 0 <= t < n ==> #[trigger] contenido_matriz(matriz)[i][t] == 0,
            decreases 4 - k,
        {
            let d = Accion::desde_indice(k);
            let t = mundo.destino(s, d);
            let p = modelo.probabilidad(a, d);
            let ghost antes = contenido_matriz(matriz);
            assert(antes[s as int].len() == n);
            let v = matriz_leer(&matriz, s, t);
            proof {
                assert(modelo.suma_fila(a) == ESCALA);
                assert(v == masa_parcial(mundo, modelo, a, s as int, t as int, k as int));
            }
            matriz_escribir(&mut matriz, s, t, v + p);
            proof {
                let despues = contenido_matriz(matriz);
                assert(despues[s as int] == antes[s as int].update(t as int, (v + p) as int));
                assert forall|i: int| 0 <= i < n implies (#[trigger] despues[i]).len() == n by {
                    if i != s {
                        assert(despues[i] == antes[i]);
                    }
                }
                assert forall|i: int, u: int| 0 <= i < s && 0 <= u < n implies
                    #[trigger] despues[i][u]
                    == masa(mundo, modelo, a, i, u) by {
                    assert(despues[i] == antes[i]);
                    assert(antes[i][u] == masa(mundo, modelo, a, i, u));
                }
                assert forall|i: int, u: int| s < i < n && 0 <= u < n implies
                    #[trigger] despues[i][u]
                    == 0 by {
                    assert(despues[i] == antes[i]);
                    assert(antes[i][u] == 0);
                }
                assert forall|u: int| 0 <= u < n implies #[trigger] despues[s as int][u]
                    == masa_parcial(mundo, modelo, a, s as int, u, k + 1) by {
                    assert(antes[s as int][u] == masa_parcial(
                        mundo,
                        modelo,
                        a,
                        s as int,
                        u,
                        k as int,
                    ));
                }
            }
            k += 1;
        }
        s += 1;
    }
    proof {
        let filas = contenido_matriz(matriz);
        assert(es_matriz_de(filas, mundo, modelo, a));
        assert forall|i: int| 0 <= i < mundo.n() implies
            suma_fila(#[trigger] filas[i]) == ESCALA by {
            lema_filas_suman_uno(mundo, modelo, a, filas, i);
        }
    }
    matriz
}

/// The transition matrix of the action that a symbol names, under the default
/// transition model. A symbol that names no action gives a matrix of zeros.
pub fn construir_matriz_transicion(mundo: &Mundo, accion: &str) -> (r: MatrizTransicion)
    requires
        mundo.es_valido(),
    ensures
        match Accion::desde_simbolo_spec(accion@) {
            Some(a) => {
                &&& es_matriz_de(contenido_matriz(r), mundo, &prob_transicion_spec(), a)
                &&& forall|s: int|
                    0 <= s < mundo.n() ==> suma_fila(#[trigger] contenido_matriz(r)[s]) == ESCALA
            },
            None => es_matriz_nula(contenido_matriz(r), mundo.n()),
        },
{
    match Accion::desde_simbolo(accion) {
        Some(a) => {
            let modelo = prob_transicion();
            matriz_de_accion(mundo, &modelo, a)
        },
        None => matriz_ceros(mundo.total_estados()),
    }
}

/// The name of the file that holds the matrix of an action.
pub open spec fn nombre_archivo_spec(a: Accion) -> Seq<char> {
    "matriz_transicion_"@ + a.simbolo_spec() + ".csv"@
}

/// The name of the file that holds the matrix of an action:
/// `matriz_transicion_`, the action's symbol and `.csv`.
pub fn nombre_archivo(a: Accion) -> (s: String)
    ensures
        s@ == nombre_archivo_spec(a),
{
    let mut s = String::from_str("matriz_transicion_");
    s.append(a.simbolo());
    s.append(".csv");
    s
}

} // verus!
