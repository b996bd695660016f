//! The transition model: for each attempted action, the probability of each
//! effective direction of movement, in millionths.

use crate::config::{Accion, ESCALA};
use vstd::prelude::*;

verus! {

/// `prob[a][d]` is the probability, in millionths, that attempting the action
/// at position `a` of the fixed order moves the agent in the direction at
/// position `d`. A direction that an action never takes holds 0.
#[derive(Clone, Copy, Debug)]
pub struct ModeloTransicion {
    pub prob: [[u32; 4]; 4],
}

impl ModeloTransicion {
    /// Probability of the effective direction `d` when `a` is attempted.
    pub open spec fn p(&self, a: Accion, d: Accion) -> int {
        self.prob[a.indice_spec()][d.indice_spec()] as int
    }

    /// Total probability over the four effective directions of an action.
    pub open spec fn suma_fila(&self, a: Accion) -> int {
        self.p(a, Accion::N) + self.p(a, Accion::S) + self.p(a, Accion::E) + self.p(a, Accion::O)
    }

    /// A model is valid when the outcomes of every action sum to one.
    pub open spec fn es_valido(&self) -> bool {
        forall|a: Accion| #[trigger] self.suma_fila(a) == ESCALA
    }

    /// What a lookup by symbols gives: the entry of the two actions, and 0
    /// when either symbol names no action.
    pub open spec fn probabilidad_de_spec(&self, accion: Seq<char>, resultado: Seq<char>) -> int {
        match (Accion::desde_simbolo_spec(accion), Accion::desde_simbolo_spec(resultado)) {
            (Some(a), Some(d)) => self.p(a, d),
            _ => 0,
        }
    }

    /// Probability of the effective direction `d` when `a` is attempted.
    pub fn probabilidad(&self, a: Accion, d: Accion) -> (r: u32)
        ensures
            r == self.p(a, d),
    {
        self.prob[a.indice()][d.indice()]
    }

    /// Lookup by symbols; a symbol that names no action gives 0.
    pub fn probabilidad_de(&self, accion: &str, resultado: &str) -> (r: u32)
        ensures
            r == self.probabilidad_de_spec(accion@, resultado@),
    {
        match Accion::desde_simbolo(accion) {
            Some(a) => match Accion::desde_simbolo(resultado) {
                Some(d) => self.probabilidad(a, d),
                None => 0,
            },
            None => 0,
        }
    }

    /// Whether the outcomes of every action sum to one.
    pub fn es_estocastico(&self) -> (r: bool)
        ensures
            r == self.es_valido(),
    {
        let mut i: usize = 0;
        while i < 4
            invariant
                i <= 4,
                forall|a: Accion| a.indice_spec() < i ==> #[trigger] self.suma_fila(a) == ESCALA,
            decreases 4 - i,
        {
            let a = Accion::desde_indice(i);
            let suma: u64 = self.prob[i][0] as u64 + self.prob[i][1] as u64 + self.prob[i][2] as u64
                + self.prob[i][3] as u64;
            assert(suma == self.suma_fila(a));
            if suma != ESCALA as u64 {
                return false;
            }
            assert forall|b: Accion| b.indice_spec() < i + 1 implies #[trigger] self.suma_fila(b)
                == ESCALA by {
                if b.indice_spec() == i {
                    assert(b == a);
                }
            }
            i += 1;
        }
        true
    }
}

} // verus!
