//! Satisfaction of a set of named sensor readings against preferences: each
//! reading is normalised within its range (toward the minimum or the
//! maximum, as configured) and weighted.

use vstd::prelude::*;

use crate::fixed::{mul_div, SCALE, VAL_LIMIT};

verus! {

/// One reading with its feasible range and its direction of preference.
#[derive(Clone, Copy, Debug, PartialEq, Eq, Structural)]
pub struct ValoresSatisfaccion {
    pub valor: i64,
    pub minimo: i64,
    pub maximo: i64,
    pub is_min: bool,
}

impl ValoresSatisfaccion {
    /// Range in order, reading inside it, everything within the fixed-point
    /// limits.
    pub open spec fn wf(self) -> bool {
        &&& -VAL_LIMIT <= self.minimo
        &&& self.minimo < self.maximo
        &&& self.maximo <= VAL_LIMIT
        &&& self.minimo <= self.valor <= self.maximo
    }
}

/// A sensor triple; kept for callers that group their readings this way.
#[derive(Clone, Copy)]
pub struct ValoresSensores {
    pub humedad: ValoresSatisfaccion,
    pub temperatura: ValoresSatisfaccion,
    pub luminosidad: ValoresSatisfaccion,
}

/// The preference list holds the key.
pub open spec fn contiene_clave(
    prefs: Seq<(String, ValoresSatisfaccion)>,
    clave: Seq<char>,
) -> bool {
    exists|j: int| 0 <= j < prefs.len() && prefs[j].0@ == clave
}

/// Preferences and current readings, keyed by name, with a common weight and
/// a common direction of preference.
#[allow(non_camel_case_types)]
pub struct satisfaccion {
    vector_preferencias: Vec<(String, ValoresSatisfaccion)>,
    vector_actual: Vec<(String, ValoresSatisfaccion)>,
    peso: i64,
    is_min: bool,
}

impl satisfaccion {
    /// The preference entries.
    pub closed spec fn spec_preferencias(self) -> Seq<(String, ValoresSatisfaccion)> {
        self.vector_preferencias@
    }

    /// The current readings.
    pub closed spec fn spec_actual(self) -> Seq<(String, ValoresSatisfaccion)> {
        self.vector_actual@
    }

    /// The common weight.
    pub closed spec fn spec_peso(self) -> i64 {
        self.peso
    }

    /// Whether satisfaction grows toward the minimum.
    pub closed spec fn spec_is_min(self) -> bool {
        self.is_min
    }

    /// Every reading is well formed, its key appears among the preferences,
    /// and the weight is a non-negative fixed-point value.
    pub open spec fn wf(self) -> bool {
        &&& 0 <= self.spec_peso() <= VAL_LIMIT
        &&& forall|i: int|
            0 <= i < self.spec_actual().len() ==> (#[trigger] self.spec_actual()[i]).1.wf()
        &&& forall|i: int|
            0 <= i < self.spec_actual().len() ==> contiene_clave(
                self.spec_preferencias(),
                (#[trigger] self.spec_actual()[i]).0@,
            )
    }

    /// The weighted satisfaction of the reading at position `i`: normalised
    /// within its range toward the preferred end, then scaled by the weight.
    pub open spec fn resultado_spec(self, i: int) -> int {
        let v = self.spec_actual()[i].1;
        let sat = if self.spec_is_min() {
            (v.maximo - v.valor) * SCALE / (v.maximo - v.minimo)
        } else {
            (v.valor - v.minimo) * SCALE / (v.maximo - v.minimo)
        };
        sat * self.spec_peso() / (SCALE as int)
    }

    /// Pairs the preferences with the readings under a weight and direction.
    pub fn new(
        vector_preferencias: Vec<(String, ValoresSatisfaccion)>,
        vector_actual: Vec<(String, ValoresSatisfaccion)>,
        peso: i64,
        is_min: bool,
    ) -> (r: satisfaccion)
        ensures
            r.spec_preferencias() == vector_preferencias@,
            r.spec_actual() == vector_actual@,
            r.spec_peso() == peso,
            r.spec_is_min() == is_min,
    {
        satisfaccion { vector_preferencias, vector_actual, peso, is_min }
    }

    /// The weighted satisfaction of every reading, under its own key, in the
    /// readings' order.
    pub fn calcular_satisfaccion(&self) -> (r: Vec<(String, i64)>)
        requires
            self.wf(),
        ensures
            r@.len() == self.spec_actual().len(),
            forall|i: int| 0 <= i < r@.len() ==> (#[trigger] r@[i]).0 == self.spec_actual()[i].0,
            forall|i: int| 0 <= i < r@.len() ==> (#[trigger] r@[i]).1 == self.resultado_spec(i),
    {
        let n: usize = self.vector_actual.len();
        let mut resultados: Vec<(String, i64)> = Vec::new();
        let mut i: usize = 0;
        while i < n
            invariant
                self.wf(),
                n == self.spec_actual().len(),
                0 <= i <= n,
                resultados@.len() == i,
                forall|k: int|
                    0 <= k < i ==> (#[trigger] resultados@[k]).0 == self.spec_actual()[k].0,
                forall|k: int| 0 <= k < i ==> (#[trigger] resultados@[k]).1 == self.resultado_spec(k),
            decreases n - i,
        {
            let entrada = &self.vector_actual[i];
            let v = entrada.1;
            proof {
                assert(self.spec_actual()[i as int].1.wf());
            }
            let sat: i64 = if self.is_min {
                Self::calcular_min(v.valor, v.minimo, v.maximo)
            } else {
                Self::calcular_max(v.valor, v.minimo, v.maximo)
            };
            proof {
                crate::fixed::lemma_abs_mul_bound(
                    sat as int,
                    self.peso as int,
                    SCALE as int,
                    VAL_LIMIT as int,
                );
                vstd::arithmetic::div_mod::lemma_div_is_ordered(
                    crate::fixed::iabs(sat as int * self.peso as int),
                    1_000_000_000_000_000_000,
                    SCALE as int,
                );
                vstd::arithmetic::mul::lemma_mul_nonnegative(sat as int, self.peso as int);
                vstd::arithmetic::div_mod::lemma_div_pos_is_pos(
                    sat as int * self.peso as int,
                    SCALE as int,
                );
            }
            let ponderada: i64 = mul_div(sat, self.peso, SCALE);
            resultados.push((entrada.0.clone(), ponderada));
            i = i + 1;
        }
        resultados
    }

    /// Satisfaction when smaller readings are preferred: distance below the
    /// maximum as a fraction of the range, one unit at the minimum.
    pub fn calcular_min(valor_analizar: i64, vmin: i64, vmax: i64) -> (r: i64)
        requires
            -VAL_LIMIT <= vmin < vmax <= VAL_LIMIT,
            vmin <= valor_analizar <= vmax,
        ensures
            r == (vmax - valor_analizar) * SCALE / (vmax - vmin),
            0 <= r <= SCALE,
    {
        proof {
            crate::fixed::lemma_abs_mul_bound(
                vmax as int - valor_analizar as int,
                SCALE as int,
                2 * VAL_LIMIT,
                SCALE as int,
            );
            vstd::arithmetic::div_mod::lemma_div_is_ordered(
                crate::fixed::iabs((vmax as int - valor_analizar as int) * SCALE),
                2_000_000_000_000_000_000,
                vmax as int - vmin as int,
            );
            vstd::arithmetic::mul::lemma_mul_nonnegative(
                vmax as int - valor_analizar as int,
                SCALE as int,
            );
            vstd::arithmetic::div_mod::lemma_div_pos_is_pos(
                (vmax as int - valor_analizar as int) * SCALE,
                vmax as int - vmin as int,
            );
            vstd::arithmetic::mul::lemma_mul_inequality(
                vmax as int - valor_analizar as int,
                vmax as int - vmin as int,
                SCALE as int,
            );
            vstd::arithmetic::mul::lemma_mul_is_commutative(
                vmax as int - vmin as int,
                SCALE as int,
            );
            vstd::arithmetic::div_mod::lemma_div_is_ordered(
                (vmax as int - valor_analizar as int) * SCALE,
                (vmax as int - vmin as int) * SCALE,
                vmax as int - vmin as int,
            );
            vstd::arithmetic::div_mod::lemma_div_by_multiple(SCALE as int, vmax as int - vmin as int);
        }
        mul_div(vmax - valor_analizar, SCALE, vmax - vmin)
    }

    /// Satisfaction when larger readings are preferred: distance above the
    /// minimum as a fraction of the range, one unit at the maximum.
    fn calcular_max(valor_analizar: i64, vmin: i64, vmax: i64) -> (r: i64)
        requires
            -VAL_LIMIT <= vmin < vmax <= VAL_LIMIT,
            vmin <= valor_analizar <= vmax,
        ensures
            r == (valor_analizar - vmin) * SCALE / (vmax - vmin),
            0 <= r <= SCALE,
    {
        proof {
            crate::fixed::lemma_abs_mul_bound(
                valor_analizar as int - vmin as int,
                SCALE as int,
                2 * VAL_LIMIT,
                SCALE as int,
            );
            vstd::arithmetic::div_mod::lemma_div_is_ordered(
                crate::fixed::iabs((valor_analizar as int - vmin as int) * SCALE),
                2_000_000_000_000_000_000,
                vmax as int - vmin as int,
            );
            vstd::arithmetic::mul::lemma_mul_nonnegative(
                valor_analizar as int - vmin as int,
                SCALE as int,
            );
            vstd::arithmetic::div_mod::lemma_div_pos_is_pos(
                (valor_analizar as int - vmin as int) * SCALE,
                vmax as int - vmin as int,
            );
            vstd::arithmetic::mul::lemma_mul_inequality(
                valor_analizar as int - vmin as int,
                vmax as int - vmin as int,
                SCALE as int,
            );
            vstd::arithmetic::mul::lemma_mul_is_commutative(
                vmax as int - vmin as int,
                SCALE as int,
            );
            vstd::arithmetic::div_mod::lemma_div_is_ordered(
                (valor_analizar as int - vmin as int) * SCALE,
                (vmax as int - vmin as int) * SCALE,
                vmax as int - vmin as int,
            );
            vstd::arithmetic::div_mod::lemma_div_by_multiple(SCALE as int, vmax as int - vmin as int);
        }
        mul_div(valor_analizar - vmin, SCALE, vmax - vmin)
    }
}

} // verus!
