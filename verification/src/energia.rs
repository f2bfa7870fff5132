//! Energy-change cost: what it costs to push a reading past a reference
//! level, in the direction the configuration cares about.

use vstd::prelude::*;

use crate::fixed::{mul_div, SCALE, VAL_LIMIT};

verus! {

/// An energy reference: the current level, a weight, the cost of changing
/// by one unit, and whether the level is a floor (`is_min`) or a ceiling.
#[derive(Clone, Copy, Debug, PartialEq, Eq, Structural)]
pub struct Energia {
    pub energia_actual: i64,
    pub peso: i64,
    pub costo_cambio: i64,
    pub is_min: bool,
}

impl Energia {
    /// The cost of the analysed value's excursion past the reference: for a
    /// floor, the overshoot above it priced at the change cost; for a
    /// ceiling, the shortfall below it; zero when no change is needed.
    pub open spec fn satisfaccion_energia_spec(self, valor: int) -> int {
        if self.is_min {
            if valor > self.energia_actual {
                self.costo_cambio * (valor - self.energia_actual) / (SCALE as int)
            } else {
                0
            }
        } else {
            if valor < self.energia_actual {
                self.costo_cambio * (self.energia_actual - valor) / (SCALE as int)
            } else {
                0
            }
        }
    }

    /// Builds a reference from its four fields.
    pub fn new(energia_actual: i64, peso: i64, costo_cambio: i64, is_min: bool) -> (r: Energia)
        ensures
            r == (Energia { energia_actual, peso, costo_cambio, is_min }),
    {
        Energia { energia_actual, peso, costo_cambio, is_min }
    }

    /// Prices the analysed value against the reference.
    pub fn calc_satisfaccionenergia(self, valor_analizar: i64) -> (r: i64)
        requires
            -VAL_LIMIT <= self.energia_actual <= VAL_LIMIT,
            0 <= self.costo_cambio <= VAL_LIMIT,
            -VAL_LIMIT <= valor_analizar <= VAL_LIMIT,
        ensures
            r == self.satisfaccion_energia_spec(valor_analizar as int),
            r >= 0,
    {
        if self.is_min {
            if valor_analizar > self.energia_actual {
                proof {
                    crate::fixed::lemma_abs_mul_bound(
                        self.costo_cambio as int,
                        valor_analizar as int - self.energia_actual as int,
                        VAL_LIMIT as int,
                        2 * VAL_LIMIT,
                    );
                    vstd::arithmetic::div_mod::lemma_div_is_ordered(
                        crate::fixed::iabs(
                            self.costo_cambio as int * (valor_analizar as int
                                - self.energia_actual as int),
                        ),
                        2_000_000_000_000_000_000_000_000,
                        SCALE as int,
                    );
                    vstd::arithmetic::mul::lemma_mul_nonnegative(
                        self.costo_cambio as int,
                        valor_analizar as int - self.energia_actual as int,
                    );
                    vstd::arithmetic::div_mod::lemma_div_pos_is_pos(
                        self.costo_cambio as int * (valor_analizar as int
                            - self.energia_actual as int),
                        SCALE as int,
                    );
                }
                mul_div(self.costo_cambio, valor_analizar - self.energia_actual, SCALE)
            } else {
                0
            }
        } else {
            if valor_analizar < self.energia_actual {
                proof {
                    crate::fixed::lemma_abs_mul_bound(
                        self.costo_cambio as int,
                        self.energia_actual as int - valor_analizar as int,
                        VAL_LIMIT as int,
                        2 * VAL_LIMIT,
                    );
                    vstd::arithmetic::div_mod::lemma_div_is_ordered(
                        crate::fixed::iabs(
                            self.costo_cambio as int * (self.energia_actual as int
                                - valor_analizar as int),
                        ),
                        2_000_000_000_000_000_000_000_000,
                        SCALE as int,
                    );
                    vstd::arithmetic::mul::lemma_mul_nonnegative(
                        self.costo_cambio as int,
                        self.energia_actual as int - valor_analizar as int,
                    );
                    vstd::arithmetic::div_mod::lemma_div_pos_is_pos(
                        self.costo_cambio as int * (self.energia_actual as int
                            - valor_analizar as int),
                        SCALE as int,
                    );
                }
                mul_div(self.costo_cambio, self.energia_actual - valor_analizar, SCALE)
            } else {
                0
            }
        }
    }
}

} // verus!
