//! A single controllable parameter: its bounds, current and target value,
//! current and target satisfaction, unit cost and satisfaction weight, and the
//! objective function that scores how well the current configuration balances
//! cost against satisfaction.

use vstd::prelude::*;

use crate::errors::AnnealError;
use crate::fixed::{
    abs128, abs64, iabs, lemma_abs_mul_bound, lemma_sdiv_bounds, mul_div, mul_div_128, mul_wide,
    sdiv, SCALE, VAL_LIMIT,
};
use crate::satisfaccion_mult_categorias::HashedSatisfaccionCategorias;

verus! {

/// Largest satisfaction level (one hundred units, in millionths).
pub const SAT_LIMIT: i64 = 100_000_000;

/// Largest magnitude the stored checksum can take: the energy of a state
/// whose fields respect [`ValoresSatisfaccionIndividual::wf_bounds`].
pub const CHECKSUM_LIMIT: i64 = 2_000_000_000_000_000_000;

/// One controllable parameter, in fixed-point millionths.  `temp_actual` and
/// `satisfaccion_actual` are the fields the annealing loop may move; the rest
/// describe the problem and stay fixed.
#[derive(Clone, Copy, Debug, PartialEq, Eq, Structural)]
pub struct ValoresSatisfaccionIndividual {
    pub minimo: i64,
    pub maximo: i64,
    pub temp_actual: i64,
    pub temp_objetivo: i64,
    pub satisfaccion_actual: i64,
    pub satisfaccion_objetivo: i64,
    pub costo_unitario: i64,
    pub peso_satisfaccion: i64,
    pub checksum: i64,
}

/// The bounds a freshly constructed state must respect: minimum below
/// maximum, values inside the bounds, satisfactions between zero and one
/// hundred units, non-negative cost and weight, everything within the
/// magnitude the fixed-point arithmetic supports.
pub open spec fn entrada_valida(
    minimo: int,
    maximo: int,
    temp_actual: int,
    temp_objetivo: int,
    satisfaccion_actual: int,
    satisfaccion_objetivo: int,
    costo_unitario: int,
    peso_satisfaccion: int,
) -> bool {
    &&& -VAL_LIMIT <= minimo
    &&& minimo < maximo
    &&& maximo <= VAL_LIMIT
    &&& minimo <= temp_actual <= maximo
    &&& minimo <= temp_objetivo <= maximo
    &&& 0 <= satisfaccion_actual <= SAT_LIMIT
    &&& 0 <= satisfaccion_objetivo <= SAT_LIMIT
    &&& 0 <= costo_unitario <= VAL_LIMIT
    &&& 0 <= peso_satisfaccion <= VAL_LIMIT
}

impl ValoresSatisfaccionIndividual {
    /// All field bounds hold, including the derived checksum's.
    pub open spec fn wf_bounds(self) -> bool {
        &&& entrada_valida(
            self.minimo as int,
            self.maximo as int,
            self.temp_actual as int,
            self.temp_objetivo as int,
            self.satisfaccion_actual as int,
            self.satisfaccion_objetivo as int,
            self.costo_unitario as int,
            self.peso_satisfaccion as int,
        )
        &&& -CHECKSUM_LIMIT <= self.checksum <= CHECKSUM_LIMIT
    }

    /// Cost difference between staying put and moving to the target:
    /// `|costo_unitario * temp_actual - costo_unitario * temp_objetivo|`.
    pub open spec fn costo_delta_spec(self) -> int {
        iabs(
            self.costo_unitario * self.temp_actual - self.costo_unitario * self.temp_objetivo,
        ) / (SCALE as int)
    }

    /// Satisfaction difference, weighted:
    /// `|satisfaccion_actual * peso - satisfaccion_objetivo * peso|`.
    pub open spec fn satisfaccion_delta_spec(self) -> int {
        iabs(
            self.satisfaccion_actual * self.peso_satisfaccion - self.satisfaccion_objetivo
                * self.peso_satisfaccion,
        ) / (SCALE as int)
    }

    /// Marginal rate of substitution: how many satisfaction units one cost
    /// unit is worth, `costo_unitario / peso_satisfaccion`.
    pub open spec fn mrs_spec(self) -> int {
        (self.costo_unitario * SCALE) / (self.peso_satisfaccion as int)
    }

    /// The objective value: `mrs * |x - y| + delta`, doubled by a penalty of
    /// the same magnitude when the cost and satisfaction deltas move in the
    /// same direction.  Both deltas are magnitudes, so the both-negative arm
    /// of the same-direction test can never fire; it is kept because the rule
    /// is stated over the signed form.  Lower is better.
    pub open spec fn objetivo_spec(self, delta: int) -> int {
        let x = self.costo_delta_spec();
        let y = self.satisfaccion_delta_spec();
        let core = (self.mrs_spec() * iabs(x - y)) / (SCALE as int);
        let penalty: int = if (x > 0 && y > 0) || (x < 0 && y < 0) {
            core
        } else {
            0
        };
        core + delta + penalty
    }

    /// The scalar "energy" snapshot the checksum stores:
    /// `costo_unitario * temp_actual + satisfaccion_actual * peso`.
    pub open spec fn energia_spec(self) -> int {
        sdiv(self.costo_unitario * self.temp_actual, SCALE as int) + sdiv(
            self.satisfaccion_actual * self.peso_satisfaccion,
            SCALE as int,
        )
    }

    /// The stored checksum still matches the state's energy within five
    /// percent of the checksum's magnitude.
    pub open spec fn checksum_ok_spec(self) -> bool {
        iabs(self.energia_spec() - self.checksum) <= iabs(self.checksum as int) * 5 / 100
    }

    /// Builds a state after validating every bound; the checksum starts at
    /// zero and is only filled in by [`Self::calculate_checksum`].
    pub fn new(
        minimo: i64,
        maximo: i64,
        temp_actual: i64,
        temp_objetivo: i64,
        satisfaccion_actual: i64,
        satisfaccion_objetivo: i64,
        costo_unitario: i64,
        peso_satisfaccion: i64,
    ) -> (r: Result<Self, AnnealError>)
        ensures
            r is Ok <==> entrada_valida(
                minimo as int,
                maximo as int,
                temp_actual as int,
                temp_objetivo as int,
                satisfaccion_actual as int,
                satisfaccion_objetivo as int,
                costo_unitario as int,
                peso_satisfaccion as int,
            ),
            r is Err ==> r == Err::<Self, AnnealError>(AnnealError::InvalidBounds),
            r is Ok ==> r == Ok::<Self, AnnealError>(
                ValoresSatisfaccionIndividual {
                    minimo,
                    maximo,
                    temp_actual,
                    temp_objetivo,
                    satisfaccion_actual,
                    satisfaccion_objetivo,
                    costo_unitario,
                    peso_satisfaccion,
                    checksum: 0,
                },
            ),
            r is Ok ==> r->Ok_0.wf_bounds(),
    {
        let ok: bool = -VAL_LIMIT <= minimo && minimo < maximo && maximo <= VAL_LIMIT
            && minimo <= temp_actual && temp_actual <= maximo && minimo <= temp_objetivo
            && temp_objetivo <= maximo && 0 <= satisfaccion_actual && satisfaccion_actual
            <= SAT_LIMIT && 0 <= satisfaccion_objetivo && satisfaccion_objetivo <= SAT_LIMIT && 0
            <= costo_unitario && costo_unitario <= VAL_LIMIT && 0 <= peso_satisfaccion
            && peso_satisfaccion <= VAL_LIMIT;
        if !ok {
            return Err(AnnealError::InvalidBounds);
        }
        Ok(
            ValoresSatisfaccionIndividual {
                minimo,
                maximo,
                temp_actual,
                temp_objetivo,
                satisfaccion_actual,
                satisfaccion_objetivo,
                costo_unitario,
                peso_satisfaccion,
                checksum: 0,
            },
        )
    }

    /// The eight configuration fields, in declaration order.
    pub fn unwrap(&self) -> (r: (i64, i64, i64, i64, i64, i64, i64, i64))
        ensures
            r == (
                self.minimo,
                self.maximo,
                self.temp_actual,
                self.temp_objetivo,
                self.satisfaccion_actual,
                self.satisfaccion_objetivo,
                self.costo_unitario,
                self.peso_satisfaccion,
            ),
    {
        (
            self.minimo,
            self.maximo,
            self.temp_actual,
            self.temp_objetivo,
            self.satisfaccion_actual,
            self.satisfaccion_objetivo,
            self.costo_unitario,
            self.peso_satisfaccion,
        )
    }

    /// Files this state under a named category.
    pub fn to_hashed_satisfaccion(&self, categoria: String) -> (r: HashedSatisfaccionCategorias)
        ensures
            r.spec_categoria() == categoria@,
            r.spec_preferencias() == *self,
    {
        HashedSatisfaccionCategorias::convertir_a_hashmap(categoria, *self)
    }

    /// Cost, in millionths, of the gap between the current and target value.
    pub fn diferencia_costo(&self) -> (r: i64)
        requires
            self.wf_bounds(),
        ensures
            r == self.costo_delta_spec(),
            0 <= r <= 2_000_000_000_000_000_000,
    {
        let p1: i128 = mul_wide(self.costo_unitario, self.temp_actual);
        let p2: i128 = mul_wide(self.costo_unitario, self.temp_objetivo);
        proof {
            lemma_abs_mul_bound(
                self.costo_unitario as int,
                self.temp_actual as int,
                VAL_LIMIT as int,
                VAL_LIMIT as int,
            );
            lemma_abs_mul_bound(
                self.costo_unitario as int,
                self.temp_objetivo as int,
                VAL_LIMIT as int,
                VAL_LIMIT as int,
            );
        }
        let d: i128 = p1 - p2;
        let m: i128 = abs128(d);
        let q: i128 = mul_div_128(m, 1, SCALE);
        proof {
            lemma_sdiv_bounds(m as int, SCALE as int);
            vstd::arithmetic::div_mod::lemma_div_is_ordered(
                m as int,
                2_000_000_000_000_000_000_000_000,
                SCALE as int,
            );
        }
        q as i64
    }

    /// Weighted satisfaction gap, in millionths, between current and target.
    pub fn diferencia_satisfaccion(&self) -> (r: i64)
        requires
            self.wf_bounds(),
        ensures
            r == self.satisfaccion_delta_spec(),
            0 <= r <= 2_000_000_000_000_000_000,
    {
        let p1: i128 = mul_wide(self.satisfaccion_actual, self.peso_satisfaccion);
        let p2: i128 = mul_wide(self.satisfaccion_objetivo, self.peso_satisfaccion);
        proof {
            lemma_abs_mul_bound(
                self.satisfaccion_actual as int,
                self.peso_satisfaccion as int,
                VAL_LIMIT as int,
                VAL_LIMIT as int,
            );
            lemma_abs_mul_bound(
                self.satisfaccion_objetivo as int,
                self.peso_satisfaccion as int,
                VAL_LIMIT as int,
                VAL_LIMIT as int,
            );
        }
        let d: i128 = p1 - p2;
        let m: i128 = abs128(d);
        let q: i128 = mul_div_128(m, 1, SCALE);
        proof {
            lemma_sdiv_bounds(m as int, SCALE as int);
            vstd::arithmetic::div_mod::lemma_div_is_ordered(
                m as int,
                2_000_000_000_000_000_000_000_000,
                SCALE as int,
            );
        }
        q as i64
    }

    /// Objective value for this state, with `delta` the caller-supplied bias
    /// term.  A zero satisfaction weight is refused (the marginal rate of
    /// substitution would divide by it); otherwise the exact score is
    /// returned, lower meaning better.
    pub fn funcion_objetivo(&self, delta: i64) -> (r: Result<i128, AnnealError>)
        requires
            self.wf_bounds(),
            -VAL_LIMIT <= delta <= VAL_LIMIT,
        ensures
            r is Err <==> self.peso_satisfaccion == 0,
            r is Err ==> r == Err::<i128, AnnealError>(AnnealError::InvalidWeight),
            r is Ok ==> r->Ok_0 == self.objetivo_spec(delta as int),
            r is Ok ==> iabs(r->Ok_0 as int) <= 5_000_000_000_000_000_000_000_000_000_000_000_000,
    {
        if self.peso_satisfaccion == 0 {
            return Err(AnnealError::InvalidWeight);
        }
        let x: i64 = self.diferencia_costo();
        let y: i64 = self.diferencia_satisfaccion();
        let mrs: i64 = mul_div(self.costo_unitario, SCALE, self.peso_satisfaccion);
        proof {
            lemma_abs_mul_bound(
                self.costo_unitario as int,
                SCALE as int,
                VAL_LIMIT as int,
                SCALE as int,
            );
            lemma_sdiv_bounds(self.costo_unitario as int * SCALE as int, self.peso_satisfaccion as int);
        }
        let gap: i64 = abs64(x - y);
        let prod: i128 = mul_wide(mrs, gap);
        proof {
            lemma_abs_mul_bound(
                mrs as int,
                gap as int,
                1_000_000_000_000_000_000,
                2_000_000_000_000_000_000,
            );
        }
        let core: i128 = mul_div_128(prod, 1, SCALE);
        proof {
            lemma_sdiv_bounds(prod as int, SCALE as int);
        }
        let base: i128 = core + (delta as i128);
        let total: i128 = if (x > 0 && y > 0) || (x < 0 && y < 0) {
            base + core
        } else {
            base
        };
        Ok(total)
    }

    /// Captures the state's energy as its checksum; returns the value stored.
    pub fn calculate_checksum(&mut self) -> (r: i64)
        requires
            old(self).wf_bounds(),
        ensures
            r == old(self).energia_spec(),
            *final(self) == (ValoresSatisfaccionIndividual { checksum: r, ..*old(self) }),
            final(self).wf_bounds(),
    {
        proof {
            lemma_abs_mul_bound(
                self.costo_unitario as int,
                self.temp_actual as int,
                VAL_LIMIT as int,
                VAL_LIMIT as int,
            );
            lemma_abs_mul_bound(
                self.satisfaccion_actual as int,
                self.peso_satisfaccion as int,
                SAT_LIMIT as int,
                VAL_LIMIT as int,
            );
            vstd::arithmetic::div_mod::lemma_div_is_ordered(
                iabs(self.costo_unitario as int * self.temp_actual as int),
                1_000_000_000_000_000_000_000_000,
                SCALE as int,
            );
            vstd::arithmetic::div_mod::lemma_div_is_ordered(
                iabs(self.satisfaccion_actual as int * self.peso_satisfaccion as int),
                1_000_000_000_000_000_000_000_000,
                SCALE as int,
            );
            lemma_sdiv_bounds(self.costo_unitario as int * self.temp_actual as int, SCALE as int);
            lemma_sdiv_bounds(
                self.satisfaccion_actual as int * self.peso_satisfaccion as int,
                SCALE as int,
            );
        }
        let c1: i64 = mul_div(self.costo_unitario, self.temp_actual, SCALE);
        let c2: i64 = mul_div(self.satisfaccion_actual, self.peso_satisfaccion, SCALE);
        let total: i64 = c1 + c2;
        self.checksum = total;
        total
    }

    /// Recomputes the energy from the current fields and accepts when it is
    /// within five percent of the stored checksum's magnitude.
    pub fn checksum(&self) -> (r: bool)
        requires
            self.wf_bounds(),
        ensures
            r == self.checksum_ok_spec(),
    {
        proof {
            lemma_abs_mul_bound(
                self.costo_unitario as int,
                self.temp_actual as int,
                VAL_LIMIT as int,
                VAL_LIMIT as int,
            );
            lemma_abs_mul_bound(
                self.satisfaccion_actual as int,
                self.peso_satisfaccion as int,
                SAT_LIMIT as int,
                VAL_LIMIT as int,
            );
            vstd::arithmetic::div_mod::lemma_div_is_ordered(
                iabs(self.costo_unitario as int * self.temp_actual as int),
                1_000_000_000_000_000_000_000_000,
                SCALE as int,
            );
            vstd::arithmetic::div_mod::lemma_div_is_ordered(
                iabs(self.satisfaccion_actual as int * self.peso_satisfaccion as int),
                1_000_000_000_000_000_000_000_000,
                SCALE as int,
            );
            lemma_sdiv_bounds(self.costo_unitario as int * self.temp_actual as int, SCALE as int);
            lemma_sdiv_bounds(
                self.satisfaccion_actual as int * self.peso_satisfaccion as int,
                SCALE as int,
            );
        }
        let c1: i64 = mul_div(self.costo_unitario, self.temp_actual, SCALE);
        let c2: i64 = mul_div(self.satisfaccion_actual, self.peso_satisfaccion, SCALE);
        let actual: i64 = c1 + c2;
        let desvio: i64 = abs64(actual - self.checksum);
        let tolerancia: i64 = mul_div(abs64(self.checksum), 5, 100);
        desvio <= tolerancia
    }
}

/// Checksum round trip: capturing a state's energy as its checksum and then
/// verifying the unmodified state always succeeds, since the recomputed
/// energy matches the stored one exactly and the tolerance is never
/// negative.
pub proof fn lemma_checksum_round_trip(s: ValoresSatisfaccionIndividual)
    requires
        s.wf_bounds(),
    ensures
        ({
            let capturado = (ValoresSatisfaccionIndividual {
                checksum: s.energia_spec() as i64,
                ..s
            });
            capturado.checksum_ok_spec()
        }),
{
    lemma_abs_mul_bound(
        s.costo_unitario as int,
        s.temp_actual as int,
        VAL_LIMIT as int,
        VAL_LIMIT as int,
    );
    lemma_abs_mul_bound(
        s.satisfaccion_actual as int,
        s.peso_satisfaccion as int,
        SAT_LIMIT as int,
        VAL_LIMIT as int,
    );
    lemma_sdiv_bounds(s.costo_unitario as int * s.temp_actual as int, SCALE as int);
    lemma_sdiv_bounds(s.satisfaccion_actual as int * s.peso_satisfaccion as int, SCALE as int);
    vstd::arithmetic::div_mod::lemma_div_is_ordered(
        iabs(s.costo_unitario as int * s.temp_actual as int),
        1_000_000_000_000_000_000_000_000,
        SCALE as int,
    );
    vstd::arithmetic::div_mod::lemma_div_is_ordered(
        iabs(s.satisfaccion_actual as int * s.peso_satisfaccion as int),
        1_000_000_000_000_000_000_000_000,
        SCALE as int,
    );
    let capturado = (ValoresSatisfaccionIndividual { checksum: s.energia_spec() as i64, ..s });
    assert(capturado.energia_spec() == s.energia_spec());
    vstd::arithmetic::mul::lemma_mul_nonnegative(iabs(capturado.checksum as int), 5);
    vstd::arithmetic::div_mod::lemma_div_pos_is_pos(iabs(capturado.checksum as int) * 5, 100);
}

} // verus!
