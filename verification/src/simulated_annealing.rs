//! The multi-parameter annealing engine.
//!
//! An environment owns an ordered collection of named parameters, each with
//! its own bounds, change-cost factor, priority and satisfaction weight.  The
//! engine proposes joint moves (each coordinate perturbed independently with
//! even odds), scores them with a priority-weighted blend of change cost and
//! user satisfaction, and accepts by the Metropolis rule while the
//! temperature cools once per iteration.

use vstd::prelude::*;

use crate::acceptance::acceptance_probability;
use crate::errors::AnnealError;
use crate::fixed::{abs64, div_pos, iabs, imin, mul_div, sdiv, SCALE, VAL_LIMIT};
use crate::rng::random_in_range;

verus! {

/// Most parameters an environment may hold; keeps the priority sum and the
/// total score inside their integer types.
pub const PARAMS_LIMIT: usize = 1_000_000;

/// How far, in millionths, the priority sum may stray from one before
/// [`MultiEnvironment::validate_priorities`] refuses it.
pub const PRIORITY_TOL: i64 = 1_000;

/// Largest magnitude of one parameter's contribution to the total score.
pub const APORTE_LIMIT: i64 = 3_000_000_000_000_000_000;

/// One controllable environmental parameter, in fixed-point millionths.
pub struct EnvironmentParam {
    pub name: String,
    pub current_value: i64,
    pub target_value: i64,
    pub min_value: i64,
    pub max_value: i64,
    pub change_cost_factor: i64,
    pub priority: i64,
    pub satisfaction_weight: i64,
}

impl EnvironmentParam {
    /// Bounds in order and wide enough to perturb, values inside them,
    /// non-negative cost factor, priority and weight between zero and one.
    pub open spec fn wf(self) -> bool {
        &&& -VAL_LIMIT <= self.min_value
        &&& self.min_value < self.max_value
        &&& self.max_value <= VAL_LIMIT
        &&& self.max_value - self.min_value >= 10
        &&& self.min_value <= self.current_value <= self.max_value
        &&& self.min_value <= self.target_value <= self.max_value
        &&& 0 <= self.change_cost_factor <= VAL_LIMIT
        &&& 0 <= self.priority <= SCALE
        &&& 0 <= self.satisfaction_weight <= SCALE
    }
}

/// Sum of the priorities of a parameter sequence.
pub open spec fn suma_prioridades_seq(params: Seq<EnvironmentParam>) -> int
    decreases params.len(),
{
    if params.len() == 0 {
        0
    } else {
        suma_prioridades_seq(params.drop_last()) + params.last().priority
    }
}

/// An environment: an ordered collection of parameters whose priorities are
/// meant to sum to one.
pub struct MultiEnvironment {
    pub params: Vec<EnvironmentParam>,
}

impl MultiEnvironment {
    /// Every parameter is well formed and the collection is small enough for
    /// the arithmetic.
    pub open spec fn wf(self) -> bool {
        &&& self.params@.len() <= PARAMS_LIMIT
        &&& forall|i: int| 0 <= i < self.params@.len() ==> (#[trigger] self.params@[i]).wf()
    }

    /// The priority sum of the whole collection.
    pub open spec fn suma_prioridades(self) -> int {
        suma_prioridades_seq(self.params@)
    }
}

/// Extending a prefix by one element adds that element's priority.
proof fn lemma_suma_take_step(params: Seq<EnvironmentParam>, i: int)
    requires
        0 <= i < params.len(),
    ensures
        suma_prioridades_seq(params.take(i + 1)) == suma_prioridades_seq(params.take(i))
            + params[i].priority,
{
    let t = params.take(i + 1);
    assert(t.drop_last() =~= params.take(i));
    assert(t.last() == params[i]);
}

/// With every priority in `[0, SCALE]` the sum stays within linear bounds.
proof fn lemma_suma_bounds(params: Seq<EnvironmentParam>)
    requires
        forall|i: int| 0 <= i < params.len() ==> 0 <= (#[trigger] params[i]).priority <= SCALE,
    ensures
        0 <= suma_prioridades_seq(params) <= params.len() * SCALE,
    decreases params.len(),
{
    if params.len() > 0 {
        let d = params.drop_last();
        assert(forall|i: int| 0 <= i < d.len() ==> 0 <= (#[trigger] d[i]).priority <= SCALE);
        lemma_suma_bounds(d);
    }
}

/// Scaling every priority by `SCALE / s` (truncating) keeps the scaled sum
/// within one truncation step per element of the exact ratio.
proof fn lemma_suma_escalada(orig: Seq<EnvironmentParam>, nuevo: Seq<EnvironmentParam>, s: int)
    requires
        s >= 1,
        nuevo.len() == orig.len(),
        forall|i: int| 0 <= i < orig.len() ==> 0 <= (#[trigger] orig[i]).priority,
        forall|i: int| 0 <= i < nuevo.len() ==> (#[trigger] nuevo[i]).priority == sdiv(
            orig[i].priority * SCALE,
            s,
        ),
    ensures
        s * suma_prioridades_seq(nuevo) <= SCALE * suma_prioridades_seq(orig),
        SCALE * suma_prioridades_seq(orig) < s * suma_prioridades_seq(nuevo) + orig.len() * s + 1,
    decreases orig.len(),
{
    if orig.len() == 0 {
        assert(s * 0 == 0) by (nonlinear_arith);
        assert(SCALE * 0 == 0) by (nonlinear_arith);
    } else {
        let od = orig.drop_last();
        let nd = nuevo.drop_last();
        assert(forall|i: int| 0 <= i < od.len() ==> 0 <= (#[trigger] od[i]).priority);
        assert(forall|i: int|
            0 <= i < nd.len() ==> (#[trigger] nd[i]).priority == sdiv(od[i].priority * SCALE, s));
        lemma_suma_escalada(od, nd, s);
        let p = orig.last().priority as int;
        let q = nuevo.last().priority as int;
        vstd::arithmetic::mul::lemma_mul_nonnegative(p, SCALE as int);
        assert(q == (p * SCALE) / s);
        vstd::arithmetic::div_mod::lemma_fundamental_div_mod(p * SCALE, s);
        vstd::arithmetic::div_mod::lemma_mod_bound(p * SCALE, s);
        let qd = suma_prioridades_seq(nd);
        let pd = suma_prioridades_seq(od);
        vstd::arithmetic::mul::lemma_mul_is_distributive_add(s, qd, q);
        vstd::arithmetic::mul::lemma_mul_is_distributive_add(SCALE as int, pd, p);
        vstd::arithmetic::mul::lemma_mul_is_distributive_add(
            s,
            (orig.len() - 1) as int,
            1,
        );
        assert(s * 1 == s) by (nonlinear_arith);
        vstd::arithmetic::mul::lemma_mul_is_commutative(SCALE as int, p);
        vstd::arithmetic::mul::lemma_mul_is_commutative(s, orig.len() as int);
        vstd::arithmetic::mul::lemma_mul_is_commutative(s, (orig.len() - 1) as int);
    }
}

/// Renormalizing an exact sum `s >= 1` lands the new sum in
/// `[SCALE - count, SCALE]`: the rescaled priorities sum to one up to one
/// truncation step per parameter.
pub proof fn lemma_normalizacion_ajusta_suma(
    orig: Seq<EnvironmentParam>,
    nuevo: Seq<EnvironmentParam>,
    s: int,
)
    requires
        s >= 1,
        s == suma_prioridades_seq(orig),
        nuevo.len() == orig.len(),
        forall|i: int| 0 <= i < orig.len() ==> 0 <= (#[trigger] orig[i]).priority,
        forall|i: int| 0 <= i < nuevo.len() ==> (#[trigger] nuevo[i]).priority == sdiv(
            orig[i].priority * SCALE,
            s,
        ),
    ensures
        SCALE - orig.len() <= suma_prioridades_seq(nuevo) <= SCALE,
{
    lemma_suma_escalada(orig, nuevo, s);
    let q = suma_prioridades_seq(nuevo);
    let n = orig.len() as int;
    assert(s * q <= SCALE * s ==> q <= SCALE) by (nonlinear_arith)
        requires
            s >= 1;
    assert(SCALE * s < s * q + n * s + 1 ==> SCALE - n <= q) by (nonlinear_arith)
        requires
            s >= 1;
    vstd::arithmetic::mul::lemma_mul_is_commutative(SCALE as int, s);
}

impl MultiEnvironment {
    /// Accepts the environment only when the priorities sum to one within
    /// the tolerance; otherwise reports the mismatch.
    pub fn validate_priorities(&self) -> (r: Result<(), AnnealError>)
        requires
            self.wf(),
        ensures
            r is Ok <==> iabs(self.suma_prioridades() - SCALE) <= PRIORITY_TOL,
            r is Err ==> r == Err::<(), AnnealError>(AnnealError::PriorityMismatch),
    {
        let suma: i64 = self.suma_prioridades_exec();
        if suma < SCALE - PRIORITY_TOL || suma > SCALE + PRIORITY_TOL {
            Err(AnnealError::PriorityMismatch)
        } else {
            Ok(())
        }
    }

    /// The priority sum, computed once for validation and renormalization.
    fn suma_prioridades_exec(&self) -> (suma: i64)
        requires
            self.wf(),
        ensures
            suma == self.suma_prioridades(),
            0 <= suma <= self.params@.len() * SCALE,
    {
        proof {
            lemma_suma_bounds(self.params@);
        }
        let n: usize = self.params.len();
        let mut suma: i64 = 0;
        let mut i: usize = 0;
        while i < n
            invariant
                self.wf(),
                n == self.params@.len(),
                0 <= i <= n,
                suma == suma_prioridades_seq(self.params@.take(i as int)),
                0 <= suma <= i * SCALE,
            decreases n - i,
        {
            proof {
                lemma_suma_take_step(self.params@, i as int);
            }
            suma = suma + self.params[i].priority;
            i = i + 1;
        }
        proof {
            assert(self.params@.take(n as int) =~= self.params@);
        }
        suma
    }

    /// Rescales every priority by `1 / sum` when the sum strays from one by
    /// more than the tolerance; leaves the environment untouched otherwise.
    /// Rescaling brings the sum back within one truncation step per
    /// parameter, so an environment of at most a thousand parameters
    /// validates afterwards.  The caller invokes this explicitly: the search
    /// itself never renormalizes behind the caller's back.
    pub fn normalize_priorities(&mut self)
        requires
            old(self).wf(),
            iabs(old(self).suma_prioridades() - SCALE) <= PRIORITY_TOL || old(
                self,
            ).suma_prioridades() >= 1,
        ensures
            final(self).wf(),
            final(self).params@.len() == old(self).params@.len(),
            iabs(old(self).suma_prioridades() - SCALE) <= PRIORITY_TOL ==> *final(self) == *old(
                self,
            ),
            iabs(old(self).suma_prioridades() - SCALE) > PRIORITY_TOL ==> forall|i: int|
                0 <= i < old(self).params@.len() ==> final(self).params@[i] == (EnvironmentParam {
                    priority: sdiv(
                        old(self).params@[i].priority * SCALE,
                        old(self).suma_prioridades(),
                    ) as i64,
                    ..old(self).params@[i]
                }),
            old(self).params@.len() <= PRIORITY_TOL ==> iabs(
                final(self).suma_prioridades() - SCALE,
            ) <= PRIORITY_TOL,
    {
        let suma: i64 = self.suma_prioridades_exec();
        if SCALE - PRIORITY_TOL <= suma && suma <= SCALE + PRIORITY_TOL {
            return ;
        }
        let n: usize = self.params.len();
        let mut i: usize = 0;
        while i < n
            invariant
                n == self.params@.len(),
                n == old(self).params@.len(),
                n <= PARAMS_LIMIT,
                0 <= i <= n,
                suma == old(self).suma_prioridades(),
                suma >= 1,
                forall|k: int| i <= k < n ==> self.params@[k] == old(self).params@[k],
                forall|k: int| 0 <= k < i ==> self.params@[k] == (EnvironmentParam {
                    priority: sdiv(old(self).params@[k].priority * SCALE, suma as int) as i64,
                    ..old(self).params@[k]
                }),
                forall|k: int| 0 <= k < n ==> (#[trigger] old(self).params@[k]).wf(),
                forall|k: int| 0 <= k < i ==> 0 <= (#[trigger] self.params@[k]).priority <= SCALE,
            decreases n - i,
        {
            proof {
                crate::fixed::lemma_abs_mul_bound(
                    self.params@[i as int].priority as int,
                    SCALE as int,
                    SCALE as int,
                    SCALE as int,
                );
                vstd::arithmetic::div_mod::lemma_div_is_ordered(
                    iabs(self.params@[i as int].priority * SCALE),
                    1_000_000_000_000,
                    suma as int,
                );
                vstd::arithmetic::mul::lemma_mul_nonnegative(
                    self.params@[i as int].priority as int,
                    SCALE as int,
                );
                vstd::arithmetic::div_mod::lemma_div_pos_is_pos(
                    self.params@[i as int].priority * SCALE,
                    suma as int,
                );
            }
            let nueva: i64 = mul_div(self.params[i].priority, SCALE, suma);
            proof {
                // priority * SCALE <= suma * SCALE, so the quotient is at most SCALE
                lemma_elemento_le_suma(old(self).params@, i as int);
                vstd::arithmetic::mul::lemma_mul_inequality(
                    old(self).params@[i as int].priority as int,
                    suma as int,
                    SCALE as int,
                );
                vstd::arithmetic::div_mod::lemma_div_is_ordered(
                    old(self).params@[i as int].priority * SCALE,
                    suma as int * SCALE as int,
                    suma as int,
                );
                vstd::arithmetic::mul::lemma_mul_is_commutative(suma as int, SCALE as int);
                vstd::arithmetic::div_mod::lemma_div_by_multiple(SCALE as int, suma as int);
            }
            self.params[i].priority = nueva;
            i = i + 1;
        }
        proof {
            lemma_normalizacion_ajusta_suma(
                old(self).params@,
                self.params@,
                old(self).suma_prioridades(),
            );
        }
    }
}

/// Every priority is at most the sum of the whole collection.
proof fn lemma_elemento_le_suma(params: Seq<EnvironmentParam>, i: int)
    requires
        0 <= i < params.len(),
        forall|k: int| 0 <= k < params.len() ==> 0 <= (#[trigger] params[k]).priority,
    ensures
        params[i].priority <= suma_prioridades_seq(params),
    decreases params.len(),
{
    let d = params.drop_last();
    assert(forall|k: int| 0 <= k < d.len() ==> 0 <= (#[trigger] d[k]).priority);
    if i == params.len() - 1 {
        lemma_suma_nonneg(d);
    } else {
        lemma_elemento_le_suma(d, i);
    }
}

/// A sum of non-negative priorities is non-negative.
proof fn lemma_suma_nonneg(params: Seq<EnvironmentParam>)
    requires
        forall|k: int| 0 <= k < params.len() ==> 0 <= (#[trigger] params[k]).priority,
    ensures
        suma_prioridades_seq(params) >= 0,
    decreases params.len(),
{
    if params.len() > 0 {
        let d = params.drop_last();
        assert(forall|k: int| 0 <= k < d.len() ==> 0 <= (#[trigger] d[k]).priority);
        lemma_suma_nonneg(d);
    }
}

/// Cost of moving one parameter: the magnitude of the change times the
/// parameter's cost factor.
pub open spec fn costo_cambio_spec(desde: int, hasta: int, factor: int) -> int {
    iabs(hasta - desde) * factor / (SCALE as int)
}

/// User satisfaction with a value: one minus the distance to the target
/// normalised by the parameter's range, clamped at zero (one at the target,
/// zero once the distance covers the whole range).
pub open spec fn satisfaccion_usuario_spec(valor: int, objetivo: int, vmin: int, vmax: int) -> int {
    SCALE - imin(SCALE as int, iabs(valor - objetivo) * SCALE / (vmax - vmin))
}

/// One parameter's contribution to the total score: the change cost weighted
/// by one minus the satisfaction weight, minus the satisfaction weighted by
/// the weight itself, the difference scaled by the parameter's priority.
/// Satisfaction subtracts, so configurations near the target lower the score.
pub open spec fn aporte_spec(p: EnvironmentParam, nuevo: int) -> int {
    let cc = costo_cambio_spec(p.current_value as int, nuevo, p.change_cost_factor as int);
    let sat = satisfaccion_usuario_spec(
        nuevo,
        p.target_value as int,
        p.min_value as int,
        p.max_value as int,
    );
    let termino_costo = (SCALE - p.satisfaction_weight) * cc / (SCALE as int);
    let termino_sat = p.satisfaction_weight * sat / (SCALE as int);
    p.priority * termino_costo / (SCALE as int) - p.priority * termino_sat / (SCALE as int)
}

/// Total score of a value vector: the priority-weighted sum of every
/// parameter's contribution.  Lower is better.
pub open spec fn puntuacion_total_spec(params: Seq<EnvironmentParam>, valores: Seq<i64>) -> int
    recommends
        params.len() == valores.len(),
    decreases params.len(),
{
    if params.len() == 0 {
        0
    } else {
        puntuacion_total_spec(params.drop_last(), valores.drop_last()) + aporte_spec(
            params.last(),
            valores.last() as int,
        )
    }
}

/// The value vector a search starts from: every parameter's current value.
pub open spec fn valores_iniciales(params: Seq<EnvironmentParam>) -> Seq<i64> {
    Seq::new(params.len(), |i: int| params[i].current_value)
}

/// Extending both prefixes by one position adds that parameter's
/// contribution.
proof fn lemma_puntuacion_take_step(params: Seq<EnvironmentParam>, valores: Seq<i64>, i: int)
    requires
        0 <= i < params.len(),
        i < valores.len(),
    ensures
        puntuacion_total_spec(params.take(i + 1), valores.take(i + 1)) == puntuacion_total_spec(
            params.take(i),
            valores.take(i),
        ) + aporte_spec(params[i], valores[i] as int),
{
    assert(params.take(i + 1).drop_last() =~= params.take(i));
    assert(valores.take(i + 1).drop_last() =~= valores.take(i));
}

/// Change cost of moving `desde` to `hasta` under the given factor.
fn calculate_change_cost(desde: i64, hasta: i64, factor: i64) -> (r: i64)
    requires
        -VAL_LIMIT <= desde <= VAL_LIMIT,
        -VAL_LIMIT <= hasta <= VAL_LIMIT,
        0 <= factor <= VAL_LIMIT,
    ensures
        r == costo_cambio_spec(desde as int, hasta as int, factor as int),
        0 <= r <= 2_000_000_000_000_000_000,
{
    let d: i64 = abs64(hasta - desde);
    proof {
        crate::fixed::lemma_abs_mul_bound(d as int, factor as int, 2 * VAL_LIMIT, VAL_LIMIT as int);
        vstd::arithmetic::div_mod::lemma_div_is_ordered(
            iabs(d as int * factor as int),
            2_000_000_000_000_000_000_000_000,
            SCALE as int,
        );
        vstd::arithmetic::mul::lemma_mul_nonnegative(d as int, factor as int);
        vstd::arithmetic::div_mod::lemma_div_pos_is_pos(d as int * factor as int, SCALE as int);
    }
    mul_div(d, factor, SCALE)
}

/// Satisfaction of `valor` against a target inside `[vmin, vmax]`.
fn calculate_user_satisfaction(valor: i64, objetivo: i64, vmin: i64, vmax: i64) -> (r: i64)
    requires
        -VAL_LIMIT <= vmin < vmax <= VAL_LIMIT,
        -VAL_LIMIT <= valor <= VAL_LIMIT,
        -VAL_LIMIT <= objetivo <= VAL_LIMIT,
    ensures
        r == satisfaccion_usuario_spec(valor as int, objetivo as int, vmin as int, vmax as int),
        0 <= r <= SCALE,
{
    let dist: i64 = abs64(valor - objetivo);
    proof {
        crate::fixed::lemma_abs_mul_bound(dist as int, SCALE as int, 2 * VAL_LIMIT, SCALE as int);
        vstd::arithmetic::div_mod::lemma_div_is_ordered(
            iabs(dist as int * SCALE as int),
            2_000_000_000_000_000_000,
            vmax as int - vmin as int,
        );
        vstd::arithmetic::mul::lemma_mul_nonnegative(dist as int, SCALE as int);
        vstd::arithmetic::div_mod::lemma_div_pos_is_pos(dist as int * SCALE as int, vmax as int - vmin as int);
    }
    let ratio: i64 = mul_div(dist, SCALE, vmax - vmin);
    let tope: i64 = if ratio < SCALE {
        ratio
    } else {
        SCALE
    };
    SCALE - tope
}

/// Total score of a proposed value vector over the whole environment.
pub fn multi_objective_function(new_values: &Vec<i64>, env: &MultiEnvironment) -> (r: i128)
    requires
        env.wf(),
        new_values@.len() == env.params@.len(),
        forall|i: int|
            0 <= i < new_values@.len() ==> -VAL_LIMIT <= #[trigger] new_values@[i] <= VAL_LIMIT,
    ensures
        r == puntuacion_total_spec(env.params@, new_values@),
        iabs(r as int) <= env.params@.len() * APORTE_LIMIT,
{
    let n: usize = env.params.len();
    let mut total: i128 = 0;
    let mut i: usize = 0;
    while i < n
        invariant
            env.wf(),
            n == env.params@.len(),
            new_values@.len() == n,
            forall|k: int|
                0 <= k < new_values@.len() ==> -VAL_LIMIT <= #[trigger] new_values@[k]
                    <= VAL_LIMIT,
            0 <= i <= n,
            total == puntuacion_total_spec(env.params@.take(i as int), new_values@.take(i as int)),
            iabs(total as int) <= i * APORTE_LIMIT,
        decreases n - i,
    {
        let p = &env.params[i];
        let nuevo: i64 = new_values[i];
        let cc: i64 = calculate_change_cost(p.current_value, nuevo, p.change_cost_factor);
        let sat: i64 = calculate_user_satisfaction(nuevo, p.target_value, p.min_value, p.max_value);
        proof {
            crate::fixed::lemma_abs_mul_bound(
                SCALE as int - p.satisfaction_weight as int,
                cc as int,
                SCALE as int,
                2_000_000_000_000_000_000,
            );
            vstd::arithmetic::div_mod::lemma_div_is_ordered(
                iabs((SCALE - p.satisfaction_weight) as int * cc as int),
                2_000_000_000_000_000_000_000_000,
                SCALE as int,
            );
            vstd::arithmetic::mul::lemma_mul_nonnegative(
                SCALE as int - p.satisfaction_weight as int,
                cc as int,
            );
            vstd::arithmetic::div_mod::lemma_div_pos_is_pos(
                (SCALE - p.satisfaction_weight) as int * cc as int,
                SCALE as int,
            );
        }
        let termino_costo: i64 = mul_div(SCALE - p.satisfaction_weight, cc, SCALE);
        proof {
            crate::fixed::lemma_abs_mul_bound(
                p.satisfaction_weight as int,
                sat as int,
                SCALE as int,
                SCALE as int,
            );
            vstd::arithmetic::div_mod::lemma_div_is_ordered(
                iabs(p.satisfaction_weight as int * sat as int),
                1_000_000_000_000,
                SCALE as int,
            );
            vstd::arithmetic::mul::lemma_mul_nonnegative(p.satisfaction_weight as int, sat as int);
            vstd::arithmetic::div_mod::lemma_div_pos_is_pos(
                p.satisfaction_weight as int * sat as int,
                SCALE as int,
            );
        }
        let termino_sat: i64 = mul_div(p.satisfaction_weight, sat, SCALE);
        proof {
            crate::fixed::lemma_abs_mul_bound(
                p.priority as int,
                termino_costo as int,
                SCALE as int,
                2_000_000_000_000_000_000,
            );
            vstd::arithmetic::div_mod::lemma_div_is_ordered(
                iabs(p.priority as int * termino_costo as int),
                2_000_000_000_000_000_000_000_000,
                SCALE as int,
            );
            vstd::arithmetic::mul::lemma_mul_nonnegative(p.priority as int, termino_costo as int);
            vstd::arithmetic::div_mod::lemma_div_pos_is_pos(
                p.priority as int * termino_costo as int,
                SCALE as int,
            );
        }
        let aporte_costo: i64 = mul_div(p.priority, termino_costo, SCALE);
        proof {
            crate::fixed::lemma_abs_mul_bound(
                p.priority as int,
                termino_sat as int,
                SCALE as int,
                SCALE as int,
            );
            vstd::arithmetic::div_mod::lemma_div_is_ordered(
                iabs(p.priority as int * termino_sat as int),
                1_000_000_000_000,
                SCALE as int,
            );
            vstd::arithmetic::mul::lemma_mul_nonnegative(p.priority as int, termino_sat as int);
            vstd::arithmetic::div_mod::lemma_div_pos_is_pos(
                p.priority as int * termino_sat as int,
                SCALE as int,
            );
        }
        let aporte_sat: i64 = mul_div(p.priority, termino_sat, SCALE);
        let aporte: i64 = aporte_costo - aporte_sat;
        proof {
            lemma_puntuacion_take_step(env.params@, new_values@, i as int);
        }
        total = total + (aporte as i128);
        i = i + 1;
    }
    proof {
        assert(env.params@.take(n as int) =~= env.params@);
        assert(new_values@.take(n as int) =~= new_values@);
    }
    total
}

/// An exact copy of a value vector.
fn copiar_valores(v: &Vec<i64>) -> (r: Vec<i64>)
    ensures
        r@ == v@,
{
    let n: usize = v.len();
    let mut r: Vec<i64> = Vec::new();
    let mut i: usize = 0;
    while i < n
        invariant
            n == v@.len(),
            0 <= i <= n,
            r@ == v@.take(i as int),
        decreases n - i,
    {
        r.push(v[i]);
        proof {
            assert(v@.take(i + 1) =~= v@.take(i as int).push(v@[i as int]));
        }
        i = i + 1;
    }
    proof {
        assert(v@.take(n as int) =~= v@);
    }
    r
}

/// A finished multi-parameter search: the best value for every parameter,
/// the realized change cost and satisfaction per parameter, and the total
/// score being minimised.
pub struct Solution {
    pub values: Vec<i64>,
    pub change_costs: Vec<i64>,
    pub satisfactions: Vec<i64>,
    pub total_cost: i128,
}

/// Simulated annealing over a whole environment.  Starting from the current
/// values, each iteration perturbs every coordinate independently with even
/// odds, scores the proposal, accepts by the Metropolis rule, records a new
/// best on strict improvement, and cools the temperature by the rate.  The
/// returned best never scores worse than the starting point, and every value
/// stays inside its parameter's bounds.
pub fn recocido_simulado_multi(
    temp_inicial: i64,
    tasa_enfriamiento: i64,
    iteraciones: usize,
    env: &MultiEnvironment,
    rng: &mut rand::rngs::StdRng,
) -> (r: Solution)
    requires
        env.wf(),
        1 <= temp_inicial <= VAL_LIMIT,
        0 <= tasa_enfriamiento < SCALE,
    ensures
        r.values@.len() == env.params@.len(),
        r.change_costs@.len() == env.params@.len(),
        r.satisfactions@.len() == env.params@.len(),
        forall|i: int|
            0 <= i < env.params@.len() ==> env.params@[i].min_value <= #[trigger] r.values@[i]
                <= env.params@[i].max_value,
        r.total_cost == puntuacion_total_spec(env.params@, r.values@),
        r.total_cost <= puntuacion_total_spec(env.params@, valores_iniciales(env.params@)),
        forall|i: int|
            0 <= i < env.params@.len() ==> #[trigger] r.change_costs@[i] == costo_cambio_spec(
                env.params@[i].current_value as int,
                r.values@[i] as int,
                env.params@[i].change_cost_factor as int,
            ),
        forall|i: int|
            0 <= i < env.params@.len() ==> #[trigger] r.satisfactions@[i]
                == satisfaccion_usuario_spec(
                r.values@[i] as int,
                env.params@[i].target_value as int,
                env.params@[i].min_value as int,
                env.params@[i].max_value as int,
            ),
{
    let n: usize = env.params.len();
    // start from the current values
    let mut valores_actuales: Vec<i64> = Vec::new();
    let mut i: usize = 0;
    while i < n
        invariant
            env.wf(),
            n == env.params@.len(),
            0 <= i <= n,
            valores_actuales@.len() == i,
            forall|k: int|
                0 <= k < i ==> #[trigger] valores_actuales@[k] == env.params@[k].current_value,
        decreases n - i,
    {
        valores_actuales.push(env.params[i].current_value);
        i = i + 1;
    }
    proof {
        assert(valores_actuales@ =~= valores_iniciales(env.params@));
    }
    let mut mejor_solucion: Vec<i64> = copiar_valores(&valores_actuales);
    proof {
        lemma_valores_en_rango(env.params@, valores_actuales@);
    }
    let mut mejor_costo: i128 = multi_objective_function(&valores_actuales, env);
    let mut temperatura: i64 = temp_inicial;
    let mut it: usize = 0;
    while it < iteraciones
        invariant
            env.wf(),
            n == env.params@.len(),
            1 <= temp_inicial <= VAL_LIMIT,
            0 <= tasa_enfriamiento < SCALE,
            valores_actuales@.len() == n,
            mejor_solucion@.len() == n,
            forall|k: int|
                0 <= k < n ==> env.params@[k].min_value <= #[trigger] valores_actuales@[k]
                    <= env.params@[k].max_value,
            forall|k: int|
                0 <= k < n ==> env.params@[k].min_value <= #[trigger] mejor_solucion@[k]
                    <= env.params@[k].max_value,
            mejor_costo == puntuacion_total_spec(env.params@, mejor_solucion@),
            mejor_costo <= puntuacion_total_spec(env.params@, valores_iniciales(env.params@)),
            0 <= temperatura <= temp_inicial,
            0 <= it <= iteraciones,
        decreases iteraciones - it,
    {
        // propose a neighbor: each coordinate moves with even odds
        let mut valores_nuevos: Vec<i64> = Vec::new();
        let mut k: usize = 0;
        while k < n
            invariant
                env.wf(),
                n == env.params@.len(),
                valores_actuales@.len() == n,
                forall|j: int|
                    0 <= j < n ==> env.params@[j].min_value <= #[trigger] valores_actuales@[j]
                        <= env.params@[j].max_value,
                0 <= k <= n,
                valores_nuevos@.len() == k,
                forall|j: int|
                    0 <= j < k ==> env.params@[j].min_value <= #[trigger] valores_nuevos@[j]
                        <= env.params@[j].max_value,
            decreases n - k,
        {
            let moneda: i64 = random_in_range(rng, 0, SCALE);
            if moneda < SCALE / 2 {
                let p = &env.params[k];
                let paso: i64 = div_pos(p.max_value - p.min_value, 10);
                let desplazamiento: i64 = random_in_range(rng, -paso, paso);
                let mut nuevo: i64 = valores_actuales[k] + desplazamiento;
                if nuevo < p.min_value {
                    nuevo = p.min_value;
                }
                if nuevo > p.max_value {
                    nuevo = p.max_value;
                }
                valores_nuevos.push(nuevo);
            } else {
                valores_nuevos.push(valores_actuales[k]);
            }
            k = k + 1;
        }
        proof {
            lemma_valores_en_rango(env.params@, valores_actuales@);
            lemma_valores_en_rango(env.params@, valores_nuevos@);
        }
        let costo_actual: i128 = multi_objective_function(&valores_actuales, env);
        let costo_nuevo: i128 = multi_objective_function(&valores_nuevos, env);
        let delta_costo: i128 = costo_nuevo - costo_actual;
        let probabilidad: i64 = acceptance_probability(delta_costo, temperatura);
        let sorteo: i64 = random_in_range(rng, 0, SCALE);
        if sorteo < probabilidad {
            valores_actuales = valores_nuevos;
            if costo_nuevo < mejor_costo {
                mejor_costo = costo_nuevo;
                mejor_solucion = copiar_valores(&valores_actuales);
            }
        }
        temperatura = crate::annealing::enfriar(temperatura, tasa_enfriamiento);
        it = it + 1;
    }
    // realized per-parameter components of the best solution
    let mut change_costs: Vec<i64> = Vec::new();
    let mut satisfactions: Vec<i64> = Vec::new();
    let mut j: usize = 0;
    while j < n
        invariant
            env.wf(),
            n == env.params@.len(),
            mejor_solucion@.len() == n,
            forall|k: int|
                0 <= k < n ==> env.params@[k].min_value <= #[trigger] mejor_solucion@[k]
                    <= env.params@[k].max_value,
            0 <= j <= n,
            change_costs@.len() == j,
            satisfactions@.len() == j,
            forall|k: int|
                0 <= k < j ==> #[trigger] change_costs@[k] == costo_cambio_spec(
                    env.params@[k].current_value as int,
                    mejor_solucion@[k] as int,
                    env.params@[k].change_cost_factor as int,
                ),
            forall|k: int|
                0 <= k < j ==> #[trigger] satisfactions@[k] == satisfaccion_usuario_spec(
                    mejor_solucion@[k] as int,
                    env.params@[k].target_value as int,
                    env.params@[k].min_value as int,
                    env.params@[k].max_value as int,
                ),
        decreases n - j,
    {
        let p = &env.params[j];
        let vj: i64 = mejor_solucion[j];
        change_costs.push(calculate_change_cost(p.current_value, vj, p.change_cost_factor));
        satisfactions.push(calculate_user_satisfaction(vj, p.target_value, p.min_value, p.max_value));
        j = j + 1;
    }
    Solution { values: mejor_solucion, change_costs, satisfactions, total_cost: mejor_costo }
}

/// Values inside their parameters' bounds are inside the fixed-point limits.
proof fn lemma_valores_en_rango(params: Seq<EnvironmentParam>, valores: Seq<i64>)
    requires
        valores.len() == params.len(),
        forall|i: int| 0 <= i < params.len() ==> (#[trigger] params[i]).wf(),
        forall|i: int|
            0 <= i < params.len() ==> params[i].min_value <= #[trigger] valores[i]
                <= params[i].max_value,
    ensures
        forall|i: int| 0 <= i < valores.len() ==> -VAL_LIMIT <= #[trigger] valores[i] <= VAL_LIMIT,
{
    assert forall|i: int| 0 <= i < valores.len() implies -VAL_LIMIT <= #[trigger] valores[i]
        <= VAL_LIMIT by {
        assert(params[i].wf());
        assert(params[i].min_value <= valores[i] <= params[i].max_value);
    }
}

/// A worked example: a temperature and a humidity parameter, priorities
/// sixty and forty percent, searched with an initial temperature of one
/// thousand units, a cooling rate just below one, and five thousand
/// iterations.
pub fn ejemplo_recocido_multi(rng: &mut rand::rngs::StdRng) -> (r: Solution)
    ensures
        r.values@.len() == 2,
        r.change_costs@.len() == 2,
        r.satisfactions@.len() == 2,
        15_000_000 <= r.values@[0] <= 30_000_000,
        30_000_000 <= r.values@[1] <= 70_000_000,
{
    let temperatura = EnvironmentParam {
        name: "temperatura".to_owned(),
        current_value: 22_000_000,
        target_value: 25_000_000,
        min_value: 15_000_000,
        max_value: 30_000_000,
        change_cost_factor: 500_000,
        priority: 600_000,
        satisfaction_weight: 800_000,
    };
    let humedad = EnvironmentParam {
        name: "humedad".to_owned(),
        current_value: 50_000_000,
        target_value: 45_000_000,
        min_value: 30_000_000,
        max_value: 70_000_000,
        change_cost_factor: 300_000,
        priority: 400_000,
        satisfaction_weight: 700_000,
    };
    let mut params: Vec<EnvironmentParam> = Vec::new();
    params.push(temperatura);
    params.push(humedad);
    let env = MultiEnvironment { params };
    proof {
        assert(env.params@.len() == 2);
        assert(forall|i: int| 0 <= i < env.params@.len() ==> (#[trigger] env.params@[i]).wf());
    }
    recocido_simulado_multi(1_000_000_000, 970_000, 5000, &env, rng)
}

} // verus!
