//! The single-parameter annealing engine.
//!
//! While the temperature stays above its floor the engine runs a fixed number
//! of inner iterations: each one proposes a neighbor of the current solution,
//! scores both, applies the Metropolis rule, and on acceptance moves to the
//! neighbor, recording it as the best seen when it strictly improves on that.
//! After every inner pass the temperature is multiplied by the cooling rate.
//! The best solution seen is returned; its score never exceeds the initial
//! one.

use vstd::prelude::*;

use crate::acceptance::acceptance_probability;
use crate::errors::AnnealError;
use crate::fixed::{iabs, mul_div, sdiv, SCALE, VAL_LIMIT};
use crate::rng::random_in_range;
use crate::val_satisfaccion_individual::{ValoresSatisfaccionIndividual, SAT_LIMIT};

verus! {

/// Upper bound on inner iterations per temperature step; together with the
/// bound on the initial temperature it keeps the move counters inside `u64`.
pub const ITER_LIMIT: usize = 1_000_000;

/// Progress counters a finished run reports: accepted over proposed moves,
/// and the temperature at which the run stopped.
#[derive(Clone, Copy, Debug, PartialEq, Eq, Structural)]
pub struct RunStats {
    pub accepted_moves: u64,
    pub total_moves: u64,
    pub final_temperature: i64,
}

/// Two states that describe the same problem: all fields equal except the
/// two the search is allowed to move and the derived checksum.
pub open spec fn mismo_problema(
    a: ValoresSatisfaccionIndividual,
    b: ValoresSatisfaccionIndividual,
) -> bool {
    &&& a.minimo == b.minimo
    &&& a.maximo == b.maximo
    &&& a.temp_objetivo == b.temp_objetivo
    &&& a.satisfaccion_objetivo == b.satisfaccion_objetivo
    &&& a.costo_unitario == b.costo_unitario
    &&& a.peso_satisfaccion == b.peso_satisfaccion
}

/// One cooling step: the temperature shrinks by the rate (a fixed-point
/// factor below one), so the schedule is monotonically non-increasing and
/// strictly decreasing while the temperature is positive.
pub fn enfriar(temperatura: i64, tasa: i64) -> (r: i64)
    requires
        0 <= temperatura <= VAL_LIMIT,
        0 <= tasa < SCALE,
    ensures
        r == sdiv(temperatura as int * tasa as int, SCALE as int),
        0 <= r <= temperatura,
        temperatura >= 1 ==> r < temperatura,
{
    proof {
        let t = temperatura as int;
        let c = tasa as int;
        vstd::arithmetic::mul::lemma_mul_nonnegative(t, c);
        crate::fixed::lemma_abs_mul_bound(t, c, VAL_LIMIT as int, SCALE as int);
        vstd::arithmetic::div_mod::lemma_div_pos_is_pos(t * c, SCALE as int);
        vstd::arithmetic::mul::lemma_mul_inequality(c, SCALE as int, t);
        vstd::arithmetic::mul::lemma_mul_is_commutative(t, c);
        vstd::arithmetic::mul::lemma_mul_is_commutative(t, SCALE as int);
        vstd::arithmetic::div_mod::lemma_div_is_ordered(t * c, t * SCALE, SCALE as int);
        vstd::arithmetic::div_mod::lemma_div_by_multiple(t, SCALE as int);
        if temperatura >= 1 {
            vstd::arithmetic::mul::lemma_mul_strict_inequality(c, SCALE as int, t);
            vstd::arithmetic::div_mod::lemma_multiply_divide_lt(t * c, SCALE as int, t);
        }
    }
    mul_div(temperatura, tasa, SCALE)
}

/// Configuration of one single-parameter run: the cooling schedule, the
/// iteration budget per temperature, the initial state, a flag telling the
/// caller whether to report progress, and the objective's bias term.
pub struct Annealing {
    pub temperatura_inicial: i64,
    pub tasa_enfriamiento: i64,
    pub temperatura_minima: i64,
    pub iteraciones: usize,
    pub preferencias: ValoresSatisfaccionIndividual,
    pub show_progress: bool,
    pub delta: i64,
}

impl Annealing {
    /// The configuration's numeric fields are in range: positive initial
    /// temperature above the floor, cooling rate strictly between zero and
    /// one, at least one inner iteration, a bias within the fixed-point
    /// limits, and a well-formed initial state.
    pub open spec fn config_en_rango(self) -> bool {
        &&& 1 <= self.temperatura_minima < self.temperatura_inicial <= VAL_LIMIT
        &&& 1 <= self.tasa_enfriamiento < SCALE
        &&& 1 <= self.iteraciones <= ITER_LIMIT
        &&& -VAL_LIMIT <= self.delta <= VAL_LIMIT
        &&& self.preferencias.wf_bounds()
    }

    /// A runnable engine: the ranges above, and a positive satisfaction
    /// weight so the objective function is defined.
    pub open spec fn wf(self) -> bool {
        &&& self.config_en_rango()
        &&& self.preferencias.peso_satisfaccion >= 1
    }

    /// Builds an engine after validating the whole configuration: a range
    /// violation is `InvalidBounds`, a zero satisfaction weight (with which
    /// no state could ever be scored) is `InvalidWeight`.
    pub fn new(
        temperatura_inicial: i64,
        tasa_enfriamiento: i64,
        temperatura_minima: i64,
        iteraciones: usize,
        preferencias: ValoresSatisfaccionIndividual,
        show_progress: bool,
        delta: i64,
    ) -> (r: Result<Self, AnnealError>)
        ensures
            ({
                let a = Annealing {
                    temperatura_inicial,
                    tasa_enfriamiento,
                    temperatura_minima,
                    iteraciones,
                    preferencias,
                    show_progress,
                    delta,
                };
                &&& (r is Ok <==> a.wf())
                &&& (r is Ok ==> r->Ok_0 == a)
                &&& (!a.config_en_rango() ==> r == Err::<Self, AnnealError>(
                    AnnealError::InvalidBounds,
                ))
                &&& (a.config_en_rango() && preferencias.peso_satisfaccion == 0 ==> r
                    == Err::<Self, AnnealError>(AnnealError::InvalidWeight))
            }),
    {
        let p = &preferencias;
        let rango: bool = 1 <= temperatura_minima && temperatura_minima < temperatura_inicial
            && temperatura_inicial <= VAL_LIMIT && 1 <= tasa_enfriamiento && tasa_enfriamiento
            < SCALE && 1 <= iteraciones && iteraciones <= ITER_LIMIT && -VAL_LIMIT <= delta && delta
            <= VAL_LIMIT && -VAL_LIMIT <= p.minimo && p.minimo < p.maximo && p.maximo <= VAL_LIMIT
            && p.minimo <= p.temp_actual && p.temp_actual <= p.maximo && p.minimo <= p.temp_objetivo
            && p.temp_objetivo <= p.maximo && 0 <= p.satisfaccion_actual && p.satisfaccion_actual
            <= SAT_LIMIT && 0 <= p.satisfaccion_objetivo && p.satisfaccion_objetivo <= SAT_LIMIT && 0
            <= p.costo_unitario && p.costo_unitario <= VAL_LIMIT && p.peso_satisfaccion
            <= VAL_LIMIT && -crate::val_satisfaccion_individual::CHECKSUM_LIMIT <= p.checksum
            && p.checksum <= crate::val_satisfaccion_individual::CHECKSUM_LIMIT && 0
            <= p.peso_satisfaccion;
        if !rango {
            return Err(AnnealError::InvalidBounds);
        }
        if preferencias.peso_satisfaccion == 0 {
            return Err(AnnealError::InvalidWeight);
        }
        Ok(
            Annealing {
                temperatura_inicial,
                tasa_enfriamiento,
                temperatura_minima,
                iteraciones,
                preferencias,
                show_progress,
                delta,
            },
        )
    }

    /// Objective value of a state that shares this engine's problem; total
    /// because the engine's weight is positive.
    fn puntuar(&self, estado: &ValoresSatisfaccionIndividual) -> (r: i128)
        requires
            self.wf(),
            estado.wf_bounds(),
            mismo_problema(self.preferencias, *estado),
        ensures
            r == estado.objetivo_spec(self.delta as int),
            iabs(r as int) <= 5_000_000_000_000_000_000_000_000_000_000_000_000,
    {
        match estado.funcion_objetivo(self.delta) {
            Ok(c) => c,
            Err(_) => vstd::pervasive::unreached(),
        }
    }

    /// A neighbor of the given state: the controlled value moves by a
    /// uniform offset within two units and is clamped to the state's bounds;
    /// the satisfaction moves within ten units and is clamped to its own
    /// range.  Everything else is copied; the checksum starts over at zero.
    pub fn generar_vecino(
        &self,
        solucion_actual: &ValoresSatisfaccionIndividual,
        rng: &mut rand::rngs::StdRng,
    ) -> (r: ValoresSatisfaccionIndividual)
        requires
            solucion_actual.wf_bounds(),
        ensures
            r.wf_bounds(),
            mismo_problema(*solucion_actual, r),
            r.checksum == 0,
    {
        let paso_valor: i64 = random_in_range(rng, -2 * SCALE, 2 * SCALE);
        let mut vecino_temp: i64 = solucion_actual.temp_actual + paso_valor;
        if vecino_temp < solucion_actual.minimo {
            vecino_temp = solucion_actual.minimo;
        }
        if vecino_temp > solucion_actual.maximo {
            vecino_temp = solucion_actual.maximo;
        }
        let paso_sat: i64 = random_in_range(rng, -10 * SCALE, 10 * SCALE);
        let mut vecino_satisfaccion: i64 = solucion_actual.satisfaccion_actual + paso_sat;
        if vecino_satisfaccion < 0 {
            vecino_satisfaccion = 0;
        }
        if vecino_satisfaccion > SAT_LIMIT {
            vecino_satisfaccion = SAT_LIMIT;
        }
        ValoresSatisfaccionIndividual {
            temp_actual: vecino_temp,
            satisfaccion_actual: vecino_satisfaccion,
            checksum: 0,
            ..*solucion_actual
        }
    }

    /// Runs the search and returns the best state seen with the progress
    /// counters: accepted moves never exceed proposed moves, the run stops
    /// only once the temperature reaches its floor, and the best state's
    /// score never exceeds the initial state's.
    pub fn run_with_stats(&self, rng: &mut rand::rngs::StdRng) -> (r: (
        ValoresSatisfaccionIndividual,
        RunStats,
    ))
        requires
            self.wf(),
        ensures
            r.0.wf_bounds(),
            mismo_problema(self.preferencias, r.0),
            r.0.objetivo_spec(self.delta as int) <= self.preferencias.objetivo_spec(
                self.delta as int,
            ),
            r.1.final_temperature <= self.temperatura_minima,
            r.1.accepted_moves <= r.1.total_moves,
    {
        let mut solucion_actual: ValoresSatisfaccionIndividual = self.preferencias;
        let mut mejor_solucion: ValoresSatisfaccionIndividual = self.preferencias;
        let mut costo_mejor: i128 = self.puntuar(&self.preferencias);
        let mut temperatura: i64 = self.temperatura_inicial;
        let mut total_accepted: u64 = 0;
        let mut total_iterations: u64 = 0;
        while temperatura > self.temperatura_minima
            invariant
                self.wf(),
                solucion_actual.wf_bounds(),
                mismo_problema(self.preferencias, solucion_actual),
                mejor_solucion.wf_bounds(),
                mismo_problema(self.preferencias, mejor_solucion),
                costo_mejor == mejor_solucion.objetivo_spec(self.delta as int),
                costo_mejor <= self.preferencias.objetivo_spec(self.delta as int),
                0 <= temperatura <= self.temperatura_inicial,
                total_accepted <= total_iterations,
                total_iterations <= (self.temperatura_inicial - temperatura) * (
                self.iteraciones as int),
            decreases temperatura,
        {
            let ghost temperatura_entrada = temperatura as int;
            let ghost total_entrada = total_iterations as int;
            let mut j: usize = 0;
            while j < self.iteraciones
                invariant
                    self.wf(),
                    solucion_actual.wf_bounds(),
                    mismo_problema(self.preferencias, solucion_actual),
                    mejor_solucion.wf_bounds(),
                    mismo_problema(self.preferencias, mejor_solucion),
                    costo_mejor == mejor_solucion.objetivo_spec(self.delta as int),
                    costo_mejor <= self.preferencias.objetivo_spec(self.delta as int),
                    temperatura == temperatura_entrada,
                    self.temperatura_minima < temperatura <= self.temperatura_inicial,
                    0 <= j <= self.iteraciones,
                    total_accepted <= total_iterations,
                    total_iterations == total_entrada + j,
                    total_entrada <= (self.temperatura_inicial - temperatura) * (
                    self.iteraciones as int),
                decreases self.iteraciones - j,
            {
                proof {
                    vstd::arithmetic::mul::lemma_mul_upper_bound(
                        self.temperatura_inicial - temperatura,
                        VAL_LIMIT as int,
                        self.iteraciones as int,
                        ITER_LIMIT as int,
                    );
                    vstd::arithmetic::mul::lemma_mul_nonnegative(
                        self.temperatura_inicial - temperatura,
                        self.iteraciones as int,
                    );
                }
                let vecino = self.generar_vecino(&solucion_actual, rng);
                let costo_actual: i128 = self.puntuar(&solucion_actual);
                let costo_vecino: i128 = self.puntuar(&vecino);
                let delta_score: i128 = costo_vecino - costo_actual;
                let probabilidad: i64 = acceptance_probability(delta_score, temperatura);
                let sorteo: i64 = random_in_range(rng, 0, SCALE);
                total_iterations = total_iterations + 1;
                if sorteo < probabilidad {
                    total_accepted = total_accepted + 1;
                    solucion_actual = vecino;
                    if costo_vecino < costo_mejor {
                        mejor_solucion = vecino;
                        costo_mejor = costo_vecino;
                    }
                }
                j = j + 1;
            }
            let ghost temperatura_antes = temperatura as int;
            temperatura = enfriar(temperatura, self.tasa_enfriamiento);
            proof {
                vstd::arithmetic::mul::lemma_mul_is_distributive_sub_other_way(
                    self.iteraciones as int,
                    self.temperatura_inicial - temperatura,
                    self.temperatura_inicial - temperatura_antes,
                );
                vstd::arithmetic::mul::lemma_mul_inequality(
                    1,
                    temperatura_antes - temperatura,
                    self.iteraciones as int,
                );
                vstd::arithmetic::mul::lemma_mul_is_commutative(
                    self.temperatura_inicial - temperatura,
                    self.iteraciones as int,
                );
                vstd::arithmetic::mul::lemma_mul_is_commutative(
                    self.temperatura_inicial - temperatura_antes,
                    self.iteraciones as int,
                );
            }
        }
        (
            mejor_solucion,
            RunStats {
                accepted_moves: total_accepted,
                total_moves: total_iterations,
                final_temperature: temperatura,
            },
        )
    }

    /// Runs the search and returns the best state seen; a convenience over
    /// [`Self::run_with_stats`] for callers that do not read the counters.
    pub fn run(&self, rng: &mut rand::rngs::StdRng) -> (mejor: ValoresSatisfaccionIndividual)
        requires
            self.wf(),
        ensures
            mejor.wf_bounds(),
            mismo_problema(self.preferencias, mejor),
            mejor.objetivo_spec(self.delta as int) <= self.preferencias.objetivo_spec(
                self.delta as int,
            ),
    {
        let (mejor, _) = self.run_with_stats(rng);
        mejor
    }
}

} // verus!
