//! Scenario tests for the acceptance rule, the cooling schedule, the
//! checksum round trip, priority renormalization, and the two worked
//! examples of the objective function and the full engine.

use recocido::acceptance::{acceptance_probability, exp_neg};
use recocido::annealing::{enfriar, Annealing};
use recocido::fixed::SCALE;
use recocido::rng::seeded_rng;
use recocido::simulated_annealing::{EnvironmentParam, MultiEnvironment};
use recocido::val_satisfaccion_individual::ValoresSatisfaccionIndividual;

fn estado_de_referencia() -> ValoresSatisfaccionIndividual {
    ValoresSatisfaccionIndividual {
        minimo: 0,
        maximo: 40_000_000,
        temp_actual: 20_000_000,
        temp_objetivo: 26_000_000,
        satisfaccion_actual: 5_000_000,
        satisfaccion_objetivo: 10_000_000,
        costo_unitario: 5_000_000,
        peso_satisfaccion: 5_000_000,
        checksum: 0,
    }
}

fn parametro(nombre: &str, prioridad: i64) -> EnvironmentParam {
    EnvironmentParam {
        name: nombre.to_string(),
        current_value: 2_000_000,
        target_value: 5_000_000,
        min_value: 0,
        max_value: 10_000_000,
        change_cost_factor: 500_000,
        priority: prioridad,
        satisfaction_weight: 500_000,
    }
}

#[test]
fn acceptance_improving_is_certain() {
    // a strictly better candidate is accepted with probability exactly one
    assert_eq!(acceptance_probability(-1, 1_000_000), SCALE);
    assert_eq!(acceptance_probability(-5_000_000_000, 3), SCALE);
    assert_eq!(acceptance_probability(0, 1), SCALE);
}

#[test]
fn acceptance_vanishes_as_temperature_cools() {
    let delta: i128 = 1_000_000; // one unit worse
    // at a twentieth of the score increase the probability is exactly zero
    assert_eq!(acceptance_probability(delta, 50_000), 0);
    assert_eq!(acceptance_probability(delta, 1), 0);
    assert_eq!(acceptance_probability(delta, 0), 0);
    // and it only shrinks as the temperature keeps falling
    let tibia = acceptance_probability(delta, 10_000_000);
    let fria = acceptance_probability(delta, 1_000_000);
    assert!(fria <= tibia);
    assert!(tibia < SCALE);
}

#[test]
fn exponencial_fija() {
    assert_eq!(exp_neg(0), SCALE);
    // one full decay step: 1/e in millionths
    assert_eq!(exp_neg(1_000_000), 367_879);
    // half a step by the quadratic series
    assert_eq!(exp_neg(500_000), 625_000);
    assert_eq!(exp_neg(20_000_000), 0);
}

#[test]
fn enfriamiento_no_crece() {
    // one cooling step at rate 0.995
    assert_eq!(enfriar(1_000_000_000, 995_000), 995_000_000);
    let mut t: i64 = 1_000_000_000;
    for _ in 0..100 {
        let siguiente = enfriar(t, 995_000);
        assert!(siguiente <= t);
        t = siguiente;
    }
}

#[test]
fn checksum_round_trip() {
    let mut estado = estado_de_referencia();
    estado.calculate_checksum();
    assert!(estado.checksum());

    // the check is a guard: a foreign-field mutation well past the
    // tolerance is caught
    let mut alterado = estado;
    alterado.costo_unitario = 50_000_000;
    assert!(!alterado.checksum());
}

#[test]
fn renormalizacion_de_prioridades() {
    let params = vec![
        parametro("a", 300_000),
        parametro("b", 300_000),
        parametro("c", 300_000),
    ];
    let mut env = MultiEnvironment { params };
    assert!(env.validate_priorities().is_err());
    env.normalize_priorities();
    // 0.3 / 0.9 truncated to millionths: a third each
    assert_eq!(env.params[0].priority, 333_333);
    assert_eq!(env.params[1].priority, 333_333);
    assert_eq!(env.params[2].priority, 333_333);
    assert!(env.validate_priorities().is_ok());
}

#[test]
fn escenario_objetivo_individual() {
    let valor = estado_de_referencia();
    // |5*20 - 5*26| = 30 and |5*5 - 10*5| = 25
    assert_eq!(valor.diferencia_costo(), 30_000_000);
    assert_eq!(valor.diferencia_satisfaccion(), 25_000_000);
    // base (5/5)*|30-25| = 5, and both deltas are positive, so the
    // same-direction penalty doubles it
    assert_eq!(valor.funcion_objetivo(0), Ok(10_000_000));
    // the bias term shifts the base only
    assert_eq!(valor.funcion_objetivo(2_000_000), Ok(12_000_000));
}

#[test]
fn escenario_motor_individual() {
    let estado = estado_de_referencia();
    let motor = Annealing::new(1_000_000_000, 995_000, 10_000, 1000, estado, false, 0).unwrap();
    let mut rng = seeded_rng(42);
    let (mejor, stats) = motor.run_with_stats(&mut rng);
    // the run terminated: the temperature decayed to its floor
    assert!(stats.final_temperature <= 10_000);
    assert!(stats.accepted_moves <= stats.total_moves);
    assert!(stats.total_moves > 0);
    // the best score never exceeds the initial score
    let costo_mejor = mejor.funcion_objetivo(0).unwrap();
    let costo_inicial = estado.funcion_objetivo(0).unwrap();
    assert!(costo_mejor <= costo_inicial);
    // the fixed fields were never touched
    assert_eq!(mejor.minimo, estado.minimo);
    assert_eq!(mejor.maximo, estado.maximo);
    assert_eq!(mejor.temp_objetivo, estado.temp_objetivo);
    assert_eq!(mejor.satisfaccion_objetivo, estado.satisfaccion_objetivo);
    assert_eq!(mejor.costo_unitario, estado.costo_unitario);
    assert_eq!(mejor.peso_satisfaccion, estado.peso_satisfaccion);
    // and the moved fields stayed inside their bounds
    assert!(mejor.minimo <= mejor.temp_actual && mejor.temp_actual <= mejor.maximo);
    assert!(0 <= mejor.satisfaccion_actual && mejor.satisfaccion_actual <= 100_000_000);
}

#[test]
fn vecinos_dentro_de_limites() {
    let estado = estado_de_referencia();
    let motor = Annealing::new(1_000_000_000, 995_000, 10_000, 1000, estado, false, 0).unwrap();
    let mut rng = seeded_rng(99);
    let mut temperaturas = Vec::new();
    for _ in 0..200 {
        let vecino = motor.generar_vecino(&estado, &mut rng);
        assert!(vecino.minimo <= vecino.temp_actual && vecino.temp_actual <= vecino.maximo);
        assert!(0 <= vecino.satisfaccion_actual && vecino.satisfaccion_actual <= 100_000_000);
        assert_eq!(vecino.minimo, estado.minimo);
        assert_eq!(vecino.maximo, estado.maximo);
        assert_eq!(vecino.temp_objetivo, estado.temp_objetivo);
        assert_eq!(vecino.satisfaccion_objetivo, estado.satisfaccion_objetivo);
        assert_eq!(vecino.costo_unitario, estado.costo_unitario);
        assert_eq!(vecino.peso_satisfaccion, estado.peso_satisfaccion);
        assert_eq!(vecino.checksum, 0);
        // the offset stays within the two-unit window
        assert!((vecino.temp_actual - estado.temp_actual).abs() <= 2_000_000);
        temperaturas.push(vecino.temp_actual);
    }
    // the draws actually vary: two hundred equal perturbations would mean
    // the random source is not being consulted
    temperaturas.sort();
    temperaturas.dedup();
    assert!(temperaturas.len() > 1);
}
