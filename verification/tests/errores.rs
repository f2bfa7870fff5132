//! One input per error variant, plus the constructor and multi-parameter
//! guards around them.

use recocido::annealing::Annealing;
use recocido::errors::AnnealError;
use recocido::practicas::practica9;
use recocido::rng::seeded_rng;
use recocido::simulated_annealing::{
    multi_objective_function, recocido_simulado_multi, EnvironmentParam, MultiEnvironment,
};
use recocido::val_satisfaccion_individual::ValoresSatisfaccionIndividual;

#[test]
fn limites_invalidos_en_construccion() {
    // minimum not below maximum
    let r = ValoresSatisfaccionIndividual::new(
        40_000_000, 0, 20_000_000, 26_000_000, 5_000_000, 10_000_000, 5_000_000, 5_000_000,
    );
    assert_eq!(r, Err(AnnealError::InvalidBounds));
    // current value outside the bounds
    let r = ValoresSatisfaccionIndividual::new(
        0, 40_000_000, 41_000_000, 26_000_000, 5_000_000, 10_000_000, 5_000_000, 5_000_000,
    );
    assert_eq!(r, Err(AnnealError::InvalidBounds));
    // a valid state starts with a zero checksum
    let r = ValoresSatisfaccionIndividual::new(
        0, 40_000_000, 20_000_000, 26_000_000, 5_000_000, 10_000_000, 5_000_000, 5_000_000,
    )
    .unwrap();
    assert_eq!(r.checksum, 0);
    assert_eq!(r.temp_actual, 20_000_000);
}

#[test]
fn peso_cero_en_objetivo() {
    let estado = ValoresSatisfaccionIndividual::new(
        0, 40_000_000, 20_000_000, 26_000_000, 5_000_000, 10_000_000, 5_000_000, 0,
    )
    .unwrap();
    assert_eq!(estado.funcion_objetivo(0), Err(AnnealError::InvalidWeight));
}

#[test]
fn configuracion_invalida_del_motor() {
    let estado = ValoresSatisfaccionIndividual::new(
        0, 40_000_000, 20_000_000, 26_000_000, 5_000_000, 10_000_000, 5_000_000, 5_000_000,
    )
    .unwrap();
    // floor at or above the initial temperature
    let r = Annealing::new(1_000_000, 995_000, 1_000_000, 1000, estado, false, 0);
    assert!(matches!(r, Err(AnnealError::InvalidBounds)));
    // cooling rate of exactly one is refused
    let r = Annealing::new(1_000_000_000, 1_000_000, 10_000, 1000, estado, false, 0);
    assert!(matches!(r, Err(AnnealError::InvalidBounds)));
    // a zero satisfaction weight can never be scored
    let sin_peso = ValoresSatisfaccionIndividual::new(
        0, 40_000_000, 20_000_000, 26_000_000, 5_000_000, 10_000_000, 5_000_000, 0,
    )
    .unwrap();
    let r = Annealing::new(1_000_000_000, 995_000, 10_000, 1000, sin_peso, false, 0);
    assert!(matches!(r, Err(AnnealError::InvalidWeight)));
}

#[test]
fn desajuste_de_prioridades() {
    let p = EnvironmentParam {
        name: "temperatura".to_string(),
        current_value: 22_000_000,
        target_value: 25_000_000,
        min_value: 15_000_000,
        max_value: 30_000_000,
        change_cost_factor: 500_000,
        priority: 600_000,
        satisfaction_weight: 800_000,
    };
    let env = MultiEnvironment { params: vec![p] };
    assert_eq!(env.validate_priorities(), Err(AnnealError::PriorityMismatch));
}

#[test]
fn puntuacion_multi_exacta() {
    // one parameter at its target: no change cost is (1 - 0.8) * 0 = 0 and
    // satisfaction is exactly one, so the score is -priority * weight
    let p = EnvironmentParam {
        name: "temperatura".to_string(),
        current_value: 25_000_000,
        target_value: 25_000_000,
        min_value: 15_000_000,
        max_value: 30_000_000,
        change_cost_factor: 500_000,
        priority: 600_000,
        satisfaction_weight: 800_000,
    };
    let env = MultiEnvironment { params: vec![p] };
    let puntuacion = multi_objective_function(&vec![25_000_000], &env);
    assert_eq!(puntuacion, -480_000);
}

#[test]
fn puntuacion_multi_con_costo_de_cambio() {
    // moving 10 units at factor 0.5 costs 5; satisfaction 5 units from the
    // target over a 15-unit range is 1 - 1/3; every product truncates to
    // millionths before the next step
    let p = EnvironmentParam {
        name: "temperatura".to_string(),
        current_value: 20_000_000,
        target_value: 25_000_000,
        min_value: 15_000_000,
        max_value: 30_000_000,
        change_cost_factor: 500_000,
        priority: 600_000,
        satisfaction_weight: 800_000,
    };
    let env = MultiEnvironment { params: vec![p] };
    let puntuacion = multi_objective_function(&vec![30_000_000], &env);
    // cost term: 0.2 * 5 = 1; satisfaction term: 0.8 * 0.666667 = 0.533333;
    // weighted: 0.6 * 1 - 0.6 * 0.533333 = 0.600000 - 0.319999
    assert_eq!(puntuacion, 280_001);
}

#[test]
fn motor_multi_respeta_limites() {
    let p = EnvironmentParam {
        name: "humedad".to_string(),
        current_value: 50_000_000,
        target_value: 45_000_000,
        min_value: 30_000_000,
        max_value: 70_000_000,
        change_cost_factor: 300_000,
        priority: 1_000_000,
        satisfaction_weight: 700_000,
    };
    let env = MultiEnvironment { params: vec![p] };
    let mut rng = seeded_rng(7);
    let sol = recocido_simulado_multi(1_000_000_000, 970_000, 2000, &env, &mut rng);
    assert_eq!(sol.values.len(), 1);
    assert!(30_000_000 <= sol.values[0] && sol.values[0] <= 70_000_000);
    let inicial = multi_objective_function(&vec![50_000_000], &env);
    assert!(sol.total_cost <= inicial);
    // the reported total matches rescoring the returned values
    assert_eq!(sol.total_cost, multi_objective_function(&sol.values, &env));
}

#[test]
fn practica_nueve_sin_trabajo() {
    assert!(practica9().is_ok());
}
