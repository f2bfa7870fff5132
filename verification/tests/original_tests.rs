//! The suite the library grew up with, in fixed-point millionths.

use recocido::energia::Energia;
use recocido::normalizacion::normalizacion;
use recocido::rng::seeded_rng;
use recocido::satisfaccion::{satisfaccion, ValoresSatisfaccion};
use recocido::simulated_annealing::ejemplo_recocido_multi;
use recocido::val_satisfaccion_individual::ValoresSatisfaccionIndividual;

#[test]
fn test_func() {
    let configuracion_actual = Energia::new(20_000_000, 500_000, 100_000_000, true);
    let configuracion_objetivo = Energia::new(30_000_000, 500_000, 100_000_000, false);

    let satisfaccion =
        configuracion_actual.calc_satisfaccionenergia(configuracion_objetivo.energia_actual);

    // 100 units of change cost for the 10 units above the floor
    assert_eq!(satisfaccion, 1_000_000_000);
    println!("Satisfaccion: {}", satisfaccion);
}

#[test]
fn test_normalizacion() {
    let eo: i64 = 453_000_000;
    let emin: i64 = 0;
    let emax: i64 = 603_000_000;

    let normalized = normalizacion(eo, emin, emax);

    // 453 / 603 = 0.751243..., truncated to millionths
    assert!(normalized == 751_243);
}

#[test]
fn test_calc_satisfaccion() {
    let vector_preferencias = vec![
        (
            "item1".to_string(),
            ValoresSatisfaccion { valor: 1_000_000, minimo: 0, maximo: 10_000_000, is_min: true },
        ),
        (
            "item2".to_string(),
            ValoresSatisfaccion { valor: 2_000_000, minimo: 0, maximo: 10_000_000, is_min: false },
        ),
    ];
    let vector_actual = vec![
        (
            "item1".to_string(),
            ValoresSatisfaccion { valor: 2_000_000, minimo: 0, maximo: 10_000_000, is_min: true },
        ),
        (
            "item2".to_string(),
            ValoresSatisfaccion { valor: 5_000_000, minimo: 0, maximo: 10_000_000, is_min: false },
        ),
    ];
    let satisfaccion = satisfaccion::new(vector_preferencias, vector_actual, 1_000_000, true);
    let resultados = satisfaccion.calcular_satisfaccion();
    println!("{:?}", resultados);
    assert_eq!(resultados.len(), 2);
    // toward the minimum: (10 - 2) / 10 and (10 - 5) / 10, weighted by one
    assert_eq!(resultados[0].0, "item1".to_string());
    assert_eq!(resultados[0].1, 800_000);
    assert_eq!(resultados[1].0, "item2".to_string());
    assert_eq!(resultados[1].1, 500_000);
}

#[test]
fn test_ejemplo_recocido_multi() {
    let mut rng = seeded_rng(20_240_501);
    let solution = ejemplo_recocido_multi(&mut rng);

    println!(
        "Valores Optimos:{:?}, Costo Total Optimo:{}, Satisfacciones de Valores Optimos:{:?}, Cambios de Costo:{:?}",
        solution.values, solution.total_cost, solution.satisfactions, solution.change_costs
    );
    assert_eq!(solution.values.len(), 2);
    // each optimum stays inside its parameter's bounds
    assert!(15_000_000 <= solution.values[0] && solution.values[0] <= 30_000_000);
    assert!(30_000_000 <= solution.values[1] && solution.values[1] <= 70_000_000);
}

#[test]
fn test_fun_objetivo() {
    let mut valor = ValoresSatisfaccionIndividual {
        minimo: 0,
        maximo: 40_000_000,
        temp_actual: 20_000_000,
        temp_objetivo: 26_000_000,
        satisfaccion_actual: 5_000_000,
        satisfaccion_objetivo: 10_000_000,
        costo_unitario: 5_000_000,
        peso_satisfaccion: 5_000_000,
        checksum: 0,
    };
    let total = valor.calculate_checksum();

    // 5 * 20 + 5 * 5 = 125 units of energy
    assert_eq!(total, 125_000_000);
    println!("{}", total);
}
