//! Parameter injection: referenced variables get a binding line, a script
//! referencing nothing comes back byte-identical.

use glicol_verb::engine::param_injector::ParamInjector;

#[test]
fn test_inject_single_param() {
    let mut injector = ParamInjector::new();
    injector.drive = 2_500_000;

    let code = "out: ~input >> mul ~drive";
    let result = injector.inject(code);

    assert!(result.contains("~drive: sig 2.5"));
    assert!(result.ends_with(code));
}

#[test]
fn test_inject_multiple_params() {
    let mut injector = ParamInjector::new();
    injector.drive = 2_000_000;
    injector.feedback = 500_000;

    let code = "out: ~input >> mul ~drive >> delay ~feedback";
    let result = injector.inject(code);

    assert!(result.contains("~drive: sig 2.0"));
    assert!(result.contains("~feedback: sig 0.5"));
}

#[test]
fn test_no_injection_when_not_referenced() {
    let injector = ParamInjector::new();

    let code = "out: ~input >> mul 0.5";
    let result = injector.inject(code);

    // Should be unchanged
    assert_eq!(result, code);
}

#[test]
fn test_knobs() {
    let mut injector = ParamInjector::new();
    injector.knob1 = 250_000;
    injector.knob2 = 750_000;

    let code = "out: ~input >> lpf ~knob1 ~knob2";
    let result = injector.inject(code);

    assert!(result.contains("~knob1: sig 0.25"));
    assert!(result.contains("~knob2: sig 0.75"));
}

#[test]
fn inject_exact_output() {
    let mut injector = ParamInjector::new();
    injector.drive = 2_500_000;

    let code = "out: ~input >> mul ~drive";
    let result = injector.inject(code);

    assert_eq!(result, "~drive: sig 2.500000\nout: ~input >> mul ~drive");
}

#[test]
fn inject_negative_value() {
    let mut injector = ParamInjector::new();
    injector.rate = -1_250_000;

    let code = "lfo: sin ~rate";
    let result = injector.inject(code);

    assert_eq!(result, "~rate: sig -1.250000\nlfo: sin ~rate");
}

#[test]
fn inject_orders_bindings_before_script() {
    let mut injector = ParamInjector::new();
    injector.knob1 = 100_000;
    injector.mix = 900_000;

    let code = "out: ~input >> lpf ~knob1 >> mul ~mix";
    let result = injector.inject(code);

    // Bindings always precede the user's unchanged text
    assert_eq!(result, "~knob1: sig 0.100000\n~mix: sig 0.900000\nout: ~input >> lpf ~knob1 >> mul ~mix");
}

#[test]
fn get_value_looks_up_by_name() {
    let mut injector = ParamInjector::new();
    injector.drive = 2_000_000;
    injector.knob4 = 123;
    assert_eq!(injector.get_value("drive"), 2_000_000);
    assert_eq!(injector.get_value("knob4"), 123);
    assert_eq!(injector.get_value("unknown"), 0);
}

#[test]
fn value_at_reads_each_field() {
    let mut injector = ParamInjector::new();
    injector.knob3 = 42;
    injector.feedback = 77;
    assert_eq!(injector.value_at(2), 42);
    assert_eq!(injector.value_at(5), 77);
    assert_eq!(injector.value_at(0), 0);
}
