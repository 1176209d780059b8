//! Tests of the interface model: the naming invariant and signal handles.

use architect::Context;
use architect::Logic;
use architect::ModuleInterface;
use architect::OutputSignal;
use architect::Signal;

#[test]
fn distinct_non_empty_names_are_well_named() {
    let mut registry = Context::new();
    let scalar = registry.intern_type::<Logic>();
    let mut interface = ModuleInterface::new(String::from("M"));
    interface.input(String::from("clk"), scalar);
    interface.input(String::from("data"), scalar);
    interface.output(String::from("q"), scalar);
    assert!(interface.well_named());
}

#[test]
fn a_name_may_stand_in_both_lists() {
    // The lists are checked independently: the same name as an input and
    // as an output does not break the invariant.
    let mut registry = Context::new();
    let scalar = registry.intern_type::<Logic>();
    let mut interface = ModuleInterface::new(String::from("M"));
    interface.input(String::from("x"), scalar);
    interface.output(String::from("x"), scalar);
    assert!(interface.well_named());
}

#[test]
fn a_duplicate_name_in_one_list_is_rejected() {
    let mut registry = Context::new();
    let scalar = registry.intern_type::<Logic>();
    let mut interface = ModuleInterface::new(String::from("M"));
    interface.input(String::from("clk"), scalar);
    interface.input(String::from("clk"), scalar);
    assert!(!interface.well_named());
}

#[test]
fn an_empty_name_is_rejected() {
    let mut registry = Context::new();
    let scalar = registry.intern_type::<Logic>();
    let mut interface = ModuleInterface::new(String::from("M"));
    interface.output(String::new(), scalar);
    assert!(!interface.well_named());
}

#[test]
fn a_signal_handle_keeps_its_name() {
    let handle: Signal<Logic, OutputSignal> = Signal::with_name(String::from("state"));
    assert_eq!(handle.into_name(), "state");
}
