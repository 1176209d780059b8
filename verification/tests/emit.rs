//! Tests of the emitter: ordering, separator placement, literal rendering,
//! range rendering, the end-to-end scenario, and error reporting.

use architect::Context;
use architect::Logic;
use architect::LogicValue;
use architect::LogicVector;
use architect::ModuleInterface;
use architect::OutputSignal;
use architect::Rtl;
use architect::Signal;
use architect::emit;

fn output_signal(name: &str) -> Signal<Logic, OutputSignal> {
    Signal::with_name(String::from(name))
}

#[test]
fn end_to_end_shift_register() {
    let mut registry = Context::new();
    let scalar = registry.intern_type::<Logic>();
    let vector = registry.intern_type::<LogicVector<7, 0>>();
    let mut interface = ModuleInterface::new(String::from("ShiftRegister"));
    interface.input(String::from("clk"), scalar);
    interface.input(String::from("input"), scalar);
    interface.output(String::from("state"), vector);
    interface.output(String::from("output"), scalar);
    let mut program = Rtl::new();
    program.assign(output_signal("output"), LogicValue::from(true));
    let text = emit(&interface, &registry, &program).unwrap();
    let expected = "library ieee;\n\n\
        entity ShiftRegister is\n\
        \tport (\n\
        \t\tclk : in std_logic;\n\
        \t\tinput : in std_logic;\n\
        \t\tstate : out std_logic_vector(7 downto 0);\n\
        \t\toutput : out std_logic\n\
        \t);\n\
        end ShiftRegister;\n\n\
        architecture rtl of ShiftRegister is\n\
        begin\n\
        \toutput <= '1';\n\
        end rtl;\n";
    assert_eq!(text, expected);
}

#[test]
fn separator_with_empty_outputs() {
    // With inputs [a, b] and no outputs, the line for a ends with the
    // separator and the line for b, globally last, does not.
    let mut registry = Context::new();
    let scalar = registry.intern_type::<Logic>();
    let mut interface = ModuleInterface::new(String::from("M"));
    interface.input(String::from("a"), scalar);
    interface.input(String::from("b"), scalar);
    let program = Rtl::new();
    let text = emit(&interface, &registry, &program).unwrap();
    assert!(text.contains("\t\ta : in std_logic;\n"));
    assert!(text.contains("\t\tb : in std_logic\n"));
    assert!(!text.contains("\t\tb : in std_logic;"));
}

#[test]
fn separator_before_an_output() {
    // With inputs [a] and outputs [c], the last input line still gets the
    // separator because it is not globally last.
    let mut registry = Context::new();
    let scalar = registry.intern_type::<Logic>();
    let mut interface = ModuleInterface::new(String::from("M"));
    interface.input(String::from("a"), scalar);
    interface.output(String::from("c"), scalar);
    let program = Rtl::new();
    let text = emit(&interface, &registry, &program).unwrap();
    assert!(text.contains("\t\ta : in std_logic;\n"));
    assert!(text.contains("\t\tc : out std_logic\n"));
    assert!(!text.contains("\t\tc : out std_logic;"));
}

#[test]
fn port_and_statement_order_is_declaration_order() {
    let mut registry = Context::new();
    let scalar = registry.intern_type::<Logic>();
    let mut interface = ModuleInterface::new(String::from("Order"));
    interface.input(String::from("b"), scalar);
    interface.input(String::from("a"), scalar);
    interface.output(String::from("d"), scalar);
    interface.output(String::from("c"), scalar);
    let mut program = Rtl::new();
    program.assign(output_signal("z"), LogicValue::from(false));
    program.assign(output_signal("y"), LogicValue::from(true));
    let text = emit(&interface, &registry, &program).unwrap();
    let port_lines: Vec<&str> = text
        .lines()
        .filter(|line| line.starts_with("\t\t"))
        .collect();
    assert_eq!(
        port_lines,
        vec![
            "\t\tb : in std_logic;",
            "\t\ta : in std_logic;",
            "\t\td : out std_logic;",
            "\t\tc : out std_logic",
        ],
    );
    let statement_lines: Vec<&str> = text
        .lines()
        .filter(|line| line.contains("<="))
        .collect();
    assert_eq!(statement_lines, vec!["\tz <= '0';", "\ty <= '1';"]);
}

#[test]
fn literal_tokens_render_from_booleans() {
    assert_eq!(LogicValue::from(true), LogicValue::High);
    assert_eq!(LogicValue::from(false), LogicValue::Low);
    let mut registry = Context::new();
    registry.intern_type::<Logic>();
    let interface = ModuleInterface::new(String::from("Literals"));
    let mut program = Rtl::new();
    program.assign(output_signal("x"), LogicValue::from(true));
    program.assign(output_signal("y"), LogicValue::from(false));
    let text = emit(&interface, &registry, &program).unwrap();
    assert!(text.contains("\tx <= '1';\n"));
    assert!(text.contains("\ty <= '0';\n"));
    // No token besides '0' and '1' is ever produced for an assignment.
    for line in text.lines().filter(|line| line.contains("<=")) {
        assert!(line.ends_with("<= '0';") || line.ends_with("<= '1';"));
    }
}

#[test]
fn empty_port_lists_emit_an_empty_port_block() {
    let registry = Context::new();
    let interface = ModuleInterface::new(String::from("Empty"));
    let program = Rtl::default();
    let text = emit(&interface, &registry, &program).unwrap();
    assert!(text.contains("\tport (\n\t);\n"));
    assert!(text.contains("begin\nend rtl;\n"));
}

#[test]
fn wide_range_bounds_render_verbatim() {
    let mut registry = Context::new();
    let wide = registry.intern_type::<LogicVector<4294967295, 10>>();
    let mut interface = ModuleInterface::new(String::from("Wide"));
    interface.output(String::from("bus"), wide);
    let program = Rtl::new();
    let text = emit(&interface, &registry, &program).unwrap();
    assert!(text.contains("\t\tbus : out std_logic_vector(4294967295 downto 10)\n"));
}

#[test]
fn reversed_range_is_not_corrected() {
    // A caller-supplied inverted range renders verbatim, high slot first.
    let mut registry = Context::new();
    let reversed = registry.intern_type::<LogicVector<0, 7>>();
    let mut interface = ModuleInterface::new(String::from("Reversed"));
    interface.input(String::from("r"), reversed);
    let program = Rtl::new();
    let text = emit(&interface, &registry, &program).unwrap();
    assert!(text.contains("\t\tr : in std_logic_vector(0 downto 7)\n"));
}

#[test]
fn foreign_id_in_an_interface_is_reported() {
    let mut registry_a = Context::new();
    registry_a.intern_type::<Logic>();
    let foreign = registry_a.intern_type::<LogicVector<7, 0>>();
    let mut registry_b = Context::new();
    let known = registry_b.intern_type::<Logic>();
    let mut interface = ModuleInterface::new(String::from("Broken"));
    interface.input(String::from("ok"), known);
    interface.output(String::from("bad"), foreign);
    let program = Rtl::new();
    let err = emit(&interface, &registry_b, &program).err().expect(
        "an unresolvable port must be rejected",
    );
    assert_eq!(err.0, foreign);
    assert_eq!(err.0.index(), 1);
}

#[test]
fn first_unresolvable_port_is_the_one_reported() {
    let mut registry_a = Context::new();
    registry_a.intern_type::<Logic>();
    let foreign_one = registry_a.intern_type::<LogicVector<7, 0>>();
    let foreign_two = registry_a.intern_type::<LogicVector<3, 0>>();
    let registry_b = Context::new();
    let mut interface = ModuleInterface::new(String::from("Broken"));
    interface.input(String::from("second"), foreign_two);
    interface.input(String::from("first"), foreign_one);
    let program = Rtl::new();
    let err = emit(&interface, &registry_b, &program).err().unwrap();
    // The first offender in combined declaration order is reported.
    assert_eq!(err.0, foreign_two);
    assert_eq!(err.0.index(), 2);
}
