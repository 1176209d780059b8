//! The emitter: translates a module interface (resolved through the
//! registry) and an architecture body into the textual entity/architecture
//! unit, with the declared ordering, indentation, and separator placement.

use vstd::prelude::*;
use crate::interface::ModuleInterface;
use crate::interface::ModuleInterfaceView;
use crate::interface::SignalEntry;
use crate::interface::SignalEntryView;
use crate::logic::LogicDescriptor;
use crate::logic::LogicTypeView;
use crate::logic::LogicValue;
use crate::registry::Context;
use crate::registry::InvalidTypeId;
use crate::rtl::Rtl;
use crate::rtl::RtlExpression;
use crate::rtl::RtlStatement;
use crate::rtl::RtlStatementView;

verus! {

/// The character of the decimal digit `d`.
pub open spec fn spec_digit_char(d: nat) -> char {
    if d == 0 {
        '0'
    } else if d == 1 {
        '1'
    } else if d == 2 {
        '2'
    } else if d == 3 {
        '3'
    } else if d == 4 {
        '4'
    } else if d == 5 {
        '5'
    } else if d == 6 {
        '6'
    } else if d == 7 {
        '7'
    } else if d == 8 {
        '8'
    } else {
        '9'
    }
}

/// The decimal rendering of `n`: most significant digit first, no sign, no
/// leading zeros (zero renders as a single '0').
pub open spec fn spec_decimal(n: nat) -> Seq<char>
    decreases n,
{
    if n < 10 {
        seq![spec_digit_char(n)]
    } else {
        spec_decimal(n / 10) + seq![spec_digit_char(n % 10)]
    }
}

/// The one-character text of the decimal digit `d`.
fn digit_str(d: u64) -> (r: &'static str)
    requires
        d < 10,
    ensures
        r@ == seq![spec_digit_char(d as nat)],
{
    let r: &'static str = if d == 0 {
        "0"
    } else if d == 1 {
        "1"
    } else if d == 2 {
        "2"
    } else if d == 3 {
        "3"
    } else if d == 4 {
        "4"
    } else if d == 5 {
        "5"
    } else if d == 6 {
        "6"
    } else if d == 7 {
        "7"
    } else if d == 8 {
        "8"
    } else {
        "9"
    };
    proof {
        reveal_strlit("0");
        reveal_strlit("1");
        reveal_strlit("2");
        reveal_strlit("3");
        reveal_strlit("4");
        reveal_strlit("5");
        reveal_strlit("6");
        reveal_strlit("7");
        reveal_strlit("8");
        reveal_strlit("9");
        assert(r@ =~= seq![spec_digit_char(d as nat)]);
    }
    r
}

/// Renders `n` in decimal.
fn u64_to_decimal(n: u64) -> (r: String)
    ensures
        r@ == spec_decimal(n as nat),
    decreases n,
{
    if n < 10 {
        String::from_str(digit_str(n))
    } else {
        let mut s = u64_to_decimal(n / 10);
        s.append(digit_str(n % 10));
        proof {
            assert(s@ =~= spec_decimal(n as nat));
        }
        s
    }
}

/// The rendered text of a logic type: the base name verbatim; for a vector,
/// the range suffix "(high downto low)" follows, high first, both bounds
/// rendered verbatim and never reordered.
pub open spec fn spec_render_type(d: LogicTypeView) -> Seq<char> {
    match d.range {
        None => d.base,
        Some(r) => d.base + "("@ + spec_decimal(r.high as nat) + " downto "@ + spec_decimal(
            r.low as nat,
        ) + ")"@,
    }
}

/// Renders a descriptor's type text.
fn render_type(d: &LogicDescriptor) -> (r: String)
    ensures
        r@ == spec_render_type(d@),
{
    let mut s = d.base.clone();
    match d.range {
        None => {},
        Some(range) => {
            s.append("(");
            let hi = u64_to_decimal(range.high);
            s.append(hi.as_str());
            s.append(" downto ");
            let lo = u64_to_decimal(range.low);
            s.append(lo.as_str());
            s.append(")");
        },
    }
    proof {
        assert(s@ =~= spec_render_type(d@));
    }
    s
}

/// The rendered token of a logic literal: `'0'` for `Low`, `'1'` for
/// `High`, quotes included. No other token is ever produced for an
/// assignment.
pub open spec fn spec_literal_token(v: LogicValue) -> Seq<char> {
    match v {
        LogicValue::Low => "'0'"@,
        LogicValue::High => "'1'"@,
    }
}

/// The token of a logic literal.
fn literal_token(v: &LogicValue) -> (r: &'static str)
    ensures
        r@ == spec_literal_token(*v),
{
    match v {
        LogicValue::Low => "'0'",
        LogicValue::High => "'1'",
    }
}

/// One port prepared for emission: its name, its direction (`true` for an
/// output), and its type identifier.
#[verifier::ext_equal]
pub ghost struct PortView {
    pub name: Seq<char>,
    pub is_output: bool,
    pub ty: nat,
}

/// The combined port list of an interface: the declared inputs, in order,
/// then the declared outputs, in order.
pub open spec fn spec_ports_of(iface: ModuleInterfaceView) -> Seq<PortView> {
    iface.inputs.map_values(
        |e: SignalEntryView| PortView { name: e.name, is_output: false, ty: e.ty },
    ) + iface.outputs.map_values(
        |e: SignalEntryView| PortView { name: e.name, is_output: true, ty: e.ty },
    )
}

/// The direction token of a port.
pub open spec fn spec_direction(is_output: bool) -> Seq<char> {
    if is_output {
        "out"@
    } else {
        "in"@
    }
}

/// One port-declaration line: two tabs, the signal name, " : ", the
/// direction token, a space, the rendered type, then a ';' separator if
/// `sep` (the line is not the last of the combined list), and a newline.
pub open spec fn spec_port_line(p: PortView, reg: Seq<LogicTypeView>, sep: bool) -> Seq<char> {
    "\t\t"@ + p.name + " : "@ + spec_direction(p.is_output) + " "@ + spec_render_type(
        reg[p.ty as int],
    ) + (if sep {
        ";\n"@
    } else {
        "\n"@
    })
}

/// The port block's lines, one per combined port; every line except the
/// last carries the separator.
pub open spec fn spec_port_lines_seq(ports: Seq<PortView>, reg: Seq<LogicTypeView>) -> Seq<
    Seq<char>,
> {
    Seq::new(ports.len(), |i: int| spec_port_line(ports[i], reg, i + 1 < ports.len()))
}

/// The port block's lines for an interface.
pub open spec fn spec_port_lines(iface: ModuleInterfaceView, reg: Seq<LogicTypeView>) -> Seq<
    Seq<char>,
> {
    spec_port_lines_seq(spec_ports_of(iface), reg)
}

/// One statement line: a tab, the target name, " <= ", the literal token,
/// and ";".
pub open spec fn spec_statement_line(s: RtlStatementView) -> Seq<char> {
    "\t"@ + s.target + " <= "@ + spec_literal_token(s.value) + ";\n"@
}

/// The architecture block's lines, one per statement, in program order.
pub open spec fn spec_statement_lines(prog: Seq<RtlStatementView>) -> Seq<Seq<char>> {
    Seq::new(prog.len(), |i: int| spec_statement_line(prog[i]))
}

/// The concatenation of `lines[i]`, `lines[i+1]`, ..., `lines[j-1]`.
pub open spec fn spec_lines_range(lines: Seq<Seq<char>>, i: int, j: int) -> Seq<char>
    decreases j - i,
{
    if i < 0 || j > lines.len() || i >= j {
        Seq::empty()
    } else {
        lines[i] + spec_lines_range(lines, i + 1, j)
    }
}

/// Extending a concatenation range by one line appends that line.
pub proof fn lemma_lines_range_snoc(lines: Seq<Seq<char>>, i: int, j: int)
    requires
        0 <= i <= j < lines.len(),
    ensures
        spec_lines_range(lines, i, j + 1) == spec_lines_range(lines, i, j) + lines[j],
    decreases j - i,
{
    if i == j {
        assert(spec_lines_range(lines, i + 1, j + 1) == Seq::<char>::empty());
        assert(spec_lines_range(lines, i, j) == Seq::<char>::empty());
        assert(spec_lines_range(lines, i, j + 1) == lines[i] + spec_lines_range(lines, i + 1, j + 1));
        assert(spec_lines_range(lines, i, j + 1) =~= spec_lines_range(lines, i, j) + lines[j]);
    } else {
        lemma_lines_range_snoc(lines, i + 1, j);
        assert(spec_lines_range(lines, i, j + 1) == lines[i] + spec_lines_range(lines, i + 1, j + 1));
        assert(spec_lines_range(lines, i, j) == lines[i] + spec_lines_range(lines, i + 1, j));
        assert(spec_lines_range(lines, i, j + 1) =~= spec_lines_range(lines, i, j) + lines[j]);
    }
}

/// A concatenation range splits at any point in the middle.
pub proof fn lemma_lines_range_concat(lines: Seq<Seq<char>>, i: int, j: int, k: int)
    requires
        0 <= i <= j <= k <= lines.len(),
    ensures
        spec_lines_range(lines, i, k) == spec_lines_range(lines, i, j) + spec_lines_range(
            lines,
            j,
            k,
        ),
    decreases j - i,
{
    if i == j {
        assert(spec_lines_range(lines, i, j) == Seq::<char>::empty());
        assert(spec_lines_range(lines, i, k) =~= spec_lines_range(lines, i, j) + spec_lines_range(
            lines,
            j,
            k,
        ));
    } else {
        lemma_lines_range_concat(lines, i + 1, j, k);
        assert(spec_lines_range(lines, i, k) == lines[i] + spec_lines_range(lines, i + 1, k));
        assert(spec_lines_range(lines, i, j) == lines[i] + spec_lines_range(lines, i + 1, j));
        assert(spec_lines_range(lines, i, k) =~= spec_lines_range(lines, i, j) + spec_lines_range(
            lines,
            j,
            k,
        ));
    }
}

/// Every port type of the interface resolves in the registry.
pub open spec fn spec_resolvable(iface: ModuleInterfaceView, reg: Seq<LogicTypeView>) -> bool {
    forall|i: int| 0 <= i < spec_ports_of(iface).len() ==> spec_ports_of(iface)[i].ty < reg.len()
}

/// The position in the combined port list of the first port whose type
/// identifier does not resolve, or the list length when every port
/// resolves.
pub open spec fn spec_first_invalid(ports: Seq<PortView>, reg: Seq<LogicTypeView>) -> nat
    decreases ports.len(),
{
    if ports.len() == 0 {
        0
    } else if ports[0].ty >= reg.len() {
        0
    } else {
        (spec_first_invalid(ports.drop_first(), reg) + 1) as nat
    }
}

/// `spec_first_invalid` is the least offending position, or the length when
/// every port resolves.
pub proof fn lemma_spec_first_invalid(ports: Seq<PortView>, reg: Seq<LogicTypeView>)
    ensures
        spec_first_invalid(ports, reg) <= ports.len(),
        spec_first_invalid(ports, reg) < ports.len() ==> ports[spec_first_invalid(
            ports,
            reg,
        ) as int].ty >= reg.len(),
        forall|i: int| 0 <= i < spec_first_invalid(ports, reg) ==> ports[i].ty < reg.len(),
        spec_first_invalid(ports, reg) == ports.len() ==> forall|i: int|
            0 <= i < ports.len() ==> ports[i].ty < reg.len(),
    decreases ports.len(),
{
    if ports.len() == 0 {
    } else if ports[0].ty >= reg.len() {
    } else {
        lemma_spec_first_invalid(ports.drop_first(), reg);
        assert(forall|i: int| 1 <= i < ports.len() ==> ports[i] == ports.drop_first()[i - 1]);
    }
}

/// The complete emitted unit: the library preamble, the entity header, the
/// port block, the entity close, the architecture header, one line per
/// statement, and the architecture close.
pub open spec fn spec_emit(
    iface: ModuleInterfaceView,
    reg: Seq<LogicTypeView>,
    prog: Seq<RtlStatementView>,
) -> Seq<char> {
    let port_lines = spec_port_lines(iface, reg);
    let stmt_lines = spec_statement_lines(prog);
    "library ieee;\n\n"@ + "entity "@ + iface.name + " is\n"@ + "\tport (\n"@ + spec_lines_range(
        port_lines,
        0,
        port_lines.len() as int,
    ) + "\t);\n"@ + "end "@ + iface.name + ";\n\n"@ + "architecture rtl of "@ + iface.name
        + " is\n"@ + "begin\n"@ + spec_lines_range(stmt_lines, 0, stmt_lines.len() as int)
        + "end rtl;\n"@
}

/// Emits one port list (the inputs or the outputs), starting at position
/// `base` of a combined list of `total` ports.
fn emit_port_list(
    out: &mut String,
    entries: &Vec<SignalEntry>,
    is_output: bool,
    base: usize,
    total: usize,
    registry: &Context,
    Ghost(ports): Ghost<Seq<PortView>>,
) -> (r: Result<(), InvalidTypeId>)
    requires
        ports.len() == total,
        base + entries@.len() <= total,
        forall|i: int| 0 <= i < entries@.len() ==> ports[base as int + i] == (PortView {
            name: entries@[i]@.name,
            is_output: is_output,
            ty: entries@[i]@.ty,
        }),
        forall|j: int| 0 <= j < base ==> ports[j].ty < registry@.len(),
    ensures
        match r {
            Ok(_) => {
                &&& final(out)@ == old(out)@ + spec_lines_range(
                    spec_port_lines_seq(ports, registry@),
                    base as int,
                    base as int + entries@.len(),
                )
                &&& forall|j: int|
                    base <= j < base as int + entries@.len() ==> ports[j].ty < registry@.len()
            },
            Err(e) => {
                &&& spec_first_invalid(ports, registry@) < ports.len()
                &&& e.0@ == ports[spec_first_invalid(ports, registry@) as int].ty
            },
        },
{
    let ghost reg = registry@;
    let ghost lines = spec_port_lines_seq(ports, reg);
    let mut i: usize = 0;
    while i < entries.len()
        invariant
            i <= entries@.len(),
            ports.len() == total,
            base + entries@.len() <= total,
            reg == registry@,
            lines == spec_port_lines_seq(ports, reg),
            forall|k: int| 0 <= k < entries@.len() ==> ports[base as int + k] == (PortView {
                name: entries@[k]@.name,
                is_output: is_output,
                ty: entries@[k]@.ty,
            }),
            forall|j: int| 0 <= j < base ==> ports[j].ty < reg.len(),
            forall|j: int| base <= j < base as int + i ==> ports[j].ty < reg.len(),
            out@ == old(out)@ + spec_lines_range(lines, base as int, base as int + i),
        decreases entries@.len() - i,
    {
        let entry = &entries[i];
        match registry.resolve(entry.ty) {
            Ok(d) => {
                let mut line = String::new();
                line.append("\t\t");
                line.append(entry.name.as_str());
                line.append(" : ");
                if is_output {
                    line.append("out");
                } else {
                    line.append("in");
                }
                line.append(" ");
                let t = render_type(d);
                line.append(t.as_str());
                if base + i + 1 < total {
                    line.append(";\n");
                } else {
                    line.append("\n");
                }
                proof {
                    assert(line@ =~= spec_port_line(
                        ports[base as int + i],
                        reg,
                        base as int + i + 1 < ports.len(),
                    ));
                }
                out.append(line.as_str());
                proof {
                    lemma_lines_range_snoc(lines, base as int, base as int + i);
                    assert(lines[base as int + i] == spec_port_line(
                        ports[base as int + i],
                        reg,
                        base as int + i + 1 < ports.len(),
                    ));
                    assert(out@ =~= old(out)@ + spec_lines_range(
                        lines,
                        base as int,
                        base as int + i + 1,
                    ));
                }
                i += 1;
            },
            Err(e) => {
                proof {
                    lemma_spec_first_invalid(ports, reg);
                    assert(ports[base as int + i].ty >= reg.len());
                    assert(spec_first_invalid(ports, reg) == base as int + i);
                }
                return Err(e);
            },
        }
    }
    Ok(())
}

/// Translates the interface (resolved through the registry) and the program
/// into the complete textual unit. Succeeds exactly when every port's type
/// identifier resolves; otherwise it rejects the first port, in combined
/// declaration order, whose identifier the registry never issued, naming
/// that identifier.
pub fn emit(interface: &ModuleInterface, registry: &Context, program: &Rtl) -> (r: Result<
    String,
    InvalidTypeId,
>)
    requires
        interface.name@.len() > 0,
        interface.inputs@.len() + interface.outputs@.len() <= usize::MAX,
    ensures
        match r {
            Ok(text) => {
                &&& spec_resolvable(interface@, registry@)
                &&& text@ == spec_emit(interface@, registry@, program@)
            },
            Err(e) => {
                &&& !spec_resolvable(interface@, registry@)
                &&& e.0@ == spec_ports_of(interface@)[spec_first_invalid(
                    spec_ports_of(interface@),
                    registry@,
                ) as int].ty
            },
        },
{
    let ghost ports = spec_ports_of(interface@);
    let ghost reg = registry@;
    let ghost lines = spec_port_lines_seq(ports, reg);
    let total: usize = interface.inputs.len() + interface.outputs.len();
    proof {
        assert(ports.len() == total);
        assert(forall|i: int| 0 <= i < interface.inputs@.len() ==> ports[i] == (PortView {
            name: interface.inputs@[i]@.name,
            is_output: false,
            ty: interface.inputs@[i]@.ty,
        }));
        assert(forall|i: int| 0 <= i < interface.outputs@.len() ==> ports[interface.inputs@.len()
            + i] == (PortView {
            name: interface.outputs@[i]@.name,
            is_output: true,
            ty: interface.outputs@[i]@.ty,
        }));
    }
    let mut out = String::new();
    out.append("library ieee;\n\n");
    out.append("entity ");
    out.append(interface.name.as_str());
    out.append(" is\n");
    out.append("\tport (\n");
    let ghost head = out@;
    let r1 = emit_port_list(&mut out, &interface.inputs, false, 0, total, registry, Ghost(ports));
    match r1 {
        Ok(_) => {},
        Err(e) => {
            proof {
                lemma_spec_first_invalid(ports, reg);
            }
            return Err(e);
        },
    }
    let r2 = emit_port_list(
        &mut out,
        &interface.outputs,
        true,
        interface.inputs.len(),
        total,
        registry,
        Ghost(ports),
    );
    match r2 {
        Ok(_) => {},
        Err(e) => {
            proof {
                lemma_spec_first_invalid(ports, reg);
            }
            return Err(e);
        },
    }
    proof {
        lemma_lines_range_concat(lines, 0, interface.inputs@.len() as int, lines.len() as int);
        assert(out@ == head + spec_lines_range(lines, 0, lines.len() as int));
    }
    out.append("\t);\n");
    out.append("end ");
    out.append(interface.name.as_str());
    out.append(";\n\n");
    out.append("architecture rtl of ");
    out.append(interface.name.as_str());
    out.append(" is\n");
    out.append("begin\n");
    let stmts = program.statements();
    let ghost prog = program@;
    let ghost slines = spec_statement_lines(prog);
    let ghost mid = out@;
    let mut i: usize = 0;
    while i < stmts.len()
        invariant
            i <= stmts@.len(),
            stmts@.map_values(|s: RtlStatement| s@) == prog,
            stmts@.len() == prog.len(),
            slines == spec_statement_lines(prog),
            out@ == mid + spec_lines_range(slines, 0, i as int),
        decreases stmts@.len() - i,
    {
        match &stmts[i] {
            RtlStatement::Assignment { signal_name, value } => {
                out.append("\t");
                out.append(signal_name.as_str());
                out.append(" <= ");
                match value {
                    RtlExpression::LiteralValue { value: v } => {
                        out.append(literal_token(v));
                    },
                }
                out.append(";\n");
            },
        }
        proof {
            lemma_lines_range_snoc(slines, 0, i as int);
            assert(stmts@[i as int]@ == prog[i as int]);
            assert(out@ =~= mid + spec_lines_range(slines, 0, i as int + 1));
        }
        i += 1;
    }
    out.append("end rtl;\n");
    proof {
        assert(out@ =~= spec_emit(interface@, registry@, program@));
    }
    Ok(out)
}

/// Order preservation: the port block holds one line per combined port —
/// the declared inputs in order, then the declared outputs in order — and
/// the architecture block holds one line per statement, in program order.
/// Every port line except the combined last carries the ';' separator.
pub proof fn lemma_order_preservation(
    iface: ModuleInterfaceView,
    reg: Seq<LogicTypeView>,
    prog: Seq<RtlStatementView>,
)
    ensures
        spec_ports_of(iface).len() == iface.inputs.len() + iface.outputs.len(),
        forall|i: int| 0 <= i < iface.inputs.len() ==> spec_ports_of(iface)[i] == (PortView {
            name: iface.inputs[i].name,
            is_output: false,
            ty: iface.inputs[i].ty,
        }),
        forall|i: int| 0 <= i < iface.outputs.len() ==> spec_ports_of(iface)[iface.inputs.len()
            + i] == (PortView {
            name: iface.outputs[i].name,
            is_output: true,
            ty: iface.outputs[i].ty,
        }),
        spec_port_lines(iface, reg).len() == spec_ports_of(iface).len(),
        forall|i: int| 0 <= i < spec_ports_of(iface).len() ==> spec_port_lines(iface, reg)[i]
            == spec_port_line(spec_ports_of(iface)[i], reg, i + 1 < spec_ports_of(iface).len()),
        spec_statement_lines(prog).len() == prog.len(),
        forall|i: int| 0 <= i < prog.len() ==> spec_statement_lines(prog)[i]
            == spec_statement_line(prog[i]),
{
}

/// Separator boundary: a port line ends in ";\n" exactly when it is not
/// the last line of the combined inputs-then-outputs list; the combined
/// last line ends in a bare newline with no separator inserted before it.
pub proof fn lemma_separator_boundary(ports: Seq<PortView>, reg: Seq<LogicTypeView>, i: int)
    requires
        0 <= i < ports.len(),
    ensures
        ({
            let line = spec_port_lines_seq(ports, reg)[i];
            &&& i + 1 < ports.len() ==> line.len() >= 2 && line.subrange(
                line.len() - 2,
                line.len() as int,
            ) == ";\n"@
            &&& i + 1 == ports.len() ==> line.len() >= 1 && line.last() == '\n' && line.subrange(
                0,
                line.len() - 1,
            ) == spec_port_line(ports[i], reg, false).subrange(
                0,
                spec_port_line(ports[i], reg, false).len() - 1,
            )
        }),
{
    reveal_strlit(";\n");
    reveal_strlit("\n");
    let line = spec_port_lines_seq(ports, reg)[i];
    if i + 1 < ports.len() {
        assert(line.subrange(line.len() - 2, line.len() as int) =~= ";\n"@);
    } else {
        assert(line.subrange(0, line.len() - 1) =~= spec_port_line(
            ports[i],
            reg,
            false,
        ).subrange(0, spec_port_line(ports[i], reg, false).len() - 1));
    }
}

/// Literal round trip: the statement value built from boolean `b` renders
/// to the high token exactly when `b` is true and to the low token
/// otherwise, and no further token is ever produced for an assignment.
pub proof fn lemma_literal_round_trip(b: bool)
    ensures
        spec_literal_token(crate::logic::logic_value_of_bool(b)) == (if b {
            "'1'"@
        } else {
            "'0'"@
        }),
        forall|v: LogicValue| spec_literal_token(v) == "'0'"@ || spec_literal_token(v) == "'1'"@,
{
    assert(forall|v: LogicValue|
        spec_literal_token(v) == "'0'"@ || spec_literal_token(v) == "'1'"@) by {
        assert(spec_literal_token(LogicValue::Low) == "'0'"@);
        assert(spec_literal_token(LogicValue::High) == "'1'"@);
    }
}

} // verus!
