//! The statement model: assignment statements and the architecture body
//! that collects them in program order.

use vstd::prelude::*;
use crate::interface::OutputSignal;
use crate::interface::Signal;
use crate::logic::LogicType;
use crate::logic::LogicValue;

verus! {

/// An expression on the right-hand side of a statement. Only literal logic
/// values are modeled.
pub enum RtlExpression {
    LiteralValue { value: LogicValue },
}

/// One architecture-body statement: the assignment of a literal value to a
/// named signal. Statements are immutable once constructed.
pub enum RtlStatement {
    Assignment { signal_name: String, value: RtlExpression },
}

/// The mathematical value of a statement: the target signal name and the
/// literal assigned to it.
#[verifier::ext_equal]
pub ghost struct RtlStatementView {
    pub target: Seq<char>,
    pub value: LogicValue,
}

impl View for RtlStatement {
    type V = RtlStatementView;

    open spec fn view(&self) -> RtlStatementView {
        match self {
            RtlStatement::Assignment { signal_name, value } => RtlStatementView {
                target: signal_name@,
                value: match value {
                    RtlExpression::LiteralValue { value: v } => *v,
                },
            },
        }
    }
}

/// The architecture body: the ordered list of assignment statements, grown
/// only by `assign` and emitted in exactly this order.
pub struct Rtl {
    statements: Vec<RtlStatement>,
}

impl View for Rtl {
    type V = Seq<RtlStatementView>;

    closed spec fn view(&self) -> Seq<RtlStatementView> {
        self.statements@.map_values(|s: RtlStatement| s@)
    }
}

impl Rtl {
    /// Creates an empty architecture body.
    pub fn new() -> (r: Rtl)
        ensures
            r@ == Seq::<RtlStatementView>::empty(),
    {
        let r = Rtl { statements: Vec::new() };
        proof {
            assert(r@ =~= Seq::<RtlStatementView>::empty());
        }
        r
    }

    /// Appends the assignment of `value` to the signal behind `signal`.
    /// Only a handle carrying the `OutputSignal` direction marker is
    /// accepted, so assigning to an input is rejected when the program is
    /// built.
    pub fn assign<T: LogicType>(&mut self, signal: Signal<T, OutputSignal>, value: LogicValue)
        ensures
            final(self)@ == old(self)@.push(RtlStatementView { target: signal@, value: value }),
    {
        let ghost stmt = (RtlStatementView { target: signal@, value: value });
        self.statements.push(
            RtlStatement::Assignment {
                signal_name: signal.into_name(),
                value: RtlExpression::LiteralValue { value },
            },
        );
        proof {
            assert(self@ =~= old(self)@.push(stmt));
        }
    }

    /// The statements, in program order.
    pub fn statements(&self) -> (r: &Vec<RtlStatement>)
        ensures
            r@.map_values(|s: RtlStatement| s@) == self@,
    {
        &self.statements
    }
}

impl Default for Rtl {
    /// Creates an empty architecture body.
    fn default() -> (r: Rtl)
        ensures
            r@ == Seq::<RtlStatementView>::empty(),
    {
        Rtl::new()
    }
}

} // verus!
