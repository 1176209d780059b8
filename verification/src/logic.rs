//! Logic types: the two-valued logic literal, type descriptors, and the
//! marker types that denote a signal's value type.

use vstd::prelude::*;

verus! {

/// A two-valued logic literal, the value carried by an assignment statement.
#[derive(Clone, Copy, PartialEq, Eq, Structural, Debug)]
pub enum LogicValue {
    Low,
    High,
}

/// The logic value denoted by a boolean: `false` is `Low`, `true` is `High`.
pub open spec fn logic_value_of_bool(b: bool) -> LogicValue {
    if b {
        LogicValue::High
    } else {
        LogicValue::Low
    }
}

impl From<bool> for LogicValue {
    fn from(v: bool) -> (r: Self) {
        match v {
            false => LogicValue::Low,
            true => LogicValue::High,
        }
    }
}

impl vstd::std_specs::convert::FromSpecImpl<bool> for LogicValue {
    open spec fn obeys_from_spec() -> bool {
        true
    }

    open spec fn from_spec(v: bool) -> LogicValue {
        logic_value_of_bool(v)
    }
}

/// The inclusive index bounds of a bit-vector type, rendered `high` first
/// (a descending range). Callers are responsible for `high >= low`; the
/// core renders the pair verbatim and never swaps it.
#[derive(Clone, Copy, PartialEq, Eq, Structural, Debug)]
pub struct BitRange {
    pub high: u64,
    pub low: u64,
}

/// The mathematical value of a `LogicDescriptor`: the base type name as a
/// character sequence, plus the optional bit range.
#[verifier::ext_equal]
pub ghost struct LogicTypeView {
    pub base: Seq<char>,
    pub range: Option<BitRange>,
}

/// A logic-type descriptor: a base type name plus an optional bit range.
/// Two descriptors are equal exactly when both fields are equal.
pub struct LogicDescriptor {
    pub base: String,
    pub range: Option<BitRange>,
}

impl View for LogicDescriptor {
    type V = LogicTypeView;

    open spec fn view(&self) -> LogicTypeView {
        LogicTypeView { base: self.base@, range: self.range }
    }
}

impl LogicDescriptor {
    /// Decides descriptor equality: same base name and same range.
    pub fn matches(&self, other: &LogicDescriptor) -> (r: bool)
        ensures
            r == (self@ == other@),
    {
        let base_eq = self.base == other.base;
        let range_eq = match (self.range, other.range) {
            (None, None) => true,
            (Some(a), Some(b)) => a == b,
            _ => false,
        };
        proof {
            if base_eq && range_eq {
                assert(self@ =~= other@);
            }
        }
        base_eq && range_eq
    }
}

/// A logic type usable as a signal's value type. Each implementor denotes
/// one fixed descriptor, the rule that maps a declared signal type to the
/// descriptor the registry interns.
pub trait LogicType {
    /// The descriptor this logic type denotes.
    spec fn spec_descriptor() -> LogicTypeView;

    /// Builds the descriptor this logic type denotes.
    fn descriptor() -> (d: LogicDescriptor)
        ensures
            d@ == Self::spec_descriptor(),
    ;
}

/// The scalar single-bit logic type.
#[derive(Default)]
pub struct Logic {}

impl LogicType for Logic {
    open spec fn spec_descriptor() -> LogicTypeView {
        LogicTypeView { base: "std_logic"@, range: None }
    }

    fn descriptor() -> (d: LogicDescriptor) {
        let d = LogicDescriptor { base: String::from_str("std_logic"), range: None };
        proof {
            assert(d@ =~= Self::spec_descriptor());
        }
        d
    }
}

/// A fixed-width bit-vector logic type with bounds `HI` down to `LO`.
#[derive(Default)]
pub struct LogicVector<const HI: usize, const LO: usize> {}

impl<const HI: usize, const LO: usize> LogicType for LogicVector<HI, LO> {
    open spec fn spec_descriptor() -> LogicTypeView {
        LogicTypeView {
            base: "std_logic_vector"@,
            range: Some(BitRange { high: HI as u64, low: LO as u64 }),
        }
    }

    fn descriptor() -> (d: LogicDescriptor) {
        let d = LogicDescriptor {
            base: String::from_str("std_logic_vector"),
            range: Some(BitRange { high: HI as u64, low: LO as u64 }),
        };
        proof {
            assert(d@ =~= Self::spec_descriptor());
        }
        d
    }
}

} // verus!
