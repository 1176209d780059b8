//! The interface model: signal handles, port entries, and a module's
//! declared interface (name plus ordered input and output port lists).

use vstd::prelude::*;
use crate::registry::Context;
use crate::registry::LogicTypeId;
use crate::rtl::Rtl;

verus! {

/// Marker for the direction of a signal handle declared as an input.
pub struct InputSignal;

/// Marker for the direction of a signal handle declared as an output.
pub struct OutputSignal;

/// A typed, directioned handle to one declared signal, used to build
/// assignment statements. `SignalType` is the signal's logic type and
/// `InOut` its direction marker; only a handle whose direction is
/// `OutputSignal` can stand on the left of an assignment.
pub struct Signal<SignalType, InOut> {
    name: String,
    signal_type: core::marker::PhantomData<SignalType>,
    in_out: core::marker::PhantomData<InOut>,
}

impl<SignalType, InOut> View for Signal<SignalType, InOut> {
    type V = Seq<char>;

    closed spec fn view(&self) -> Seq<char> {
        self.name@
    }
}

impl<SignalType, InOut> Signal<SignalType, InOut> {
    /// Creates a handle for the signal of the given name.
    pub fn with_name(name: String) -> (s: Self)
        ensures
            s@ == name@,
    {
        Signal {
            name,
            signal_type: core::marker::PhantomData,
            in_out: core::marker::PhantomData,
        }
    }

    /// Gives up the handle and yields the signal name it was created with.
    pub fn into_name(self) -> (r: String)
        ensures
            r@ == self@,
    {
        self.name
    }
}

/// One declared port: a signal name and the interned identifier of the
/// signal's logic type.
pub struct SignalEntry {
    pub name: String,
    pub ty: LogicTypeId,
}

/// The mathematical value of a `SignalEntry`.
#[verifier::ext_equal]
pub ghost struct SignalEntryView {
    pub name: Seq<char>,
    pub ty: nat,
}

impl View for SignalEntry {
    type V = SignalEntryView;

    open spec fn view(&self) -> SignalEntryView {
        SignalEntryView { name: self.name@, ty: self.ty@ }
    }
}

/// The mathematical value of a `ModuleInterface`.
#[verifier::ext_equal]
pub ghost struct ModuleInterfaceView {
    pub name: Seq<char>,
    pub inputs: Seq<SignalEntryView>,
    pub outputs: Seq<SignalEntryView>,
}

/// A module's declared interface: its name and its ordered input and output
/// port lists. The list order is the declaration order and determines the
/// order in which ports are emitted.
pub struct ModuleInterface {
    pub name: String,
    pub inputs: Vec<SignalEntry>,
    pub outputs: Vec<SignalEntry>,
}

impl View for ModuleInterface {
    type V = ModuleInterfaceView;

    open spec fn view(&self) -> ModuleInterfaceView {
        ModuleInterfaceView {
            name: self.name@,
            inputs: self.inputs@.map_values(|e: SignalEntry| e@),
            outputs: self.outputs@.map_values(|e: SignalEntry| e@),
        }
    }
}

impl ModuleInterface {
    /// Creates an interface with the given module name and no ports yet.
    pub fn new(name: String) -> (r: ModuleInterface)
        ensures
            r@.name == name@,
            r@.inputs == Seq::<SignalEntryView>::empty(),
            r@.outputs == Seq::<SignalEntryView>::empty(),
    {
        let r = ModuleInterface { name, inputs: Vec::new(), outputs: Vec::new() };
        proof {
            assert(r@.inputs =~= Seq::<SignalEntryView>::empty());
            assert(r@.outputs =~= Seq::<SignalEntryView>::empty());
        }
        r
    }

    /// Declares the next input port.
    pub fn input(&mut self, name: String, ty: LogicTypeId)
        ensures
            final(self)@.name == old(self)@.name,
            final(self)@.inputs == old(self)@.inputs.push(SignalEntryView { name: name@, ty: ty@ }),
            final(self)@.outputs == old(self)@.outputs,
    {
        let ghost entry = (SignalEntryView { name: name@, ty: ty@ });
        self.inputs.push(SignalEntry { name, ty });
        proof {
            assert(self@.inputs =~= old(self)@.inputs.push(entry));
        }
    }

    /// Declares the next output port.
    pub fn output(&mut self, name: String, ty: LogicTypeId)
        ensures
            final(self)@.name == old(self)@.name,
            final(self)@.inputs == old(self)@.inputs,
            final(self)@.outputs == old(self)@.outputs.push(
                SignalEntryView { name: name@, ty: ty@ },
            ),
    {
        let ghost entry = (SignalEntryView { name: name@, ty: ty@ });
        self.outputs.push(SignalEntry { name, ty });
        proof {
            assert(self@.outputs =~= old(self)@.outputs.push(entry));
        }
    }
}

/// Well-named port list: every name is non-empty and no name occurs twice.
pub open spec fn list_names_wf(entries: Seq<SignalEntryView>) -> bool {
    &&& forall|i: int| 0 <= i < entries.len() ==> entries[i].name.len() > 0
    &&& forall|i: int, j: int| 0 <= i < j < entries.len() ==> entries[i].name != entries[j].name
}

/// Decides whether one port list is well-named.
fn list_well_named(entries: &Vec<SignalEntry>) -> (r: bool)
    ensures
        r == list_names_wf(entries@.map_values(|e: SignalEntry| e@)),
{
    let ghost v = entries@.map_values(|e: SignalEntry| e@);
    let mut i: usize = 0;
    while i < entries.len()
        invariant
            i <= entries@.len(),
            v == entries@.map_values(|e: SignalEntry| e@),
            v.len() == entries@.len(),
            forall|k: int| 0 <= k < i ==> v[k].name.len() > 0,
            forall|k: int, l: int| 0 <= k < i && k < l < v.len() ==> v[k].name != v[l].name,
        decreases entries@.len() - i,
    {
        if entries[i].name.as_str().is_empty() {
            proof {
                assert(v[i as int].name.len() == 0);
                assert(!list_names_wf(v));
            }
            return false;
        }
        let mut j: usize = i + 1;
        while j < entries.len()
            invariant
                i < entries@.len(),
                i + 1 <= j <= entries@.len(),
                v == entries@.map_values(|e: SignalEntry| e@),
                v.len() == entries@.len(),
                forall|l: int| i < l < j ==> v[i as int].name != v[l].name,
            decreases entries@.len() - j,
        {
            if entries[i].name == entries[j].name {
                proof {
                    assert(v[i as int].name == v[j as int].name);
                    assert(!list_names_wf(v));
                }
                return false;
            }
            j += 1;
        }
        i += 1;
    }
    true
}

impl ModuleInterface {
    /// Whether both port lists keep the naming invariant: every port name
    /// non-empty and unique within its own list; the inputs and the outputs
    /// are checked independently, so a name may stand in both lists.
    pub open spec fn spec_well_named(&self) -> bool {
        list_names_wf(self@.inputs) && list_names_wf(self@.outputs)
    }

    /// Decides whether the interface keeps the naming invariant.
    pub fn well_named(&self) -> (r: bool)
        ensures
            r == self.spec_well_named(),
    {
        let inputs_ok = list_well_named(&self.inputs);
        let outputs_ok = list_well_named(&self.outputs);
        inputs_ok && outputs_ok
    }
}

/// A hardware module declaration: how to create the module value and how to
/// describe its interface, interning the signal types into the registry it
/// is handed.
pub trait Entity: Sized {
    /// Creates the module value.
    fn create() -> Self;

    /// The module's name and its ordered input and output port lists.
    fn interface(&self, context: &mut Context) -> ModuleInterface;
}

/// A module's behavior: elaborates the ordered statement list that forms
/// the architecture body.
pub trait Architecture {
    /// Produces the architecture body.
    fn elaborate(&self) -> Rtl;
}

} // verus!
