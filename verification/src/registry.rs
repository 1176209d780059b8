//! The type-interning registry: assigns each distinct logic-type descriptor
//! a dense, zero-based identifier and resolves identifiers back to
//! descriptors.

use vstd::prelude::*;
use crate::logic::LogicDescriptor;
use crate::logic::LogicType;
use crate::logic::LogicTypeView;

verus! {

/// An identifier for an interned logic type. Identifiers are issued densely
/// from zero by one `Context` and are meaningful only to the registry
/// instance that issued them.
#[derive(Clone, Copy, PartialEq, Eq, Structural, Debug)]
pub struct LogicTypeId(usize);

impl View for LogicTypeId {
    type V = nat;

    closed spec fn view(&self) -> nat {
        self.0 as nat
    }
}

impl LogicTypeId {
    /// The numeric position of the identifier, for diagnostics: the n-th
    /// identifier a registry issues has position n - 1.
    pub fn index(&self) -> (r: usize)
        ensures
            r as nat == self@,
    {
        self.0
    }
}

/// The error raised when an identifier is resolved against a registry that
/// never issued it. It carries the offending identifier.
#[derive(Clone, Copy, PartialEq, Eq, Structural, Debug)]
pub struct InvalidTypeId(pub LogicTypeId);

/// The index of the first entry equal to `d`, or `entries.len()` when no
/// entry equals `d`.
pub open spec fn spec_find(entries: Seq<LogicTypeView>, d: LogicTypeView) -> nat
    decreases entries.len(),
{
    if entries.len() == 0 {
        0
    } else if entries[0] == d {
        0
    } else {
        (spec_find(entries.drop_first(), d) + 1) as nat
    }
}

/// `spec_find` returns the least index holding `d`, or the length when `d`
/// is absent.
pub proof fn lemma_spec_find(entries: Seq<LogicTypeView>, d: LogicTypeView)
    ensures
        spec_find(entries, d) <= entries.len(),
        spec_find(entries, d) < entries.len() ==> entries[spec_find(entries, d) as int] == d,
        forall|i: int| 0 <= i < spec_find(entries, d) ==> entries[i] != d,
        spec_find(entries, d) == entries.len() ==> forall|i: int|
            0 <= i < entries.len() ==> entries[i] != d,
    decreases entries.len(),
{
    if entries.len() == 0 {
    } else if entries[0] == d {
    } else {
        lemma_spec_find(entries.drop_first(), d);
        assert(forall|i: int|
            1 <= i < entries.len() ==> entries[i] == entries.drop_first()[i - 1]);
    }
}

/// The registry contents and the identifier issued when `d` is interned:
/// an existing entry keeps its index and the contents are unchanged; a new
/// descriptor is appended and receives the next index.
pub open spec fn spec_intern(entries: Seq<LogicTypeView>, d: LogicTypeView) -> (Seq<
    LogicTypeView,
>, nat) {
    let i = spec_find(entries, d);
    if i < entries.len() {
        (entries, i)
    } else {
        (entries.push(d), entries.len())
    }
}

/// The descriptor at index `i`, or nothing when the registry holds fewer
/// than `i + 1` entries.
pub open spec fn spec_resolve(entries: Seq<LogicTypeView>, i: nat) -> Option<LogicTypeView> {
    if i < entries.len() {
        Some(entries[i as int])
    } else {
        None
    }
}

/// No descriptor occurs twice: descriptor-to-identifier is injective.
pub open spec fn registry_distinct(entries: Seq<LogicTypeView>) -> bool {
    forall|i: int, j: int| 0 <= i < j < entries.len() ==> entries[i] != entries[j]
}

/// The type-interning registry. Created empty, grown only by `intern`, and
/// read back through `resolve`; entries are never removed.
pub struct Context {
    entries: Vec<LogicDescriptor>,
}

impl View for Context {
    type V = Seq<LogicTypeView>;

    closed spec fn view(&self) -> Seq<LogicTypeView> {
        self.entries@.map_values(|d: LogicDescriptor| d@)
    }
}

impl Context {
    /// Well-formed: the interned descriptors are pairwise distinct.
    pub open spec fn wf(&self) -> bool {
        registry_distinct(self@)
    }

    /// Creates an empty registry.
    pub fn new() -> (r: Context)
        ensures
            r@ == Seq::<LogicTypeView>::empty(),
            r.wf(),
    {
        let r = Context { entries: Vec::new() };
        proof {
            assert(r@ =~= Seq::<LogicTypeView>::empty());
        }
        r
    }

    /// Interns `descriptor`: returns the identifier already associated with
    /// it, or associates it with the next unused identifier. The registry
    /// grows by at most one entry and existing entries are untouched.
    pub fn intern(&mut self, descriptor: LogicDescriptor) -> (id: LogicTypeId)
        requires
            old(self).wf(),
        ensures
            final(self).wf(),
            final(self)@ == spec_intern(old(self)@, descriptor@).0,
            id@ == spec_intern(old(self)@, descriptor@).1,
            id@ < final(self)@.len(),
            final(self)@[id@ as int] == descriptor@,
            old(self)@.len() <= final(self)@.len(),
            forall|j: int| 0 <= j < old(self)@.len() ==> final(self)@[j] == old(self)@[j],
    {
        let ghost entries = self@;
        proof {
            lemma_spec_find(entries, descriptor@);
        }
        let mut i: usize = 0;
        while i < self.entries.len()
            invariant
                self == old(self),
                old(self).wf(),
                i <= self.entries.len(),
                entries == self@,
                entries.len() == self.entries.len(),
                forall|j: int| 0 <= j < i ==> entries[j] != descriptor@,
            decreases self.entries.len() - i,
        {
            if self.entries[i].matches(&descriptor) {
                proof {
                    assert(entries[i as int] == descriptor@);
                    assert(spec_find(entries, descriptor@) == i as nat) by {
                        lemma_spec_find(entries, descriptor@);
                    }
                }
                return LogicTypeId(i);
            }
            i += 1;
        }
        proof {
            assert(spec_find(entries, descriptor@) == entries.len()) by {
                lemma_spec_find(entries, descriptor@);
            }
        }
        let next: usize = self.entries.len();
        self.entries.push(descriptor);
        proof {
            assert(self@ =~= entries.push(descriptor@));
        }
        LogicTypeId(next)
    }

    /// Interns the descriptor denoted by the logic type `T`.
    pub fn intern_type<T: LogicType>(&mut self) -> (id: LogicTypeId)
        requires
            old(self).wf(),
        ensures
            final(self).wf(),
            final(self)@ == spec_intern(old(self)@, T::spec_descriptor()).0,
            id@ == spec_intern(old(self)@, T::spec_descriptor()).1,
            id@ < final(self)@.len(),
            final(self)@[id@ as int] == T::spec_descriptor(),
    {
        let d = T::descriptor();
        self.intern(d)
    }

    /// Resolves an identifier back to its descriptor. Total over every
    /// identifier this registry has issued; any other identifier is
    /// rejected with `InvalidTypeId` naming it.
    pub fn resolve(&self, id: LogicTypeId) -> (r: Result<&LogicDescriptor, InvalidTypeId>)
        ensures
            match r {
                Ok(d) => spec_resolve(self@, id@) == Some(d@),
                Err(e) => spec_resolve(self@, id@) is None && e == (InvalidTypeId(id)),
            },
    {
        if id.0 < self.entries.len() {
            Ok(&self.entries[id.0])
        } else {
            Err(InvalidTypeId(id))
        }
    }
}

impl Default for Context {
    /// Creates an empty registry.
    fn default() -> (r: Context)
        ensures
            r@ == Seq::<LogicTypeView>::empty(),
            r.wf(),
    {
        Context::new()
    }
}

/// Interning idempotence: the identifier issued for `d` resolves back to
/// `d`, and interning `d` a second time returns the same identifier and
/// leaves the registry unchanged.
pub proof fn lemma_intern_idempotent(entries: Seq<LogicTypeView>, d: LogicTypeView)
    requires
        registry_distinct(entries),
    ensures
        ({
            let (e1, i1) = spec_intern(entries, d);
            &&& spec_resolve(e1, i1) == Some(d)
            &&& spec_intern(e1, d) == (e1, i1)
            &&& registry_distinct(e1)
        }),
{
    lemma_spec_find(entries, d);
    let i = spec_find(entries, d);
    if i < entries.len() {
    } else {
        let e1 = entries.push(d);
        lemma_spec_find(e1, d);
        let i1 = spec_find(e1, d);
        assert(e1[entries.len() as int] == d);
        assert(i1 <= entries.len());
        if i1 < entries.len() {
            assert(e1[i1 as int] == entries[i1 as int]);
            assert(false);
        }
        assert(spec_intern(e1, d) == (e1, entries.len() as nat));
    }
}

/// Injectivity: interning two distinct descriptors, in either order and
/// from any well-formed registry, issues distinct identifiers.
pub proof fn lemma_intern_injective(entries: Seq<LogicTypeView>, d1: LogicTypeView, d2: LogicTypeView)
    requires
        registry_distinct(entries),
        d1 != d2,
    ensures
        ({
            let (e1, i1) = spec_intern(entries, d1);
            let (e2, i2) = spec_intern(e1, d2);
            i1 != i2
        }),
{
    lemma_intern_idempotent(entries, d1);
    let (e1, i1) = spec_intern(entries, d1);
    lemma_intern_idempotent(e1, d2);
    let (e2, i2) = spec_intern(e1, d2);
    assert(e1[i1 as int] == d1);
    if i2 == i1 {
        assert(e2[i2 as int] == d2);
        assert(e2[i1 as int] == e1[i1 as int]);
    }
}

/// Stability: an identifier, once issued, resolves to the same descriptor
/// after any later intern; identifiers are never reassigned or reused.
pub proof fn lemma_resolve_stable(entries: Seq<LogicTypeView>, d: LogicTypeView, i: nat)
    requires
        i < entries.len(),
    ensures
        spec_resolve(spec_intern(entries, d).0, i) == spec_resolve(entries, i),
{
}

/// Foreign-identifier rejection: an index the registry never issued, for
/// example one issued by a different registry that has interned more
/// descriptors, resolves to nothing.
pub proof fn lemma_foreign_id_rejected(entries: Seq<LogicTypeView>, i: nat)
    requires
        i >= entries.len(),
    ensures
        spec_resolve(entries, i) is None,
{
}

/// The identifiers issued when each descriptor of `ds` is interned in turn.
pub open spec fn spec_intern_ids(entries: Seq<LogicTypeView>, ds: Seq<LogicTypeView>) -> Seq<nat>
    decreases ds.len(),
{
    if ds.len() == 0 {
        Seq::empty()
    } else {
        seq![spec_intern(entries, ds[0]).1] + spec_intern_ids(
            spec_intern(entries, ds[0]).0,
            ds.drop_first(),
        )
    }
}

/// Id density: interning pairwise-distinct descriptors, none of them
/// interned before, issues exactly the next consecutive identifiers, in
/// order. From an empty registry the k identifiers issued are 0 .. k-1.
pub proof fn lemma_id_density(entries: Seq<LogicTypeView>, ds: Seq<LogicTypeView>)
    requires
        registry_distinct(entries),
        forall|i: int, j: int| 0 <= i < j < ds.len() ==> ds[i] != ds[j],
        forall|i: int, j: int| 0 <= i < entries.len() && 0 <= j < ds.len() ==> entries[i] != ds[j],
    ensures
        spec_intern_ids(entries, ds) == Seq::new(ds.len(), |i: int| (entries.len() + i) as nat),
    decreases ds.len(),
{
    if ds.len() == 0 {
        assert(spec_intern_ids(entries, ds) =~= Seq::new(ds.len(), |i: int| (entries.len() + i) as nat));
    } else {
        let d0 = ds[0];
        lemma_spec_find(entries, d0);
        if spec_find(entries, d0) < entries.len() {
            assert(entries[spec_find(entries, d0) as int] == d0);
            assert(false);
        }
        let e1 = entries.push(d0);
        lemma_intern_idempotent(entries, d0);
        let rest = ds.drop_first();
        assert(forall|i: int, j: int|
            0 <= i < j < rest.len() ==> rest[i] != rest[j]) by {
            assert(forall|i: int| 0 <= i < rest.len() ==> rest[i] == ds[i + 1]);
        }
        assert(forall|i: int, j: int|
            0 <= i < e1.len() && 0 <= j < rest.len() ==> e1[i] != rest[j]) by {
            assert(forall|j: int| 0 <= j < rest.len() ==> rest[j] == ds[j + 1]);
            assert(forall|i: int| 0 <= i < entries.len() ==> e1[i] == entries[i]);
            assert(e1[entries.len() as int] == ds[0]);
        }
        lemma_id_density(e1, rest);
        assert(spec_intern_ids(entries, ds) =~= Seq::new(
            ds.len(),
            |i: int| (entries.len() + i) as nat,
        )) by {
            assert(spec_intern_ids(e1, rest) == Seq::new(
                rest.len(),
                |i: int| (e1.len() + i) as nat,
            ));
            assert(forall|i: int| 0 <= i < rest.len() ==> spec_intern_ids(e1, rest)[i] == (e1.len()
                + i) as nat);
        }
    }
}

/// Id density from an empty registry: k distinct descriptors are issued
/// exactly the identifiers 0 .. k-1, in order.
pub proof fn lemma_id_density_from_empty(ds: Seq<LogicTypeView>)
    requires
        forall|i: int, j: int| 0 <= i < j < ds.len() ==> ds[i] != ds[j],
    ensures
        spec_intern_ids(Seq::empty(), ds) == Seq::new(ds.len(), |i: int| i as nat),
{
    lemma_id_density(Seq::empty(), ds);
    assert(Seq::new(ds.len(), |i: int| (Seq::<LogicTypeView>::empty().len() + i) as nat) =~= Seq::new(
        ds.len(),
        |i: int| i as nat,
    ));
}

} // verus!
