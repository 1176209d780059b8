//! Tests of the type-interning registry: idempotence, injectivity, density
//! of the issued identifiers, and rejection of foreign identifiers.

use architect::BitRange;
use architect::Context;
use architect::Logic;
use architect::LogicDescriptor;
use architect::LogicType;
use architect::LogicVector;

fn scalar() -> LogicDescriptor {
    LogicDescriptor { base: String::from("std_logic"), range: None }
}

fn vector(high: u64, low: u64) -> LogicDescriptor {
    LogicDescriptor {
        base: String::from("std_logic_vector"),
        range: Some(BitRange { high, low }),
    }
}

#[test]
fn interning_twice_returns_the_same_id() {
    let mut registry = Context::new();
    let first = registry.intern(scalar());
    let second = registry.intern(scalar());
    assert_eq!(first, second);
}

#[test]
fn resolve_returns_the_interned_descriptor() {
    let mut registry = Context::new();
    let id = registry.intern(vector(7, 0));
    let resolved = registry.resolve(id).unwrap();
    assert_eq!(resolved.base, "std_logic_vector");
    assert_eq!(resolved.range, Some(BitRange { high: 7, low: 0 }));
    assert!(resolved.matches(&vector(7, 0)));
}

#[test]
fn distinct_descriptors_get_distinct_ids() {
    let mut registry = Context::new();
    let a = registry.intern(scalar());
    let b = registry.intern(vector(7, 0));
    let c = registry.intern(vector(8, 0));
    let d = registry.intern(vector(7, 1));
    assert_ne!(a, b);
    assert_ne!(a, c);
    assert_ne!(a, d);
    assert_ne!(b, c);
    assert_ne!(b, d);
    assert_ne!(c, d);
}

#[test]
fn ids_are_dense_from_zero() {
    let mut registry = Context::new();
    let a = registry.intern(scalar());
    let b = registry.intern(vector(7, 0));
    let c = registry.intern(vector(3, 0));
    assert_eq!(a.index(), 0);
    assert_eq!(b.index(), 1);
    assert_eq!(c.index(), 2);
    // Re-interning issues no new identifier.
    assert_eq!(registry.intern(vector(7, 0)).index(), 1);
    // The next distinct descriptor takes the next identifier.
    assert_eq!(registry.intern(vector(9, 0)).index(), 3);
}

#[test]
fn logic_type_descriptors_follow_the_fixed_rule() {
    let scalar_descriptor = Logic::descriptor();
    assert_eq!(scalar_descriptor.base, "std_logic");
    assert_eq!(scalar_descriptor.range, None);
    let vector_descriptor = <LogicVector<15, 8>>::descriptor();
    assert_eq!(vector_descriptor.base, "std_logic_vector");
    assert_eq!(vector_descriptor.range, Some(BitRange { high: 15, low: 8 }));
}

#[test]
fn intern_type_matches_intern_of_descriptor() {
    let mut registry = Context::new();
    let by_type = registry.intern_type::<LogicVector<7, 0>>();
    let by_descriptor = registry.intern(vector(7, 0));
    assert_eq!(by_type, by_descriptor);
}

#[test]
fn foreign_id_is_rejected() {
    // Seed the two registries differently, so the foreign identifier is
    // genuinely unknown to the second registry.
    let mut registry_a = Context::new();
    registry_a.intern(scalar());
    let foreign = registry_a.intern(vector(7, 0));
    let mut registry_b = Context::new();
    registry_b.intern(scalar());
    let rejected = registry_b.resolve(foreign);
    let err = rejected.err().expect("a foreign identifier must not resolve");
    assert_eq!(err.0, foreign);
    assert_eq!(err.0.index(), 1);
}

#[test]
fn default_registry_is_empty() {
    let mut registry = Context::default();
    assert_eq!(registry.intern(scalar()).index(), 0);
}

#[test]
fn empty_registry_resolves_nothing() {
    let mut registry_a = Context::new();
    let id = registry_a.intern(scalar());
    let registry_b = Context::new();
    assert!(registry_b.resolve(id).is_err());
}
