//! A small hardware-description front end: a module is declared as named,
//! typed input and output signals plus an ordered list of literal signal
//! assignments, and is translated into a textual entity/architecture unit.
//!
//! The translation core is verified: the type-interning registry assigns
//! dense, stable identifiers to logic types, and the emitter produces the
//! exact output text, with the declared ordering and separator placement.

pub mod emit;
pub mod interface;
pub mod logic;
pub mod registry;
pub mod rtl;

pub use emit::emit;
pub use emit::PortView;
pub use interface::Architecture;
pub use interface::Entity;
pub use interface::InputSignal;
pub use interface::ModuleInterface;
pub use interface::ModuleInterfaceView;
pub use interface::OutputSignal;
pub use interface::Signal;
pub use interface::SignalEntry;
pub use interface::SignalEntryView;
pub use logic::BitRange;
pub use logic::Logic;
pub use logic::LogicDescriptor;
pub use logic::LogicType;
pub use logic::LogicTypeView;
pub use logic::LogicValue;
pub use logic::LogicVector;
pub use registry::Context;
pub use registry::InvalidTypeId;
pub use registry::LogicTypeId;
pub use rtl::Rtl;
pub use rtl::RtlExpression;
pub use rtl::RtlStatement;
pub use rtl::RtlStatementView;
