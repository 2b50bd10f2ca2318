//! A single evolving organism, a registry of named rules, and the operation
//! that applies a rule to the organism and records how long it took.
//!
//! Numbers are IEEE 754 binary64 values held as their encodings
//! ([`binary64::Binary64`]); [`numeric`] says what the encodings mean. The
//! organism and its update are in [`organism`], rules and their statistics
//! in [`rule`], the map from identifiers to rules in [`table`], the registry
//! in [`registry`], and the application of a rule in [`coordinator`].
//!
//! The library neither reads a clock nor reads or writes text: times come in
//! as arguments, and snapshots, statistics and exports go out as values.

pub mod binary64;
pub mod coordinator;
pub mod numeric;
pub mod organism;
pub mod registry;
pub mod rule;
pub mod table;

pub use binary64::Binary64;
pub use coordinator::{apply_rule, apply_rule_logic};
pub use organism::{OrganismState, Snapshot};
pub use registry::{ImportSection, RegistryError, RegistryExport, RuleRegistry};
pub use rule::{Rule, RuleStats};
pub use table::{RuleEntry, RuleTable};
