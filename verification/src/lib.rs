//! Synthesis of marker types that mirror the current variant of an enum
//! component, together with a reference model of the lifecycle hooks that keep
//! the markers in step with the enum on a live object.
//!
//! [`derive_enum_component_tag`] takes the declaration of an enum and says
//! what to generate for it: one marker type per variant, in a namespace named
//! after the enum, and the hooks of the enum and of each marker. [`LiveObject`]
//! runs those hooks as a host would, and the laws in [`object`] state what
//! they achieve: an object carries exactly the marker of the variant it
//! holds.

pub mod analysis;
pub mod hooks;
pub mod naming;
pub mod object;
pub mod synthesis;
pub mod syntax;

pub use analysis::DeriveError;
pub use object::LiveObject;
pub use synthesis::{derive_enum_component_tag, Expansion, MarkerType};
pub use syntax::Declaration;
