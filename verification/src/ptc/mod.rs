//! Programs that the model supplies, and what they run under.
pub mod calls;
pub mod diagnostics;
pub mod prelude;
pub mod run;
pub mod runtime;
pub mod trust;
pub mod values;
