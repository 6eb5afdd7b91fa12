//! Support for loading and unloading Linux kernel modules.
//!
//! The crate covers the parts of the `finit_module(2)` / `delete_module(2)`
//! interface with interesting semantics: the typed module-parameter string
//! ([`params`]), the syscall flag encodings ([`load`], [`unload`]), the
//! mapping of raw OS error codes to structured errors ([`errors`]), and the
//! rate-limited retry state machine used for asynchronous unloading
//! ([`unload`]). The privileged calls themselves are issued by a surrounding
//! runtime layer, which feeds their raw results back into the decision
//! functions defined here.

pub mod errors;
pub mod load;
pub mod params;
pub mod text;
pub mod unload;

pub use load::ModLoader;
pub use params::ModParamValue;
pub use params::ModParams;
pub use params::params_to_string;
pub use unload::ModUnloader;
