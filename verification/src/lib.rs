//! Resolution and per-session caching of the ordered list of human-language
//! preferences a guest application queries at runtime.
//!
//! A session resolves the list once, from an operator-configured override
//! when one is present, else from the host's locale enumeration with every
//! region qualifier stripped, falling back to `"en"` when the host yields
//! nothing. The result is cached in the session context and is stable for
//! the session's lifetime.

pub mod resolve;
pub mod session;

pub use resolve::LocaleEntry;
pub use session::{Environment, Options, State};
