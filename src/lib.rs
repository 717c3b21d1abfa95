//! Verified core of in-place, pinned initialization.
//!
//! - [`internal`]: the initializer contract (a slot is filled on success and left untouched
//!   on failure), its adapters, and the runtime types built on it.
//! - [`option`]: an `Option`-like container initialized in place.
//! - [`literal`]: what an initializer literal does when it runs: ordered steps,
//!   short-circuit with drops, zero-fill of the fields it does not name.
//! - [`token`], [`init`], [`fields`]: the initializer-expression macro's parser over a plain
//!   token model.
//! - [`syntax`], [`pin_data`], [`pinned_drop`], [`zeroable`], [`dyn_init`]: what the
//!   derive-style macros decide from a declaration, before any code is rendered.
pub mod dyn_init;
pub mod fields;
pub mod init;
pub mod internal;
pub mod literal;
pub mod member;
pub mod option;
pub mod pin_data;
pub mod pinned_drop;
pub mod syntax;
pub mod token;
pub mod zeroable;
