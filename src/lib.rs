//! Structural extraction of platform and reward records from the syntax
//! tree of a bundled, name-mangled JavaScript program, and the reading and
//! comparing of the shop's reward listing.
//!
//! - [`node`]: the syntax-tree model; [`navigate`]: shape-matching
//!   primitives over it.
//! - [`locate`]: the mount call and the root element; [`sections`]: the
//!   sections the root element renders, resolved by position.
//! - [`literal`] and [`records`]: literal values, their coercion, and the
//!   platform and reward records of a section.
//! - [`extract`]: the entry point, with [`diagnostics`] for failures and
//!   [`renaming`] for the proof that binding names do not matter.
//! - [`js_url`], [`listing`] and [`updates`]: the shop page's bundle URL,
//!   its reward listing, and the changes between two listings, with
//!   [`text`] for building their texts.
//! - [`web`]: the calls into the URL and HTML crates.

pub mod diagnostics;
pub mod extract;
pub mod js_url;
pub mod listing;
pub mod literal;
pub mod locate;
pub mod navigate;
pub mod node;
pub mod records;
pub mod renaming;
pub mod sections;
pub mod text;
pub mod updates;
pub mod web;
