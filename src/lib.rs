//! Attribution of source lines to production and test code, per language.
//!
//! - `scanner`: the per-line classifier (empty, comment, code, string).
//! - `language`: the per-language table of extensions, test patterns and
//!   line rules.
//! - `files`: whole-file attribution to production or test.
//! - `cloc`: differential attribution from two aggregate reports.
//! - `stats`, `table`, `teams`: roll-up into repository, team and
//!   organisation totals.
//! - `remote`: decisions around fetching and cloning repositories.
//! - `text`: character-level helpers.

pub mod cloc;
pub mod files;
pub mod language;
pub mod remote;
pub mod scanner;
pub mod stats;
pub mod table;
pub mod teams;
pub mod text;
