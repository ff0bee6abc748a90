//! Rewrites the CommonJS module syntax of one source module (`require(..)`,
//! `module.exports`, `exports.<name>`) into ECMAScript module syntax
//! (`import`, `export`), by a cascade of eight passes over the module's
//! syntax tree.
//!
//! The rewrite is syntactic and static. It knows the tree only as far as its
//! rules read it ([`ast`]); it takes a module, changes nothing in place and
//! hands a rewritten module on, together with what it has to warn about
//! ([`transform_cjs`]). It fails on one input only: a module that holds a
//! `require` whose only argument is not a string literal.
//!
//! The executable code is proved against spec functions over the views of
//! the tree: the rules in [`visitors`], the traversal and the cleanup in
//! [`traverse`], the predicates in [`utils`]. What holds of the passes and of
//! the cascade is stated and proved in [`tidy`] (no placeholder is handed
//! on), [`converted`] (no recognised shape is handed on), [`settled`] (the
//! cascade is idempotent), [`idle`] (no match, no change), [`frame`] (which
//! pass records what), [`fresh`] (no synthetic name is issued twice),
//! [`failure`] (when the cascade fails), [`single_default`] (a module has one
//! default export), [`unassigned`] (no assignment to `module.exports`, no
//! default export), [`bare_free`] (no statement that calls `require`, no
//! change by the statement pass), [`laws`] (what becomes of each shape, and
//! in which order) and [`mixed`] (what becomes of `require` among other
//! items).
pub mod ast;
pub mod bare_free;
pub mod converted;
pub mod failure;
pub mod frame;
pub mod fresh;
pub mod idle;
pub mod laws;
pub mod mixed;
pub mod names;
pub mod settled;
pub mod single_default;
pub mod tidy;
pub mod transform_cjs;
pub mod traverse;
pub mod unassigned;
pub mod utils;
pub mod visitors;
