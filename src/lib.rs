//! Decides which module requests a bundler leaves external, and renders the
//! code for CommonJS `require` references kept in the bundle.

pub mod externals;
pub mod pattern;
pub mod require_dependency;
