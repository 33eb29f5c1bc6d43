//! Generates an expression that works like the "Color Ramp" node of Blender:
//! a curve through a list of breakpoints, as Rust or as WGSL.
//!
//! An invocation is a stream of tokens: attributes first, then one bracketed
//! pair `[position, value]` for each breakpoint, in ascending order of
//! position. Commas between them are optional.
//!
//! ```text
//! [0.0, 0.0], [1.0, 1.0], [2.0, 0.0]
//! @t ease [0.0, 0.0], [1.0, 1.0], [2.0, 0.0]
//! ```
//!
//! By default the expression is Rust, linear between the breakpoints, in the
//! variable `x`. The attributes change that:
//!
//! * `@a`: the variable is `a`.
//! * `clamp`: the variable is held between the first and the last position.
//! * `steps` (or `step`): each segment has the value of its left breakpoint.
//! * `ease`: the segments are joined by `smoothstep`.
//! * `wgsl`: the expression is WGSL.
//! * `str`: the expression is handed out as a string literal.
//!
//! Positions and values are never looked into: they may be any expressions
//! of the target language, and go into the result as they are written.
//!
//! [`ramp`] compiles one invocation. The modules hold its stages:
//! [`attributes`] and [`breakpoints`] read the invocation, [`builder`] writes
//! the expression, and [`tokens`] says what a stream of tokens is.

pub mod attributes;
pub mod breakpoints;
pub mod builder;
pub mod parse;
pub mod tokens;

pub use parse::{ramp, SpannedError};
