pub mod dot;
pub mod eval;

pub use dot::Dot;
pub use eval::{Eval, EvalMut};
pub mod color;

pub use color::{Color, ColorProps};
pub mod filter;

pub use filter::{Filter, FilterEmpty, FilterLowPass};
