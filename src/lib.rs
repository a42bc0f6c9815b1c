//! Renders a backend-agnostic markup tree into the text protocols of
//! status bars, and dispatches the click events that come back.
use vstd::prelude::*;

pub mod markup;
pub mod dzen2;
pub mod lemonbar;
pub mod i3bar;

verus! {

} // verus!
