use vstd::prelude::*;

pub mod text;
pub mod printer;
pub mod json;
pub mod report;
pub mod sysinfo;
pub mod settings;
pub mod window;
pub mod icon;
pub mod shortcuts;

verus! {
}
