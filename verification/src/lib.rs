use vstd::prelude::*;

pub mod clock;
pub mod deepseek;
pub mod dialogs;
pub mod fonts;
pub mod glm;
pub mod json;
pub mod menu;
pub mod kimi;
pub mod quota;
pub mod reset;
pub mod settings;
pub mod sort;
pub mod text;
pub mod tray;

verus! {
} // verus!
