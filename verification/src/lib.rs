use vstd::prelude::*;

pub mod downloader;
pub mod fold;
pub mod i18n;
pub mod index;
pub mod library;
pub mod model;
pub mod pptx;
pub mod present;
pub mod refresh;
pub mod search;
pub mod sync;
pub mod text;
pub mod theme;
pub mod ui;
pub mod update;

verus! {

} // verus!
