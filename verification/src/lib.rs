use vstd::prelude::*;

pub mod text;
pub mod transcript;
pub mod markdown;
pub mod ambient;
pub mod session;
pub mod models;
pub mod hardware;
pub mod config;
pub mod speech;
pub mod final_pass;
pub mod pipeline;
pub mod diarization;
pub mod store;
pub mod ui;
pub mod assets;
pub mod permissions;
pub mod hotkey;
pub mod logging;
pub mod controller;
pub mod eval;
pub mod regions;
pub mod cli;
pub mod settings;
pub mod model_plan;

verus! {

} // verus!
