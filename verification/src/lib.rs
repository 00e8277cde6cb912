use vstd::prelude::*;

pub mod app;
pub mod args;
pub mod cli;
pub mod commands;
pub mod convert;
pub mod display;
pub mod endpoint;
pub mod i18n;
pub mod json;
pub mod lifecycle;
pub mod knowledge;
pub mod pipe;
pub mod probe;
pub mod protocol;
pub mod reg;
pub mod regdump;
pub mod reports;
pub mod register;
pub mod snapshot;
pub mod status;
pub mod text;
pub mod verify;

verus! {
} // verus!
