//! The installation of an update: the plan of what is done with files and programs, and the
//! judgement of what came of it.

pub mod install;
pub mod repair;
pub mod update;
