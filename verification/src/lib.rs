//! Verified core of the anime picture manager desktop application.
use vstd::prelude::*;

pub mod text;
pub mod order;
pub mod paths;
pub mod path_utils;
pub mod portable;
pub mod ipc;
pub mod state;
pub mod result_store;
pub mod comfy;
pub mod kohya;
pub mod database;
pub mod library;
pub mod system;
pub mod similarity;
pub mod dataset;
pub mod cuda;
pub mod worker_environment;
pub mod reference;
pub mod models;
pub mod training;
pub mod annotations;
pub mod personal_model;
pub mod updater;
pub mod kohya_runner;
pub mod workflow;
pub mod app_settings;

verus! {

/// Why the application could not start.
#[derive(Debug, Clone)]
pub enum CoreInitError {
    /// No application data folder could be found.
    DataDirectory,
    /// The database could not be opened or migrated; its error text.
    Database(String),
}

impl CoreInitError {
    /// The message shown for the error.
    pub fn message(&self) -> (r: String)
        ensures
            match self {
                CoreInitError::DataDirectory => r@ == "无法定位应用数据目录"@,
                CoreInitError::Database(e) => r@ == e@,
            },
    {
        match self {
            CoreInitError::DataDirectory => crate::text::owned("无法定位应用数据目录"),
            CoreInitError::Database(e) => e.clone(),
        }
    }
}

} // verus!
