//! A desktop video uploader's library.
//!
//! The core is the upload task scheduler:
//! - `task`: task states, the transition table, and the task record;
//! - `store`: the task store, the single place where states change;
//! - `governor`: the live concurrency limit;
//! - `queue`: slot counting and first-in-first-out admission order;
//! - `lifecycle`: what each command does to a record, and the rules every
//!   change obeys;
//! - `upload_service`: the commands, the dispatcher and the worker's decisions;
//! - `laws`: properties that relate several operations, proved.
//!
//! Around it: the configuration model (`config`), the submission form
//! (`upload_form`), legacy configuration conversion (`compatible`), version
//! comparison (`version`), timestamps (`timestamp`), text helpers (`text`),
//! and the reading of the platform's JSON responses (`json`, `publish`,
//! `responses`).

pub mod task;
pub mod store;
pub mod governor;
pub mod queue;
pub mod lifecycle;
pub mod upload_service;
pub mod laws;
pub mod config;
pub mod upload_form;
pub mod compatible;
pub mod version;
pub mod timestamp;
pub mod text;
pub mod json;
pub mod publish;
pub mod responses;
