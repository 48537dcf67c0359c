//! Core of a small desktop tool that logs "crash"/interruption events:
//! an append-only store of records persisted as one JSON file, the
//! edit-state lifecycle around a draft record, and the view description
//! that a UI toolkit paints.

pub mod text;
pub mod time;
pub mod rfc3339;
pub mod rfc3339_laws;
pub mod json;
pub mod json_parse;
pub mod json_laws;
pub mod record;
pub mod store;
pub mod codec;
pub mod controller;
pub mod view;
