//! Core of a reactive form-management web application.
//!
//! Two independent subsystems:
//!
//! - `signal_result`: merges several independently loading, independently
//!   failing reactive reads into one tri-state outcome (loading / ok / err)
//!   with a fixed precedence rule, keeping every successful value in an
//!   ordered positional bundle.
//! - `typed_path` / `routes`: typed route paths: a declared pattern with
//!   named captures is rendered to a path string with the capture values
//!   percent-encoded, optionally augmented with a form-urlencoded query
//!   string, and handed to a URI parser.

pub mod encoding;
pub mod errors;
pub mod form_view;
pub mod pattern;
pub mod routes;
pub mod signal_result;
pub mod typed_path;
