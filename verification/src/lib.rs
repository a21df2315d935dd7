//! Dynamic DNS record reconciliation: name splitting, address
//! classification, record selection and the create/update/no-op decision.

pub mod api;
pub mod credentials;
pub mod domain;
pub mod error;
pub mod http_handler;
pub mod ip_literal;
pub mod ip_utils;
pub mod reconcile;
pub mod text;
