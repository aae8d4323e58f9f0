//! Core logic of a volumetric spatial-object index: building a deduplicated,
//! canonically ordered index from bulk datasets, validating and executing
//! lookup queries against it, and regrouping raw per-point results into
//! response documents.

pub mod api_models;
pub mod index;
pub mod model;
pub mod order;
pub mod pipeline;
pub mod projector;
pub mod query;
pub mod service;
