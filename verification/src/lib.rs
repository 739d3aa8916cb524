#![verifier::loop_isolation(false)]
//! A typed, verifiable, single-static-assignment intermediate representation:
//! a generic operation model with an open kind registry, a containment
//! hierarchy of modules, regions and blocks, a structural verifier, a
//! lowering pipeline, a textual form, and an execution backend.

pub mod backend;
pub mod construct;
pub mod context;
pub mod ir;
pub mod pipeline;
pub mod textual;
pub mod validate;
