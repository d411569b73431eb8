//! Discovery, reconciliation and code generation for a driver-API
//! interposition layer, together with the decision logic of its runtime
//! resolution engine.

pub mod builder;
pub mod codegen;
pub mod hooks;
pub mod prototypes;
pub mod reconcile;
pub mod runtime;
pub mod syntax;
pub mod text;
