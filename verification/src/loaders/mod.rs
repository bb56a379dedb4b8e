//! Reading configurations of earlier versions.

pub mod conversion_laws;
pub mod convert;
pub mod estimator;
pub mod partyclaw;
pub mod upgrade;
