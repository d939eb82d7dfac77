//! Verified core of a two-shader WebGL bring-up: joining named resource
//! fetches into one bundle, and the linear GPU pipeline state machine that
//! consumes it.

pub mod bundle;
pub mod fetch;
pub mod joiner;
pub mod layout;
pub mod pipeline;
