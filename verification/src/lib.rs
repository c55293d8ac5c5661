//! Detection-and-response core of a security event pipeline: a dispatcher in
//! front of signature, indicator, anomaly and correlation detectors, an
//! incident orchestrator with response rules, and a supervisor for the
//! workers. Every function carries a contract; Verus proves them all but
//! those of `outside`, which are taken on trust.

pub mod error;
pub mod model;
pub mod outside;
pub mod text;
pub mod signature;
pub mod incident;
pub mod response;
pub mod orchestrator;
pub mod lifecycle;
pub mod correlation;
pub mod dispatcher;
pub mod anomaly;
pub mod kernel;
pub mod ruletext;
pub mod realtime;
pub mod supervisor;
pub mod ioc;
pub mod detection;
pub mod pipeline;
pub mod compliance;
pub mod behavior;
pub mod matcher;
pub mod classify;
