//! Ambient mesh migration assistant: readiness rules, scoring, traffic analysis,
//! application catalog and dashboard computation, with their contracts.

pub mod applications;
pub mod assessments;
pub mod attribution;
pub mod audit;
pub mod auth;
pub mod catalog;
pub mod clock;
pub mod cluster_view;
pub mod compute;
pub mod connections;
pub mod dashboard;
pub mod dashboard_flow;
pub mod dataplane;
pub mod deep_analysis;
pub mod from_run;
pub mod inventory;
pub mod labels;
pub mod manifest;
pub mod model;
pub mod plans;
pub mod refs;
pub mod requests;
pub mod rollouts;
pub mod rules;
pub mod sarif;
pub mod scans;
pub mod scoring;
pub mod sorting;
pub mod stored;
pub mod text;
pub mod traffic;
pub mod translate;
