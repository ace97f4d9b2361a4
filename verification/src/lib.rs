//! Verified trading core: strict decision ingress, deterministic capital
//! authority, execution lifecycle, synthetic accounting and intelligence
//! bookkeeping.

pub mod agent_contract;
pub mod agent_tools;
pub mod cli;
pub mod dec;
pub mod ids;
pub mod text;
pub mod timestamp;
pub mod domain;
pub mod decision;
pub mod demo;
pub mod operator;
pub mod operator_model;
pub mod redaction;
pub mod reporting;
pub mod risk;
pub mod runtime;
pub mod execution;
pub mod simulation;
pub mod hermes;
pub mod intelligence;
pub mod atk;

