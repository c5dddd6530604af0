use vstd::prelude::*;

pub mod activation;
pub mod authority;
pub mod begin_queue;
pub mod candidate_lease;
pub mod candidate_producer;
pub mod candidate_source_reclaimer;
pub mod candidate_source_retirement;
pub mod fsmeta;
pub mod ids;
pub mod lifecycle;
pub mod lines;
pub mod materialization_authority;
pub mod materialization_begin;
pub mod nixos;
pub mod paths;
pub mod permit;
pub mod privileged_helper;
pub mod request_publisher;
pub mod request_store;
pub mod root_boundary;
pub mod system;
pub mod system_spec;
pub mod system_workspace;
pub mod text;
