//! Verified core of the Oh-Ben-Claw agent runtime: skill-install policy,
//! staged rollout of learned skills, mesh supervision, gateway parsing and
//! the small text utilities they share.

pub mod text;
pub mod json;
pub mod install_policy;
pub mod track0;
pub mod rollout;
pub mod gateway;
pub mod spine;
pub mod mesh;
pub mod browser;
pub mod tunnel;
pub mod tools;
pub mod skill;
pub mod synthesis;
pub mod evolve;
pub mod improve;
pub mod parameterize;
pub mod registry;
pub mod p2p;
pub mod http;
pub mod schema;
pub mod vision;
pub mod memory;
