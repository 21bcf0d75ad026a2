//! The hunt: what is seen, what is remembered, what is planned and done.

pub mod actions;
pub mod backend;
pub mod backend_laws;
pub mod candidate;
pub mod context;
pub mod dispatch_laws;
pub mod explore;
pub mod explore_laws;
pub mod intent;
pub mod memory;
pub mod memory_laws;
pub mod model;
pub mod observe;
pub mod overlay;
pub mod overlay_laws;
pub mod perception;
pub mod plan;
pub mod plan_laws;
pub mod planner;
pub mod planner_laws;
pub mod policy;
pub mod route;
pub mod route_laws;
pub mod runtime;
pub mod runtime_laws;
pub mod score;
pub mod skill_cd;
pub mod state;
pub mod step;
pub mod step_laws;
pub mod targeting;
pub mod targeting_laws;
pub mod tick;
pub mod tick_laws;
pub mod world;
