//! The decision-making core of a runtime entity inspector: which components an
//! entity exposes, how an in-progress rotation edit is cached across frames,
//! and which structural commands one inspection pass queues.

pub mod commands;
pub mod component;
pub mod displayable_component;
pub mod entity;
pub mod inspector;
pub mod math;
pub mod properties;
pub mod registry;
pub mod scene;
pub mod ui;
pub mod world;
