//! Incremental bipartite graph store with a relaxing two-dimensional layout.
//!
//! Collections and members are nodes, memberships are edges. Nodes and edges
//! arrive one edge at a time; a fixed-timestep simulator pushes all nodes apart
//! and pulls linked nodes together.
//!
//! All coordinates are fixed-point numbers, see [`phys::Fixed`].

pub mod background;
pub mod clock;
pub mod data;
pub mod fps;
pub mod phys;
pub mod pointer;
pub mod sim;
pub mod view;
