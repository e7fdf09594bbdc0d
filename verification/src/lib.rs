//! NebulaDM's download-manager core: routing, direct and torrent jobs, the
//! queue and its events, and the desktop's rules, with their proofs.
pub mod categories;
pub mod desktop;
pub mod direct;
pub mod events;
pub mod ipc;
pub mod launch;
pub mod model;
pub mod planner;
pub mod queue;
pub mod quick_add;
pub mod rqbit;
pub mod setup;
pub mod text;
pub mod torrent;
pub mod update;
