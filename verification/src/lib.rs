//! Verified core of the driftling desktop pet: the sync server's presence
//! lease and event selection, the client's push cursor, presence and
//! schedules, the daemon's decisions, scene clustering and the overlay
//! backends' window, surface and pointer handling, and the small parsers
//! and checks around them.

pub mod lease;
pub mod cluster;
pub mod text;
pub mod push;
pub mod presence;
pub mod supervise;
pub mod ctl;
pub mod events;
pub mod token;
pub mod paths;
pub mod protocol;
pub mod pixel;
pub mod server_config;
pub mod menu;
pub mod daemon;
pub mod pointer;
pub mod window;
pub mod remote;
pub mod effects;
pub mod surfaces;
pub mod blit;
