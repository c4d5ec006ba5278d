//! The daemon's workers: the decisions, parsers and command lines of each,
//! apart from the processes and sockets they drive.
pub mod auto_mark;
pub mod border_tinter;
pub mod compute_migrate;
pub mod derp;
pub mod gluster;
pub mod kdc_bridge;
pub mod lan_discovery;
pub mod meshfs;
pub mod nats;
pub mod netassess;
pub mod notification_relay;
pub mod perf;
pub mod supervisor;
pub mod surrounding;
pub mod tag_layout;
pub mod tags;
pub mod thumbnailer;
pub mod time;
pub mod workspace_router;
