//! Panel applets: the shared host/applet contract and the pure state,
//! parsing and rendering logic of each applet.
pub mod api;
pub mod audio;
pub mod osd;
pub mod brightness_osd;
pub mod volume_osd;
pub mod clock;
pub mod network;
pub mod mesh_status;
pub mod status_cluster;
pub mod app_switcher;
pub mod dock;
pub mod notifications;
pub mod start_menu;
