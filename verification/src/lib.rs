pub mod api;
pub mod app;
pub mod clock;
pub mod config;
pub mod dns;
pub mod inbound_tls;
pub mod lists;
pub mod mdns;
pub mod message;
pub mod metrics;
pub mod net;
pub mod odoh;
pub mod padding;
pub mod platform;
pub mod profiles;
pub mod querylog;
pub mod rollup;
pub mod sentinel;
pub mod state_dir;
pub mod table;
pub mod text;
