//! Verified core of the GNet protocol suite: wire codecs for GDP, GCTL, GTS
//! and CSS, bounded storage, routing tables, the DLP link model and its
//! control exchange, GTS streams and tunnels, and the control planes of the
//! routers and the switch.

pub mod bounded_gts;
pub mod cycle_router;
pub mod dlp_control;
pub mod dlp_gdp;
pub mod dlp_handshake;
pub mod dlp_reassembly;
pub mod dlp_v01;
pub mod dynamic_router;
pub mod dynamic_routing;
pub mod egress_scheduler;
pub mod endpoint;
pub mod entropy;
pub mod error;
pub mod gnet_udp;
pub mod gts;
pub mod host_tap;
pub mod ip_compat;
pub mod link;
pub mod p4_router;
pub mod qdx;
pub mod router_adjacency;
pub mod router_rib;
pub mod routing;
pub mod runtime;
pub mod socket;
pub mod static_router;
pub mod static_switch;
pub mod storage;
pub mod time;
pub mod trace;
pub mod wire;
