//! Verified core of a live-media mesh node.
//!
//! The library holds the decisions and the data of the node: path and argument
//! grammars, stream state, failover, telemetry, alerts and rendering. It performs
//! no input or output; the surrounding program reads, calls and sends.

pub mod clock;
pub mod commit;
pub mod control;
pub mod edge;
pub mod endpoints;
pub mod failover;
pub mod forwarder;
pub mod histogram;
pub mod ingest;
pub mod live_state;
pub mod media;
pub mod mesh;
pub mod metrics;
pub mod metrics_laws;
pub mod order;
pub mod paths;
pub mod playlist;
pub mod protocol;
pub mod provision;
pub mod relay_snapshot;
pub mod replicas;
pub mod router;
pub mod streams;
pub mod table;
pub mod telemetry;
pub mod text;
pub mod warm;
pub mod window;
pub mod access_unit;
pub mod addr;
pub mod alert_laws;
pub mod alerts;
pub mod api;
pub mod args;
pub mod audio;
pub mod bytes;
