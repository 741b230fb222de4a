//! Fleet monitoring for a compute cluster.
//!
//! The library holds the decisions of a monitoring agent and leaves the
//! calls over the network to its user:
//!
//! - [`secure`]: the credential provider, which hands out an authorization
//!   header and says when a ticket has to be fetched;
//! - [`engine`]: the membership snapshot and its reconciliation with the
//!   events of a children subscription, the tracker that drives one run of
//!   the subscription, and the collector that plans the probes of a cycle,
//!   assembles their answers and commits them to the telemetry pod;
//! - [`orca`]: the telemetry of a node, the worker counts of its
//!   applications and the statistics by application;
//! - [`supervisor`]: the loop that restarts a unit after each run;
//! - [`config`], [`errors`], [`resources`], [`web`], [`samples`]: settings,
//!   failures, descriptors, the routes of the facade and a made-up cluster;
//! - [`strmap`], [`text`], [`clock`]: a map keyed by strings, decimal text
//!   and the system clock.

pub mod clock;
pub mod config;
pub mod engine;
pub mod errors;
pub mod orca;
pub mod resources;
pub mod samples;
pub mod secure;
pub mod strmap;
pub mod supervisor;
pub mod text;
pub mod web;
