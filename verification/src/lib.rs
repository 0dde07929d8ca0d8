//! Capture, encode and fan-out pipeline for a live screen stream.
//!
//! Raw frames come from a capture backend, are compressed by an encoder,
//! and go out to any number of clients at once. This crate holds the
//! decisions of that pipeline, each with its contract:
//!
//! - [`format`] chooses the video format to propose to the backend and
//!   checks the format that the backend confirms;
//! - [`session`] is the capture session, a state machine that follows the
//!   negotiation, gates the frames and numbers the encoded units, with
//!   [`encoder`] as the bookkeeping of one encoder instance;
//! - [`bridge`] hands items from the capture side, which must never wait,
//!   to the distribution side, through a bounded [`queue`] that gives up
//!   its oldest item when full;
//! - [`distributor`] is the hub that republishes the stream to the queues
//!   of its subscribers, and [`server`] forwards the bridge into it;
//! - [`connection`] is the state of one client connection.
//!
//! The capture backend, the compressor and the sockets are the caller's.
//! The laws that hold of the parts over time are stated and proved in
//! [`order`], [`emission`], [`delivery`] and [`pipeline`].

pub mod bridge;
pub mod connection;
pub mod delivery;
pub mod distributor;
pub mod emission;
pub mod encoder;
pub mod format;
pub mod message;
pub mod order;
pub mod pipeline;
pub mod queue;
pub mod server;
pub mod session;
