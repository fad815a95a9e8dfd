//! A controller's view of ECHONET Lite: frames, their wire format, the two
//! responses a controller waits for, and what it does about each datagram.
//!
//! - `packet`: a frame and its parts, as values.
//! - `wire`: the bytes of a frame, the decoder and the encoder.
//! - `roundtrip`: what holds between the decoder and the encoder.
//! - `property_map`: the maps of property codes that an object publishes.
//! - `response`: a frame read as a discovery response or as a sync response.
//! - `orchestrator`: from an event to what the event loop is to do.
//! - `buf`: the calls into the `bytes` crate, whose contracts are taken on
//!   trust.
//! - `error`: what can go wrong.
//!
//! Every function states what it returns over mathematical values: the view
//! of a type holds sequences where the type holds vectors.

pub mod buf;
pub mod error;
pub mod orchestrator;
pub mod packet;
pub mod property_map;
pub mod response;
pub mod roundtrip;
pub mod wire;
