//! A streaming media pipeline engine.
//!
//! The engine assembles typed processing elements into a directed graph,
//! negotiates the data format flowing across each connection, drives the
//! graph through an explicit lifecycle state machine, and delivers
//! asynchronous status and error events to a controller over a bus.
//! Live topology changes (pads that appear only after an element inspects
//! data, pads created on request) and fan-out replication of one stream to
//! several consumers are supported. Concrete codecs, demuxers and hardware
//! sinks are outside collaborators: the engine sees them only through the
//! capability contracts of their pads.

pub mod bus;
pub mod caps;
pub mod controller;
pub mod element;
pub mod graph;
pub mod message;
pub mod sink;
pub mod source;
pub mod types;
