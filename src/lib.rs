//! Replays the published episodes of a serialized web novel as an Atom feed
//! at a steady pace of one episode a day from a chosen start time.

pub mod atom;
pub mod feed;
pub mod freshness;
pub mod interop;
pub mod ncode;
pub mod novel;
pub mod schedule;
pub mod text;
pub mod timestamp;
