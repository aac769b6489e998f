//! Framing, decoding and display of Robotis Dynamixel bus traffic.
//!
//! Bytes go into a [`parser::Parser`], which cuts them into checksum-valid
//! packets of Protocol v1 and v2. A [`decode::Classifier`] tells instructions of
//! the master from status replies of the slaves, and a [`pretty::Formatter`]
//! writes each decoded packet as one line of text.

pub mod bytes;
pub mod clock;
pub mod color;
pub mod crc;
pub mod decode;
pub mod decode_laws;
pub mod frame;
pub mod frame_laws;
pub mod line;
pub mod line_laws;
pub mod meaning;
pub mod parser;
pub mod pretty;
pub mod stuffing;
pub mod text;
