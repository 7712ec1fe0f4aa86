//! Netstring framing (`<length>:<payload>,`) and a flow-controlled message
//! channel built on top of it.

pub mod channel;
pub mod codec;
pub mod transport;

pub use channel::{
    flush_op, last_op, message_op, Ack, AckWait, Channel, ChannelError, KeepText, MapWith, Op,
    ReaderPump, ReaderStep, TextMapping, WriterPump, WriterStep,
};
pub use codec::{append_frame, decode, encode, FrameError, DIGIT_LIMIT};
pub use transport::{
    write_frame_to_vec, NetstringReader, ReadNetstring, Shutdown, ShutdownMode, TransportError,
    WriteNetstring,
};
