//! What a stream must offer to carry netstrings, and the in-memory streams
//! that this crate provides.

use vstd::prelude::*;
use vstd::string::StringSliceAdditionalSpecFns;

use vstd::utf8::{encode_utf8_decode_utf8, encode_utf8_valid_utf8};

use crate::codec::{append_frame, decode, decode_spec, frame_of, lemma_decode_frame, FrameError};

verus! {

/// Which directions of a stream to shut down.
#[derive(Clone, Copy, Debug, PartialEq, Eq, Structural)]
pub enum ShutdownMode {
    Read,
    Write,
    Both,
}

/// A failure reported by a stream's read, write, flush or shutdown.
#[derive(Clone, Copy, Debug, PartialEq, Eq, Structural)]
pub struct TransportError;

/// A stream whose directions can be shut down, also from another thread
/// than the one blocked on it, so that a blocked read or write returns.
pub trait Shutdown {
    fn shutdown(&self, how: ShutdownMode) -> Result<(), TransportError>;
}

/// What reading one frame from a stream holding `pending` (and ended when
/// `ended`) gives: `r` is `decode_spec`'s outcome, and `rest` is what the
/// stream holds afterwards. A decoded frame's bytes are taken; on an error
/// nothing is.
pub open spec fn reads_frame(
    pending: Seq<u8>,
    ended: bool,
    r: Result<String, FrameError>,
    rest: Seq<u8>,
) -> bool {
    match decode_spec(pending, ended) {
        Ok((text, used)) => {
            &&& r matches Ok(s) && s@ == text
            &&& rest == pending.subrange(used as int, pending.len() as int)
        },
        Err(e) => {
            &&& r == Err::<String, FrameError>(e)
            &&& rest == pending
        },
    }
}

/// Reading from a stream whose pending bytes start with the frame that
/// writing `t` appends gives `t` back, and leaves exactly the bytes that
/// followed the frame, whatever they are and whether or not the stream has
/// ended.
pub proof fn lemma_read_after_write(
    t: &str,
    rest: Seq<u8>,
    ended: bool,
    r: Result<String, FrameError>,
    after: Seq<u8>,
)
    requires
        t.spec_bytes().len() <= u64::MAX,
        reads_frame(frame_of(t.spec_bytes()) + rest, ended, r, after),
    ensures
        r matches Ok(s) && s@ == t@,
        after == rest,
{
    let f = frame_of(t.spec_bytes());
    encode_utf8_valid_utf8(t@);
    encode_utf8_decode_utf8(t@);
    lemma_decode_frame(t.spec_bytes(), rest, ended);
    assert((f + rest).subrange(f.len() as int, (f + rest).len() as int) =~= rest);
}

/// A stream that netstrings can be read from, one frame per call. Its model
/// is the bytes it holds that no frame has taken yet, and whether it has
/// ended.
pub trait ReadNetstring: Shutdown {
    /// The bytes held and not yet taken by a frame.
    spec fn pending_bytes(&self) -> Seq<u8>;

    /// Whether the stream will receive no more bytes.
    spec fn has_ended(&self) -> bool;

    fn read_netstring(&mut self) -> (r: Result<String, FrameError>)
        ensures
            reads_frame(old(self).pending_bytes(), old(self).has_ended(), r, final(self).pending_bytes()),
            final(self).has_ended() == old(self).has_ended(),
    ;
}

/// A stream that netstrings can be written to. Its model is the bytes
/// written to it so far.
pub trait WriteNetstring: Shutdown {
    /// The bytes written so far.
    spec fn written(&self) -> Seq<u8>;

    fn write_netstring(&mut self, value: &str) -> (r: Result<(), TransportError>)
        ensures
            r is Ok ==> final(self).written() == old(self).written() + frame_of(value.spec_bytes()),
    ;

    fn flush(&mut self) -> (r: Result<(), TransportError>)
        ensures
            final(self).written() == old(self).written(),
    ;
}

/// Writing to a byte vector appends the frame and cannot fail.
pub fn write_frame_to_vec(out: &mut Vec<u8>, value: &str) -> (r: Result<(), TransportError>)
    ensures
        r is Ok,
        final(out)@ == old(out)@ + frame_of(value.spec_bytes()),
{
    append_frame(out, value);
    Ok(())
}

impl Shutdown for Vec<u8> {
    fn shutdown(&self, how: ShutdownMode) -> Result<(), TransportError> {
        Ok(())
    }
}

impl WriteNetstring for Vec<u8> {
    open spec fn written(&self) -> Seq<u8> {
        self@
    }

    fn write_netstring(&mut self, value: &str) -> (r: Result<(), TransportError>)
        ensures
            r is Ok,
    {
        write_frame_to_vec(self, value)
    }

    fn flush(&mut self) -> (r: Result<(), TransportError>)
        ensures
            r is Ok,
    {
        Ok(())
    }
}

/// A byte stream held in memory: the bytes received so far that no frame
/// has taken yet, and whether the stream has ended.
pub struct NetstringReader {
    pending: Vec<u8>,
    ended: bool,
}

impl NetstringReader {
    /// A reader on a stream that has received nothing yet.
    pub fn new() -> (r: NetstringReader)
        ensures
            r.pending_bytes() == Seq::<u8>::empty(),
            !r.has_ended(),
    {
        NetstringReader { pending: Vec::new(), ended: false }
    }

    /// A reader on a stream that holds exactly `bytes` and then ends.
    pub fn from_bytes(bytes: &[u8]) -> (r: NetstringReader)
        ensures
            r.pending_bytes() == bytes@,
            r.has_ended(),
    {
        let mut pending: Vec<u8> = Vec::new();
        pending.extend_from_slice(bytes);
        NetstringReader { pending, ended: true }
    }

    /// Appends bytes that the stream has received.
    pub fn feed(&mut self, chunk: &[u8])
        ensures
            final(self).pending_bytes() == old(self).pending_bytes() + chunk@,
            final(self).has_ended() == old(self).has_ended(),
    {
        self.pending.extend_from_slice(chunk);
    }

    /// Records that the stream will receive no more bytes.
    pub fn finish(&mut self)
        ensures
            final(self).pending_bytes() == old(self).pending_bytes(),
            final(self).has_ended(),
    {
        self.ended = true;
    }

    /// Whether the stream has ended.
    pub fn is_ended(&self) -> (r: bool)
        ensures
            r == self.has_ended(),
    {
        self.ended
    }

    /// Decodes the next frame from the pending bytes. A decoded frame's
    /// bytes are taken from the pending bytes; on an error nothing is taken.
    pub fn next_frame(&mut self) -> (r: Result<String, FrameError>)
        ensures
            reads_frame(old(self).pending_bytes(), old(self).has_ended(), r, final(self).pending_bytes()),
            final(self).has_ended() == old(self).has_ended(),
    {
        match decode(self.pending.as_slice(), self.ended) {
            Ok((s, used)) => {
                let rest = self.pending.split_off(used);
                self.pending = rest;
                Ok(s)
            },
            Err(e) => Err(e),
        }
    }
}

impl Shutdown for NetstringReader {
    fn shutdown(&self, how: ShutdownMode) -> Result<(), TransportError> {
        Ok(())
    }
}

impl ReadNetstring for NetstringReader {
    closed spec fn pending_bytes(&self) -> Seq<u8> {
        self.pending@
    }

    closed spec fn has_ended(&self) -> bool {
        self.ended
    }

    fn read_netstring(&mut self) -> (r: Result<String, FrameError>) {
        self.next_frame()
    }
}

} // verus!
