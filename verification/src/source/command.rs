//! Audio from a command: raw frames that a child process writes to its
//! standard output, each sample a 32-bit floating point number in big
//! endian byte order.

use vstd::prelude::*;

use crate::audioformat::Frame;
use crate::source::AudioSource;

verus! {

/// The number of bytes of a sample.
pub const SAMPLE_BYTES: usize = 4;

/// The number of bytes of a frame of two samples.
pub const FRAME_BYTES: usize = 8;

/// The 32-bit word that the first four of `bytes` spell in big endian
/// order: the first byte is the most significant.
pub open spec fn be_word(bytes: Seq<u8>) -> u32 {
    (bytes[0] as int * 0x100_0000 + bytes[1] as int * 0x1_0000 + bytes[2] as int * 0x100 + bytes[3] as int) as u32
}

/// `byteorder::BigEndian::read_u32`: the word spelled by the first four
/// bytes of the buffer. It panics on a buffer of fewer than four bytes.
#[verifier::external_body]
fn read_be_word(bytes: &[u8]) -> (word: u32)
    requires
        bytes@.len() >= 4,
    ensures
        word == be_word(bytes@),
{
    <byteorder::BigEndian as byteorder::ByteOrder>::read_u32(bytes)
}

/// The two samples of a frame as they come off the wire: the bit
/// patterns of two 32-bit floating point numbers.
#[derive(Clone, Copy, Debug, PartialEq, Eq, Structural)]
pub struct RawFrame {
    pub left: u32,
    pub right: u32,
}

/// The frame that the first eight of `bytes` spell: the left sample,
/// then the right.
pub open spec fn raw_frame(bytes: Seq<u8>) -> RawFrame {
    RawFrame { left: be_word(bytes.subrange(0, 4)), right: be_word(bytes.subrange(4, 8)) }
}

/// Decodes the frame at the start of `bytes`: the left sample, then the
/// right. There is none if fewer bytes are left than a frame takes.
pub fn decode_frame(bytes: &[u8]) -> (frame: Option<RawFrame>)
    ensures
        frame is Some <==> bytes@.len() >= FRAME_BYTES,
        frame matches Some(raw) ==> raw == raw_frame(bytes@),
{
    if bytes.len() < FRAME_BYTES {
        return None;
    }
    let left = read_be_word(&bytes[0..4]);
    let right = read_be_word(&bytes[4..8]);
    Some(RawFrame { left, right })
}

/// Where the frames of a command come from: the next frame, or nothing
/// once the stream has ended or can no longer be decoded.
///
/// What a read may do is said by `reads`, a relation, since a reader
/// reads from a pipe. A reader that leaves `reads` as it is allows every
/// outcome.
pub trait FrameReader: Sized {
    type Frame: Frame;

    /// Reading from `self` may give `read` and leave `after`.
    open spec fn reads(&self, after: &Self, read: Option<Self::Frame>) -> bool {
        true
    }

    /// Reads the next frame off the stream.
    fn read_frame(&mut self) -> (read: Option<Self::Frame>)
        ensures
            old(self).reads(final(self), read),
    ;
}

/// What a source that has not ended makes of a read: a frame that was
/// read is the frame that is played, and the source goes on; a read that
/// gave nothing ends the source, and silence is played.
pub open spec fn played<F: Frame>(read: Option<F>, ended: bool, frame: F) -> bool {
    match read {
        Some(decoded) => frame == decoded && !ended,
        None => ended && frame == F::equilibrium_spec(),
    }
}

/// Where the bytes of a stream of raw frames come from, and what makes
/// the frames that are played of the samples on the wire.
///
/// What a read may do is said by `gives`, a relation, since the bytes
/// come through a pipe. A stream that leaves `gives` as it is allows
/// every outcome. `frame_of_spec` says which frame is made of two
/// samples; its body is one fixed frame, so a stream has to state its own
/// to meet the contract of `frame_of`.
pub trait PcmStream: Sized {
    type Frame: Frame;

    /// Reading from `self` may give `bytes` and leave `after`.
    open spec fn gives(&self, after: &Self, bytes: Option<[u8; 8]>) -> bool {
        true
    }

    /// The frame that is played for the two samples of a raw frame.
    open spec fn frame_of_spec(raw: RawFrame) -> Self::Frame {
        arbitrary()
    }

    /// Takes the bytes of the next frame off the stream, or gives nothing
    /// if the stream ends before a whole frame has come.
    fn read_bytes(&mut self) -> (bytes: Option<[u8; 8]>)
        ensures
            old(self).gives(final(self), bytes),
    ;

    /// The frame that is played for the two samples of a raw frame.
    fn frame_of(raw: RawFrame) -> (frame: Self::Frame)
        ensures
            frame == Self::frame_of_spec(raw),
    ;
}

/// What a reader makes of the bytes that were read: the frame of the two
/// big-endian samples they spell, or nothing where nothing was read.
pub open spec fn decoded<B: PcmStream>(bytes: Option<[u8; 8]>) -> Option<B::Frame> {
    match bytes {
        Some(taken) => Some(B::frame_of_spec(raw_frame(taken@))),
        None => None,
    }
}

/// Reads frames off a stream of bytes: eight bytes at a time, the left
/// sample before the right, each in big endian byte order.
pub struct PcmReader<B> {
    pub stream: B,
}

impl<B: PcmStream> FrameReader for PcmReader<B> {
    type Frame = B::Frame;

    /// One read takes the bytes of one frame off the stream and decodes
    /// them.
    open spec fn reads(&self, after: &Self, read: Option<B::Frame>) -> bool {
        exists|bytes: Option<[u8; 8]>| #[trigger] self.stream.gives(&after.stream, bytes) && read == decoded::<B>(bytes)
    }

    fn read_frame(&mut self) -> (read: Option<B::Frame>) {
        let bytes = self.stream.read_bytes();
        let read = match bytes {
            Some(taken) => match decode_frame(taken.as_slice()) {
                Some(raw) => Some(B::frame_of(raw)),
                None => None,
            },
            None => None,
        };
        proof {
            assert(old(self).stream.gives(&self.stream, bytes));
            assert(read == decoded::<B>(bytes));
        }
        read
    }
}

/// An audio source that plays what a command writes to its standard
/// output. When the stream ends, the source is exhausted and stays so:
/// it hands out silence and does not read again.
pub struct CommandSource<R> {
    child_out: R,
    command: String,
    args: Vec<String>,
    source_sample_hz: u32,
    reached_end: bool,
}

impl<R: FrameReader> CommandSource<R> {
    /// The stream has ended.
    pub closed spec fn ended(&self) -> bool {
        self.reached_end
    }

    /// The executable that was invoked.
    pub closed spec fn command_spec(&self) -> Seq<char> {
        self.command@
    }

    /// The arguments it was invoked with.
    pub closed spec fn args_spec(&self) -> Seq<String> {
        self.args@
    }

    /// The sample rate that was declared for the stream.
    pub closed spec fn declared_rate(&self) -> u32 {
        self.source_sample_hz
    }

    /// The reader that the frames come from.
    pub closed spec fn reader(&self) -> R {
        self.child_out
    }

    /// A source that plays the frames read from `child_out`, the output
    /// of the given command, at the declared sample rate.
    pub fn new(child_out: R, command: String, args: Vec<String>, source_sample_hz: u32) -> (source: CommandSource<R>)
        ensures
            !source.ended(),
            source.reader() == child_out,
            source.command_spec() == command@,
            source.args_spec() == args@,
            source.declared_rate() == source_sample_hz,
    {
        CommandSource { child_out, command, args, source_sample_hz, reached_end: false }
    }

    /// The reader that the frames come from.
    pub fn child_out(&self) -> (reader: &R)
        ensures
            *reader == self.reader(),
    {
        &self.child_out
    }

    /// The executable that was invoked.
    pub fn command(&self) -> (command: &str)
        ensures
            command@ == self.command_spec(),
    {
        self.command.as_str()
    }

    /// The arguments it was invoked with.
    pub fn args(&self) -> (args: &[String])
        ensures
            args@ == self.args_spec(),
    {
        self.args.as_slice()
    }
}

impl<R: FrameReader> AudioSource for CommandSource<R> {
    type Frame = R::Frame;

    open spec fn rate(&self) -> u32 {
        self.declared_rate()
    }

    open spec fn exhausted(&self) -> bool {
        self.ended()
    }

    /// A source that has ended is left as it is and gives silence: it
    /// does not read again. One that has not ended reads once, and plays
    /// the frame that was read. If nothing could be read, it has ended
    /// from then on and gives silence.
    open spec fn pulls(&self, after: &Self, frame: R::Frame) -> bool {
        &&& after.command_spec() == self.command_spec()
        &&& after.args_spec() == self.args_spec()
        &&& after.declared_rate() == self.declared_rate()
        &&& if self.ended() {
            after.ended() && after.reader() == self.reader() && frame == R::Frame::equilibrium_spec()
        } else {
            exists|read: Option<R::Frame>| #[trigger]
                self.reader().reads(&after.reader(), read) && played(read, after.ended(), frame)
        }
    }

    fn sample_hz(&self) -> (hz: u32) {
        self.source_sample_hz
    }

    fn next(&mut self) -> (frame: R::Frame) {
        if self.reached_end {
            R::Frame::equilibrium()
        } else {
            let read = self.child_out.read_frame();
            let frame = match read {
                Some(frame) => frame,
                None => {
                    self.reached_end = true;
                    R::Frame::equilibrium()
                },
            };
            proof {
                assert(old(self).reader().reads(&self.reader(), read));
                assert(played(read, self.ended(), frame));
            }
            frame
        }
    }

    fn is_exhausted(&self) -> (exhausted: bool) {
        self.reached_end
    }
}

/// A command source over a stream of bytes plays what the bytes spell.
/// While it has not ended, a pull takes the bytes of one frame off the
/// stream: the frame that is played is the frame of the two big-endian
/// samples that they spell. If the stream gave no whole frame, the
/// source has ended from then on and plays silence.
pub proof fn lemma_pull_decodes<B: PcmStream>(
    before: CommandSource<PcmReader<B>>,
    after: CommandSource<PcmReader<B>>,
    frame: B::Frame,
)
    requires
        !before.ended(),
        before.pulls(&after, frame),
    ensures
        (exists|bytes: Option<[u8; 8]>| #[trigger]
            before.reader().stream.gives(&after.reader().stream, bytes) && match bytes {
                Some(taken) => !after.ended() && frame == B::frame_of_spec(raw_frame(taken@)),
                None => after.ended() && frame == B::Frame::equilibrium_spec(),
            }),
{
    let read = choose|read: Option<B::Frame>| #[trigger]
        before.reader().reads(&after.reader(), read) && played(read, after.ended(), frame);
    let bytes = choose|bytes: Option<[u8; 8]>| #[trigger]
        before.reader().stream.gives(&after.reader().stream, bytes) && read == decoded::<B>(bytes);
    assert(before.reader().stream.gives(&after.reader().stream, bytes));
}

} // verus!
