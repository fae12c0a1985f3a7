//! Audio from an MP3 stream: the decoder hands out frames of interleaved
//! 16-bit samples, which are played pair by pair.

use vstd::prelude::*;

use crate::audioformat::{Frame, STANDARD_CHANNELS};
use crate::error::Error;
use crate::source::AudioSource;

verus! {

/// One decoded frame of an MP3 stream.
pub struct Mp3Frame {
    /// The samples, interleaved channel by channel.
    pub data: Vec<i16>,
    /// The sample rate in hertz, as the stream declares it.
    pub sample_rate: i32,
    /// The number of channels.
    pub channels: usize,
}

/// What decodes an MP3 stream frame by frame, and makes the frames that
/// are played of the samples it decoded.
///
/// What a decoding step may do is said by `decodes`, a relation, since a
/// decoder reads from a file. A decoder that leaves `decodes` as it is
/// allows every outcome. `frame_of_spec` says which frame is made of two
/// samples; its body is one fixed frame, so a decoder has to state its
/// own to meet the contract of `frame_of`.
pub trait Mp3Decoder: Sized {
    type Frame: Frame;

    /// Decoding the next frame with `self` may give `decoded` and leave
    /// `after`.
    open spec fn decodes(&self, after: &Self, decoded: Option<Mp3Frame>) -> bool {
        true
    }

    /// The frame that is played for a left and a right sample.
    open spec fn frame_of_spec(left: i16, right: i16) -> Self::Frame {
        arbitrary()
    }

    /// Decodes the next frame of the stream, or gives nothing if the
    /// stream has ended or cannot be decoded any further.
    fn next_frame(&mut self) -> (decoded: Option<Mp3Frame>)
        ensures
            old(self).decodes(final(self), decoded),
    ;

    /// The frame that is played for a left and a right sample.
    fn frame_of(left: i16, right: i16) -> (frame: Self::Frame)
        ensures
            frame == Self::frame_of_spec(left, right),
    ;
}

/// The interleaved 16-bit samples of a decoded frame, and how far they
/// have been handed out.
pub struct Mp3Samples {
    data: Vec<i16>,
    offset: usize,
}

impl Mp3Samples {
    /// The samples of the frame.
    pub closed spec fn data(&self) -> Seq<i16> {
        self.data@
    }

    /// How many samples have been handed out.
    pub closed spec fn offset(&self) -> int {
        self.offset as int
    }

    /// No handed-out sample lies beyond the end.
    pub closed spec fn wf(&self) -> bool {
        self.offset <= self.data@.len()
    }

    /// A pair of samples is left.
    pub open spec fn pair_left(&self) -> bool {
        self.offset() + STANDARD_CHANNELS <= self.data().len()
    }

    /// The samples of a frame, none of them handed out yet.
    pub fn new(data: Vec<i16>) -> (samples: Mp3Samples)
        ensures
            samples.wf(),
            samples.data() == data@,
            samples.offset() == 0,
    {
        Mp3Samples { data, offset: 0 }
    }

    /// Whether a pair of samples is left. If not, the next frame has to
    /// be decoded.
    pub fn has_pair(&self) -> (left: bool)
        ensures
            left == self.pair_left(),
    {
        self.offset <= self.data.len() && self.data.len() - self.offset >= STANDARD_CHANNELS
    }

    /// The next pair of samples, left then right, if one is left.
    pub fn next_pair(&mut self) -> (pair: Option<(i16, i16)>)
        ensures
            old(self).wf() ==> final(self).wf(),
            final(self).data() == old(self).data(),
            pair is Some <==> old(self).pair_left(),
            pair matches Some(samples) ==> {
                &&& samples.0 == old(self).data()[old(self).offset()]
                &&& samples.1 == old(self).data()[old(self).offset() + 1]
                &&& final(self).offset() == old(self).offset() + STANDARD_CHANNELS
            },
            pair is None ==> final(self).offset() == old(self).offset(),
    {
        if self.offset <= self.data.len() && self.data.len() - self.offset >= STANDARD_CHANNELS {
            let pair = (self.data[self.offset], self.data[self.offset + 1]);
            self.offset = self.offset + STANDARD_CHANNELS;
            Some(pair)
        } else {
            None
        }
    }
}

/// What starting to play a stream makes of its first frame. Without a
/// first frame, or with a sample rate below zero, no source can be made;
/// a frame of another channel count than the engine's is refused as
/// such.
pub open spec fn opened(first: Option<Mp3Frame>) -> Result<(u32, Seq<i16>), Error> {
    match first {
        None => Err(Error::SourceConstructionFailed),
        Some(frame) => if frame.channels != STANDARD_CHANNELS {
            Err(Error::UnsupportedChannelLayout)
        } else if frame.sample_rate < 0 {
            Err(Error::SourceConstructionFailed)
        } else {
            Ok((frame.sample_rate as u32, frame.data@))
        },
    }
}

/// What a source that has run out of samples makes of the next frame. A
/// frame that was decoded is played from its first pair on; if it holds
/// no pair, silence is played for once. Without a frame the stream has
/// ended: the samples stay as they are, and silence is played.
pub open spec fn refilled<D: Mp3Decoder>(
    decoded: Option<Mp3Frame>,
    before: Mp3Samples,
    after: Mp3Samples,
    ended: bool,
    frame: D::Frame,
) -> bool {
    match decoded {
        None => {
            &&& ended
            &&& after.data() == before.data()
            &&& after.offset() == before.offset()
            &&& frame == D::Frame::equilibrium_spec()
        },
        Some(next) => {
            &&& !ended
            &&& after.data() == next.data@
            &&& if next.data@.len() >= STANDARD_CHANNELS {
                after.offset() == STANDARD_CHANNELS && frame == D::frame_of_spec(next.data@[0], next.data@[1])
            } else {
                after.offset() == 0 && frame == D::Frame::equilibrium_spec()
            }
        },
    }
}

/// An audio source that plays an MP3 stream. When the stream ends or
/// cannot be decoded any further, the source is exhausted and stays so:
/// it hands out silence and does not decode again.
pub struct Mp3Source<D> {
    decoder: D,
    sample_rate: u32,
    samples: Mp3Samples,
    reached_end: bool,
}

impl<D: Mp3Decoder> Mp3Source<D> {
    /// The decoder that the frames come from.
    pub closed spec fn decoder(&self) -> D {
        self.decoder
    }

    /// The sample rate of the stream in hertz.
    pub closed spec fn sample_rate(&self) -> u32 {
        self.sample_rate
    }

    /// The samples of the frame that is being played.
    pub closed spec fn samples(&self) -> Mp3Samples {
        self.samples
    }

    /// The stream has ended.
    pub closed spec fn ended(&self) -> bool {
        self.reached_end
    }

    /// Starts to play what `decoder` decodes: the first frame is decoded,
    /// and it tells the sample rate. See `opened` for when that fails.
    pub fn new(decoder: D) -> (source: Result<Mp3Source<D>, Error>)
        ensures
            (exists|first: Option<Mp3Frame>, after: D| #[trigger]
                decoder.decodes(&after, first) && match source {
                    Ok(made) => {
                        &&& opened(first) == Ok::<(u32, Seq<i16>), Error>((made.sample_rate(), made.samples().data()))
                        &&& made.decoder() == after
                        &&& made.samples().offset() == 0
                        &&& !made.ended()
                    },
                    Err(error) => opened(first) == Err::<(u32, Seq<i16>), Error>(error),
                }),
    {
        let mut decoder = decoder;
        let ghost before = decoder;
        let first = decoder.next_frame();
        let ghost decoded = first;
        let source = match first {
            None => Err(Error::SourceConstructionFailed),
            Some(frame) => if frame.channels != STANDARD_CHANNELS {
                Err(Error::UnsupportedChannelLayout)
            } else if frame.sample_rate < 0 {
                Err(Error::SourceConstructionFailed)
            } else {
                Ok(
                    Mp3Source {
                        decoder,
                        sample_rate: frame.sample_rate as u32,
                        samples: Mp3Samples::new(frame.data),
                        reached_end: false,
                    },
                )
            },
        };
        proof {
            assert(before.decodes(&decoder, decoded));
        }
        source
    }
}

impl<D: Mp3Decoder> AudioSource for Mp3Source<D> {
    type Frame = D::Frame;

    open spec fn rate(&self) -> u32 {
        self.sample_rate()
    }

    open spec fn exhausted(&self) -> bool {
        self.ended()
    }

    /// A source that has ended is left as it is and gives silence. One
    /// that has a pair of samples left plays it, and does not decode.
    /// One that has none decodes once; see `refilled` for what it makes of
    /// that.
    open spec fn pulls(&self, after: &Self, frame: D::Frame) -> bool {
        &&& after.sample_rate() == self.sample_rate()
        &&& if self.ended() {
            &&& after.ended()
            &&& after.decoder() == self.decoder()
            &&& after.samples() == self.samples()
            &&& frame == D::Frame::equilibrium_spec()
        } else if self.samples().pair_left() {
            &&& !after.ended()
            &&& after.decoder() == self.decoder()
            &&& after.samples().data() == self.samples().data()
            &&& after.samples().offset() == self.samples().offset() + STANDARD_CHANNELS
            &&& frame == D::frame_of_spec(
                self.samples().data()[self.samples().offset()],
                self.samples().data()[self.samples().offset() + 1],
            )
        } else {
            exists|decoded: Option<Mp3Frame>| #[trigger]
                self.decoder().decodes(&after.decoder(), decoded) && refilled::<D>(
                    decoded,
                    self.samples(),
                    after.samples(),
                    after.ended(),
                    frame,
                )
        }
    }

    fn sample_hz(&self) -> (hz: u32) {
        self.sample_rate
    }

    fn next(&mut self) -> (frame: D::Frame) {
        if self.reached_end {
            return D::Frame::equilibrium();
        }
        match self.samples.next_pair() {
            Some(pair) => D::frame_of(pair.0, pair.1),
            None => {
                let decoded = self.decoder.next_frame();
                let ghost given = decoded;
                let frame = match decoded {
                    None => {
                        self.reached_end = true;
                        D::Frame::equilibrium()
                    },
                    Some(next) => {
                        self.samples = Mp3Samples::new(next.data);
                        match self.samples.next_pair() {
                            Some(pair) => D::frame_of(pair.0, pair.1),
                            None => D::Frame::equilibrium(),
                        }
                    },
                };
                proof {
                    assert(old(self).decoder().decodes(&self.decoder(), given));
                    assert(refilled::<D>(given, old(self).samples(), self.samples(), self.ended(), frame));
                }
                frame
            },
        }
    }

    fn is_exhausted(&self) -> (exhausted: bool) {
        self.reached_end
    }
}

} // verus!
