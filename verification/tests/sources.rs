use std::cell::Cell;
use std::rc::Rc;

use bassbox::audioformat::{Frame, OpsExt, Scalar};
use bassbox::error::Error;
use bassbox::source::command::{
    decode_frame, CommandSource, FrameReader, PcmReader, PcmStream, RawFrame, FRAME_BYTES, SAMPLE_BYTES,
};
use bassbox::source::conv::{Converting, Resample};
use bassbox::source::file::{FileFormat, FileSource};
use bassbox::source::mp3::{Mp3Decoder, Mp3Frame, Mp3Samples, Mp3Source};
use bassbox::source::pausable::Pausable;
use bassbox::source::{AudioSource, EmptySource, EquilibriumSource, SILENT_SAMPLE_HZ};
use bassbox::util::either::Either;

#[derive(Clone, Copy, Debug, PartialEq)]
struct Amp(f32);

impl Scalar for Amp {
    fn one() -> Self {
        Amp(1.0)
    }

    fn tau() -> Self {
        Amp(2.0 * std::f32::consts::PI)
    }

    fn from_hz(hz: u32) -> Self {
        Amp(hz as f32)
    }

    fn from_len(len: usize) -> Self {
        Amp(len as f32)
    }

    fn add(self, rhs: Self) -> Self {
        Amp(self.0 + rhs.0)
    }

    fn mul(self, rhs: Self) -> Self {
        Amp(self.0 * rhs.0)
    }

    fn div(self, rhs: Self) -> Self {
        Amp(self.0 / rhs.0)
    }
}

#[derive(Clone, Copy, Debug, PartialEq)]
struct Stereo([f32; 2]);

impl Frame for Stereo {
    fn equilibrium() -> Self {
        Stereo([0.0, 0.0])
    }
}

impl OpsExt for Stereo {
    type Gain = Amp;

    fn add(self, rhs: Self) -> Self {
        Stereo([self.0[0] + rhs.0[0], self.0[1] + rhs.0[1]])
    }

    fn sub(self, rhs: Self) -> Self {
        Stereo([self.0[0] - rhs.0[0], self.0[1] - rhs.0[1]])
    }

    fn mul(self, rhs: Self) -> Self {
        Stereo([self.0[0] * rhs.0[0], self.0[1] * rhs.0[1]])
    }

    fn div(self, rhs: Self) -> Self {
        Stereo([self.0[0] / rhs.0[0], self.0[1] / rhs.0[1]])
    }

    fn scale(self, rhs: Amp) -> Self {
        Stereo([self.0[0] * rhs.0, self.0[1] * rhs.0])
    }
}

const SILENCE: Stereo = Stereo([0.0, 0.0]);

fn mono(value: f32) -> Stereo {
    Stereo([value, value])
}

/// Counts upwards, one step per pull, and runs dry after `limit` pulls.
struct Ramp {
    hz: u32,
    pulls: u32,
    limit: u32,
    converted: Option<(u32, u32)>,
}

impl Ramp {
    fn at(hz: u32) -> Ramp {
        Ramp { hz, pulls: 0, limit: 1_000, converted: None }
    }
}

impl AudioSource for Ramp {
    type Frame = Stereo;

    fn sample_hz(&self) -> u32 {
        self.hz
    }

    fn next(&mut self) -> Stereo {
        if self.pulls == self.limit {
            SILENCE
        } else {
            self.pulls += 1;
            Stereo([self.pulls as f32, -(self.pulls as f32)])
        }
    }

    fn is_exhausted(&self) -> bool {
        self.pulls == self.limit
    }
}

/// Plays every frame of the source twice.
struct Twice {
    source: Ramp,
    target_hz: u32,
    held: Option<Stereo>,
}

impl AudioSource for Twice {
    type Frame = Stereo;

    fn sample_hz(&self) -> u32 {
        self.target_hz
    }

    fn next(&mut self) -> Stereo {
        match self.held.take() {
            Some(frame) => frame,
            None => {
                let frame = self.source.next();
                self.held = Some(frame);
                frame
            }
        }
    }

    fn is_exhausted(&self) -> bool {
        self.held.is_none() && self.source.is_exhausted()
    }
}

impl Resample<Ramp> for Twice {
    fn from_hz_to_hz(mut source: Ramp, source_hz: u32, target_hz: u32) -> Self {
        source.converted = Some((source_hz, target_hz));
        Twice { source, target_hz, held: None }
    }

    fn source(&self) -> &Ramp {
        &self.source
    }

    fn source_mut(&mut self) -> &mut Ramp {
        &mut self.source
    }
}

#[test]
fn paused_source_is_not_advanced() {
    let mut source = Pausable::paused(Ramp::at(48_000));
    assert_eq!(source.next(), SILENCE);
    assert_eq!(source.next(), SILENCE);
    assert_eq!(source.wrapped.pulls, 0);
}

#[test]
fn pausing_twice_resumes_where_playback_stopped() {
    let mut source = Pausable::playing(Ramp::at(48_000));
    assert_eq!(source.next(), Stereo([1.0, -1.0]));
    source.paused = true;
    source.paused = false;
    source.paused = true;
    assert_eq!(source.wrapped.pulls, 1);
    assert_eq!(source.next(), SILENCE);
    assert_eq!(source.wrapped.pulls, 1);
    source.paused = false;
    assert_eq!(source.next(), Stereo([2.0, -2.0]));
    assert_eq!(source.wrapped.pulls, 2);
}

#[test]
fn pausable_builders_set_the_pause_state() {
    assert!(Pausable::paused(1u8).paused);
    assert!(!Pausable::playing(1u8).paused);
    assert!(Pausable::new(1u8, true).paused);
    assert!(!Pausable::new(1u8, false).paused);
    assert_eq!(Pausable::playing(7u8).wrapped, 7);
    let other = Pausable::paused(1u8).with("inner");
    assert!(other.paused);
    assert_eq!(other.wrapped, "inner");
    assert!(!Pausable::playing(1u8).with(2u16).paused);
}

#[test]
fn pausable_has_the_rate_and_exhaustion_of_its_source() {
    let mut source = Pausable::playing(Ramp { hz: 22_050, pulls: 0, limit: 1, converted: None });
    assert_eq!(source.sample_hz(), 22_050);
    assert!(!source.is_exhausted());
    assert_eq!(source.next(), Stereo([1.0, -1.0]));
    assert!(source.is_exhausted());
    assert_eq!(source.next(), SILENCE);
    source.paused = true;
    assert!(source.is_exhausted());
}

#[test]
fn either_does_what_its_alternative_does() {
    let mut left: Either<Ramp, Twice> = Either::Left(Ramp::at(8_000));
    let mut right: Either<Ramp, Twice> = Either::Right(Twice::from_hz_to_hz(Ramp::at(8_000), 8_000, 16_000));
    assert_eq!(left.sample_hz(), 8_000);
    assert_eq!(right.sample_hz(), 16_000);
    assert_eq!(left.next(), Stereo([1.0, -1.0]));
    assert_eq!(left.next(), Stereo([2.0, -2.0]));
    assert_eq!(right.next(), Stereo([1.0, -1.0]));
    assert_eq!(right.next(), Stereo([1.0, -1.0]));
    assert!(!left.is_exhausted());
    assert!(!right.is_exhausted());
}

#[test]
fn equilibrium_source_is_silent_forever() {
    let mut source: EquilibriumSource<Stereo> = EquilibriumSource::new();
    assert_eq!(source.sample_hz(), 44_100);
    assert_eq!(SILENT_SAMPLE_HZ, 44_100);
    for _ in 0..5 {
        assert_eq!(source.next(), SILENCE);
        assert!(!source.is_exhausted());
    }
}

#[test]
fn empty_source_is_exhausted_and_silent() {
    let mut source = EmptySource;
    assert_eq!(source.sample_hz(), 44_100);
    assert!(source.is_exhausted());
    assert_eq!(source.next::<Stereo>(), SILENCE);
    assert_eq!(source.next::<[i16; 2]>(), [0, 0]);
}

#[test]
fn converting_to_the_same_rate_is_the_source_itself() {
    let mut raw = Ramp::at(48_000);
    let mut converting: Converting<Ramp, Twice> = Converting::to_sample_hz(48_000, Ramp::at(48_000));
    assert_eq!(converting.sample_hz(), 48_000);
    assert_eq!(converting.wrapped().converted, None);
    assert_eq!(converting.wrapped().pulls, 0);
    for _ in 0..64 {
        let expected = raw.next();
        let frame = converting.next();
        assert_eq!(frame.0[0].to_bits(), expected.0[0].to_bits());
        assert_eq!(frame.0[1].to_bits(), expected.0[1].to_bits());
    }
    assert_eq!(converting.wrapped().pulls, 64);
}

#[test]
fn converting_to_another_rate_goes_through_the_converter() {
    let mut converting: Converting<Ramp, Twice> = Converting::to_sample_hz(96_000, Ramp::at(48_000));
    assert_eq!(converting.sample_hz(), 96_000);
    assert_eq!(converting.wrapped().sample_hz(), 48_000);
    assert_eq!(converting.wrapped().converted, Some((48_000, 96_000)));
    assert_eq!(converting.wrapped().pulls, 0);
    let frames: Vec<Stereo> = (0..4).map(|_| converting.next()).collect();
    assert_eq!(frames, vec![Stereo([1.0, -1.0]), Stereo([1.0, -1.0]), Stereo([2.0, -2.0]), Stereo([2.0, -2.0])]);
    assert_eq!(converting.wrapped().pulls, 2);
}

#[test]
fn converting_hands_out_the_wrapped_source() {
    let mut same: Converting<Ramp, Twice> = Converting::to_sample_hz(48_000, Ramp::at(48_000));
    same.wrapped_mut().limit = 1;
    assert_eq!(same.next(), Stereo([1.0, -1.0]));
    assert!(same.is_exhausted());
    assert_eq!(same.next(), SILENCE);
    let mut other: Converting<Ramp, Twice> = Converting::to_sample_hz(44_100, Ramp::at(48_000));
    other.wrapped_mut().limit = 0;
    assert_eq!(other.wrapped().limit, 0);
    assert_eq!(other.next(), SILENCE);
}

#[test]
fn frames_are_decoded_big_endian() {
    let bytes = [0x12, 0x34, 0x56, 0x78, 0x9a, 0xbc, 0xde, 0xf0, 0xff];
    assert_eq!(decode_frame(&bytes), Some(RawFrame { left: 0x1234_5678, right: 0x9abc_def0 }));
    assert_eq!(decode_frame(&bytes[..8]), Some(RawFrame { left: 0x1234_5678, right: 0x9abc_def0 }));
    assert_eq!(decode_frame(&bytes[1..]), Some(RawFrame { left: 0x3456_789a, right: 0xbcde_f0ff }));
    assert_eq!(SAMPLE_BYTES, 4);
    assert_eq!(FRAME_BYTES, 8);
}

#[test]
fn a_frame_cut_short_is_no_frame() {
    let bytes = [0x3f, 0x80, 0x00, 0x00, 0xbf, 0x00, 0x00];
    assert_eq!(decode_frame(&bytes), None);
    assert_eq!(decode_frame(&bytes[..4]), None);
    assert_eq!(decode_frame(&[]), None);
}

#[test]
fn decoded_samples_are_floats() {
    let bytes = [0x3f, 0x80, 0x00, 0x00, 0xbf, 0x00, 0x00, 0x00];
    let raw = decode_frame(&bytes).unwrap();
    assert_eq!(f32::from_bits(raw.left), 1.0);
    assert_eq!(f32::from_bits(raw.right), -0.5);
}

/// Reads frames off a byte buffer and counts the reads.
struct Pipe {
    bytes: Vec<u8>,
    at: usize,
    reads: Rc<Cell<u32>>,
}

impl FrameReader for Pipe {
    type Frame = Stereo;

    fn read_frame(&mut self) -> Option<Stereo> {
        self.reads.set(self.reads.get() + 1);
        let raw = decode_frame(&self.bytes[self.at..])?;
        self.at += FRAME_BYTES;
        Some(Stereo([f32::from_bits(raw.left), f32::from_bits(raw.right)]))
    }
}

fn piped(bytes: &[u8]) -> (CommandSource<Pipe>, Rc<Cell<u32>>) {
    let reads = Rc::new(Cell::new(0));
    let pipe = Pipe { bytes: bytes.to_vec(), at: 0, reads: reads.clone() };
    let source = CommandSource::new(pipe, "ffmpeg".to_string(), vec!["-i".to_string(), "song.ogg".to_string()], 44_100);
    (source, reads)
}

#[test]
fn command_source_plays_the_stream() {
    let (mut source, reads) = piped(&[
        0x3f, 0x80, 0x00, 0x00, 0xbf, 0x00, 0x00, 0x00, 0x40, 0x00, 0x00, 0x00, 0x3e, 0x80, 0x00, 0x00,
    ]);
    assert_eq!(source.sample_hz(), 44_100);
    assert_eq!(source.command(), "ffmpeg");
    assert_eq!(source.args(), ["-i".to_string(), "song.ogg".to_string()]);
    assert_eq!(source.next(), Stereo([1.0, -0.5]));
    assert_eq!(source.next(), Stereo([2.0, 0.25]));
    assert!(!source.is_exhausted());
    assert_eq!(reads.get(), 2);
}

#[test]
fn command_source_is_silent_once_the_stream_has_ended() {
    let (mut source, reads) = piped(&[0x3f, 0x80, 0x00, 0x00, 0xbf, 0x00, 0x00, 0x00, 0x40, 0x00, 0x00]);
    assert_eq!(source.next(), Stereo([1.0, -0.5]));
    assert!(!source.is_exhausted());
    assert_eq!(source.next(), SILENCE);
    assert!(source.is_exhausted());
    assert_eq!(reads.get(), 2);
    for _ in 0..10 {
        assert_eq!(source.next(), SILENCE);
    }
    assert!(source.is_exhausted());
    assert_eq!(reads.get(), 2);
}

#[test]
fn command_source_without_output_is_exhausted_by_the_first_pull() {
    let (mut source, reads) = piped(&[]);
    assert!(!source.is_exhausted());
    assert_eq!(source.next(), SILENCE);
    assert!(source.is_exhausted());
    assert_eq!(reads.get(), 1);
}

#[test]
fn mp3_is_told_by_the_extension() {
    assert_eq!(FileFormat::from_path("song.mp3".as_bytes()), Ok(FileFormat::Mp3));
    assert_eq!(FileFormat::from_path("/music/a.b/song.old.mp3".as_bytes()), Ok(FileFormat::Mp3));
    assert_eq!(FileFormat::from_path(".mp3".as_bytes()), Ok(FileFormat::Mp3));
    assert_eq!(FileFormat::from_path("mp3".as_bytes()), Ok(FileFormat::Mp3));
}

#[test]
fn other_extensions_are_refused() {
    for path in ["song.wav", "song.mp3.bak", "song.mp3.", "song.MP3", "song.mp34", "song.mp", "songmp3", "a.mp3/b", "", "."] {
        assert_eq!(FileFormat::from_path(path.as_bytes()), Err(Error::SourceConstructionFailed));
    }
}

#[test]
fn file_source_remembers_its_path() {
    let mut source =
        FileSource::new("/music/song.mp3".to_string(), Ramp { hz: 44_100, pulls: 0, limit: 1, converted: None });
    assert_eq!(source.file_path(), "/music/song.mp3");
    assert_eq!(source.sample_hz(), 44_100);
    assert!(!source.is_exhausted());
    assert_eq!(source.next(), Stereo([1.0, -1.0]));
    assert!(source.is_exhausted());
    assert_eq!(source.next(), SILENCE);
}

#[test]
fn mp3_samples_come_in_pairs() {
    let mut samples = Mp3Samples::new(vec![1, -1, 2, -2, 3]);
    assert!(samples.has_pair());
    assert_eq!(samples.next_pair(), Some((1, -1)));
    assert_eq!(samples.next_pair(), Some((2, -2)));
    assert!(!samples.has_pair());
    assert_eq!(samples.next_pair(), None);
    assert_eq!(samples.next_pair(), None);
    let mut none = Mp3Samples::new(vec![]);
    assert!(!none.has_pair());
    assert_eq!(none.next_pair(), None);
}

/// Hands out the frames it was given, and counts how often it is asked.
struct Frames {
    frames: Vec<Mp3Frame>,
    asked: Rc<Cell<u32>>,
}

impl Mp3Decoder for Frames {
    type Frame = Stereo;

    fn next_frame(&mut self) -> Option<Mp3Frame> {
        self.asked.set(self.asked.get() + 1);
        if self.frames.is_empty() {
            None
        } else {
            Some(self.frames.remove(0))
        }
    }

    fn frame_of(left: i16, right: i16) -> Stereo {
        Stereo([left as f32 / 32_768.0, right as f32 / 32_768.0])
    }
}

fn stereo_frame(data: &[i16]) -> Mp3Frame {
    Mp3Frame { data: data.to_vec(), sample_rate: 44_100, channels: 2 }
}

fn decoding(frames: Vec<Mp3Frame>) -> (Frames, Rc<Cell<u32>>) {
    let asked = Rc::new(Cell::new(0));
    (Frames { frames, asked: asked.clone() }, asked)
}

#[test]
fn mp3_source_plays_frame_after_frame() {
    let (decoder, asked) = decoding(vec![stereo_frame(&[16_384, -16_384, 8_192, 0]), stereo_frame(&[-32_768, 32_767])]);
    let mut source = Mp3Source::new(decoder).ok().unwrap();
    assert_eq!(source.sample_hz(), 44_100);
    assert_eq!(asked.get(), 1);
    assert_eq!(source.next(), Stereo([0.5, -0.5]));
    assert_eq!(source.next(), Stereo([0.25, 0.0]));
    assert_eq!(asked.get(), 1);
    assert_eq!(source.next(), Stereo([-1.0, 32_767.0 / 32_768.0]));
    assert_eq!(asked.get(), 2);
    assert!(!source.is_exhausted());
}

#[test]
fn mp3_source_is_silent_once_the_stream_has_ended() {
    let (decoder, asked) = decoding(vec![stereo_frame(&[16_384, -16_384])]);
    let mut source = Mp3Source::new(decoder).ok().unwrap();
    assert_eq!(source.next(), Stereo([0.5, -0.5]));
    assert!(!source.is_exhausted());
    assert_eq!(source.next(), SILENCE);
    assert!(source.is_exhausted());
    assert_eq!(asked.get(), 2);
    for _ in 0..5 {
        assert_eq!(source.next(), SILENCE);
    }
    assert_eq!(asked.get(), 2);
}

#[test]
fn mp3_frame_without_a_pair_gives_silence_for_once() {
    let (decoder, _asked) = decoding(vec![stereo_frame(&[16_384, -16_384, 7]), stereo_frame(&[5]), stereo_frame(&[8_192, 8_192])]);
    let mut source = Mp3Source::new(decoder).ok().unwrap();
    assert_eq!(source.next(), Stereo([0.5, -0.5]));
    assert_eq!(source.next(), SILENCE);
    assert!(!source.is_exhausted());
    assert_eq!(source.next(), Stereo([0.25, 0.25]));
}

#[test]
fn mp3_source_needs_a_first_frame_of_two_channels() {
    let (decoder, _asked) = decoding(vec![]);
    assert!(matches!(Mp3Source::new(decoder), Err(Error::SourceConstructionFailed)));
    let (decoder, _asked) = decoding(vec![Mp3Frame { data: vec![1, 2], sample_rate: 44_100, channels: 1 }]);
    assert!(matches!(Mp3Source::new(decoder), Err(Error::UnsupportedChannelLayout)));
    let (decoder, _asked) = decoding(vec![Mp3Frame { data: vec![1, 2], sample_rate: -1, channels: 2 }]);
    assert!(matches!(Mp3Source::new(decoder), Err(Error::SourceConstructionFailed)));
    let (decoder, _asked) = decoding(vec![Mp3Frame { data: vec![], sample_rate: 48_000, channels: 2 }]);
    assert_eq!(Mp3Source::new(decoder).ok().unwrap().sample_hz(), 48_000);
}

/// Hands out a byte buffer eight bytes at a time.
struct Wire {
    bytes: Vec<u8>,
    at: usize,
}

impl PcmStream for Wire {
    type Frame = Stereo;

    fn read_bytes(&mut self) -> Option<[u8; 8]> {
        let taken: [u8; 8] = self.bytes.get(self.at..self.at + 8)?.try_into().ok()?;
        self.at += 8;
        Some(taken)
    }

    fn frame_of(raw: RawFrame) -> Stereo {
        Stereo([f32::from_bits(raw.left), f32::from_bits(raw.right)])
    }
}

#[test]
fn a_reader_decodes_eight_bytes_at_a_time() {
    let bytes = vec![
        0x3f, 0x80, 0x00, 0x00, 0xbf, 0x00, 0x00, 0x00, 0x40, 0x00, 0x00, 0x00, 0x3e, 0x80, 0x00, 0x00, 0x3f, 0x80,
    ];
    let mut reader = PcmReader { stream: Wire { bytes, at: 0 } };
    assert_eq!(reader.read_frame(), Some(Stereo([1.0, -0.5])));
    assert_eq!(reader.stream.at, 8);
    assert_eq!(reader.read_frame(), Some(Stereo([2.0, 0.25])));
    assert_eq!(reader.stream.at, 16);
    assert_eq!(reader.read_frame(), None);
    assert_eq!(reader.stream.at, 16);
}

#[test]
fn a_command_source_over_bytes_plays_what_they_spell() {
    let bytes = vec![0x3f, 0x80, 0x00, 0x00, 0xbf, 0x00, 0x00, 0x00, 0x40, 0x00, 0x00];
    let reader = PcmReader { stream: Wire { bytes, at: 0 } };
    let mut source = CommandSource::new(reader, "sox".to_string(), vec![], 48_000);
    assert_eq!(source.next(), Stereo([1.0, -0.5]));
    assert_eq!(source.child_out().stream.at, 8);
    assert!(!source.is_exhausted());
    assert_eq!(source.next(), SILENCE);
    assert!(source.is_exhausted());
    assert_eq!(source.next(), SILENCE);
    assert_eq!(source.child_out().stream.at, 8);
}
