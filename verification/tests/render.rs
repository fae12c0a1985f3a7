use bassbox::audioformat::{Frame, OpsExt, Scalar};
use bassbox::graph::AudioGraph;
use bassbox::processing::dspnode::DspNode;
use bassbox::processing::filter::{Disableable, Filter, IIRHighpassFilter, IIRLowpassFilter, MovingAverageFilter};
use bassbox::processing::Node;
use bassbox::source::conv::{Converting, Resample};
use bassbox::source::file::FileSource;
use bassbox::source::pausable::Pausable;
use bassbox::source::AudioSource;
use bassbox::util::empty::Empty;

#[derive(Clone, Copy, Debug, PartialEq)]
struct Amp(f32);

impl Scalar for Amp {
    fn one() -> Self {
        Amp(1.0)
    }

    fn tau() -> Self {
        Amp(2.0 * std::f32::consts::PI)
    }

    fn from_hz(hz: u32) -> Self {
        Amp(hz as f32)
    }

    fn from_len(len: usize) -> Self {
        Amp(len as f32)
    }

    fn add(self, rhs: Self) -> Self {
        Amp(self.0 + rhs.0)
    }

    fn mul(self, rhs: Self) -> Self {
        Amp(self.0 * rhs.0)
    }

    fn div(self, rhs: Self) -> Self {
        Amp(self.0 / rhs.0)
    }
}

#[derive(Clone, Copy, Debug, PartialEq)]
struct Stereo([f32; 2]);

impl Frame for Stereo {
    fn equilibrium() -> Self {
        Stereo([0.0, 0.0])
    }
}

impl OpsExt for Stereo {
    type Gain = Amp;

    fn add(self, rhs: Self) -> Self {
        Stereo([self.0[0] + rhs.0[0], self.0[1] + rhs.0[1]])
    }

    fn sub(self, rhs: Self) -> Self {
        Stereo([self.0[0] - rhs.0[0], self.0[1] - rhs.0[1]])
    }

    fn mul(self, rhs: Self) -> Self {
        Stereo([self.0[0] * rhs.0[0], self.0[1] * rhs.0[1]])
    }

    fn div(self, rhs: Self) -> Self {
        Stereo([self.0[0] / rhs.0[0], self.0[1] / rhs.0[1]])
    }

    fn scale(self, rhs: Amp) -> Self {
        Stereo([self.0[0] * rhs.0, self.0[1] * rhs.0])
    }
}

const SILENCE: Stereo = Stereo([0.0, 0.0]);

fn mono(value: f32) -> Stereo {
    Stereo([value, value])
}

/// A node that counts how often it is rendered and how many frames it gave.
#[derive(Debug, PartialEq)]
enum Probe {
    Through,
    Ramp { passes: u32, frames: u32 },
    Gain(f32),
    Constant(f32),
}

impl Empty for Probe {
    fn empty() -> Self {
        Probe::Through
    }
}

impl Node<Stereo> for Probe {
    fn audio_requested(&mut self, buffer: &mut [Stereo], _sample_hz: u32) {
        match self {
            Probe::Through => {}
            Probe::Ramp { passes, frames } => {
                *passes += 1;
                for frame in buffer.iter_mut() {
                    *frames += 1;
                    *frame = Stereo([*frames as f32, -(*frames as f32)]);
                }
            }
            Probe::Gain(gain) => {
                for frame in buffer.iter_mut() {
                    *frame = frame.scale(Amp(*gain));
                }
            }
            Probe::Constant(value) => {
                for frame in buffer.iter_mut() {
                    *frame = mono(*value);
                }
            }
        }
    }
}

fn ramp() -> Probe {
    Probe::Ramp { passes: 0, frames: 0 }
}

#[test]
fn render_without_master_is_silent() {
    let mut graph: AudioGraph<Probe> = AudioGraph::new();
    let source = graph.add_node(ramp());
    let mut buffer = [mono(9.0); 4];
    graph.audio_requested(&mut buffer, 48_000);
    assert_eq!(buffer, [SILENCE; 4]);
    assert_eq!(graph.node(source), Some(&ramp()));
}

#[test]
fn render_of_a_lone_master_is_what_the_master_makes_of_silence() {
    let mut graph: AudioGraph<Probe> = AudioGraph::new();
    let master = graph.add_node(Probe::Through);
    graph.set_master(Some(master));
    let mut buffer = [mono(9.0); 2];
    graph.audio_requested(&mut buffer, 48_000);
    assert_eq!(buffer, [SILENCE; 2]);
    graph.replace_node(master, Probe::Constant(0.25)).unwrap();
    graph.audio_requested(&mut buffer, 48_000);
    assert_eq!(buffer, [mono(0.25); 2]);
}

#[test]
fn inputs_are_summed() {
    let mut graph: AudioGraph<Probe> = AudioGraph::new();
    let master = graph.add_node(Probe::Gain(2.0));
    graph.add_input(Probe::Constant(1.0), master).unwrap();
    graph.add_input(Probe::Constant(0.5), master).unwrap();
    graph.add_input(Probe::Constant(-0.25), master).unwrap();
    graph.set_master(Some(master));
    let mut buffer = [SILENCE; 2];
    graph.audio_requested(&mut buffer, 48_000);
    assert_eq!(buffer, [mono(2.5); 2]);
}

#[test]
fn an_input_with_two_edges_is_summed_once() {
    let mut graph: AudioGraph<Probe> = AudioGraph::new();
    let master = graph.add_node(Probe::Through);
    let source = graph.add_node(Probe::Constant(1.0));
    graph.add_edge(source, master).unwrap();
    graph.add_edge(source, master).unwrap();
    graph.set_master(Some(master));
    let mut buffer = [SILENCE; 2];
    graph.audio_requested(&mut buffer, 48_000);
    assert_eq!(buffer, [mono(1.0); 2]);
}

#[test]
fn fan_out_renders_the_shared_source_once() {
    let mut graph: AudioGraph<Probe> = AudioGraph::new();
    let master = graph.add_node(Probe::Through);
    let left = graph.add_node(Probe::Gain(2.0));
    let right = graph.add_node(Probe::Gain(0.5));
    let source = graph.add_node(ramp());
    graph.add_edge(source, left).unwrap();
    graph.add_edge(source, right).unwrap();
    graph.add_edge(left, master).unwrap();
    graph.add_edge(right, master).unwrap();
    graph.set_master(Some(master));

    let mut buffer = [mono(7.0); 3];
    graph.audio_requested(&mut buffer, 48_000);
    assert_eq!(graph.node(source), Some(&Probe::Ramp { passes: 1, frames: 3 }));
    assert_eq!(buffer, [Stereo([2.5, -2.5]), Stereo([5.0, -5.0]), Stereo([7.5, -7.5])]);

    graph.audio_requested(&mut buffer, 48_000);
    assert_eq!(graph.node(source), Some(&Probe::Ramp { passes: 2, frames: 6 }));
    assert_eq!(buffer, [Stereo([10.0, -10.0]), Stereo([12.5, -12.5]), Stereo([15.0, -15.0])]);
}

#[test]
fn a_diamond_behind_a_diamond_still_renders_each_node_once() {
    let mut graph: AudioGraph<Probe> = AudioGraph::new();
    let source = graph.add_node(ramp());
    let a = graph.add_node(Probe::Through);
    let b = graph.add_node(Probe::Through);
    let join = graph.add_node(ramp());
    let c = graph.add_node(Probe::Through);
    let d = graph.add_node(Probe::Through);
    let master = graph.add_node(Probe::Through);
    for (src, dest) in [(source, a), (source, b), (a, join), (b, join), (join, c), (join, d), (c, master), (d, master), (source, master)] {
        graph.add_edge(src, dest).unwrap();
    }
    graph.set_master(Some(master));
    let mut buffer = [SILENCE; 2];
    graph.audio_requested(&mut buffer, 48_000);
    assert_eq!(graph.node(source), Some(&Probe::Ramp { passes: 1, frames: 2 }));
    assert_eq!(graph.node(join), Some(&Probe::Ramp { passes: 1, frames: 2 }));
    assert_eq!(buffer, [Stereo([3.0, -3.0]), Stereo([6.0, -6.0])]);
}

#[test]
fn what_does_not_feed_the_master_is_not_rendered() {
    let mut graph: AudioGraph<Probe> = AudioGraph::new();
    let master = graph.add_node(Probe::Through);
    let feeding = graph.add_node(ramp());
    let aside = graph.add_node(ramp());
    let behind = graph.add_node(ramp());
    graph.add_edge(feeding, master).unwrap();
    graph.add_edge(master, behind).unwrap();
    graph.set_master(Some(master));
    let mut buffer = [SILENCE; 2];
    graph.audio_requested(&mut buffer, 48_000);
    assert_eq!(graph.node(feeding), Some(&Probe::Ramp { passes: 1, frames: 2 }));
    assert_eq!(graph.node(aside), Some(&ramp()));
    assert_eq!(graph.node(behind), Some(&ramp()));
}

#[test]
fn a_removed_node_passes_on_what_feeds_it() {
    let mut graph: AudioGraph<Probe> = AudioGraph::new();
    let master = graph.add_node(Probe::Through);
    let middle = graph.add_node(Probe::Constant(9.0));
    let source = graph.add_node(Probe::Constant(1.0));
    graph.add_edge(source, middle).unwrap();
    graph.add_edge(middle, master).unwrap();
    graph.set_master(Some(master));
    let mut buffer = [SILENCE; 2];
    graph.audio_requested(&mut buffer, 48_000);
    assert_eq!(buffer, [mono(9.0); 2]);
    graph.remove_node(middle).unwrap();
    graph.audio_requested(&mut buffer, 48_000);
    assert_eq!(buffer, [mono(1.0); 2]);
}

#[test]
fn render_of_no_frames_renders_the_nodes_all_the_same() {
    let mut graph: AudioGraph<Probe> = AudioGraph::new();
    let master = graph.add_node(ramp());
    graph.set_master(Some(master));
    let mut buffer: [Stereo; 0] = [];
    graph.audio_requested(&mut buffer, 48_000);
    assert_eq!(graph.node(master), Some(&Probe::Ramp { passes: 1, frames: 0 }));
}

/// Two sine waves on top of each other, one low and one high.
struct Chord {
    hz: u32,
    low_hz: f32,
    high_hz: f32,
    at: u32,
}

impl Chord {
    fn sample(&self, at: f32) -> f32 {
        let t = at / self.hz as f32;
        0.4 * (2.0 * std::f32::consts::PI * self.low_hz * t).sin() + 0.4 * (2.0 * std::f32::consts::PI * self.high_hz * t).sin()
    }
}

impl AudioSource for Chord {
    type Frame = Stereo;

    fn sample_hz(&self) -> u32 {
        self.hz
    }

    fn next(&mut self) -> Stereo {
        let value = self.sample(self.at as f32);
        self.at += 1;
        mono(value)
    }

    fn is_exhausted(&self) -> bool {
        false
    }
}

/// Converts between sample rates by interpolating between neighbours.
struct Linear<S: AudioSource<Frame = Stereo>> {
    source: S,
    step: f64,
    phase: f64,
    primed: bool,
    left: Stereo,
    right: Stereo,
    target_hz: u32,
}

impl<S: AudioSource<Frame = Stereo>> AudioSource for Linear<S> {
    type Frame = Stereo;

    fn sample_hz(&self) -> u32 {
        self.target_hz
    }

    fn next(&mut self) -> Stereo {
        if !self.primed {
            self.left = self.source.next();
            self.right = self.source.next();
            self.primed = true;
        }
        while self.phase >= 1.0 {
            self.left = self.right;
            self.right = self.source.next();
            self.phase -= 1.0;
        }
        let weight = self.phase as f32;
        let frame = self.left.scale(Amp(1.0 - weight)).add(self.right.scale(Amp(weight)));
        self.phase += self.step;
        frame
    }

    fn is_exhausted(&self) -> bool {
        self.source.is_exhausted()
    }
}

impl<S: AudioSource<Frame = Stereo>> Resample<S> for Linear<S> {
    fn from_hz_to_hz(source: S, source_hz: u32, target_hz: u32) -> Self {
        let step = source_hz as f64 / target_hz as f64;
        Linear { source, step, phase: 0.0, primed: false, left: SILENCE, right: SILENCE, target_hz }
    }

    fn source(&self) -> &S {
        &self.source
    }

    fn source_mut(&mut self) -> &mut S {
        &mut self.source
    }
}

struct Invert;

impl Filter for Invert {
    type Frame = Stereo;

    fn apply(&mut self, input: Stereo) -> Stereo {
        Stereo([-input.0[0], -input.0[1]])
    }
}

type Played = Converting<FileSource<Chord>, Linear<FileSource<Chord>>>;

type TestNode = DspNode<Stereo, Played, Chord, Chord, Invert>;

fn chord(hz: u32) -> Chord {
    Chord { hz, low_hz: 100.0, high_hz: 6_000.0, at: 0 }
}

fn file_node(target_hz: u32) -> TestNode {
    let file = FileSource::new("chord.mp3".to_string(), chord(44_100));
    DspNode::File(Pausable::playing(Converting::to_sample_hz(target_hz, file)))
}

fn render(node: &mut TestNode, input: &[Stereo]) -> Vec<Stereo> {
    let mut buffer = input.to_vec();
    node.audio_requested(&mut buffer, 48_000);
    buffer
}

#[test]
fn empty_node_leaves_the_buffer_alone() {
    let mut node: TestNode = DspNode::Empty;
    assert_eq!(render(&mut node, &[mono(1.0), mono(2.0)]), vec![mono(1.0), mono(2.0)]);
    assert!(matches!(TestNode::empty(), DspNode::Empty));
}

#[test]
fn silence_node_drops_its_input() {
    let mut node: TestNode = DspNode::Silence;
    assert_eq!(render(&mut node, &[mono(1.0), mono(2.0)]), vec![SILENCE, SILENCE]);
}

#[test]
fn volume_node_scales_every_frame() {
    let mut node: TestNode = DspNode::Volume(Amp(0.5));
    assert_eq!(render(&mut node, &[Stereo([1.0, -2.0]), Stereo([4.0, 0.0])]), vec![Stereo([0.5, -1.0]), Stereo([2.0, 0.0])]);
}

#[test]
fn source_nodes_overwrite_their_input() {
    let mut raw = chord(48_000);
    let expected: Vec<Stereo> = (0..3).map(|_| raw.next()).collect();
    let mut command: TestNode = DspNode::Command(Pausable::playing(chord(48_000)));
    assert_eq!(render(&mut command, &[mono(9.0); 3]), expected);
    let mut dynamic: TestNode = DspNode::DynSource(chord(48_000));
    assert_eq!(render(&mut dynamic, &[mono(9.0); 3]), expected);
    let mut file = file_node(44_100);
    let mut raw = chord(44_100);
    let expected: Vec<Stereo> = (0..3).map(|_| raw.next()).collect();
    assert_eq!(render(&mut file, &[mono(9.0); 3]), expected);
}

#[test]
fn paused_source_node_gives_silence() {
    let mut node: TestNode = DspNode::Command(Pausable::paused(chord(48_000)));
    assert_eq!(render(&mut node, &[mono(9.0); 3]), vec![SILENCE; 3]);
    match node {
        DspNode::Command(source) => assert_eq!(source.wrapped.at, 0),
        _ => unreachable!(),
    }
}

#[test]
fn filter_nodes_pass_the_buffer_through_their_filter() {
    let input = [mono(1.0), mono(3.0), mono(5.0)];
    let mut average: TestNode = DspNode::MovingAverage(Disableable::enabled(MovingAverageFilter::new(2)));
    assert_eq!(render(&mut average, &input), vec![mono(0.5), mono(2.0), mono(4.0)]);
    let mut lowpass: TestNode = DspNode::IIRLowpass(Disableable::enabled(IIRLowpassFilter::from_cutoff_hz(Amp(0.0), 48_000)));
    assert_eq!(render(&mut lowpass, &input), vec![SILENCE; 3]);
    let mut highpass: TestNode = DspNode::IIRHighpass(Disableable::enabled(IIRHighpassFilter::from_cutoff_hz(Amp(0.0), 48_000)));
    assert_eq!(render(&mut highpass, &input), vec![mono(1.0), mono(3.0), mono(5.0)]);
    let mut disabled: TestNode = DspNode::IIRLowpass(Disableable::disabled(IIRLowpassFilter::from_cutoff_hz(Amp(0.0), 48_000)));
    assert_eq!(render(&mut disabled, &input), input.to_vec());
    let mut dynamic: TestNode = DspNode::DynFilter(Invert);
    assert_eq!(render(&mut dynamic, &input), vec![mono(-1.0), mono(-3.0), mono(-5.0)]);
}

/// How strongly `frames` swing at `hz`.
fn energy_at(frames: &[Stereo], hz: f32, sample_hz: u32) -> f32 {
    let mut re = 0.0f32;
    let mut im = 0.0f32;
    for (i, frame) in frames.iter().enumerate() {
        let angle = 2.0 * std::f32::consts::PI * hz * i as f32 / sample_hz as f32;
        re += frame.0[0] * angle.cos();
        im += frame.0[0] * angle.sin();
    }
    re * re + im * im
}

fn chain(lowpass: bool, volume: Option<f32>) -> Vec<Stereo> {
    let mut graph: AudioGraph<TestNode> = AudioGraph::with_empty_master();
    let mut dest = graph.master().unwrap();
    if let Some(level) = volume {
        dest = graph.add_input(DspNode::Volume(Amp(level)), dest).unwrap().1;
    }
    if lowpass {
        let filter = IIRLowpassFilter::from_cutoff_hz(Amp(500.0), 48_000);
        dest = graph.add_input(DspNode::IIRLowpass(Disableable::enabled(filter)), dest).unwrap().1;
    }
    graph.add_input(file_node(48_000), dest).unwrap();
    let mut buffer = vec![SILENCE; 1024];
    graph.audio_requested(&mut buffer, 48_000);
    buffer
}

#[test]
fn file_through_lowpass_and_volume() {
    let output = chain(true, Some(0.5));
    let before_volume = chain(true, None);
    let unfiltered = chain(false, Some(0.5));
    assert_eq!(output.len(), 1024);
    for (out, before) in output.iter().zip(before_volume.iter()) {
        assert!(out.0[0].abs() <= 0.5 * before.0[0].abs());
        assert!(out.0[1].abs() <= 0.5 * before.0[1].abs());
        assert_eq!(out.0[0], 0.5 * before.0[0]);
    }
    let high = energy_at(&output, 6_000.0, 48_000);
    let high_unfiltered = energy_at(&unfiltered, 6_000.0, 48_000);
    assert!(high_unfiltered > 1.0);
    assert!(high < 0.05 * high_unfiltered);
    let low = energy_at(&output, 100.0, 48_000);
    let low_unfiltered = energy_at(&unfiltered, 100.0, 48_000);
    assert!(low > 0.5 * low_unfiltered);
}
