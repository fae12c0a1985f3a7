use std::sync::mpsc::{sync_channel, SendError, TryRecvError};

use bassbox::audioformat::{Frame, OpsExt, Scalar, STANDARD_CHANNELS};
use bassbox::engine::speaker::{CpalEngine, PlaybackGate, SpeakerEngine};
use bassbox::engine::{BackgroundEngine, ControlMsg, ControlReceiver, EngineControls, CONTROL_CAPACITY};
use bassbox::error::Error;
use bassbox::graph::AudioGraph;
use bassbox::processing::{silence, Node};
use bassbox::sink::DefaultSink;
use bassbox::util::empty::Empty;

#[derive(Clone, Copy, Debug, PartialEq)]
struct Amp(f32);

impl Scalar for Amp {
    fn one() -> Self {
        Amp(1.0)
    }

    fn tau() -> Self {
        Amp(2.0 * std::f32::consts::PI)
    }

    fn from_hz(hz: u32) -> Self {
        Amp(hz as f32)
    }

    fn from_len(len: usize) -> Self {
        Amp(len as f32)
    }

    fn add(self, rhs: Self) -> Self {
        Amp(self.0 + rhs.0)
    }

    fn mul(self, rhs: Self) -> Self {
        Amp(self.0 * rhs.0)
    }

    fn div(self, rhs: Self) -> Self {
        Amp(self.0 / rhs.0)
    }
}

#[derive(Clone, Copy, Debug, PartialEq)]
struct Stereo([f32; 2]);

impl Frame for Stereo {
    fn equilibrium() -> Self {
        Stereo([0.0, 0.0])
    }
}

impl OpsExt for Stereo {
    type Gain = Amp;

    fn add(self, rhs: Self) -> Self {
        Stereo([self.0[0] + rhs.0[0], self.0[1] + rhs.0[1]])
    }

    fn sub(self, rhs: Self) -> Self {
        Stereo([self.0[0] - rhs.0[0], self.0[1] - rhs.0[1]])
    }

    fn mul(self, rhs: Self) -> Self {
        Stereo([self.0[0] * rhs.0[0], self.0[1] * rhs.0[1]])
    }

    fn div(self, rhs: Self) -> Self {
        Stereo([self.0[0] / rhs.0[0], self.0[1] / rhs.0[1]])
    }

    fn scale(self, rhs: Amp) -> Self {
        Stereo([self.0[0] * rhs.0, self.0[1] * rhs.0])
    }
}

const SILENCE: Stereo = Stereo([0.0, 0.0]);

fn mono(value: f32) -> Stereo {
    Stereo([value, value])
}

#[derive(Debug, PartialEq)]
enum Probe {
    Through,
    Ramp { frames: u32 },
}

impl Empty for Probe {
    fn empty() -> Self {
        Probe::Through
    }
}

impl Node<Stereo> for Probe {
    fn audio_requested(&mut self, buffer: &mut [Stereo], _sample_hz: u32) {
        if let Probe::Ramp { frames } = self {
            for frame in buffer.iter_mut() {
                *frames += 1;
                *frame = mono(*frames as f32);
            }
        }
    }
}

#[test]
fn playback_starts_out_playing() {
    let gate = PlaybackGate::new();
    assert!(!gate.is_paused());
}

#[test]
fn pause_and_play_move_the_switch() {
    let mut gate = PlaybackGate::new();
    assert!(gate.poll(None));
    assert!(!gate.poll(Some(ControlMsg::Pause)));
    assert!(gate.is_paused());
    assert!(!gate.poll(None));
    assert!(!gate.poll(Some(ControlMsg::Pause)));
    assert!(gate.poll(Some(ControlMsg::Play)));
    assert!(!gate.is_paused());
    assert!(gate.poll(Some(ControlMsg::Play)));
}

#[test]
fn custom_operations_leave_the_switch_alone() {
    let mut gate = PlaybackGate::new();
    assert!(gate.poll(Some(ControlMsg::Custom("reload".to_string()))));
    gate.poll(Some(ControlMsg::Pause));
    assert!(!gate.poll(Some(ControlMsg::Custom("reload".to_string()))));
    assert!(gate.is_paused());
}

#[test]
fn paused_engine_writes_silence_and_advances_nothing() {
    let mut graph: AudioGraph<Probe> = AudioGraph::new();
    let master = graph.add_node(Probe::Ramp { frames: 0 });
    graph.set_master(Some(master));
    let mut gate = PlaybackGate::new();
    let mut buffer = [mono(9.0); 2];

    SpeakerEngine::on_buffer_ready(&mut gate, None, &mut graph, &mut buffer, 48_000);
    assert_eq!(buffer, [mono(1.0), mono(2.0)]);

    SpeakerEngine::on_buffer_ready(&mut gate, Some(ControlMsg::Pause), &mut graph, &mut buffer, 48_000);
    assert_eq!(buffer, [SILENCE; 2]);
    buffer = [mono(9.0); 2];
    SpeakerEngine::on_buffer_ready(&mut gate, None, &mut graph, &mut buffer, 48_000);
    assert_eq!(buffer, [SILENCE; 2]);
    assert_eq!(graph.node(master), Some(&Probe::Ramp { frames: 2 }));

    SpeakerEngine::on_buffer_ready(&mut gate, Some(ControlMsg::Play), &mut graph, &mut buffer, 48_000);
    assert_eq!(buffer, [mono(3.0), mono(4.0)]);
}

#[test]
fn only_two_channels_are_accepted() {
    assert_eq!(STANDARD_CHANNELS, 2);
    assert_eq!(SpeakerEngine::check_channels(2), Ok(()));
    assert_eq!(SpeakerEngine::check_channels(1), Err(Error::UnsupportedChannelLayout));
    assert_eq!(SpeakerEngine::check_channels(6), Err(Error::UnsupportedChannelLayout));
    assert_eq!(SpeakerEngine::check_channels(0), Err(Error::UnsupportedChannelLayout));
}

#[test]
fn a_device_buffer_holds_half_as_many_frames_as_samples() {
    assert_eq!(SpeakerEngine::frame_count(1024), 512);
    assert_eq!(SpeakerEngine::frame_count(7), 3);
    assert_eq!(SpeakerEngine::frame_count(0), 0);
}

#[test]
fn control_operations_reach_the_receiver() {
    let (tx, rx) = sync_channel(1);
    let controls = EngineControls::new(tx);
    assert!(controls.send(ControlMsg::Pause));
    assert!(matches!(rx.try_recv(), Ok(ControlMsg::Pause)));
    assert!(rx.try_recv().is_err());
    assert!(controls.send(ControlMsg::Custom("seek".to_string())));
    match rx.try_recv() {
        Ok(ControlMsg::Custom(what)) => assert_eq!(what, "seek"),
        _ => panic!("the operation did not arrive"),
    }
}

#[test]
fn control_operations_are_not_delivered_to_an_engine_that_is_gone() {
    let (tx, rx) = sync_channel(1);
    let controls = EngineControls::new(tx);
    drop(rx);
    assert!(!controls.send(ControlMsg::Play));
}

#[test]
fn a_cloned_engine_handle_sends_to_the_same_engine() {
    let (tx, rx) = sync_channel(1);
    let engine = BackgroundEngine { sample_hz: 48_000, controls: EngineControls::new(tx) };
    let other = engine.clone();
    assert_eq!(other.sample_hz, 48_000);
    assert!(other.controls.send(ControlMsg::Play));
    assert!(matches!(rx.try_recv(), Ok(ControlMsg::Play)));
    assert!(engine.controls.send(ControlMsg::Pause));
    assert!(matches!(rx.try_recv(), Ok(ControlMsg::Pause)));
    assert_eq!(format!("{:?}", ControlMsg::Play), "Play");
}

#[test]
fn integer_frames_rest_at_their_midpoint() {
    assert_eq!(<[i16; 2] as Frame>::equilibrium(), [0, 0]);
    assert_eq!(<[u16; 2] as Frame>::equilibrium(), [32768, 32768]);
    let mut signed = [[5i16, -5i16]; 3];
    silence(&mut signed);
    assert_eq!(signed, [[0, 0]; 3]);
    let mut unsigned = [[5u16, 65_535u16]; 3];
    silence(&mut unsigned);
    assert_eq!(unsigned, [[32768, 32768]; 3]);
}

#[test]
fn the_default_sink_starts_out_enabled() {
    assert!(DefaultSink::new().enabled);
    let _engines = (SpeakerEngine, CpalEngine);
}

#[test]
fn the_control_channel_holds_one_operation() {
    assert_eq!(CONTROL_CAPACITY, 1);
    let (controls, receiver) = EngineControls::channel();
    assert!(receiver.poll().is_none());
    assert!(controls.send(ControlMsg::Pause));
    assert!(matches!(receiver.poll(), Some(ControlMsg::Pause)));
    assert!(receiver.poll().is_none());
    assert!(controls.clone().send(ControlMsg::Play));
    assert!(matches!(receiver.poll(), Some(ControlMsg::Play)));
    drop(receiver);
    assert!(!controls.send(ControlMsg::Play));
}

#[test]
fn each_callback_takes_at_most_one_operation() {
    let mut graph: AudioGraph<Probe> = AudioGraph::new();
    let master = graph.add_node(Probe::Ramp { frames: 0 });
    graph.set_master(Some(master));
    let mut gate = PlaybackGate::new();
    let (controls, receiver) = EngineControls::channel();
    let mut buffer = [mono(9.0); 2];

    SpeakerEngine::on_callback(&mut gate, &receiver, &mut graph, &mut buffer, 48_000);
    assert_eq!(buffer, [mono(1.0), mono(2.0)]);

    assert!(controls.send(ControlMsg::Pause));
    SpeakerEngine::on_callback(&mut gate, &receiver, &mut graph, &mut buffer, 48_000);
    assert_eq!(buffer, [SILENCE; 2]);
    assert!(gate.is_paused());
    SpeakerEngine::on_callback(&mut gate, &receiver, &mut graph, &mut buffer, 48_000);
    assert_eq!(buffer, [SILENCE; 2]);

    assert!(controls.send(ControlMsg::Play));
    SpeakerEngine::on_callback(&mut gate, &receiver, &mut graph, &mut buffer, 48_000);
    assert_eq!(buffer, [mono(3.0), mono(4.0)]);
    assert!(receiver.poll().is_none());
}

#[test]
fn a_send_delivers_unless_it_fails() {
    assert!(EngineControls::delivered(Ok(())));
    assert!(!EngineControls::delivered(Err(SendError(ControlMsg::Play))));
}

#[test]
fn a_poll_hands_on_what_was_waiting() {
    assert!(matches!(ControlReceiver::pending_of(Ok(ControlMsg::Pause)), Some(ControlMsg::Pause)));
    assert!(ControlReceiver::pending_of(Err(TryRecvError::Empty)).is_none());
    assert!(ControlReceiver::pending_of(Err(TryRecvError::Disconnected)).is_none());
}
