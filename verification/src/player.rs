//! Commands to the audio thread, and the handle that sends them.
use vstd::prelude::*;
use std::sync::atomic::{AtomicBool, AtomicU32, Ordering};
use std::sync::mpsc::Sender;
use std::sync::{Arc, Mutex};
use std::time::Instant;

verus! {

#[verifier::external_type_specification]
#[verifier::external_body]
#[verifier::reject_recursive_types(T)]
pub struct ExSender<T>(Sender<T>);

#[verifier::external_type_specification]
#[verifier::external_body]
#[verifier::reject_recursive_types(T)]
pub struct ExMutex<T: ?Sized>(Mutex<T>);

#[verifier::external_type_specification]
#[verifier::external_body]
pub struct ExInstant(Instant);

/// A command to the audio thread.
#[derive(Debug)]
pub enum AudioCommand {
    /// Play MP3 data held in memory.
    Play(Vec<u8>),
    /// Pause.
    Pause,
    /// Resume.
    Resume,
    /// Stop.
    Stop,
    /// End the audio thread (on application exit).
    Quit,
}

/// Handle to the audio thread: the sending end of its command channel and
/// the playback status it shares.
pub struct AudioState {
    /// Sends commands to the audio thread.
    pub tx: Sender<AudioCommand>,
    /// Whether audio is playing.
    pub is_playing: Arc<AtomicBool>,
    /// Total duration in milliseconds.
    pub duration_ms: Arc<AtomicU32>,
    /// When the current stretch of playback started (`None` while paused).
    pub play_start: Arc<Mutex<Option<Instant>>>,
    /// Milliseconds played before the current stretch.
    pub accumulated_ms: Arc<AtomicU32>,
    /// Whether the song is being downloaded before playing.
    pub is_loading: Arc<AtomicBool>,
    /// The commands handed to the audio thread so far, in order.
    pub sent: Ghost<Seq<AudioCommand>>,
}

/// The error returned when the audio thread is gone.
pub open spec fn closed_message() -> Seq<char> {
    "音频线程已关闭"@
}

/// `Sender::send` of std's mpsc channel. Nothing is claimed of the result:
/// it is true when the receiving audio thread still runs, which the caller
/// cannot know.
#[verifier::external_body]
fn send_command(tx: &Sender<AudioCommand>, cmd: AudioCommand) -> (sent: bool) {
    tx.send(cmd).is_ok()
}

impl AudioState {
    /// The commands handed to the audio thread through this handle, in order.
    pub open spec fn commands(&self) -> Seq<AudioCommand> {
        self.sent@
    }

    /// `self` and `other` share the channel and the playback status.
    pub open spec fn same_handle(&self, other: &AudioState) -> bool {
        &&& self.tx == other.tx
        &&& self.is_playing == other.is_playing
        &&& self.duration_ms == other.duration_ms
        &&& self.play_start == other.play_start
        &&& self.accumulated_ms == other.accumulated_ms
        &&& self.is_loading == other.is_loading
    }

    /// A handle on the channel `tx` and the shared playback status; nothing
    /// has been sent through it yet.
    pub fn new(
        tx: Sender<AudioCommand>,
        is_playing: Arc<AtomicBool>,
        duration_ms: Arc<AtomicU32>,
        play_start: Arc<Mutex<Option<Instant>>>,
        accumulated_ms: Arc<AtomicU32>,
        is_loading: Arc<AtomicBool>,
    ) -> (s: AudioState)
        ensures
            s.tx == tx,
            s.is_playing == is_playing,
            s.duration_ms == duration_ms,
            s.play_start == play_start,
            s.accumulated_ms == accumulated_ms,
            s.is_loading == is_loading,
            s.commands() == Seq::<AudioCommand>::empty(),
    {
        AudioState { tx, is_playing, duration_ms, play_start, accumulated_ms, is_loading, sent: Ghost(Seq::empty()) }
    }

    fn send(&mut self, cmd: AudioCommand) -> (r: Result<(), String>)
        ensures
            final(self).same_handle(old(self)),
            final(self).commands() == old(self).commands().push(cmd),
            r matches Err(e) ==> e@ == closed_message(),
    {
        let ghost c = cmd;
        let sent = send_command(&self.tx, cmd);
        self.sent = Ghost(self.sent@.push(c));
        if sent {
            Ok(())
        } else {
            Err("音频线程已关闭".to_owned())
        }
    }

    /// Plays MP3 data; the audio thread stops the current song first.
    pub fn play(&mut self, data: Vec<u8>) -> (r: Result<(), String>)
        ensures
            final(self).same_handle(old(self)),
            final(self).commands() == old(self).commands().push(AudioCommand::Play(data)),
            r matches Err(e) ==> e@ == closed_message(),
    {
        self.send(AudioCommand::Play(data))
    }

    /// Pauses playback.
    pub fn pause(&mut self) -> (r: Result<(), String>)
        ensures
            final(self).same_handle(old(self)),
            final(self).commands() == old(self).commands().push(AudioCommand::Pause),
            r matches Err(e) ==> e@ == closed_message(),
    {
        self.send(AudioCommand::Pause)
    }

    /// Resumes playback.
    pub fn resume(&mut self) -> (r: Result<(), String>)
        ensures
            final(self).same_handle(old(self)),
            final(self).commands() == old(self).commands().push(AudioCommand::Resume),
            r matches Err(e) ==> e@ == closed_message(),
    {
        self.send(AudioCommand::Resume)
    }

    /// Stops playback.
    pub fn stop(&mut self) -> (r: Result<(), String>)
        ensures
            final(self).same_handle(old(self)),
            final(self).commands() == old(self).commands().push(AudioCommand::Stop),
            r matches Err(e) ==> e@ == closed_message(),
    {
        self.send(AudioCommand::Stop)
    }

    /// Ends the audio thread (on application exit).
    pub fn quit(&mut self) -> (r: Result<(), String>)
        ensures
            final(self).same_handle(old(self)),
            final(self).commands() == old(self).commands().push(AudioCommand::Quit),
            r matches Err(e) ==> e@ == closed_message(),
    {
        self.send(AudioCommand::Quit)
    }

    /// Records whether the song is being downloaded (shown as loading).
    pub fn set_loading(&self, loading: bool) {
        self.is_loading.store(loading, Ordering::Relaxed);
    }
}

} // verus!
