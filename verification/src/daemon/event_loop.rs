//! The daemon's recording loop.
//!
//! The loop goes round: at most one command, then one step of audio, then, when a recording has
//! ended, its transcription. Samples are held by the bit patterns of 32-bit floating-point
//! numbers, so that they come out exactly as they went in.

use crate::daemon::config::{SttConfig, SttView};
use crate::strings;
use vstd::prelude::*;
use vstd::string::*;

verus! {

/// Samples per second.
pub const SAMPLE_RATE: u64 = 16000;

/// Samples taken from the ring buffer at a time.
pub const CHUNK_SIZE: u64 = 512;

/// What the daemon is doing.
#[derive(Clone, Copy, Debug, PartialEq, Eq, Structural)]
pub enum State {
    Idle,
    Recording,
    Processing,
}

/// The status that clients are told.
#[derive(Debug)]
pub struct StatusResponse {
    pub active: bool,
    pub pid: u32,
    pub model_id: String,
    pub model_kind: String,
    pub model_path: String,
    pub language: String,
    pub max_recording_seconds: u32,
    pub state: String,
}

/// The state of the loop.
#[derive(Debug)]
pub struct DaemonLoop {
    pub state: State,
    /// The samples of the recording.
    pub recorded: Vec<u32>,
    pub stt: SttConfig,
    /// Whether a client waits for the transcription.
    pub waiting: bool,
    /// A transcription that nobody has asked for yet.
    pub pending: Option<String>,
}

/// The values of a [`DaemonLoop`].
#[verifier::ext_equal]
pub struct LoopView {
    pub state: State,
    pub recorded: Seq<u32>,
    pub stt: SttView,
    pub waiting: bool,
    pub pending: Option<Seq<char>>,
}

impl View for DaemonLoop {
    type V = LoopView;

    open spec fn view(&self) -> LoopView {
        LoopView {
            state: self.state,
            recorded: self.recorded@,
            stt: self.stt@,
            waiting: self.waiting,
            pending: match self.pending {
                Some(s) => Some(s@),
                None => None,
            },
        }
    }
}

/// What a client that asked to stop is told.
#[derive(Debug)]
pub enum StopReply {
    /// This text, at once.
    Now(String),
    /// The transcription, when it is there. A client that waited before is let go.
    Later,
}

/// What is to be done about a new configuration.
#[derive(Clone, Copy, Debug, PartialEq, Eq, Structural)]
pub enum ReloadAction {
    /// It is in effect.
    Committed,
    /// An engine for it has to be built first.
    BuildEngine,
}

/// What was done with a chunk of audio.
#[derive(Clone, Copy, Debug, PartialEq, Eq, Structural)]
pub enum ChunkAction {
    /// It was dropped: nothing is being recorded.
    Dropped,
    /// It was added to the recording.
    Kept,
    /// It was dropped: the recording is full and was stopped. The front end is to be told.
    AutoStopped,
}

/// What is to be done about a recording that has ended.
#[derive(Clone, Copy, Debug, PartialEq, Eq, Structural)]
pub enum ProcessAction {
    /// There is none.
    Nothing,
    /// Nothing was recorded: the transcription is the empty text.
    Empty,
    /// Transcribe it.
    Transcribe,
}

/// The name of a state in a status.
pub open spec fn state_name(s: State) -> Seq<char> {
    match s {
        State::Idle => "Idle"@,
        State::Recording => "Recording"@,
        State::Processing => "Processing"@,
    }
}

/// The text of an attempt at a transcription.
pub open spec fn outcome_text(outcome: Result<String, String>) -> Seq<char> {
    match outcome {
        Ok(t) => t@,
        Err(e) => "ERROR: "@ + e@,
    }
}

impl LoopView {
    /// The length, in samples, at which a recording is full.
    pub open spec fn limit(self) -> nat {
        (16000 * self.stt.max_recording_seconds) as nat
    }

    /// Between two rounds nothing is being processed, and nobody waits.
    pub open spec fn settled(self) -> bool {
        self.state != State::Processing && !self.waiting
    }

    /// A new recording begins; an unclaimed transcription is dropped.
    pub open spec fn start(self) -> LoopView {
        LoopView { state: State::Recording, recorded: seq![], pending: None, ..self }
    }

    /// A recording ends; while idle, an unclaimed transcription is handed out.
    pub open spec fn stop(self) -> LoopView {
        match self.state {
            State::Idle => LoopView { pending: None, ..self },
            _ => LoopView { state: State::Processing, waiting: true, ..self },
        }
    }

    /// What a client that asks to stop is told at once.
    pub open spec fn stop_text(self) -> Option<Seq<char>> {
        match self.state {
            State::Idle => Some(
                match self.pending {
                    Some(t) => t,
                    None => seq![],
                },
            ),
            _ => None,
        }
    }

    /// Everything about a recording is dropped.
    pub open spec fn cancel(self) -> LoopView {
        LoopView {
            state: State::Idle,
            recorded: seq![],
            waiting: false,
            pending: None,
            stt: self.stt,
        }
    }

    /// A configuration with another model needs another engine.
    pub open spec fn needs_engine(self, new_config: SttView) -> bool {
        new_config.model_id != self.stt.model_id || new_config.model_kind != self.stt.model_kind
    }

    /// The new configuration is in effect.
    pub open spec fn configured(self, new_config: SttView) -> LoopView {
        LoopView { stt: new_config, ..self }
    }

    /// What is done with a chunk of audio.
    pub open spec fn chunk_action(self) -> ChunkAction {
        if self.state != State::Recording {
            ChunkAction::Dropped
        } else if self.recorded.len() < self.limit() {
            ChunkAction::Kept
        } else {
            ChunkAction::AutoStopped
        }
    }

    /// A chunk of audio arrived.
    pub open spec fn chunk(self, samples: Seq<u32>) -> LoopView {
        match self.chunk_action() {
            ChunkAction::Kept => LoopView { recorded: self.recorded + samples, ..self },
            ChunkAction::AutoStopped => LoopView { state: State::Processing, ..self },
            ChunkAction::Dropped => self,
        }
    }

    /// A step of audio: a chunk, or nothing.
    pub open spec fn tick(self, arrived: Option<Seq<u32>>) -> LoopView {
        match arrived {
            Some(samples) => self.chunk(samples),
            None => self,
        }
    }

    /// The recording was transcribed: a waiting client gets the text, else it stays unclaimed.
    pub open spec fn transcribed(self, text: Seq<char>) -> LoopView {
        LoopView {
            state: State::Idle,
            recorded: seq![],
            waiting: false,
            pending: if self.waiting {
                None
            } else {
                Some(text)
            },
            stt: self.stt,
        }
    }

    /// The end of a round: a recording that has ended is transcribed.
    pub open spec fn finish(self, text: Seq<char>) -> LoopView {
        if self.state == State::Processing {
            self.transcribed(text)
        } else {
            self
        }
    }
}

impl DaemonLoop {
    /// An idle daemon with this configuration.
    pub fn new(stt: SttConfig) -> (r: DaemonLoop)
        ensures
            r@ == (LoopView {
                state: State::Idle,
                recorded: seq![],
                stt: stt@,
                waiting: false,
                pending: None,
            }),
    {
        let recorded: Vec<u32> = Vec::new();
        DaemonLoop { state: State::Idle, recorded, stt, waiting: false, pending: None }
    }

    /// A client asked to start recording.
    pub fn start(&mut self)
        ensures
            final(self)@ == old(self)@.start(),
    {
        self.state = State::Recording;
        self.recorded.clear();
        self.pending = None;
    }

    /// A client asked to stop recording.
    pub fn stop(&mut self) -> (r: StopReply)
        ensures
            final(self)@ == old(self)@.stop(),
            r matches StopReply::Now(t) ==> old(self)@.stop_text() == Some(t@),
            r is Later ==> old(self)@.stop_text() is None,
            r is Now <==> old(self)@.state == State::Idle,
            r matches StopReply::Now(t) ==> match old(self)@.pending {
                Some(text) => t@ == text,
                None => t@.len() == 0,
            },
    {
        match self.state {
            State::Recording | State::Processing => {
                self.state = State::Processing;
                self.waiting = true;
                StopReply::Later
            },
            State::Idle => {
                let reply: StopReply = match &self.pending {
                    Some(t) => StopReply::Now(t.clone()),
                    None => StopReply::Now(String::new()),
                };
                self.pending = None;
                reply
            },
        }
    }

    /// A client asked to cancel. Whoever waits is let go.
    pub fn cancel(&mut self)
        ensures
            final(self)@ == old(self)@.cancel(),
    {
        self.state = State::Idle;
        self.recorded.clear();
        self.waiting = false;
        self.pending = None;
    }

    /// The status that a client is told.
    pub fn status(&self, pid: u32) -> (r: StatusResponse)
        ensures
            r.active,
            r.pid == pid,
            r.model_id@ == self@.stt.model_id,
            r.model_kind@ == self@.stt.model_kind,
            r.model_path@ == self@.stt.model_path,
            r.language@ == self@.stt.language,
            r.max_recording_seconds == self@.stt.max_recording_seconds,
            r.state@ == state_name(self@.state),
            self@.state == State::Idle ==> r.state@ == "Idle"@,
            self@.state == State::Recording ==> r.state@ == "Recording"@,
            self@.state == State::Processing ==> r.state@ == "Processing"@,
    {
        let state: String = match self.state {
            State::Idle => "Idle".to_owned(),
            State::Recording => "Recording".to_owned(),
            State::Processing => "Processing".to_owned(),
        };
        StatusResponse {
            active: true,
            pid,
            model_id: self.stt.model_id.clone(),
            model_kind: self.stt.model_kind.clone(),
            model_path: self.stt.model_path.clone(),
            language: self.stt.language.clone(),
            max_recording_seconds: self.stt.max_recording_seconds,
            state,
        }
    }

    /// A client sent a new configuration. One that keeps the model is in effect at once; one
    /// that changes it changes nothing before its engine is built.
    pub fn reload(&mut self, new_config: &SttConfig) -> (r: ReloadAction)
        ensures
            r == (if old(self)@.needs_engine(new_config@) {
                ReloadAction::BuildEngine
            } else {
                ReloadAction::Committed
            }),
            final(self)@ == (if old(self)@.needs_engine(new_config@) {
                old(self)@
            } else {
                old(self)@.configured(new_config@)
            }),
    {
        if !strings::same(new_config.model_id.as_str(), self.stt.model_id.as_str())
            || !strings::same(new_config.model_kind.as_str(), self.stt.model_kind.as_str()) {
            ReloadAction::BuildEngine
        } else {
            self.stt = new_config.clone();
            ReloadAction::Committed
        }
    }

    /// The engine for a new configuration was built, from `Ok(path)`, or could not be. Only a
    /// built engine puts the configuration into effect.
    pub fn engine_built(&mut self, new_config: &SttConfig, built: &Result<String, String>) -> (r:
        Result<(), String>)
        ensures
            match *built {
                Ok(path) => r is Ok && final(self)@ == old(self)@.configured(
                    SttView { model_path: path@, ..new_config@ },
                ),
                Err(e) => r matches Err(m) && m@ == "Failed to load model: "@ + e@
                    && final(self)@ == old(self)@,
            },
    {
        match built {
            Ok(path) => {
                let mut stt: SttConfig = new_config.clone();
                stt.model_path = path.clone();
                self.stt = stt;
                Ok(())
            },
            Err(e) => Err(strings::cat("Failed to load model: ", e.as_str())),
        }
    }

    /// Whether a chunk is to be taken from the ring buffer, which holds `available` samples.
    /// Otherwise the round sleeps briefly.
    pub fn takes_chunk(&self, available: u64) -> (r: bool)
        ensures
            r == (available >= 512),
    {
        available >= CHUNK_SIZE
    }

    /// A chunk of audio arrived.
    pub fn chunk(&mut self, samples: &Vec<u32>) -> (r: ChunkAction)
        ensures
            r == old(self)@.chunk_action(),
            final(self)@ == old(self)@.chunk(samples@),
            r == ChunkAction::Dropped <==> old(self)@.state != State::Recording,
            r == ChunkAction::AutoStopped <==> old(self)@.state == State::Recording && old(
                self,
            )@.recorded.len() >= 16000 * old(self)@.stt.max_recording_seconds,
            final(self)@.recorded == (if r == ChunkAction::Kept {
                old(self)@.recorded + samples@
            } else {
                old(self)@.recorded
            }),
            final(self)@.state == (if r == ChunkAction::AutoStopped {
                State::Processing
            } else {
                old(self)@.state
            }),
    {
        match self.state {
            State::Recording => {
                let seconds: u64 = self.stt.max_recording_seconds as u64;
                let limit: u64 = SAMPLE_RATE * seconds;
                if (self.recorded.len() as u64) < limit {
                    let ghost before = self.recorded@;
                    let mut i: usize = 0;
                    while i < samples.len()
                        invariant
                            i <= samples.len(),
                            self.state == old(self).state,
                            self.stt == old(self).stt,
                            self.waiting == old(self).waiting,
                            self.pending == old(self).pending,
                            self.recorded@ == before + samples@.take(i as int),
                        decreases samples.len() - i,
                    {
                        self.recorded.push(samples[i]);
                        assert(samples@.take(i + 1) =~= samples@.take(i as int).push(
                            samples@[i as int],
                        ));
                        i = i + 1;
                    }
                    assert(samples@.take(i as int) =~= samples@);
                    ChunkAction::Kept
                } else {
                    self.state = State::Processing;
                    ChunkAction::AutoStopped
                }
            },
            _ => ChunkAction::Dropped,
        }
    }

    /// The samples of the recording.
    pub fn recording(&self) -> (r: &Vec<u32>)
        ensures
            r@ == self@.recorded,
    {
        &self.recorded
    }

    /// What is to be done at the end of a round.
    pub fn process(&self) -> (r: ProcessAction)
        ensures
            r == (if self@.state != State::Processing {
                ProcessAction::Nothing
            } else if self@.recorded.len() == 0 {
                ProcessAction::Empty
            } else {
                ProcessAction::Transcribe
            }),
    {
        match self.state {
            State::Processing => if self.recorded.len() == 0 {
                ProcessAction::Empty
            } else {
                ProcessAction::Transcribe
            },
            _ => ProcessAction::Nothing,
        }
    }

    /// The recording was transcribed. The result is the text for the client that waits, if one
    /// does; a failed transcription is told as text too.
    pub fn transcribed(&mut self, outcome: &Result<String, String>) -> (r: Option<String>)
        ensures
            final(self)@ == old(self)@.transcribed(outcome_text(*outcome)),
            r is Some <==> old(self)@.waiting,
            r matches Some(t) ==> t@ == outcome_text(*outcome),
            final(self)@.pending is Some <==> !old(self)@.waiting,
            ({
                let told = if old(self)@.waiting {
                    r->0@
                } else {
                    final(self)@.pending->0
                };
                match *outcome {
                    Ok(t) => told == t@,
                    Err(e) => told == "ERROR: "@ + e@,
                }
            }),
    {
        let text: String = match outcome {
            Ok(t) => t.clone(),
            Err(e) => strings::cat("ERROR: ", e.as_str()),
        };
        self.state = State::Idle;
        self.recorded.clear();
        if self.waiting {
            self.waiting = false;
            self.pending = None;
            Some(text)
        } else {
            self.pending = Some(text);
            None
        }
    }
}

/// What one command makes of the loop.
pub open spec fn after_command(v: LoopView, w: LoopView) -> bool {
    ||| w == v
    ||| w == v.start()
    ||| w == v.stop()
    ||| w == v.cancel()
    ||| exists|stt: SttView| w == #[trigger] v.configured(stt)
}

/// Each round leaves the loop settled: nothing is being processed and nobody waits, whatever
/// command came, whatever audio arrived and whatever the transcription was.
pub proof fn rounds_settle(v: LoopView, w: LoopView, arrived: Option<Seq<u32>>, text: Seq<char>)
    requires
        v.settled(),
        after_command(v, w),
    ensures
        w.tick(arrived).finish(text).settled(),
{
}

/// A client that stops a recording gets the transcription of what was recorded up to then, and
/// nothing is left unclaimed.
pub proof fn stop_delivers_the_recording(v: LoopView, arrived: Option<Seq<u32>>, text: Seq<char>)
    requires
        v.state == State::Recording,
    ensures
        v.stop().tick(arrived).state == State::Processing,
        v.stop().tick(arrived).waiting,
        v.stop().tick(arrived).recorded == v.recorded,
        v.stop().tick(arrived).finish(text).pending is None,
{
}

/// The transcription of a recording that stopped by itself is kept, and handed out once: the
/// first client to stop gets it, the next one gets the empty text.
pub proof fn unclaimed_text_is_handed_out_once(v: LoopView, samples: Seq<u32>, text: Seq<char>)
    requires
        v.settled(),
        v.chunk_action() == ChunkAction::AutoStopped,
    ensures
        ({
            let w = v.chunk(samples).finish(text);
            &&& w.stop_text() == Some(text)
            &&& w.stop().stop_text() == Some(Seq::<char>::empty())
            &&& w.stop().settled()
        }),
{
}

/// After a cancel, or when a new recording starts, nothing of an earlier recording is left.
pub proof fn cancel_and_start_forget(v: LoopView)
    ensures
        v.cancel().stop_text() == Some(Seq::<char>::empty()),
        v.cancel().recorded.len() == 0,
        !v.cancel().waiting,
        v.start().pending is None,
        v.start().recorded.len() == 0,
{
}

/// The chunks of audio, one after another.
pub open spec fn chunks(v: LoopView, arrived: Seq<Seq<u32>>) -> LoopView
    decreases arrived.len(),
{
    if arrived.len() == 0 {
        v
    } else {
        chunks(v, arrived.drop_last()).chunk(arrived.last())
    }
}

/// All samples, one chunk after another.
pub open spec fn flat(arrived: Seq<Seq<u32>>) -> Seq<u32>
    decreases arrived.len(),
{
    if arrived.len() == 0 {
        seq![]
    } else {
        flat(arrived.drop_last()) + arrived.last()
    }
}

/// As long as a recording is not full, it holds every sample that arrived since its start, in
/// order.
pub proof fn recording_holds_what_arrived(v: LoopView, arrived: Seq<Seq<u32>>)
    requires
        chunks(v.start(), arrived).state == State::Recording,
    ensures
        chunks(v.start(), arrived).recorded == flat(arrived),
        chunks(v.start(), arrived).stt == v.stt,
    decreases arrived.len(),
{
    if arrived.len() > 0 {
        recording_holds_what_arrived(v, arrived.drop_last());
    }
}

/// A recording never outgrows its limit by more than a chunk: audio is added only to a
/// recording that is not full.
pub proof fn recording_is_bounded(v: LoopView, samples: Seq<u32>)
    requires
        v.recorded.len() < v.limit() + 512,
        samples.len() <= 512,
    ensures
        v.chunk(samples).recorded.len() < v.limit() + 512,
        v.chunk(samples).recorded.len() < 16000 * v.stt.max_recording_seconds + 512,
        v.start().recorded.len() < v.start().limit() + 512,
{
}

/// A recording takes in audio as long as it is shorter than the configured number of seconds
/// at sixteen thousand samples each, and stops by itself from then on; without a recording,
/// audio is dropped. Nothing that was recorded is lost in either case, and nobody's claim
/// changes.
pub proof fn recordings_last_the_configured_seconds(v: LoopView, samples: Seq<u32>)
    ensures
        v.chunk_action() == ChunkAction::Dropped <==> v.state != State::Recording,
        v.chunk_action() == ChunkAction::AutoStopped <==> v.state == State::Recording
            && v.recorded.len() >= 16000 * v.stt.max_recording_seconds,
        v.state != State::Recording ==> v.chunk(samples) == v,
        v.state == State::Recording && v.recorded.len() < 16000 * v.stt.max_recording_seconds
            ==> v.chunk(samples).state == State::Recording && v.chunk(samples).recorded
            == v.recorded + samples,
        v.state == State::Recording && v.recorded.len() >= 16000 * v.stt.max_recording_seconds
            ==> v.chunk(samples).state == State::Processing && v.chunk(samples).recorded
            == v.recorded,
        v.chunk(samples).stt == v.stt,
        v.chunk(samples).waiting == v.waiting,
        v.chunk(samples).pending == v.pending,
{
}

/// A recording that starts afresh has not ended after any number of chunks that together hold
/// less than the configured number of seconds.
pub proof fn short_recordings_go_on(v: LoopView, arrived: Seq<Seq<u32>>)
    requires
        flat(arrived).len() < 16000 * v.stt.max_recording_seconds,
    ensures
        chunks(v.start(), arrived).state == State::Recording,
        chunks(v.start(), arrived).recorded == flat(arrived),
    decreases arrived.len(),
{
    if arrived.len() > 0 {
        short_recordings_go_on(v, arrived.drop_last());
        recording_holds_what_arrived(v, arrived.drop_last());
    }
}

/// Audio comes at sixteen thousand samples a second, and is taken 512 samples at a time.
pub proof fn rates_and_chunks()
    ensures
        SAMPLE_RATE == 16000,
        CHUNK_SIZE == 512,
{
}

/// Whatever the daemon was doing, a start records, with the configuration and the waiting
/// client kept; a cancel is idle with the configuration kept.
pub proof fn start_records_and_cancel_idles(v: LoopView)
    ensures
        v.start().state == State::Recording,
        v.start().stt == v.stt,
        v.start().waiting == v.waiting,
        v.cancel().state == State::Idle,
        v.cancel().stt == v.stt,
        v.cancel().pending is None,
        v.cancel().chunk(v.recorded) == v.cancel(),
{
}

/// A stop never loses audio: what was recorded stays until it is transcribed. While idle it
/// only takes the unclaimed text; otherwise the client waits, and is given no text before the
/// transcription.
pub proof fn stop_keeps_the_recording(v: LoopView)
    ensures
        v.stop().recorded == v.recorded,
        v.stop().stt == v.stt,
        v.state == State::Idle ==> v.stop().state == State::Idle && v.stop().waiting == v.waiting
            && v.stop().pending is None && v.stop_text() == Some(
            match v.pending {
                Some(t) => t,
                None => Seq::<char>::empty(),
            },
        ),
        v.state != State::Idle ==> v.stop().state == State::Processing && v.stop().waiting
            && v.stop().pending == v.pending && v.stop_text() is None,
{
}

/// When a recording has been transcribed, the daemon is idle with nothing recorded, and the
/// text reaches exactly one place: the client that waits, or else the next one to stop.
pub proof fn transcriptions_reach_one_client(v: LoopView, text: Seq<char>)
    ensures
        v.transcribed(text).state == State::Idle,
        v.transcribed(text).recorded.len() == 0,
        v.transcribed(text).stt == v.stt,
        !v.transcribed(text).waiting,
        v.waiting ==> v.transcribed(text).stop_text() == Some(Seq::<char>::empty()),
        !v.waiting ==> v.transcribed(text).stop_text() == Some(text),
        v.transcribed(text).stop().stop_text() == Some(Seq::<char>::empty()),
{
}

/// A configuration that names another model, or the same name of another family, needs another
/// engine; one that differs in anything else does not.
pub proof fn engines_change_with_the_model(v: LoopView, stt: SttView)
    ensures
        stt.model_id != v.stt.model_id ==> v.needs_engine(stt),
        stt.model_kind != v.stt.model_kind ==> v.needs_engine(stt),
        stt.model_id == v.stt.model_id && stt.model_kind == v.stt.model_kind ==> !v.needs_engine(
            stt,
        ),
        v.configured(stt).stt == stt,
        !v.configured(stt).needs_engine(stt),
{
}

/// A new configuration leaves the recording as it was.
pub proof fn reload_keeps_the_recording(v: LoopView, stt: SttView)
    ensures
        v.configured(stt).state == v.state,
        v.configured(stt).recorded == v.recorded,
        v.configured(stt).waiting == v.waiting,
        v.configured(stt).pending == v.pending,
{
}

} // verus!
