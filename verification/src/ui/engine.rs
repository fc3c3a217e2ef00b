//! The speech models: where their files live, when they count as
//! installed, and what goes wrong with them.
//!
//! Two models, one runtime. The batch model transcribes a whole utterance;
//! the streaming model takes fixed chunks and emits text as it goes. The
//! worker thread that runs them, and the directory listing this module
//! judges, belong to the application.

use vstd::prelude::*;

use crate::model::Mode;
use crate::text::{chars_of, join, join_path};

verus! {

/// Chunk the streaming encoder is built around, in samples at 16 kHz: 560 ms.
pub const STREAM_CHUNK: usize = 8_960;

/// Where the batch model lives under the models directory.
pub const BATCH_DIR_NAME: &'static str = "parakeet-tdt-0.6b-v3-int8";

/// Where the streaming model lives under the models directory.
pub const STREAMING_DIR_NAME: &'static str = "nemotron-streaming-en-0.6b";

/// The batch model's directory under `models_dir`.
pub fn batch_dir(models_dir: &str) -> (p: String)
    ensures
        p@ == join_path(models_dir@, BATCH_DIR_NAME@),
{
    join(models_dir, BATCH_DIR_NAME)
}

/// The streaming model's directory under `models_dir`.
pub fn streaming_dir(models_dir: &str) -> (p: String)
    ensures
        p@ == join_path(models_dir@, STREAMING_DIR_NAME@),
{
    join(models_dir, STREAMING_DIR_NAME)
}

/// The directory a mode's model lives in, under `models_dir`.
pub fn model_dir(models_dir: &str, mode: Mode) -> (p: String)
    ensures
        mode == Mode::Batch ==> p@ == join_path(models_dir@, BATCH_DIR_NAME@),
        mode == Mode::Streaming ==> p@ == join_path(models_dir@, STREAMING_DIR_NAME@),
{
    match mode {
        Mode::Batch => batch_dir(models_dir),
        Mode::Streaming => streaming_dir(models_dir),
    }
}

/// The files a mode cannot run without, besides its encoder.
pub open spec fn spec_required_files(mode: Mode) -> Seq<Seq<char>> {
    match mode {
        Mode::Batch => seq!["vocab.txt"@, "nemo128.onnx"@],
        Mode::Streaming => seq!["tokenizer.model"@],
    }
}

pub fn required_files(mode: Mode) -> (names: Vec<&'static str>)
    ensures
        names@.len() == spec_required_files(mode).len(),
        forall|k: int| 0 <= k < names@.len() ==> (#[trigger] names@[k])@ == spec_required_files(mode)[k],
{
    match mode {
        Mode::Batch => {
            let v = vec!["vocab.txt", "nemo128.onnx"];
            v
        },
        Mode::Streaming => {
            let v = vec!["tokenizer.model"];
            v
        },
    }
}

/// An encoder file: named `encoder…` and ending `.onnx`. The int8 and float
/// builds of the same model are named differently, and both count.
pub open spec fn is_encoder_name(name: Seq<char>) -> bool {
    &&& name.len() >= "encoder"@.len()
    &&& name.take("encoder"@.len() as int) == "encoder"@
    &&& name.len() >= ".onnx"@.len()
    &&& name.skip(name.len() - ".onnx"@.len()) == ".onnx"@
}

fn starts_with_chars(s: &Vec<char>, p: &Vec<char>) -> (b: bool)
    ensures
        b == (s@.len() >= p@.len() && s@.take(p@.len() as int) == p@),
{
    if s.len() < p.len() {
        return false;
    }
    let r = crate::text::chars_occur_at(s, p, 0);
    assert(s@.subrange(0, p@.len() as int) =~= s@.take(p@.len() as int));
    r
}

fn ends_with_chars(s: &Vec<char>, p: &Vec<char>) -> (b: bool)
    ensures
        b == (s@.len() >= p@.len() && s@.skip(s@.len() - p@.len()) == p@),
{
    if s.len() < p.len() {
        return false;
    }
    let start = s.len() - p.len();
    let r = crate::text::chars_occur_at(s, p, start);
    assert(s@.subrange(start as int, start + p@.len()) =~= s@.skip(s@.len() - p@.len()));
    r
}

/// Whether a file name is that of an encoder.
pub fn is_encoder(name: &str) -> (b: bool)
    ensures
        b == is_encoder_name(name@),
{
    let chars = chars_of(name);
    let prefix = chars_of("encoder");
    let suffix = chars_of(".onnx");
    starts_with_chars(&chars, &prefix) && ends_with_chars(&chars, &suffix)
}

/// Whether the files a mode needs are present. `is_dir` says whether the
/// mode's directory exists; `present` names the required files found in it;
/// `entries` names everything in it.
pub fn is_installed(mode: Mode, is_dir: bool, present: &Vec<String>, entries: &Vec<String>) -> (b: bool)
    ensures
        b == (is_dir && (forall|k: int|
            0 <= k < spec_required_files(mode).len() ==> exists|j: int|
                0 <= j < present@.len() && (#[trigger] present@[j])@ == #[trigger] spec_required_files(
                    mode,
                )[k]) && exists|j: int|
            0 <= j < entries@.len() && is_encoder_name((#[trigger] entries@[j])@)),
{
    if !is_dir {
        return false;
    }
    let required = required_files(mode);
    let mut k: usize = 0;
    while k < required.len()
        invariant
            k <= required@.len(),
            required@.len() == spec_required_files(mode).len(),
            forall|i: int| 0 <= i < required@.len() ==> (#[trigger] required@[i])@ == spec_required_files(mode)[i],
            forall|i: int|
                0 <= i < k ==> exists|j: int|
                    0 <= j < present@.len() && (#[trigger] present@[j])@ == #[trigger] spec_required_files(mode)[i],
        decreases required.len() - k,
    {
        let want = chars_of(required[k]);
        let mut found = false;
        let mut j: usize = 0;
        while j < present.len()
            invariant
                j <= present@.len(),
                want@ == spec_required_files(mode)[k as int],
                found ==> exists|i: int| 0 <= i < present@.len() && (#[trigger] present@[i])@ == want@,
                !found ==> forall|i: int| 0 <= i < j ==> (#[trigger] present@[i])@ != want@,
            decreases present.len() - j,
        {
            let have = chars_of(present[j].as_str());
            if have.len() == want.len() {
                assert(have@.subrange(0, want@.len() as int) =~= have@);
                if crate::text::chars_occur_at(&have, &want, 0) {
                    found = true;
                }
            }
            j += 1;
        }
        if !found {
            return false;
        }
        k += 1;
    }
    let mut j: usize = 0;
    while j < entries.len()
        invariant
            is_dir,
            j <= entries@.len(),
            forall|i: int| 0 <= i < j ==> !is_encoder_name((#[trigger] entries@[i])@),
            forall|i: int|
                0 <= i < spec_required_files(mode).len() ==> exists|j: int|
                    0 <= j < present@.len() && (#[trigger] present@[j])@ == #[trigger] spec_required_files(mode)[i],
        decreases entries.len() - j,
    {
        if is_encoder(entries[j].as_str()) {
            assert(is_encoder_name(entries@[j as int]@));
            return true;
        }
        j += 1;
    }
    false
}

/// A failure the user needs told about.
#[derive(Debug, PartialEq, Eq)]
pub enum EngineError {
    NotInstalled(Mode),
    Load(String),
    Transcribe(String),
}

impl EngineError {
    /// What to tell the user.
    pub fn message(&self) -> (m: String)
        ensures
            match self {
                EngineError::NotInstalled(Mode::Batch) => m@
                    == "The speech model has not been downloaded yet."@,
                EngineError::NotInstalled(Mode::Streaming) => m@
                    == "The streaming speech model has not been downloaded yet."@,
                EngineError::Load(e) => m@ == "The speech model could not be loaded: "@ + e@,
                EngineError::Transcribe(e) => m@ == "The audio could not be transcribed: "@ + e@,
            },
    {
        match self {
            EngineError::NotInstalled(Mode::Batch) => "The speech model has not been downloaded yet.".to_owned(),
            EngineError::NotInstalled(Mode::Streaming) => "The streaming speech model has not been downloaded yet.".to_owned(),
            EngineError::Load(e) => "The speech model could not be loaded: ".to_owned().concat(e.as_str()),
            EngineError::Transcribe(e) => "The audio could not be transcribed: ".to_owned().concat(e.as_str()),
        }
    }
}

/// The two kinds of work the speech worker takes.
#[derive(Clone, Copy, Debug, PartialEq, Eq, Structural)]
pub enum Job {
    /// A whole utterance, for the batch model.
    Batch,
    /// One chunk of a stream, for the streaming model.
    Chunk,
}

impl Job {
    /// The mode whose model does this job.
    pub fn mode(self) -> (m: Mode)
        ensures
            self == Job::Batch ==> m == Mode::Batch,
            self == Job::Chunk ==> m == Mode::Streaming,
    {
        match self {
            Job::Batch => Mode::Batch,
            Job::Chunk => Mode::Streaming,
        }
    }
}

/// What the worker does with a job before it can run it.
#[derive(Clone, Copy, Debug, PartialEq, Eq, Structural)]
pub enum Readiness {
    /// The model's files are missing: answer `NotInstalled`.
    NotInstalled,
    /// The files are there but the model is not in memory: load it first.
    Load,
    /// Run it.
    Run,
}

/// Which models the worker holds in memory. Each is loaded on first use and
/// kept; a new stream drops the streaming model's state.
pub struct Loaded {
    batch: bool,
    stream: bool,
}

impl Loaded {
    pub closed spec fn holds(&self, job: Job) -> bool {
        match job {
            Job::Batch => self.batch,
            Job::Chunk => self.stream,
        }
    }

    /// Nothing loaded yet.
    pub fn new() -> (l: Self)
        ensures
            !l.holds(Job::Batch),
            !l.holds(Job::Chunk),
    {
        Loaded { batch: false, stream: false }
    }

    /// What a job needs first: the files are checked every time, since they
    /// can be removed from the settings window, and a model is loaded once.
    pub fn readiness(&self, job: Job, installed: bool) -> (r: Readiness)
        ensures
            !installed ==> r == Readiness::NotInstalled,
            installed && !self.holds(job) ==> r == Readiness::Load,
            installed && self.holds(job) ==> r == Readiness::Run,
    {
        if !installed {
            return Readiness::NotInstalled;
        }
        let held = match job {
            Job::Batch => self.batch,
            Job::Chunk => self.stream,
        };
        if held {
            Readiness::Run
        } else {
            Readiness::Load
        }
    }

    /// A model was loaded for `job`, or failed to load; only a success is
    /// kept.
    pub fn loaded(&mut self, job: Job, ok: bool)
        ensures
            final(self).holds(job) == (old(self).holds(job) || ok),
            forall|other: Job| other != job ==> final(self).holds(other) == old(self).holds(other),
    {
        if ok {
            match job {
                Job::Batch => self.batch = true,
                Job::Chunk => self.stream = true,
            }
        }
    }

    /// Start the next stream from scratch.
    pub fn reset_stream(&mut self)
        ensures
            !final(self).holds(Job::Chunk),
            final(self).holds(Job::Batch) == old(self).holds(Job::Batch),
    {
        self.stream = false;
    }
}

/// Whether a batch transcription is in flight. A second one is refused while
/// the first runs rather than queued behind it.
pub struct Busy {
    busy: bool,
}

impl Busy {
    pub closed spec fn is_busy_view(&self) -> bool {
        self.busy
    }

    pub fn new() -> (b: Self)
        ensures
            !b.is_busy_view(),
    {
        Busy { busy: false }
    }

    pub fn is_busy(&self) -> (b: bool)
        ensures
            b == self.is_busy_view(),
    {
        self.busy
    }

    /// Take the model for one transcription. The answer says whether it was
    /// free; if it was not, the request is dropped.
    pub fn claim(&mut self) -> (taken: bool)
        ensures
            taken == !old(self).is_busy_view(),
            final(self).is_busy_view(),
    {
        let taken = !self.busy;
        self.busy = true;
        taken
    }

    /// The transcription answered.
    pub fn release(&mut self)
        ensures
            !final(self).is_busy_view(),
    {
        self.busy = false;
    }
}

} // verus!
