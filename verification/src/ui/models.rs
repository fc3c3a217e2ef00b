//! Fetching the speech models.
//!
//! The models are not shipped with Scribe. They are NVIDIA's, they are
//! hundreds of megabytes each, and they are downloaded on first use into the
//! user's own data directory.
//!
//! Each file is fetched to a `.part` beside its destination and renamed only
//! once the whole thing has arrived, because a truncated ONNX file is not a
//! smaller model, it is a protobuf parse error the next time the app starts.
//! Any file already present at its full size is skipped, so an interrupted
//! download resumes at file granularity rather than starting over.
//!
//! The transfer itself belongs to the application; which file comes next,
//! what counts as a failure, and how far along the download is are decided
//! here.

use vstd::prelude::*;

use crate::model::config::Mode;
use crate::text::{decimal, push_decimal, string_from_chars};

verus! {

/// One file to fetch.
#[derive(Clone, Copy, Debug, PartialEq, Eq)]
pub struct Source {
    pub name: &'static str,
    pub url: &'static str,
    /// What the server should report, so a truncated file is caught before
    /// it reaches the ONNX Runtime rather than after.
    pub bytes: u64,
}

impl Source {
    pub open spec fn view(self) -> (Seq<char>, Seq<char>, u64) {
        (self.name@, self.url@, self.bytes)
    }
}

/// The files each mode needs, in the order they are fetched: name, URL and
/// size.
pub open spec fn spec_sources(mode: Mode) -> Seq<(Seq<char>, Seq<char>, u64)> {
    match mode {
        Mode::Batch => seq![
            ("encoder-model.int8.onnx"@, "https://huggingface.co/istupakov/parakeet-tdt-0.6b-v3-onnx/resolve/main/encoder-model.int8.onnx"@, 652_183_999u64),
            ("decoder_joint-model.int8.onnx"@, "https://huggingface.co/istupakov/parakeet-tdt-0.6b-v3-onnx/resolve/main/decoder_joint-model.int8.onnx"@, 18_202_004u64),
            ("nemo128.onnx"@, "https://huggingface.co/istupakov/parakeet-tdt-0.6b-v3-onnx/resolve/main/nemo128.onnx"@, 139_764u64),
            ("vocab.txt"@, "https://huggingface.co/istupakov/parakeet-tdt-0.6b-v3-onnx/resolve/main/vocab.txt"@, 93_939u64),
            ("config.json"@, "https://huggingface.co/istupakov/parakeet-tdt-0.6b-v3-onnx/resolve/main/config.json"@, 97u64),
        ],
        Mode::Streaming => seq![
            ("encoder.onnx"@, "https://huggingface.co/lokkju/nemotron-speech-streaming-en-0.6b-int8/resolve/main/encoder.onnx"@, 880_555_453u64),
            ("decoder_joint.onnx"@, "https://huggingface.co/lokkju/nemotron-speech-streaming-en-0.6b-int8/resolve/main/decoder_joint.onnx"@, 10_962_697u64),
            ("tokenizer.model"@, "https://huggingface.co/lokkju/nemotron-speech-streaming-en-0.6b-int8/resolve/main/tokenizer.model"@, 251_056u64),
        ],
    }
}

/// The files a mode needs.
pub fn sources(mode: Mode) -> (list: Vec<Source>)
    ensures
        list@.map_values(|s: Source| s.view()) == spec_sources(mode),
{
    let list = match mode {
        Mode::Batch => vec![
            Source {
                name: "encoder-model.int8.onnx",
                url: "https://huggingface.co/istupakov/parakeet-tdt-0.6b-v3-onnx/resolve/main/encoder-model.int8.onnx",
                bytes: 652_183_999,
            },
            Source {
                name: "decoder_joint-model.int8.onnx",
                url: "https://huggingface.co/istupakov/parakeet-tdt-0.6b-v3-onnx/resolve/main/decoder_joint-model.int8.onnx",
                bytes: 18_202_004,
            },
            Source {
                name: "nemo128.onnx",
                url: "https://huggingface.co/istupakov/parakeet-tdt-0.6b-v3-onnx/resolve/main/nemo128.onnx",
                bytes: 139_764,
            },
            Source {
                name: "vocab.txt",
                url: "https://huggingface.co/istupakov/parakeet-tdt-0.6b-v3-onnx/resolve/main/vocab.txt",
                bytes: 93_939,
            },
            Source {
                name: "config.json",
                url: "https://huggingface.co/istupakov/parakeet-tdt-0.6b-v3-onnx/resolve/main/config.json",
                bytes: 97,
            },
        ],
        Mode::Streaming => vec![
            Source {
                name: "encoder.onnx",
                url: "https://huggingface.co/lokkju/nemotron-speech-streaming-en-0.6b-int8/resolve/main/encoder.onnx",
                bytes: 880_555_453,
            },
            Source {
                name: "decoder_joint.onnx",
                url: "https://huggingface.co/lokkju/nemotron-speech-streaming-en-0.6b-int8/resolve/main/decoder_joint.onnx",
                bytes: 10_962_697,
            },
            Source {
                name: "tokenizer.model",
                url: "https://huggingface.co/lokkju/nemotron-speech-streaming-en-0.6b-int8/resolve/main/tokenizer.model",
                bytes: 251_056,
            },
        ],
    };
    assert(list@.map_values(|s: Source| s.view()) =~= spec_sources(mode));
    list
}

/// The bytes of the first `count` files of a list.
pub open spec fn prefix_bytes(list: Seq<(Seq<char>, Seq<char>, u64)>, count: int) -> int
    decreases count,
{
    if count <= 0 || list.len() == 0 {
        0
    } else {
        prefix_bytes(list, count - 1) + list[count - 1].2
    }
}

/// The whole download for a mode.
pub open spec fn spec_download_size(mode: Mode) -> int {
    prefix_bytes(spec_sources(mode), spec_sources(mode).len() as int)
}

proof fn lemma_download_sizes()
    ensures
        spec_download_size(Mode::Batch) == 670_619_803,
        spec_download_size(Mode::Streaming) == 891_769_206,
{
    reveal_with_fuel(prefix_bytes, 6);
}

proof fn lemma_prefix_grows(list: Seq<(Seq<char>, Seq<char>, u64)>, a: int, b: int)
    requires
        0 <= a <= b <= list.len(),
    ensures
        prefix_bytes(list, a) <= prefix_bytes(list, b),
    decreases b - a,
{
    if a < b {
        lemma_prefix_grows(list, a, b - 1);
    }
}

/// Total download for a mode, for the UI to show before the user commits:
/// the sum of its files.
pub fn download_size(mode: Mode) -> (total: u64)
    ensures
        total == spec_download_size(mode),
{
    let list = sources(mode);
    let ghost table = spec_sources(mode);
    proof {
        lemma_download_sizes();
    }
    let mut total: u64 = 0;
    let mut k: usize = 0;
    while k < list.len()
        invariant
            table == spec_sources(mode),
            list@.map_values(|s: Source| s.view()) == table,
            k <= list@.len(),
            total == prefix_bytes(table, k as int),
            spec_download_size(mode) <= 1_000_000_000,
        decreases list.len() - k,
    {
        assert(table[k as int] == list@[k as int].view());
        proof {
            lemma_prefix_grows(table, k + 1, table.len() as int);
        }
        total = total + list[k].bytes;
        k += 1;
    }
    total
}

/// Why a download stopped.
#[derive(Debug, PartialEq, Eq)]
pub enum DownloadError {
    Http { file: String, status: u32 },
    Network { file: String, detail: String },
    /// The file arrived a different size than the server promised.
    Truncated { file: String, got: u64, want: u64 },
    Io { file: String, detail: String },
}

impl DownloadError {
    /// What to tell the user.
    pub fn message(&self) -> (m: String)
        ensures
            match self {
                DownloadError::Http { file, status } => m@ == "Downloading "@ + file@
                    + " failed with HTTP "@ + decimal(*status as nat) + "."@,
                DownloadError::Network { file, detail } => m@ == "Downloading "@ + file@
                    + " failed: "@ + detail@,
                DownloadError::Truncated { file, got, want } => m@ == file@ + " arrived incomplete ("@
                    + decimal(*got as nat) + " bytes of "@ + decimal(*want as nat)
                    + "). The download was discarded rather than saved."@,
                DownloadError::Io { file, detail } => m@ == file@ + " could not be written to disk: "@
                    + detail@,
            },
    {
        match self {
            DownloadError::Http { file, status } => {
                let mut digits: Vec<char> = Vec::new();
                push_decimal(&mut digits, *status as u64);
                "Downloading ".to_owned().concat(file.as_str()).concat(" failed with HTTP ").concat(
                    string_from_chars(&digits).as_str(),
                ).concat(".")
            },
            DownloadError::Network { file, detail } => "Downloading ".to_owned().concat(
                file.as_str(),
            ).concat(" failed: ").concat(detail.as_str()),
            DownloadError::Truncated { file, got, want } => {
                let mut got_digits: Vec<char> = Vec::new();
                push_decimal(&mut got_digits, *got);
                let mut want_digits: Vec<char> = Vec::new();
                push_decimal(&mut want_digits, *want);
                file.clone().concat(" arrived incomplete (").concat(
                    string_from_chars(&got_digits).as_str(),
                ).concat(" bytes of ").concat(string_from_chars(&want_digits).as_str()).concat(
                    "). The download was discarded rather than saved.",
                )
            },
            DownloadError::Io { file, detail } => file.clone().concat(
                " could not be written to disk: ",
            ).concat(detail.as_str()),
        }
    }
}

/// What to do next in a download.
#[derive(Debug, PartialEq, Eq)]
pub enum Next {
    /// Every file is here.
    Finished,
    /// This file is already here at its full size and was counted as done:
    /// report progress and ask again.
    Skipped(Source),
    /// Fetch this file.
    Fetch(Source),
}

/// A download in progress: which file it is on, and how many bytes belong to
/// files already complete.
pub struct Fetching {
    mode: Mode,
    index: usize,
    finished: u64,
}

impl Fetching {
    pub closed spec fn mode_view(&self) -> Mode {
        self.mode
    }

    /// How many files are done.
    pub closed spec fn index_view(&self) -> nat {
        self.index as nat
    }

    /// The bytes of the files that are done.
    pub closed spec fn finished_view(&self) -> nat {
        self.finished as nat
    }

    /// The files done are the first ones of the list, and exactly their
    /// bytes are counted.
    pub closed spec fn wf(&self) -> bool {
        &&& self.index <= spec_sources(self.mode).len()
        &&& self.finished == prefix_bytes(spec_sources(self.mode), self.index as int)
    }

    /// A download of every file `mode` needs, none of them done yet.
    pub fn new(mode: Mode) -> (f: Self)
        ensures
            f.wf(),
            f.mode_view() == mode,
            f.index_view() == 0,
            f.finished_view() == 0,
    {
        Fetching { mode, index: 0, finished: 0 }
    }

    /// The whole download, in bytes.
    pub fn total(&self) -> (t: u64)
        ensures
            t == spec_download_size(self.mode_view()),
    {
        download_size(self.mode)
    }

    /// The file that comes next, if any is left.
    pub fn upcoming(&self) -> (s: Option<Source>)
        requires
            self.wf(),
        ensures
            self.index_view() == spec_sources(self.mode_view()).len() ==> s is None,
            self.index_view() < spec_sources(self.mode_view()).len() ==> (s matches Some(src)
                && src.view() == spec_sources(self.mode_view())[self.index_view() as int]),
    {
        let list = sources(self.mode);
        if self.index >= list.len() {
            return None;
        }
        assert(spec_sources(self.mode)[self.index as int] == list@[self.index as int].view());
        Some(list[self.index])
    }

    /// The bytes done so far, counting `so_far` of the file in flight.
    pub fn done_bytes(&self, so_far: u64) -> (d: u64)
        requires
            self.finished_view() + so_far <= u64::MAX,
        ensures
            d == self.finished_view() + so_far,
    {
        self.finished + so_far
    }

    /// What comes next, given the size of the next file if it is already on
    /// disk. A file already there at its full size is skipped and counted.
    pub fn next(&mut self, present: Option<u64>) -> (n: Next)
        requires
            old(self).wf(),
        ensures
            final(self).wf(),
            final(self).mode_view() == old(self).mode_view(),
            old(self).index_view() == spec_sources(old(self).mode_view()).len() ==> n == Next::Finished
                && final(self).index_view() == old(self).index_view(),
            old(self).index_view() < spec_sources(old(self).mode_view()).len() ==> ({
                let s = spec_sources(old(self).mode_view())[old(self).index_view() as int];
                if present == Some(s.2) {
                    &&& n matches Next::Skipped(src) && src.view() == s
                    &&& final(self).index_view() == old(self).index_view() + 1
                    &&& final(self).finished_view() == old(self).finished_view() + s.2
                } else {
                    &&& n matches Next::Fetch(src) && src.view() == s
                    &&& final(self).index_view() == old(self).index_view()
                    &&& final(self).finished_view() == old(self).finished_view()
                }
            }),
    {
        let list = sources(self.mode);
        if self.index >= list.len() {
            return Next::Finished;
        }
        let source = list[self.index];
        assert(spec_sources(self.mode)[self.index as int] == list@[self.index as int].view());
        match present {
            Some(size) => {
                if size == source.bytes {
                    self.advance(source);
                    Next::Skipped(source)
                } else {
                    Next::Fetch(source)
                }
            },
            None => Next::Fetch(source),
        }
    }

    fn advance(&mut self, source: Source)
        requires
            old(self).wf(),
            old(self).index < spec_sources(old(self).mode).len(),
            source.view() == spec_sources(old(self).mode)[old(self).index as int],
        ensures
            final(self).wf(),
            final(self).mode == old(self).mode,
            final(self).index == old(self).index + 1,
            final(self).finished == old(self).finished + source.bytes,
    {
        proof {
            lemma_download_sizes();
            lemma_prefix_grows(
                spec_sources(self.mode),
                self.index + 1,
                spec_sources(self.mode).len() as int,
            );
        }
        self.finished = self.finished + source.bytes;
        self.index = self.index + 1;
    }

    /// The file in flight arrived whole and was moved into place.
    pub fn completed(&mut self)
        requires
            old(self).wf(),
            old(self).index_view() < spec_sources(old(self).mode_view()).len(),
        ensures
            final(self).wf(),
            final(self).mode_view() == old(self).mode_view(),
            final(self).index_view() == old(self).index_view() + 1,
            final(self).finished_view() == old(self).finished_view() + spec_sources(
                old(self).mode_view(),
            )[old(self).index_view() as int].2,
    {
        let list = sources(self.mode);
        let source = list[self.index];
        assert(spec_sources(self.mode)[self.index as int] == list@[self.index as int].view());
        self.advance(source);
    }
}

/// Whether the server's answer is a success: any 2xx status.
pub fn check_status(file: &str, status: u32) -> (r: Result<(), DownloadError>)
    ensures
        200 <= status < 300 ==> r is Ok,
        !(200 <= status < 300) ==> (r matches Err(DownloadError::Http { file: f, status: s }) && f@
            == file@ && s == status),
{
    if 200 <= status && status < 300 {
        Ok(())
    } else {
        Err(DownloadError::Http { file: file.to_owned(), status })
    }
}

/// Whether the file arrived at the size the server promised. This is the
/// check that stops a half-downloaded encoder from being loaded as a whole
/// one.
pub fn check_size(file: &str, written: u64, want: u64) -> (r: Result<(), DownloadError>)
    ensures
        written == want ==> r is Ok,
        written != want ==> (r matches Err(DownloadError::Truncated { file: f, got, want: w }) && f@
            == file@ && got == written && w == want),
{
    if written == want {
        Ok(())
    } else {
        Err(DownloadError::Truncated { file: file.to_owned(), got: written, want })
    }
}

/// Progress never runs past the whole: however far a download has got, the
/// bytes of the files it has finished are at most the size of the download.
pub proof fn law_progress_within_total(f: Fetching)
    requires
        f.wf(),
    ensures
        f.finished_view() <= spec_download_size(f.mode_view()),
{
    lemma_prefix_grows(
        spec_sources(f.mode),
        f.index as int,
        spec_sources(f.mode).len() as int,
    );
}

} // verus!
