//! Recording from the microphone.
//!
//! `pw-record` is run as a child process writing raw 16-bit little-endian
//! mono PCM at 16 kHz to its stdout, which is exactly what the speech models
//! want, so nothing here resamples. Which arguments it is run with, and how
//! the bytes it writes become samples, are decided here; the process and the
//! pipe belong to the application.

use vstd::prelude::*;

use crate::text::{chars_of, has_content, lemma_trim_empty, string_from_chars, trim, trim_chars};

verus! {

/// The rate both speech models were trained at.
pub const SAMPLE_RATE: u32 = 16_000;

/// How much to read from the pipe at a time: 40 ms of 16-bit mono audio,
/// small enough that the level meter moves smoothly.
pub const READ_BYTES: usize = 1_280;

/// Why recording could not start.
#[derive(Debug, PartialEq, Eq)]
pub enum StartError {
    /// `pw-record` is not on the `PATH`.
    ToolMissing,
    /// The process could not be started; the detail is the system's own.
    Spawn(String),
}

impl StartError {
    /// What to tell the user.
    pub fn message(&self) -> (m: String)
        ensures
            match self {
                StartError::ToolMissing => m@ == "pw-record is not installed. It comes with PipeWire, in the pipewire-bin package on Debian and Ubuntu and in pipewire-utils on Fedora."@,
                StartError::Spawn(e) => m@ == "The microphone could not be opened: "@ + e@,
            },
    {
        match self {
            StartError::ToolMissing => "pw-record is not installed. It comes with PipeWire, in the pipewire-bin package on Debian and Ubuntu and in pipewire-utils on Fedora.".to_owned(),
            StartError::Spawn(e) => "The microphone could not be opened: ".to_owned().concat(e.as_str()),
        }
    }
}

/// The arguments `pw-record` is run with: 16 kHz, one channel, signed 16-bit,
/// to stdout, from the named source when one is set (surrounding whitespace
/// ignored) and from the system default otherwise.
pub open spec fn spec_record_args(source: Seq<char>) -> Seq<Seq<char>> {
    let base = seq![
        "pw-record"@,
        "--rate"@,
        "16000"@,
        "--channels"@,
        "1"@,
        "--format"@,
        "s16"@,
    ];
    let targeted = if has_content(source) {
        base + seq!["--target"@, trim(source)]
    } else {
        base
    };
    targeted.push("-"@)
}

/// The command line that records from `source`.
pub fn record_args(source: &str) -> (argv: Vec<String>)
    ensures
        argv@.map_values(|a: String| a@) == spec_record_args(source@),
{
    let mut argv: Vec<String> = Vec::new();
    argv.push("pw-record".to_owned());
    argv.push("--rate".to_owned());
    argv.push("16000".to_owned());
    argv.push("--channels".to_owned());
    argv.push("1".to_owned());
    argv.push("--format".to_owned());
    argv.push("s16".to_owned());
    let chars = chars_of(source);
    let trimmed = trim_chars(&chars);
    proof {
        lemma_trim_empty(source@);
    }
    if trimmed.len() > 0 {
        argv.push("--target".to_owned());
        argv.push(string_from_chars(&trimmed));
    }
    argv.push("-".to_owned());
    assert(argv@.map_values(|a: String| a@) =~= spec_record_args(source@));
    argv
}

/// The signed 16-bit value of a little-endian byte pair.
pub open spec fn s16le(lo: u8, hi: u8) -> int {
    let v = lo as int + 256 * hi as int;
    if v >= 32768 {
        v - 65536
    } else {
        v
    }
}

/// The samples in a block read from the pipe: one per whole byte pair, in
/// order. A trailing odd byte is not a sample.
pub open spec fn spec_samples(bytes: Seq<u8>) -> Seq<i16> {
    Seq::new(bytes.len() / 2, |k: int| s16le(bytes[2 * k], bytes[2 * k + 1]) as i16)
}

/// Decode signed 16-bit little-endian PCM.
pub fn samples(bytes: &[u8]) -> (out: Vec<i16>)
    ensures
        out@ == spec_samples(bytes@),
        forall|k: int| 0 <= k < out@.len() ==> out@[k] as int == s16le(bytes@[2 * k], bytes@[2 * k + 1]),
{
    let mut out: Vec<i16> = Vec::new();
    let pairs = bytes.len() / 2;
    let mut k: usize = 0;
    while k < pairs
        invariant
            pairs == bytes@.len() / 2,
            2 * pairs <= bytes.len(),
            k <= pairs,
            out@.len() == k,
            forall|j: int| 0 <= j < k ==> #[trigger] out@[j] as int == s16le(bytes@[2 * j], bytes@[2 * j + 1]),
        decreases pairs - k,
    {
        let lo = bytes[2 * k];
        let hi = bytes[2 * k + 1];
        let v: i32 = lo as i32 + 256 * hi as i32;
        let s: i32 = if v >= 32768 { v - 65536 } else { v };
        out.push(s as i16);
        k += 1;
    }
    assert(out@ =~= spec_samples(bytes@));
    out
}

} // verus!
