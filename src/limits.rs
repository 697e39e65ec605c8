//! Limits on the CPU and memory that a service may use, and the checks that
//! turn encoded limits back into values.

use std::str::FromStr;
use vstd::prelude::*;

verus! {

/// Why an encoded resource limit was rejected.
#[derive(Debug, Clone, PartialEq, Eq)]
pub enum LimitError {
    /// A CPU count that, in milli-cpus, is negative or larger than `usize::MAX`.
    CpuOutOfRange { millicpus: i128 },
    /// A memory size that is not a valid size in bytes.
    InvalidMemorySize { input: String },
}

impl LimitError {
    /// The shape that the rejected value was expected to have.
    pub fn expected(&self) -> (r: &'static str)
        ensures
            self is CpuOutOfRange ==> r@ == "a float representing a plausible number of CPUs"@,
            self is InvalidMemorySize ==> r@ == "valid size in bytes"@,
    {
        match self {
            LimitError::CpuOutOfRange { .. } => "a float representing a plausible number of CPUs",
            LimitError::InvalidMemorySize { .. } => "valid size in bytes",
        }
    }
}

/// A limit on CPU resources, counted in thousandths of a CPU.
#[derive(Debug, Copy, Clone, PartialEq, Eq, Structural, PartialOrd, Ord, Hash)]
pub struct CpuLimit {
    millicpus: usize,
}

impl View for CpuLimit {
    type V = nat;

    /// The limit in milli-cpus.
    closed spec fn view(&self) -> nat {
        self.millicpus as nat
    }
}

impl CpuLimit {
    /// Constructs a new CPU limit from a number of millicpus.
    pub fn from_millicpus(&self, millicpus: usize) -> (r: CpuLimit)
        ensures
            r@ == millicpus,
    {
        CpuLimit { millicpus }
    }

    /// Returns the CPU limit in millicpus.
    pub fn as_millicpus(&self) -> (r: usize)
        ensures
            r == self@,
    {
        self.millicpus
    }

    /// Checks a CPU count that has already been rounded to whole milli-cpus:
    /// it is accepted exactly when it is neither negative nor beyond what a
    /// `usize` holds.
    pub fn decode_millicpus(millicpus: i128) -> (r: Result<CpuLimit, LimitError>)
        ensures
            r is Ok <==> 0 <= millicpus <= usize::MAX,
            r matches Ok(c) ==> c@ == millicpus,
            r is Err ==> r == Err::<CpuLimit, LimitError>(
                LimitError::CpuOutOfRange { millicpus },
            ),
    {
        if millicpus < 0 || millicpus > usize::MAX as i128 {
            Err(LimitError::CpuOutOfRange { millicpus })
        } else {
            Ok(CpuLimit { millicpus: millicpus as usize })
        }
    }
}

/// Encoding a CPU limit as its milli-cpu count and checking that count again
/// gives back the same limit: the count is always in the accepted range, and
/// the limit rebuilt from it equals the original.
pub proof fn lemma_cpu_round_trip(c: CpuLimit)
    ensures
        0 <= c@ <= usize::MAX,
        forall|d: CpuLimit| d@ == c@ ==> d == c,
{
}

/// What bytesize reads from a human-readable size: the byte count, or
/// nothing where the text is not a valid size.
pub uninterp spec fn parsed_byte_size(text: Seq<char>) -> Option<u64>;

/// The human-readable text that bytesize writes for a byte count.
pub uninterp spec fn byte_size_text(bytes: u64) -> Seq<char>;

/// Relies on `<bytesize::ByteSize as FromStr>::from_str`, which reads a size
/// such as "2GiB" or "512 B" from the text alone.
#[verifier::external_body]
fn parse_byte_size(text: &str) -> (r: Option<u64>)
    ensures
        r == parsed_byte_size(text@),
{
    bytesize::ByteSize::from_str(text).ok().map(|b| b.0)
}

/// Relies on `ByteSize`'s `Display`, which writes the count with a unit
/// ("512 B", "2.1 GB") and depends on the count alone.
#[verifier::external_body]
fn byte_size_to_string(bytes: u64) -> (r: String)
    ensures
        r@ == byte_size_text(bytes),
{
    bytesize::ByteSize(bytes).to_string()
}

/// A limit on memory, as a number of bytes.
#[derive(Debug, Copy, Clone, PartialEq, Eq, Structural)]
pub struct MemoryLimit(pub u64);

impl MemoryLimit {
    /// Turns what was read from `text` into a limit: the byte count where
    /// one was read, else an error that names `text`.
    pub fn from_parsed(text: &str, parsed: Option<u64>) -> (r: Result<MemoryLimit, LimitError>)
        ensures
            parsed matches Some(n) ==> r == Ok::<MemoryLimit, LimitError>(MemoryLimit(n)),
            parsed is None ==> (r matches Err(LimitError::InvalidMemorySize { input })
                && input@ == text@),
    {
        match parsed {
            Some(n) => Ok(MemoryLimit(n)),
            None => Err(LimitError::InvalidMemorySize { input: text.to_string() }),
        }
    }

    /// Reads a limit from a human-readable size such as "2GiB".
    pub fn decode(text: &str) -> (r: Result<MemoryLimit, LimitError>)
        ensures
            parsed_byte_size(text@) matches Some(n) ==> r == Ok::<MemoryLimit, LimitError>(
                MemoryLimit(n),
            ),
            parsed_byte_size(text@) is None ==> (r matches Err(
                LimitError::InvalidMemorySize { input },
            ) && input@ == text@),
    {
        let parsed = parse_byte_size(text);
        MemoryLimit::from_parsed(text, parsed)
    }

    /// Writes the limit as a human-readable size.
    pub fn encode(&self) -> (r: String)
        ensures
            r@ == byte_size_text(self.0),
    {
        byte_size_to_string(self.0)
    }
}

} // verus!
