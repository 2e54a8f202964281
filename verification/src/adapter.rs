//! What the relay hands to the proving backend, and what it makes of the
//! receipt that comes back.

use crate::error::RelayError;
use crate::registry::ProgramId;
use vstd::prelude::*;

verus! {

/// The words that carry `input` to a program: the number of bytes, then
/// each byte in a word of its own.
pub open spec fn framed(input: Seq<u8>) -> Seq<u32> {
    seq![input.len() as u32] + input.map_values(|b: u8| b as u32)
}

/// Framing loses nothing: byte strings with the same words are the same,
/// as long as their lengths fit in 32 bits.
pub proof fn lemma_framed_injective(first: Seq<u8>, second: Seq<u8>)
    requires
        first.len() <= u32::MAX,
        second.len() <= u32::MAX,
        framed(first) == framed(second),
    ensures
        first == second,
{
    assert(framed(first)[0] == first.len());
    assert(framed(second)[0] == second.len());
    assert forall|i: int| 0 <= i < first.len() implies first[i] == second[i] by {
        assert(framed(first)[i + 1] == first[i] as u32);
        assert(framed(second)[i + 1] == second[i] as u32);
    }
    assert(first =~= second);
}

/// `risc0_zkvm::serde::to_vec` on a byte slice, its error dropped (the crate
/// does not export the error's type). Trusted: for a slice it always
/// succeeds, and the words are the length followed by one word for each
/// byte. The bound is the serializer's own: it holds the length in 32 bits.
/// The serializer collects the words in a byte buffer and relies on the
/// allocator to have aligned it to a word.
#[verifier::external_body]
fn serialize_bytes(input: &[u8]) -> (r: Option<Vec<u32>>)
    requires
        input@.len() <= u32::MAX,
    ensures
        r is Some,
        r matches Some(words) ==> words@ == framed(input@),
{
    risc0_zkvm::serde::to_vec(input).ok()
}

/// The words that carry `input` to a program, or nothing where `input` has
/// more bytes than 32 bits can count.
pub fn frame_input(input: &[u8]) -> (r: Option<Vec<u32>>)
    ensures
        r is Some <==> input@.len() <= u32::MAX,
        r matches Some(words) ==> words@ == framed(input@),
{
    if input.len() > 0xffff_ffff {
        return None;
    }
    serialize_bytes(input)
}

/// One run asked of the proving backend.
#[derive(Debug)]
pub struct ProverJob {
    /// The binary of the program to run.
    pub program: Vec<u8>,
    /// The identifier that the program is registered under.
    pub program_id: ProgramId,
    /// The input of the program, framed in words.
    pub input_words: Vec<u32>,
    /// Whether the backend is to leave out the proof.
    pub skip_seal: bool,
}

/// What a run is known by in contracts.
pub struct JobModel {
    pub program: Seq<u8>,
    pub program_id: Seq<u8>,
    pub input_words: Seq<u32>,
    pub skip_seal: bool,
}

impl View for ProverJob {
    type V = JobModel;

    open spec fn view(&self) -> JobModel {
        JobModel {
            program: self.program@,
            program_id: self.program_id@,
            input_words: self.input_words@,
            skip_seal: self.skip_seal,
        }
    }
}

/// What the backend produced for one request: the journal that the program
/// committed, and the proof of the run unless proofs are left out.
#[derive(Debug)]
pub struct ComputeResult {
    pub journal: Vec<u8>,
    pub seal: Option<Vec<u32>>,
}

/// What a result is known by in contracts.
pub struct ResultModel {
    pub journal: Seq<u8>,
    pub seal: Option<Seq<u32>>,
}

impl View for ComputeResult {
    type V = ResultModel;

    open spec fn view(&self) -> ResultModel {
        ResultModel {
            journal: self.journal@,
            seal: match self.seal {
                Some(seal) => Some(seal@),
                None => None,
            },
        }
    }
}

/// The run to ask of the backend for `program` on `input`.
pub open spec fn job_for(program: Seq<u8>, program_id: Seq<u8>, input: Seq<u8>, skip_seal: bool)
    -> JobModel {
    JobModel { program, program_id, input_words: framed(input), skip_seal }
}

/// Prepares the run of `program` on `input`. It fails with
/// `ExecutionFailure` exactly when the input is too long to be framed.
pub fn prepare(program: &Vec<u8>, program_id: ProgramId, input: &[u8], skip_seal: bool) -> (r:
    Result<ProverJob, RelayError>)
    ensures
        r is Ok <==> input@.len() <= u32::MAX,
        r matches Ok(job) ==> job@ == job_for(program@, program_id@, input@, skip_seal),
        r matches Err(e) ==> e == RelayError::ExecutionFailure,
{
    match frame_input(input) {
        Some(input_words) => {
            let copy = program.clone();
            assert(copy@ =~= program@);
            Ok(ProverJob { program: copy, program_id, input_words, skip_seal })
        },
        None => Err(RelayError::ExecutionFailure),
    }
}

/// The result made of a receipt's journal and seal: the journal as it is,
/// and the seal only where proofs are asked for.
pub fn conclude(skip_seal: bool, journal: Vec<u8>, seal: Vec<u32>) -> (result: ComputeResult)
    ensures
        result@ == (ResultModel {
            journal: journal@,
            seal: if skip_seal {
                None
            } else {
                Some(seal@)
            },
        }),
{
    if skip_seal {
        ComputeResult { journal, seal: None }
    } else {
        ComputeResult { journal, seal: Some(seal) }
    }
}

} // verus!
