//! The program that the relay serves: it reads one encoded number `n`,
//! computes the `n`-th term of a sequence, and commits the encoded pair of
//! `n` and that term as its journal.

use crate::abi::decode_input;
use crate::abi::decoded_input;
use crate::abi::decoded_journal;
use crate::abi::encode_journal;
use crate::abi::journal_encoding;
use crate::abi::lemma_encoding_unique;
use crate::abi::lemma_journal_round_trip;
use crate::word::word_modulus;
use crate::word::Word;
use vstd::arithmetic::power2::lemma2_to64;
use vstd::arithmetic::power2::lemma_pow2_adds;
use vstd::arithmetic::power2::lemma_pow2_strictly_increases;
use vstd::arithmetic::power2::pow2;
use vstd::prelude::*;

verus! {

/// The term of the sequence at position `n`: both of the first two terms are
/// one, and every later term is the sum of the two before it.
pub open spec fn sequence_term(n: nat) -> nat
    decreases n,
{
    if n < 2 {
        1
    } else {
        sequence_term((n - 1) as nat) + sequence_term((n - 2) as nat)
    }
}

/// The terms of the sequence never decrease.
pub proof fn lemma_term_monotonic(i: nat, j: nat)
    requires
        i <= j,
    ensures
        1 <= sequence_term(i) <= sequence_term(j),
    decreases j,
{
    if j >= 2 {
        if i < j {
            lemma_term_monotonic(i, (j - 1) as nat);
        }
        lemma_term_monotonic(0, (j - 2) as nat);
    }
}

/// Two steps along the sequence at least double a term.
proof fn lemma_term_doubles(k: nat)
    ensures
        sequence_term(2 * k) >= pow2(k),
    decreases k,
{
    if k == 0 {
        lemma2_to64();
    } else {
        lemma_term_doubles((k - 1) as nat);
        lemma_term_monotonic((2 * k - 2) as nat, (2 * k - 1) as nat);
        lemma_pow2_adds(1, (k - 1) as nat);
        lemma2_to64();
    }
}

/// From position 512 on, no term fits in 256 bits.
pub proof fn lemma_term_outgrows_word(n: nat)
    requires
        n >= 512,
    ensures
        sequence_term(n) >= word_modulus(),
{
    lemma_term_doubles(256);
    lemma_term_monotonic(512, n);
    lemma_pow2_adds(64, 64);
    lemma_pow2_adds(128, 128);
    lemma2_to64();
    let p64 = pow2(64) as int;
    let p128 = pow2(128) as int;
    let p256 = pow2(256) as int;
    let m = word_modulus() as int;
    assert(p128 == 0x1_0000_0000_0000_0000_0000_0000_0000_0000int) by (nonlinear_arith)
        requires
            p128 == p64 * p64,
            p64 == 0x1_0000_0000_0000_0000int,
    ;
    assert(p256 == m) by (nonlinear_arith)
        requires
            p256 == p128 * p128,
            p128 == 0x1_0000_0000_0000_0000_0000_0000_0000_0000int,
            m
                == 0x1_0000_0000_0000_0000_0000_0000_0000_0000_0000_0000_0000_0000_0000_0000_0000_0000int,
    ;
}

/// The `n`-th term of the sequence, where it fits in 256 bits.
pub fn fibonacci(n: Word) -> (r: Option<Word>)
    ensures
        r is Some <==> sequence_term(n.value()) < word_modulus(),
        r matches Some(term) ==> term.value() == sequence_term(n.value()),
{
    let count: u32 = match n.to_u32() {
        Some(count) => count,
        None => {
            proof {
                lemma_term_outgrows_word(n.value());
            }
            return None;
        },
    };
    let mut prev = Word::one();
    let mut curr = Word::one();
    let mut i: u32 = 1;
    while i < count
        invariant
            1 <= i,
            i <= count || i == 1,
            count == n.value(),
            prev.value() == sequence_term((i - 1) as nat),
            curr.value() == sequence_term(i as nat),
        decreases count - i,
    {
        let next = match prev.checked_add(&curr) {
            Some(next) => next,
            None => {
                proof {
                    lemma_term_monotonic((i + 1) as nat, count as nat);
                }
                return None;
            },
        };
        prev = curr;
        curr = next;
        i = i + 1;
    }
    proof {
        curr.lemma_value_bound();
    }
    Some(curr)
}

/// Why a run of the program ended without a journal.
#[derive(Clone, Copy, Debug, PartialEq, Eq, Structural)]
pub enum GuestError {
    /// The input is not the encoding of one number.
    MalformedInput,
    /// The requested term does not fit in 256 bits.
    Overflow,
}

/// What a run of the program on `input` gives: the number it read and the
/// term it computed, or the reason it stopped.
pub open spec fn run_outcome(input: Seq<u8>) -> Result<(nat, nat), GuestError> {
    match decoded_input(input) {
        None => Err(GuestError::MalformedInput),
        Some(n) => if sequence_term(n) < word_modulus() {
            Ok((n, sequence_term(n)))
        } else {
            Err(GuestError::Overflow)
        },
    }
}

/// Whether `journal` is what a run of the program on `input` commits.
pub open spec fn is_journal_of(input: Seq<u8>, journal: Seq<u8>) -> bool {
    run_outcome(input) matches Ok(pair) && journal_encoding(journal, pair.0, pair.1)
}

/// A given input has at most one journal: every run on it commits the same
/// bytes.
pub proof fn lemma_journal_unique(input: Seq<u8>, first: Seq<u8>, second: Seq<u8>)
    requires
        is_journal_of(input, first),
        is_journal_of(input, second),
    ensures
        first == second,
{
    let pair = run_outcome(input)->Ok_0;
    lemma_encoding_unique(first, second, seq![pair.0, pair.1]);
}

/// The journal of a run decodes to the number that the input encodes and to
/// its term.
pub proof fn lemma_journal_decodes(input: Seq<u8>, journal: Seq<u8>)
    requires
        is_journal_of(input, journal),
    ensures
        decoded_input(input) matches Some(n) && decoded_journal(journal) == Some(
            (n, sequence_term(n)),
        ),
{
    let pair = run_outcome(input)->Ok_0;
    lemma_journal_round_trip(journal, pair.0, pair.1);
}

/// One run of the program: decodes the number in `input`, computes its term
/// and returns the journal, the encoded pair of the number and the term.
pub fn run(input: &[u8]) -> (r: Result<Vec<u8>, GuestError>)
    ensures
        r matches Ok(journal) ==> is_journal_of(input@, journal@),
        r matches Err(e) ==> run_outcome(input@) == Err::<(nat, nat), GuestError>(e),
{
    let n = match decode_input(input) {
        Ok(n) => n,
        Err(_) => {
            return Err(GuestError::MalformedInput);
        },
    };
    match fibonacci(n) {
        Some(term) => Ok(encode_journal(&n, &term)),
        None => Err(GuestError::Overflow),
    }
}

} // verus!
