//! The contract calling convention for 256-bit unsigned integers: each value
//! is 32 bytes, most significant byte first, and a tuple is its values one
//! after the other.

use crate::word::Word;
use ethabi::ethereum_types::U256;
use ethabi::ParamType;
use ethabi::Token;
use vstd::prelude::*;

verus! {

/// The number that a byte string stands for, most significant byte first.
pub open spec fn be_value(bytes: Seq<u8>) -> nat
    decreases bytes.len(),
{
    if bytes.len() == 0 {
        0
    } else {
        256 * be_value(bytes.drop_last()) + (bytes.last() as nat)
    }
}

/// The number held by the `i`-th 32-byte slot of `data`.
pub open spec fn slot_value(data: Seq<u8>, i: int) -> nat {
    be_value(data.subrange(32 * i, 32 * i + 32))
}

/// The numbers that a sequence of words stands for.
pub open spec fn values_of(words: Seq<Word>) -> Seq<nat> {
    words.map_values(|w: Word| w.value())
}

/// Whether `data` is the encoding of the tuple `values`: one 32-byte slot
/// for each value, in order, holding it most significant byte first.
pub open spec fn encodes(data: Seq<u8>, values: Seq<nat>) -> bool {
    &&& data.len() == 32 * values.len()
    &&& forall|i: int| 0 <= i < values.len() ==> slot_value(data, i) == #[trigger] values[i]
}

/// Whether `data` is the encoding of the single value `n`.
pub open spec fn input_encoding(data: Seq<u8>, n: nat) -> bool {
    encodes(data, seq![n])
}

/// Whether `data` is the encoding of the pair `(n, result)`.
pub open spec fn journal_encoding(data: Seq<u8>, n: nat, result: nat) -> bool {
    encodes(data, seq![n, result])
}

/// The value that `data` encodes, if it is the encoding of a single value.
pub open spec fn decoded_input(data: Seq<u8>) -> Option<nat> {
    if data.len() == 32 {
        Some(be_value(data))
    } else {
        None
    }
}

/// The pair that `data` encodes, if it is the encoding of a pair.
pub open spec fn decoded_journal(data: Seq<u8>) -> Option<(nat, nat)> {
    if data.len() == 64 {
        Some((be_value(data.subrange(0, 32)), be_value(data.subrange(32, 64))))
    } else {
        None
    }
}

/// Why a byte string was not decoded.
#[derive(Clone, Copy, Debug, PartialEq, Eq, Structural)]
pub enum DecodeError {
    /// The byte string is not as long as the encoding of the expected tuple.
    WrongLength { expected: usize, found: usize },
}

/// `ethabi::Error`: what the decoder fails with. It is carried through and
/// never looked into.
#[verifier::external_type_specification]
#[verifier::external_body]
pub struct ExAbiError(ethabi::Error);

/// `ethabi::encode` on a list of `uint256` tokens. Trusted: the output is one
/// 32-byte big-endian slot for each word, in order. The bound keeps the
/// encoder's 32-bit length arithmetic from overflowing.
#[verifier::external_body]
fn abi_encode_words(words: &Vec<Word>) -> (out: Vec<u8>)
    requires
        words@.len() <= 0x7ff_ffff,
    ensures
        encodes(out@, values_of(words@)),
{
    let tokens: Vec<Token> = words.iter().map(|w| Token::Uint(U256(w.limbs()))).collect();
    ethabi::encode(&tokens)
}

/// `ethabi::decode_whole` for a tuple of `count` values of type `uint256`.
/// Trusted: it succeeds exactly on inputs of `32 * count` bytes, and then
/// the words are the values of the slots, in order.
#[verifier::external_body]
fn abi_decode_words(count: u8, data: &[u8]) -> (r: Result<Vec<Word>, ethabi::Error>)
    ensures
        r is Ok <==> data@.len() == 32 * count,
        r matches Ok(words) ==> words@.len() == count && encodes(data@, values_of(words@)),
{
    let types = vec![ParamType::Uint(256); count as usize];
    let tokens = ethabi::decode_whole(&types, data)?;
    let words: Option<Vec<Word>> =
        tokens.into_iter().map(|t| t.into_uint().map(|u| Word::from_limbs(u.0))).collect();
    words.ok_or(ethabi::Error::InvalidData)
}

/// Byte strings of one length that stand for the same number are equal.
pub proof fn lemma_be_value_injective(a: Seq<u8>, b: Seq<u8>)
    requires
        a.len() == b.len(),
        be_value(a) == be_value(b),
    ensures
        a == b,
    decreases a.len(),
{
    if a.len() > 0 {
        lemma_be_value_injective(a.drop_last(), b.drop_last());
        assert(a =~= a.drop_last().push(a.last()));
        assert(b =~= b.drop_last().push(b.last()));
    } else {
        assert(a =~= b);
    }
}

/// Two encodings of one tuple are the same byte string.
pub proof fn lemma_encoding_unique(a: Seq<u8>, b: Seq<u8>, values: Seq<nat>)
    requires
        encodes(a, values),
        encodes(b, values),
    ensures
        a == b,
{
    assert forall|k: int| 0 <= k < a.len() implies a[k] == b[k] by {
        let i = k / 32;
        assert(0 <= i < values.len());
        assert(slot_value(a, i) == values[i]);
        assert(slot_value(b, i) == values[i]);
        lemma_be_value_injective(a.subrange(32 * i, 32 * i + 32), b.subrange(32 * i, 32 * i + 32));
        assert(a[k] == a.subrange(32 * i, 32 * i + 32)[k - 32 * i]);
        assert(b[k] == b.subrange(32 * i, 32 * i + 32)[k - 32 * i]);
    }
    assert(a =~= b);
}

/// Decoding the encoding of a value gives the value back.
pub proof fn lemma_input_round_trip(data: Seq<u8>, n: nat)
    requires
        input_encoding(data, n),
    ensures
        decoded_input(data) == Some(n),
{
    assert(slot_value(data, 0) == seq![n][0]);
    assert(data.subrange(0, 32) =~= data);
}

/// Decoding the encoding of a pair gives both of its values back.
pub proof fn lemma_journal_round_trip(data: Seq<u8>, n: nat, result: nat)
    requires
        journal_encoding(data, n, result),
    ensures
        decoded_journal(data) == Some((n, result)),
{
    assert(slot_value(data, 0) == seq![n, result][0]);
    assert(slot_value(data, 1) == seq![n, result][1]);
}

/// A word that was encoded and decoded again is the same word.
pub proof fn lemma_word_round_trip(n: Word, data: Seq<u8>, decoded: Word)
    requires
        input_encoding(data, n.value()),
        decoded_input(data) == Some(decoded.value()),
    ensures
        decoded == n,
{
    lemma_input_round_trip(data, n.value());
    Word::lemma_value_injective(decoded, n);
}

/// A pair of words that was encoded and decoded again is the same pair.
pub proof fn lemma_pair_round_trip(n: Word, result: Word, data: Seq<u8>, decoded: (Word, Word))
    requires
        journal_encoding(data, n.value(), result.value()),
        decoded_journal(data) == Some((decoded.0.value(), decoded.1.value())),
    ensures
        decoded == (n, result),
{
    lemma_journal_round_trip(data, n.value(), result.value());
    Word::lemma_value_injective(decoded.0, n);
    Word::lemma_value_injective(decoded.1, result);
}

/// The encoding of a single value, as a contract emits it with a request.
pub fn encode_input(n: &Word) -> (out: Vec<u8>)
    ensures
        input_encoding(out@, n.value()),
{
    let mut words: Vec<Word> = Vec::new();
    words.push(*n);
    let out = abi_encode_words(&words);
    proof {
        assert(values_of(words@) =~= seq![n.value()]);
    }
    out
}

/// The value that `data` encodes, where `data` is the encoding of a single
/// value: exactly 32 bytes.
pub fn decode_input(data: &[u8]) -> (r: Result<Word, DecodeError>)
    ensures
        r matches Ok(n) ==> decoded_input(data@) == Some(n.value()),
        r matches Err(e) ==> decoded_input(data@) is None && e == (DecodeError::WrongLength {
            expected: 32,
            found: data.len(),
        }),
{
    match abi_decode_words(1, data) {
        Ok(words) => {
            proof {
                assert(values_of(words@) =~= seq![words@[0].value()]);
                lemma_input_round_trip(data@, words@[0].value());
            }
            Ok(words[0])
        },
        Err(_) => Err(DecodeError::WrongLength { expected: 32, found: data.len() }),
    }
}

/// The encoding of the pair `(n, result)`, as the guest program commits it.
pub fn encode_journal(n: &Word, result: &Word) -> (out: Vec<u8>)
    ensures
        journal_encoding(out@, n.value(), result.value()),
{
    let mut words: Vec<Word> = Vec::new();
    words.push(*n);
    words.push(*result);
    let out = abi_encode_words(&words);
    proof {
        assert(values_of(words@) =~= seq![n.value(), result.value()]);
    }
    out
}

/// The pair that `data` encodes, where `data` is the encoding of a pair:
/// exactly 64 bytes.
pub fn decode_journal(data: &[u8]) -> (r: Result<(Word, Word), DecodeError>)
    ensures
        r matches Ok(pair) ==> decoded_journal(data@) == Some((pair.0.value(), pair.1.value())),
        r matches Err(e) ==> decoded_journal(data@) is None && e == (DecodeError::WrongLength {
            expected: 64,
            found: data.len(),
        }),
{
    match abi_decode_words(2, data) {
        Ok(words) => {
            proof {
                assert(values_of(words@) =~= seq![words@[0].value(), words@[1].value()]);
                lemma_journal_round_trip(data@, words@[0].value(), words@[1].value());
            }
            Ok((words[0], words[1]))
        },
        Err(_) => Err(DecodeError::WrongLength { expected: 64, found: data.len() }),
    }
}

} // verus!
