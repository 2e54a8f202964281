use bonsai_relay::abi::{decode_input, decode_journal, encode_input, encode_journal, DecodeError};
use bonsai_relay::word::Word;

fn slot(last: u8) -> Vec<u8> {
    let mut bytes = vec![0u8; 32];
    bytes[31] = last;
    bytes
}

#[test]
fn word_from_u64_keeps_the_value_in_the_low_limb() {
    assert_eq!(Word::from_u64(10).limbs(), [10, 0, 0, 0]);
    assert_eq!(Word::one(), Word::from_u64(1));
    assert_eq!(Word::from_limbs([1, 2, 3, 4]).limbs(), [1, 2, 3, 4]);
}

#[test]
fn word_checked_add_adds_small_values() {
    let sum = Word::from_u64(34).checked_add(&Word::from_u64(55));
    assert_eq!(sum, Some(Word::from_u64(89)));
}

#[test]
fn word_checked_add_carries_between_limbs() {
    let a = Word::from_limbs([u64::MAX, u64::MAX, 0, 0]);
    let sum = a.checked_add(&Word::one());
    assert_eq!(sum, Some(Word::from_limbs([0, 0, 1, 0])));
}

#[test]
fn word_checked_add_refuses_a_sum_of_257_bits() {
    let max = Word::from_limbs([u64::MAX; 4]);
    assert_eq!(max.checked_add(&Word::one()), None);
    assert_eq!(max.checked_add(&Word::from_u64(0)), Some(max));
}

#[test]
fn word_to_u32_gives_the_value_only_where_it_fits() {
    assert_eq!(Word::from_u64(0).to_u32(), Some(0));
    assert_eq!(Word::from_u64(0xffff_ffff).to_u32(), Some(u32::MAX));
    assert_eq!(Word::from_u64(0x1_0000_0000).to_u32(), None);
    assert_eq!(Word::from_limbs([7, 0, 0, 1]).to_u32(), None);
    assert_eq!(Word::from_limbs([7, 1, 0, 0]).to_u32(), None);
}

#[test]
fn encode_input_is_32_bytes_big_endian() {
    assert_eq!(encode_input(&Word::from_u64(10)), slot(10));
    let mut expected = vec![0u8; 32];
    expected[30] = 0x01;
    expected[31] = 0x02;
    assert_eq!(encode_input(&Word::from_u64(0x0102)), expected);
}

#[test]
fn encode_input_puts_the_highest_limb_first() {
    let word = Word::from_limbs([4, 3, 2, 0x0100_0000_0000_0000]);
    let bytes = encode_input(&word);
    assert_eq!(bytes.len(), 32);
    assert_eq!(bytes[0], 1);
    assert_eq!(bytes[15], 2);
    assert_eq!(bytes[23], 3);
    assert_eq!(bytes[31], 4);
}

#[test]
fn decode_input_reads_32_bytes_big_endian() {
    assert_eq!(decode_input(&slot(10)), Ok(Word::from_u64(10)));
    let mut bytes = vec![0u8; 32];
    bytes[0] = 0x80;
    assert_eq!(decode_input(&bytes), Ok(Word::from_limbs([0, 0, 0, 0x8000_0000_0000_0000])));
}

#[test]
fn decode_input_refuses_other_lengths() {
    assert_eq!(decode_input(&[]), Err(DecodeError::WrongLength { expected: 32, found: 0 }));
    assert_eq!(
        decode_input(&vec![0u8; 31]),
        Err(DecodeError::WrongLength { expected: 32, found: 31 })
    );
    assert_eq!(
        decode_input(&vec![0u8; 64]),
        Err(DecodeError::WrongLength { expected: 32, found: 64 })
    );
}

#[test]
fn input_round_trip() {
    for limbs in [[0, 0, 0, 0], [10, 0, 0, 0], [1, 2, 3, 4], [u64::MAX; 4]] {
        let word = Word::from_limbs(limbs);
        assert_eq!(decode_input(&encode_input(&word)), Ok(word));
    }
}

#[test]
fn encode_journal_is_two_slots_in_order() {
    let journal = encode_journal(&Word::from_u64(10), &Word::from_u64(89));
    let mut expected = slot(10);
    expected.extend(slot(89));
    assert_eq!(journal, expected);
}

#[test]
fn decode_journal_reads_two_slots_in_order() {
    let mut data = slot(10);
    data.extend(slot(89));
    assert_eq!(decode_journal(&data), Ok((Word::from_u64(10), Word::from_u64(89))));
}

#[test]
fn decode_journal_refuses_other_lengths() {
    assert_eq!(
        decode_journal(&slot(10)),
        Err(DecodeError::WrongLength { expected: 64, found: 32 })
    );
    assert_eq!(
        decode_journal(&vec![0u8; 65]),
        Err(DecodeError::WrongLength { expected: 64, found: 65 })
    );
}

#[test]
fn journal_round_trip() {
    let n = Word::from_limbs([5, 6, 7, 8]);
    let result = Word::from_limbs([u64::MAX, 0, u64::MAX, 1]);
    assert_eq!(decode_journal(&encode_journal(&n, &result)), Ok((n, result)));
}
