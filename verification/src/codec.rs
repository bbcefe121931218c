//! The bytes under which the limiter keeps its data in a shared store:
//! decimal numbers, the value of a block record and the member that stands
//! for one attempt.
use crate::block_registry::{BlockRecord, Tier};
use vstd::prelude::*;

verus! {

/// The decimal digits of `n` as ASCII bytes, most significant first, without
/// leading zeros.
pub open spec fn decimal(n: nat) -> Seq<u8>
    decreases n,
{
    if n < 10 {
        seq![(48 + n) as u8]
    } else {
        decimal(n / 10).push((48 + n % 10) as u8)
    }
}

/// Whether `b` is one of the ASCII digits `0` to `9`.
pub open spec fn is_digit(b: u8) -> bool {
    48 <= b <= 57
}

/// Whether `bytes` holds ASCII digits and nothing else.
pub open spec fn all_digits(bytes: Seq<u8>) -> bool {
    forall|i: int| 0 <= i < bytes.len() ==> is_digit(#[trigger] bytes[i])
}

/// The number that a run of ASCII digits writes, read most significant
/// first.
pub open spec fn digits_value(digits: Seq<u8>) -> nat
    decreases digits.len(),
{
    if digits.len() == 0 {
        0
    } else {
        10 * digits_value(digits.drop_last()) + (digits.last() - 48) as nat
    }
}

/// The number that `bytes` writes in decimal: `bytes` must be one digit or
/// more and nothing else, and the number must fit 64 bits.
pub open spec fn parse_decimal(bytes: Seq<u8>) -> Option<u64> {
    if bytes.len() > 0 && all_digits(bytes) && digits_value(bytes) <= u64::MAX {
        Some(digits_value(bytes) as u64)
    } else {
        None
    }
}

/// The decimal digits of a number are digits, and they write that number.
pub proof fn lemma_decimal_round_trip(n: nat)
    ensures
        decimal(n).len() > 0,
        all_digits(decimal(n)),
        digits_value(decimal(n)) == n,
    decreases n,
{
    if n < 10 {
        let d = decimal(n);
        assert(d.drop_last() =~= Seq::<u8>::empty());
        assert(digits_value(d.drop_last()) == 0);
    } else {
        lemma_decimal_round_trip(n / 10);
        let d = decimal(n);
        assert(d.drop_last() =~= decimal(n / 10));
        assert forall|i: int| 0 <= i < d.len() implies is_digit(#[trigger] d[i]) by {
            if i < d.len() - 1 {
                assert(d[i] == decimal(n / 10)[i]);
            }
        }
    }
}

/// A run of digits writes a number no smaller than any of its beginnings
/// does.
pub proof fn lemma_digits_value_grows(digits: Seq<u8>, k: int)
    requires
        0 <= k <= digits.len(),
        all_digits(digits),
    ensures
        digits_value(digits.take(k)) <= digits_value(digits),
    decreases digits.len() - k,
{
    if k == digits.len() {
        assert(digits.take(k) =~= digits);
    } else {
        let rest = digits.drop_last();
        assert(rest.take(k) =~= digits.take(k));
        assert(is_digit(digits[digits.len() - 1]));
        assert forall|i: int| 0 <= i < rest.len() implies is_digit(#[trigger] rest[i]) by {
            assert(rest[i] == digits[i]);
        }
        lemma_digits_value_grows(rest, k);
    }
}

/// Appends the decimal digits of `n` to `out`.
pub fn push_decimal(out: &mut Vec<u8>, n: u64)
    ensures
        final(out)@ == old(out)@ + decimal(n as nat),
    decreases n,
{
    if n >= 10 {
        push_decimal(out, n / 10);
    }
    let digit: u8 = (n % 10) as u8;
    out.push(48 + digit);
    proof {
        if n >= 10 {
            assert(final(out)@ =~= old(out)@ + decimal(n as nat));
        } else {
            assert(final(out)@ =~= old(out)@ + decimal(n as nat));
        }
    }
}

/// Reads `bytes[from..to]` as a decimal number.
pub(crate) fn read_decimal(bytes: &[u8], from: usize, to: usize) -> (number: Option<u64>)
    requires
        from <= to <= bytes@.len(),
    ensures
        number == parse_decimal(bytes@.subrange(from as int, to as int)),
{
    let ghost digits = bytes@.subrange(from as int, to as int);
    if from == to {
        return None;
    }
    let mut value: u64 = 0;
    let mut i: usize = from;
    proof {
        assert(digits.take(0) =~= Seq::<u8>::empty());
    }
    while i < to
        invariant
            from <= i <= to <= bytes@.len(),
            digits == bytes@.subrange(from as int, to as int),
            all_digits(digits.take(i - from)),
            value == digits_value(digits.take(i - from)),
        decreases to - i,
    {
        let b: u8 = bytes[i];
        proof {
            assert(digits[i - from] == b);
            assert(digits.take(i - from + 1).drop_last() =~= digits.take(i - from));
            assert(digits.take(i - from + 1).last() == b);
        }
        if b < 48 || b > 57 {
            proof {
                assert(!is_digit(digits[i - from]));
            }
            return None;
        }
        let d: u64 = (b - 48) as u64;
        if value > (u64::MAX - d) / 10 {
            proof {
                if all_digits(digits) {
                    lemma_digits_value_grows(digits, i - from + 1);
                }
            }
            return None;
        }
        proof {
            assert forall|j: int| 0 <= j < digits.take(i - from + 1).len() implies is_digit(
                #[trigger] digits.take(i - from + 1)[j],
            ) by {
                if j < i - from {
                    assert(digits.take(i - from + 1)[j] == digits.take(i - from)[j]);
                }
            }
        }
        value = value * 10 + d;
        i = i + 1;
    }
    proof {
        assert(digits.take(i - from) =~= digits);
    }
    Some(value)
}

/// Reads the whole of `bytes` as a decimal number.
pub fn decode_decimal(bytes: &[u8]) -> (number: Option<u64>)
    ensures
        number == parse_decimal(bytes@),
{
    proof {
        assert(bytes@.subrange(0, bytes@.len() as int) =~= bytes@);
    }
    read_decimal(bytes, 0, bytes.len())
}

/// The decimal digits of `n`.
pub fn encode_decimal(n: u64) -> (digits: Vec<u8>)
    ensures
        digits@ == decimal(n as nat),
{
    let mut digits: Vec<u8> = Vec::new();
    push_decimal(&mut digits, n);
    proof {
        assert(digits@ =~= decimal(n as nat));
    }
    digits
}

/// The byte that parts the fields of a stored value: `:`.
pub const FIELD_SEPARATOR: u8 = 58;

/// The byte that parts the second of an attempt from its fraction: `-`.
pub const MEMBER_SEPARATOR: u8 = 45;

/// The word that names a tier in a stored value: `temporary` or `extended`,
/// in ASCII.
pub open spec fn tier_tag(tier: Tier) -> Seq<u8> {
    match tier {
        Tier::Temporary => seq![116u8, 101u8, 109u8, 112u8, 111u8, 114u8, 97u8, 114u8, 121u8],
        Tier::Extended => seq![101u8, 120u8, 116u8, 101u8, 110u8, 100u8, 101u8, 100u8],
    }
}

/// The value under which a block record is stored: the decimal digits of
/// `blocked_until`, a colon, and the tier's word.
pub open spec fn block_value(record: BlockRecord) -> Seq<u8> {
    decimal(record.blocked_until as nat).push(FIELD_SEPARATOR) + tier_tag(record.tier)
}

/// Whether `bytes` ends with a colon and the word of `tier`, with something
/// before them.
pub open spec fn has_tag(bytes: Seq<u8>, tier: Tier) -> bool {
    let tag = tier_tag(tier);
    &&& bytes.len() > tag.len()
    &&& bytes[bytes.len() - tag.len() - 1] == FIELD_SEPARATOR
    &&& bytes.subrange(bytes.len() - tag.len(), bytes.len() as int) == tag
}

/// What stands before the colon and the word of `tier` in `bytes`.
pub open spec fn before_tag(bytes: Seq<u8>, tier: Tier) -> Seq<u8> {
    bytes.take(bytes.len() - tier_tag(tier).len() - 1)
}

/// The block record that a stored value holds, if it holds one: a decimal
/// number that fits 64 bits, a colon, and the word of a tier, and nothing
/// else.
pub open spec fn parse_block(bytes: Seq<u8>) -> Option<BlockRecord> {
    if has_tag(bytes, Tier::Temporary) {
        match parse_decimal(before_tag(bytes, Tier::Temporary)) {
            Some(blocked_until) => Some(BlockRecord { blocked_until, tier: Tier::Temporary }),
            None => None,
        }
    } else if has_tag(bytes, Tier::Extended) {
        match parse_decimal(before_tag(bytes, Tier::Extended)) {
            Some(blocked_until) => Some(BlockRecord { blocked_until, tier: Tier::Extended }),
            None => None,
        }
    } else {
        None
    }
}

/// The member under which one attempt is kept in a store that holds each
/// member once: the decimal digits of the attempt's second, a hyphen, and
/// those of its fraction in nanoseconds. Two attempts within one second are
/// told apart by the fraction.
pub open spec fn attempt_member(timestamp: u64, nanos: u32) -> Seq<u8> {
    decimal(timestamp as nat).push(MEMBER_SEPARATOR) + decimal(nanos as nat)
}

/// A stored value reads back as the record it was written from.
pub proof fn lemma_block_round_trip(record: BlockRecord)
    ensures
        parse_block(block_value(record)) == Some(record),
{
    let digits = decimal(record.blocked_until as nat);
    let tag = tier_tag(record.tier);
    let bytes = block_value(record);
    lemma_decimal_round_trip(record.blocked_until as nat);
    assert(bytes.len() == digits.len() + 1 + tag.len());
    assert(bytes.subrange(bytes.len() - tag.len(), bytes.len() as int) =~= tag);
    assert(bytes[bytes.len() - tag.len() - 1] == FIELD_SEPARATOR);
    assert(before_tag(bytes, record.tier) =~= digits);
    assert(has_tag(bytes, record.tier));
    match record.tier {
        Tier::Temporary => {},
        Tier::Extended => {
            let other = tier_tag(Tier::Temporary);
            assert(bytes[bytes.len() - 1] == tag[tag.len() - 1]);
            assert(other[other.len() - 1] == 121u8);
            if has_tag(bytes, Tier::Temporary) {
                assert(bytes.subrange(bytes.len() - other.len(), bytes.len() as int)[other.len()
                    - 1] == bytes[bytes.len() - 1]);
            }
        },
    }
}

/// The word of a tier.
fn tag_of(tier: Tier) -> (tag: Vec<u8>)
    ensures
        tag@ == tier_tag(tier),
{
    let tag: Vec<u8> = match tier {
        Tier::Temporary => vec![116u8, 101u8, 109u8, 112u8, 111u8, 114u8, 97u8, 114u8, 121u8],
        Tier::Extended => vec![101u8, 120u8, 116u8, 101u8, 110u8, 100u8, 101u8, 100u8],
    };
    proof {
        assert(tag@ =~= tier_tag(tier));
    }
    tag
}

/// Appends `tail` to `out`.
fn push_all(out: &mut Vec<u8>, tail: &Vec<u8>)
    ensures
        final(out)@ == old(out)@ + tail@,
{
    let mut i: usize = 0;
    while i < tail.len()
        invariant
            i <= tail@.len(),
            out@ == old(out)@ + tail@.take(i as int),
        decreases tail@.len() - i,
    {
        out.push(tail[i]);
        proof {
            assert(tail@.take(i + 1) =~= tail@.take(i as int).push(tail@[i as int]));
        }
        i = i + 1;
    }
    proof {
        assert(tail@.take(i as int) =~= tail@);
    }
}

/// Whether `bytes` ends with a colon and the word of `tier`, with something
/// before them.
fn ends_with_tag(bytes: &[u8], tier: Tier) -> (found: bool)
    ensures
        found == has_tag(bytes@, tier),
{
    let tag = tag_of(tier);
    let n: usize = bytes.len();
    let m: usize = tag.len();
    if n <= m {
        return false;
    }
    if bytes[n - m - 1] != FIELD_SEPARATOR {
        return false;
    }
    let ghost tail = bytes@.subrange(n - m, n as int);
    let mut i: usize = 0;
    while i < m
        invariant
            m < n,
            n == bytes@.len(),
            m == tag@.len(),
            tag@ == tier_tag(tier),
            i <= m,
            tail == bytes@.subrange(n - m, n as int),
            forall|j: int| 0 <= j < i ==> tail[j] == tag@[j],
        decreases m - i,
    {
        if bytes[n - m + i] != tag[i] {
            proof {
                assert(tail[i as int] != tag@[i as int]);
            }
            return false;
        }
        i = i + 1;
    }
    proof {
        assert(tail =~= tag@);
    }
    true
}

/// The value under which `record` is stored.
pub fn encode_block(record: &BlockRecord) -> (value: Vec<u8>)
    ensures
        value@ == block_value(*record),
{
    let mut value: Vec<u8> = Vec::new();
    push_decimal(&mut value, record.blocked_until);
    value.push(FIELD_SEPARATOR);
    let tag = tag_of(record.tier);
    push_all(&mut value, &tag);
    proof {
        assert(value@ =~= block_value(*record));
    }
    value
}

/// Reads a stored value back. `None` says that `bytes` holds no block
/// record.
pub fn decode_block(bytes: &[u8]) -> (record: Option<BlockRecord>)
    ensures
        record == parse_block(bytes@),
{
    let n: usize = bytes.len();
    if ends_with_tag(bytes, Tier::Temporary) {
        proof {
            assert(tier_tag(Tier::Temporary).len() == 9);
            assert(bytes@.subrange(0, n - 10) =~= before_tag(bytes@, Tier::Temporary));
        }
        match read_decimal(bytes, 0, n - 10) {
            Some(blocked_until) => Some(BlockRecord { blocked_until, tier: Tier::Temporary }),
            None => None,
        }
    } else if ends_with_tag(bytes, Tier::Extended) {
        proof {
            assert(tier_tag(Tier::Extended).len() == 8);
            assert(bytes@.subrange(0, n - 9) =~= before_tag(bytes@, Tier::Extended));
        }
        match read_decimal(bytes, 0, n - 9) {
            Some(blocked_until) => Some(BlockRecord { blocked_until, tier: Tier::Extended }),
            None => None,
        }
    } else {
        None
    }
}

/// The member under which the attempt made at `timestamp`, `nanos`
/// nanoseconds into that second, is kept.
pub fn encode_attempt(timestamp: u64, nanos: u32) -> (member: Vec<u8>)
    ensures
        member@ == attempt_member(timestamp, nanos),
{
    let mut member: Vec<u8> = Vec::new();
    push_decimal(&mut member, timestamp);
    member.push(MEMBER_SEPARATOR);
    push_decimal(&mut member, nanos as u64);
    proof {
        assert(member@ =~= attempt_member(timestamp, nanos));
    }
    member
}

} // verus!
