//! Host instances: every running host owns a socket file named after its instance
//! number, and a new host takes the smallest free number.

use vstd::prelude::*;
use vstd::string::StringSliceAdditionalSpecFns;

use crate::text::{
    all_ascii, all_digits, append_decimal_u64, ascii_bytes, decimal_digits, lemma_ascii_encoding,
    lemma_decimal_digits_bytes, parse_usize, parsed_unsigned,
};

verus! {

/// The bytes of `host-ipc-`, which every socket file name starts with.
pub open spec fn socket_prefix() -> Seq<u8> {
    seq![104u8, 111, 115, 116, 45, 105, 112, 99, 45]
}

/// The bytes of `.socket`, which every socket file name ends with.
pub open spec fn socket_suffix() -> Seq<u8> {
    seq![46u8, 115, 111, 99, 107, 101, 116]
}

/// `bytes` has the shape of a socket file name.
pub open spec fn looks_like_socket_name(bytes: Seq<u8>) -> bool {
    &&& bytes.len() >= 9
    &&& bytes.take(9) == socket_prefix()
    &&& bytes.len() >= 7
    &&& bytes.skip(bytes.len() - 7) == socket_suffix()
}

/// The instance number read from a socket file name: the digits between the prefix
/// and the suffix.
pub open spec fn socket_name_instance(bytes: Seq<u8>) -> Option<nat> {
    if looks_like_socket_name(bytes) {
        parsed_unsigned(bytes.subrange(9, bytes.len() - 7), usize::MAX as nat)
    } else {
        None
    }
}

/// A name with the prefix and the suffix is long enough to hold both: the suffix's dot
/// cannot lie inside the prefix.
proof fn lemma_socket_name_long(bytes: Seq<u8>)
    requires
        looks_like_socket_name(bytes),
    ensures
        bytes.len() >= 16,
{
    if bytes.len() < 16 {
        let dot = bytes.len() - 7;
        assert(bytes.skip(dot)[0] == 46);
        assert(bytes[dot] == 46);
        assert(bytes.take(9)[dot] == bytes[dot]);
        assert(socket_prefix()[dot] != 46);
    }
}

/// `bytes` starts with `pattern`.
fn starts_with_bytes(bytes: &[u8], pattern: &[u8]) -> (result: bool)
    ensures
        result == (bytes@.len() >= pattern@.len() && bytes@.take(pattern@.len() as int)
            == pattern@),
{
    if bytes.len() < pattern.len() {
        return false;
    }
    let mut i: usize = 0;
    while i < pattern.len()
        invariant
            i <= pattern@.len() <= bytes@.len(),
            bytes@.take(i as int) == pattern@.take(i as int),
        decreases pattern@.len() - i,
    {
        if bytes[i] != pattern[i] {
            assert(bytes@.take(pattern@.len() as int)[i as int] != pattern@[i as int]);
            return false;
        }
        i = i + 1;
        assert(bytes@.take(i as int) =~= pattern@.take(i as int));
    }
    assert(pattern@.take(pattern@.len() as int) =~= pattern@);
    true
}

/// `bytes` ends with `pattern`.
fn ends_with_bytes(bytes: &[u8], pattern: &[u8]) -> (result: bool)
    ensures
        result == (bytes@.len() >= pattern@.len() && bytes@.skip(
            bytes@.len() - pattern@.len(),
        ) == pattern@),
{
    if bytes.len() < pattern.len() {
        return false;
    }
    let length = bytes.len();
    let offset = length - pattern.len();
    let mut i: usize = 0;
    while i < pattern.len()
        invariant
            length == bytes@.len(),
            offset + pattern@.len() == length,
            i <= pattern@.len(),
            bytes@.subrange(offset as int, offset + i) == pattern@.take(i as int),
        decreases pattern@.len() - i,
    {
        if bytes[offset + i] != pattern[i] {
            assert(bytes@.skip(offset as int)[i as int] != pattern@[i as int]);
            return false;
        }
        i = i + 1;
        assert(bytes@.subrange(offset as int, offset + i) =~= pattern@.take(i as int));
    }
    assert(pattern@.take(pattern@.len() as int) =~= pattern@);
    assert(bytes@.skip(offset as int) =~= bytes@.subrange(offset as int, offset + i));
    true
}

/// The instance number a socket file name stands for, if it is one.
pub fn instance_from_socket_name(name: &str) -> (instance: Option<usize>)
    ensures
        match socket_name_instance(name.spec_bytes()) {
            Some(v) => instance == Some(v as usize),
            None => instance is None,
        },
{
    let bytes = name.as_bytes();
    let prefix: [u8; 9] = [104, 111, 115, 116, 45, 105, 112, 99, 45];
    let suffix: [u8; 7] = [46, 115, 111, 99, 107, 101, 116];
    assert(prefix@ =~= socket_prefix());
    assert(suffix@ =~= socket_suffix());
    if starts_with_bytes(bytes, prefix.as_slice()) && ends_with_bytes(bytes, suffix.as_slice()) {
        proof {
            lemma_socket_name_long(bytes@);
        }
        let end = bytes.len() - 7;
        let (front, _) = bytes.split_at(end);
        let (_, digits) = front.split_at(9);
        assert(digits@ =~= bytes@.subrange(9, bytes@.len() - 7));
        parse_usize(digits)
    } else {
        None
    }
}

/// The name of the socket file of an instance.
pub fn socket_file_name(instance: usize) -> (name: String)
    ensures
        name@ == "host-ipc-"@ + decimal_digits(instance as nat) + ".socket"@,
{
    let mut name = "host-ipc-".to_owned();
    append_decimal_u64(&mut name, instance as u64);
    name.append(".socket");
    name
}

/// The name of an instance's socket file reads back as that instance.
pub proof fn lemma_socket_name_round_trip(instance: usize)
    ensures
        socket_name_instance(
            vstd::utf8::encode_utf8("host-ipc-"@ + decimal_digits(instance as nat) + ".socket"@),
        ) == Some(instance as nat),
{
    reveal_strlit("host-ipc-");
    reveal_strlit(".socket");
    let digits = decimal_digits(instance as nat);
    let name = "host-ipc-"@ + digits + ".socket"@;
    lemma_decimal_digits_bytes(instance as nat);
    assert(all_ascii(name)) by {
        assert forall|i: int| 0 <= i < name.len() implies (#[trigger] name[i] as u32) < 128 by {
            if 9 <= i < 9 + digits.len() {
                assert(name[i] == digits[i - 9]);
            }
        }
    }
    lemma_ascii_encoding(name);
    let bytes = ascii_bytes(name);
    let middle = ascii_bytes(digits);
    assert(bytes.take(9) =~= socket_prefix());
    assert(bytes.skip(bytes.len() - 7) =~= socket_suffix());
    assert(bytes.subrange(9, bytes.len() - 7) =~= middle);
    assert(all_digits(middle));
    assert(middle[0] != 43);
}

/// A sequence holding every number from one to `k` has at least `k` elements.
proof fn lemma_holding_range_is_long(s: Seq<usize>, k: nat)
    requires
        k <= usize::MAX,
        forall|j: usize| 1 <= j <= k ==> s.contains(j),
    ensures
        s.len() >= k,
    decreases k,
{
    if k > 0 {
        let top = k as usize;
        assert(s.contains(top));
        let index = choose|p: int| 0 <= p < s.len() && s[p] == top;
        let rest = s.remove(index);
        assert forall|j: usize| 1 <= j <= (k - 1) as nat implies rest.contains(j) by {
            assert(s.contains(j));
            let p = choose|p: int| 0 <= p < s.len() && s[p] == j;
            if p < index {
                assert(rest[p] == j);
            } else {
                assert(p != index);
                assert(rest[p - 1] == j);
            }
        }
        lemma_holding_range_is_long(rest, (k - 1) as nat);
    }
}

/// The smallest positive instance number that is not taken.
pub fn next_free_instance(taken: &[usize]) -> (instance: usize)
    requires
        taken@.len() < usize::MAX,
    ensures
        instance >= 1,
        !taken@.contains(instance),
        forall|j: usize| 1 <= j < instance ==> taken@.contains(j),
{
    let mut candidate: usize = 1;
    while candidate <= taken.len()
        invariant
            1 <= candidate <= taken@.len() + 1,
            taken@.len() < usize::MAX,
            forall|j: usize| 1 <= j < candidate ==> taken@.contains(j),
        decreases taken@.len() + 1 - candidate,
    {
        let mut found = false;
        let mut i: usize = 0;
        while i < taken.len()
            invariant
                i <= taken@.len(),
                found == exists|p: int| 0 <= p < i && taken@[p] == candidate,
            decreases taken@.len() - i,
        {
            if taken[i] == candidate {
                found = true;
            }
            i = i + 1;
        }
        if !found {
            return candidate;
        }
        candidate = candidate + 1;
    }
    proof {
        if taken@.contains(candidate) {
            assert forall|j: usize| 1 <= j <= candidate implies taken@.contains(j) by {}
            lemma_holding_range_is_long(taken@, candidate as nat);
        }
    }
    candidate
}

} // verus!
