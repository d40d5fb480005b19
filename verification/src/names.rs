//! Kubernetes-safe names for the Jobs that stand for containers.
//!
//! A Job is named `ss-` followed by the container id. Kubernetes limits names
//! to 63 bytes; a longer name keeps `ss-` and at most 52 bytes of the id (cut
//! at a character boundary) and gets a dash and the first seven hexadecimal
//! digits of the CRC-32 of the container id, so that the name stays the same
//! across restarts.

use vstd::prelude::*;
use vstd::utf8::*;
use vstd::string::*;
use crate::text::{boundary_at_most, floor_boundary, lemma_encode_ascii, lemma_encode_utf8_concat};

verus! {

/// The CRC-32 (IEEE) checksum of `data`, as `crc32fast::hash` computes it.
pub uninterp spec fn crc32_ieee(data: Seq<u8>) -> u32;

/// `crc32fast::hash`: the CRC-32 (IEEE) checksum of the bytes. The contract
/// only ties the result to the bytes through the name `crc32_ieee`; what the
/// checksum is, is not stated.
#[verifier::external_body]
fn crc32_checksum(data: &[u8]) -> (sum: u32)
    ensures
        sum == crc32_ieee(data@),
{
    crc32fast::hash(data)
}

/// The character of a hexadecimal digit, in lower case.
pub open spec fn hex_digit(d: nat) -> char {
    if d < 10 {
        (48 + d) as char
    } else {
        (87 + d) as char
    }
}

/// The lower-case hexadecimal digits of `n`, without leading zeros, as
/// `format!("{:x}", n)` writes them.
pub open spec fn hex_lower(n: nat) -> Seq<char>
    decreases n,
{
    if n < 16 {
        seq![hex_digit(n)]
    } else {
        hex_lower(n / 16).push(hex_digit(n % 16))
    }
}

/// The bytes of a sequence of ASCII characters.
pub open spec fn ascii_bytes(chars: Seq<char>) -> Seq<u8> {
    Seq::new(chars.len(), |i: int| chars[i] as u8)
}

/// The bytes of `ss-`.
pub open spec fn name_prefix() -> Seq<u8> {
    seq![115u8, 115u8, 45u8]
}

/// The checksum digits a long name ends with: the first seven lower-case
/// hexadecimal digits of `sum`, or all of them when it has fewer.
pub open spec fn checksum_suffix(sum: u32) -> Seq<char> {
    if hex_lower(sum as nat).len() > 7 {
        hex_lower(sum as nat).take(7)
    } else {
        hex_lower(sum as nat)
    }
}

/// The Job name for a container id whose checksum is `sum`, as UTF-8 bytes:
/// `ss-` and the id; or, when that is longer than 63 bytes, `ss-`, the id cut
/// to at most 52 bytes at a character boundary, a dash and the checksum
/// digits.
pub open spec fn name_with_checksum_bytes(id: Seq<u8>, sum: u32) -> Seq<u8> {
    let name = name_prefix() + id;
    if name.len() <= 63 {
        name
    } else {
        name_prefix() + id.take(boundary_at_most(id, 52)) + seq![45u8] + ascii_bytes(
            checksum_suffix(sum),
        )
    }
}

/// The Job name for a container id, as UTF-8 bytes.
pub open spec fn sanitized_name_bytes(id: Seq<u8>) -> Seq<u8> {
    name_with_checksum_bytes(id, crc32_ieee(id))
}

/// 16 to the power `k`.
pub open spec fn pow16(k: nat) -> nat
    decreases k,
{
    if k == 0 {
        1
    } else {
        16 * pow16((k - 1) as nat)
    }
}

proof fn lemma_hex_digit_ascii(d: nat)
    requires
        d < 16,
    ensures
        '\0' <= hex_digit(d) <= '\u{7f}',
        (hex_digit(d) as u8) as nat == if d < 10 { 48 + d } else { 87 + d },
{
}

/// Hexadecimal digits are ASCII characters.
pub proof fn lemma_hex_lower_ascii(n: nat)
    ensures
        is_ascii_chars(hex_lower(n)),
        hex_lower(n).len() >= 1,
    decreases n,
{
    if n < 16 {
        lemma_hex_digit_ascii(n);
    } else {
        lemma_hex_lower_ascii(n / 16);
        lemma_hex_digit_ascii(n % 16);
        let h = hex_lower(n);
        assert forall|i| 0 <= i < h.len() implies '\0' <= #[trigger] h[i] <= '\u{7f}' by {
            if i < h.len() - 1 {
                assert(h[i] == hex_lower(n / 16)[i]);
            }
        }
    }
}

/// `n` has more than `k` hexadecimal digits exactly when it is at least 16^k.
pub proof fn lemma_hex_lower_len(n: nat, k: nat)
    requires
        k >= 1,
    ensures
        hex_lower(n).len() > k <==> n >= pow16(k),
    decreases k,
{
    reveal_with_fuel(pow16, 2);
    if n < 16 {
        lemma_pow16_at_least_16(k);
    } else if k == 1 {
        lemma_hex_lower_ascii(n / 16);
    } else {
        lemma_hex_lower_len(n / 16, (k - 1) as nat);
        let p = pow16((k - 1) as nat);
        assert(n >= 16 * p <==> n / 16 >= p) by (nonlinear_arith);
    }
}

proof fn lemma_pow16_at_least_16(k: nat)
    requires
        k >= 1,
    ensures
        pow16(k) >= 16,
    decreases k,
{
    reveal_with_fuel(pow16, 2);
    if k > 1 {
        lemma_pow16_at_least_16((k - 1) as nat);
    }
}

/// The text of one lower-case hexadecimal digit.
pub fn hex_digit_str(d: u32) -> (s: &'static str)
    requires
        d < 16,
    ensures
        s@ == seq![hex_digit(d as nat)],
{
    proof {
        reveal_strlit("0");
        reveal_strlit("1");
        reveal_strlit("2");
        reveal_strlit("3");
        reveal_strlit("4");
        reveal_strlit("5");
        reveal_strlit("6");
        reveal_strlit("7");
        reveal_strlit("8");
        reveal_strlit("9");
        reveal_strlit("a");
        reveal_strlit("b");
        reveal_strlit("c");
        reveal_strlit("d");
        reveal_strlit("e");
        reveal_strlit("f");
    }
    let s = if d == 0 {
        "0"
    } else if d == 1 {
        "1"
    } else if d == 2 {
        "2"
    } else if d == 3 {
        "3"
    } else if d == 4 {
        "4"
    } else if d == 5 {
        "5"
    } else if d == 6 {
        "6"
    } else if d == 7 {
        "7"
    } else if d == 8 {
        "8"
    } else if d == 9 {
        "9"
    } else if d == 10 {
        "a"
    } else if d == 11 {
        "b"
    } else if d == 12 {
        "c"
    } else if d == 13 {
        "d"
    } else if d == 14 {
        "e"
    } else {
        "f"
    };
    assert(s@ =~= seq![hex_digit(d as nat)]);
    s
}

/// The lower-case hexadecimal text of `n`, as `format!("{:x}", n)` gives it.
pub fn hex_string(n: u32) -> (s: String)
    ensures
        s@ == hex_lower(n as nat),
    decreases n,
{
    if n < 16 {
        crate::text::owned(hex_digit_str(n))
    } else {
        let mut s = hex_string(n / 16);
        s.append(hex_digit_str(n % 16));
        s
    }
}

/// The Job name for a container id whose CRC-32 is `checksum`: `ss-` and the
/// id; or, when that is longer than 63 bytes, `ss-`, the id cut to at most 52
/// bytes at a character boundary, a dash and the first seven hexadecimal
/// digits of the checksum (all of them when it has fewer).
pub fn name_with_checksum(container_id: &str, checksum: u32) -> (name: String)
    ensures
        encode_utf8(name@) == name_with_checksum_bytes(container_id.spec_bytes(), checksum),
        container_id.spec_bytes().len() <= 60 ==> name@ == seq!['s', 's', '-'] + container_id@,
{
    let id_bytes = container_id.as_bytes();
    proof {
        reveal_strlit("ss-");
        reveal_strlit("-");
        lemma_encode_ascii(seq!['s', 's', '-']);
        lemma_encode_ascii(seq!['-']);
        assert("ss-"@ =~= seq!['s', 's', '-']);
        assert("-"@ =~= seq!['-']);
    }
    if id_bytes.len() <= 60 {
        let mut name = String::new();
        name.append("ss-");
        name.append(container_id);
        proof {
            lemma_encode_utf8_concat(seq!['s', 's', '-'], container_id@);
            assert(name@ =~= seq!['s', 's', '-'] + container_id@);
            assert(encode_utf8(seq!['s', 's', '-']) =~= name_prefix());
        }
        name
    } else {
        let hex = hex_string(checksum);
        proof {
            lemma_hex_lower_ascii(checksum as nat);
        }
        let digits = hex.unicode_len();
        let keep = if digits > 7 {
            7
        } else {
            digits
        };
        let suffix = hex.as_str().substring_char(0, keep);
        proof {
            assert(suffix@ =~= checksum_suffix(checksum));
        }
        let cut = floor_boundary(container_id, 52);
        let (head, _tail) = container_id.split_at(cut);
        let mut name = String::new();
        name.append("ss-");
        name.append(head);
        name.append("-");
        name.append(suffix);
        proof {
            let p = seq!['s', 's', '-'];
            let d = seq!['-'];
            assert(name@ =~= p + head@ + d + suffix@);
            lemma_encode_utf8_concat(p, head@);
            lemma_encode_utf8_concat(p + head@, d);
            lemma_encode_utf8_concat(p + head@ + d, suffix@);
            assert(is_ascii_chars(suffix@));
            lemma_encode_ascii(suffix@);
            assert(encode_utf8(p) =~= name_prefix());
            assert(head.spec_bytes() =~= container_id.spec_bytes().take(cut as int));
            assert(encode_utf8(suffix@) =~= ascii_bytes(checksum_suffix(checksum)));
            assert(encode_utf8(name@) =~= name_with_checksum_bytes(
                container_id.spec_bytes(),
                checksum,
            ));
        }
        name
    }
}

/// The Job name for a container id: `ss-` and the id; or, when that is longer
/// than 63 bytes, `ss-`, the id cut to at most 52 bytes at a character
/// boundary, a dash and the first seven hexadecimal digits of the CRC-32 of
/// the id (all of them when it has fewer).
pub fn sanitize_name(container_id: &str) -> (name: String)
    ensures
        encode_utf8(name@) == sanitized_name_bytes(container_id.spec_bytes()),
        container_id.spec_bytes().len() <= 60 ==> name@ == seq!['s', 's', '-'] + container_id@,
{
    let id_bytes = container_id.as_bytes();
    if id_bytes.len() <= 60 {
        let name = name_with_checksum(container_id, 0);
        proof {
            assert(name_with_checksum_bytes(id_bytes@, 0) == sanitized_name_bytes(id_bytes@));
        }
        name
    } else {
        let sum = crc32_checksum(id_bytes);
        name_with_checksum(container_id, sum)
    }
}

} // verus!
