//! Container ids: the first twelve hexadecimal digits of a random UUID.

use vstd::prelude::*;
use vstd::string::*;
use crate::names::{hex_digit, hex_digit_str};

verus! {

/// A lower-case hexadecimal digit.
pub open spec fn is_lower_hex(c: char) -> bool {
    ('0' <= c <= '9') || ('a' <= c <= 'f')
}

/// The two lower-case hexadecimal digits of a byte.
pub open spec fn hex_pair(b: u8) -> Seq<char> {
    seq![hex_digit((b / 16) as nat), hex_digit((b % 16) as nat)]
}

/// The hexadecimal digits of a run of bytes, two per byte.
pub open spec fn hex_run(b: Seq<u8>) -> Seq<char>
    decreases b.len(),
{
    if b.len() == 0 {
        seq![]
    } else {
        hex_run(b.drop_last()) + hex_pair(b.last())
    }
}

/// The hyphenated lower-case text of a UUID with the given sixteen bytes:
/// groups of 4, 2, 2, 2 and 6 bytes joined by dashes.
pub open spec fn hyphenated_uuid(b: Seq<u8>) -> Seq<char> {
    hex_run(b.subrange(0, 4)) + seq!['-'] + hex_run(b.subrange(4, 6)) + seq!['-'] + hex_run(
        b.subrange(6, 8),
    ) + seq!['-'] + hex_run(b.subrange(8, 10)) + seq!['-'] + hex_run(b.subrange(10, 16))
}

/// The text without its dashes.
pub open spec fn without_dashes(s: Seq<char>) -> Seq<char>
    decreases s.len(),
{
    if s.len() == 0 {
        seq![]
    } else if s.last() == '-' {
        without_dashes(s.drop_last())
    } else {
        without_dashes(s.drop_last()).push(s.last())
    }
}

/// Removing dashes from a concatenation removes them from each part.
pub proof fn lemma_without_dashes_concat(a: Seq<char>, b: Seq<char>)
    ensures
        without_dashes(a + b) == without_dashes(a) + without_dashes(b),
    decreases b.len(),
{
    if b.len() == 0 {
        assert(a + b =~= a);
        assert(without_dashes(b) =~= Seq::<char>::empty());
        assert(without_dashes(a) + without_dashes(b) =~= without_dashes(a));
    } else {
        lemma_without_dashes_concat(a, b.drop_last());
        assert((a + b).drop_last() =~= a + b.drop_last());
        assert((a + b).last() == b.last());
        if b.last() == '-' {
        } else {
            assert(without_dashes(a + b) =~= without_dashes(a) + without_dashes(b));
        }
    }
}

proof fn lemma_hex_digit_is_lower_hex(d: nat)
    requires
        d < 16,
    ensures
        is_lower_hex(hex_digit(d)),
        hex_digit(d) != '-',
{
}

/// The digits of a run of bytes are lower-case hexadecimal, two per byte,
/// and hold no dash.
pub proof fn lemma_hex_run(b: Seq<u8>)
    ensures
        hex_run(b).len() == 2 * b.len(),
        forall|i: int| 0 <= i < hex_run(b).len() ==> is_lower_hex(#[trigger] hex_run(b)[i]),
        without_dashes(hex_run(b)) == hex_run(b),
    decreases b.len(),
{
    if b.len() > 0 {
        lemma_hex_run(b.drop_last());
        let p = hex_pair(b.last());
        lemma_hex_digit_is_lower_hex((b.last() / 16) as nat);
        lemma_hex_digit_is_lower_hex((b.last() % 16) as nat);
        lemma_without_dashes_concat(hex_run(b.drop_last()), p);
        reveal_with_fuel(without_dashes, 3);
        assert(p.drop_last().drop_last() =~= Seq::<char>::empty());
        assert(without_dashes(p) =~= p);
        let h = hex_run(b);
        assert forall|i: int| 0 <= i < h.len() implies is_lower_hex(#[trigger] h[i]) by {
            if i < hex_run(b.drop_last()).len() {
                assert(h[i] == hex_run(b.drop_last())[i]);
            } else {
                assert(h[i] == p[i - hex_run(b.drop_last()).len()]);
            }
        }
    }
}

/// The container id that a UUID with the given bytes gives: the hexadecimal
/// digits of its first six bytes.
pub open spec fn uuid_container_id(b: Seq<u8>) -> Seq<char> {
    hex_run(b.subrange(0, 4)) + hex_run(b.subrange(4, 6))
}

/// Without its dashes, the text of a UUID is 32 lower-case hexadecimal digits,
/// the first twelve being those of its first six bytes.
pub proof fn lemma_hyphenated_uuid_digits(b: Seq<u8>)
    requires
        b.len() == 16,
    ensures
        without_dashes(hyphenated_uuid(b)).len() == 32,
        without_dashes(hyphenated_uuid(b)).take(12) == uuid_container_id(b),
        forall|i: int|
            0 <= i < 32 ==> is_lower_hex(#[trigger] without_dashes(hyphenated_uuid(b))[i]),
{
    let h1 = hex_run(b.subrange(0, 4));
    let h2 = hex_run(b.subrange(4, 6));
    let h3 = hex_run(b.subrange(6, 8));
    let h4 = hex_run(b.subrange(8, 10));
    let h5 = hex_run(b.subrange(10, 16));
    let d = seq!['-'];
    lemma_hex_run(b.subrange(0, 4));
    lemma_hex_run(b.subrange(4, 6));
    lemma_hex_run(b.subrange(6, 8));
    lemma_hex_run(b.subrange(8, 10));
    lemma_hex_run(b.subrange(10, 16));
    reveal_with_fuel(without_dashes, 2);
    assert(d.drop_last() =~= Seq::<char>::empty());
    assert(without_dashes(d) =~= Seq::<char>::empty());
    lemma_without_dashes_concat(h1, d);
    lemma_without_dashes_concat(h1 + d, h2);
    lemma_without_dashes_concat(h1 + d + h2, d);
    lemma_without_dashes_concat(h1 + d + h2 + d, h3);
    lemma_without_dashes_concat(h1 + d + h2 + d + h3, d);
    lemma_without_dashes_concat(h1 + d + h2 + d + h3 + d, h4);
    lemma_without_dashes_concat(h1 + d + h2 + d + h3 + d + h4, d);
    lemma_without_dashes_concat(h1 + d + h2 + d + h3 + d + h4 + d, h5);
    let all = h1 + h2 + h3 + h4 + h5;
    assert(without_dashes(hyphenated_uuid(b)) =~= all);
    assert(all.take(12) =~= h1 + h2);
    assert forall|i: int| 0 <= i < 32 implies is_lower_hex(#[trigger] all[i]) by {
        if i < 8 {
            assert(all[i] == h1[i]);
        } else if i < 12 {
            assert(all[i] == h2[i - 8]);
        } else if i < 16 {
            assert(all[i] == h3[i - 12]);
        } else if i < 20 {
            assert(all[i] == h4[i - 16]);
        } else {
            assert(all[i] == h5[i - 20]);
        }
    }
}

/// `Uuid::new_v4` and `Uuid::into_bytes`: the sixteen bytes of a random
/// version-4 UUID. Only the version and variant bits that every such UUID
/// carries are stated; the other bits are random.
#[verifier::external_body]
fn random_uuid_bytes() -> (bytes: [u8; 16])
    ensures
        bytes@[6] / 16 == 4,
        bytes@[8] / 64 == 2,
{
    uuid::Uuid::new_v4().into_bytes()
}

/// `Uuid::from_bytes` and the `Display` text of a `Uuid` (`to_string`): the
/// hyphenated lower-case text of the UUID with the given bytes.
#[verifier::external_body]
fn uuid_text(bytes: [u8; 16]) -> (text: String)
    ensures
        text@ == hyphenated_uuid(bytes@),
{
    uuid::Uuid::from_bytes(bytes).to_string()
}

fn hex_char_str(c: char) -> (s: &'static str)
    requires
        is_lower_hex(c),
    ensures
        s@ == seq![c],
{
    let n = c as u32;
    let d: u32 = if n <= 57 {
        n - 48
    } else {
        n - 87
    };
    let s = hex_digit_str(d);
    assert(hex_digit(d as nat) == c);
    s
}

/// The text without its dashes, cut to its first twelve characters.
fn short_id(text: &str) -> (id: String)
    requires
        without_dashes(text@).len() >= 12,
        forall|i: int| 0 <= i < 12 ==> is_lower_hex(#[trigger] without_dashes(text@)[i]),
    ensures
        id@ == without_dashes(text@).take(12),
{
    let n = text.unicode_len();
    let mut id = String::new();
    let mut count: usize = 0;
    let mut i: usize = 0;
    while i < n && count < 12
        invariant
            i <= n == text@.len(),
            count == id@.len() <= 12,
            id@ == without_dashes(text@.take(i as int)),
            without_dashes(text@).len() >= 12,
            forall|k: int| 0 <= k < 12 ==> is_lower_hex(#[trigger] without_dashes(text@)[k]),
        decreases n - i,
    {
        let c = text.get_char(i);
        proof {
            assert(text@.take(i + 1).drop_last() =~= text@.take(i as int));
            lemma_without_dashes_concat(text@.take(i + 1), text@.skip(i + 1));
            assert(text@.take(i + 1) + text@.skip(i + 1) =~= text@);
        }
        if c != '-' {
            proof {
                assert(without_dashes(text@)[count as int] == c);
            }
            id.append(hex_char_str(c));
            count = count + 1;
        }
        i = i + 1;
    }
    proof {
        lemma_without_dashes_concat(text@.take(i as int), text@.skip(i as int));
        assert(text@.take(i as int) + text@.skip(i as int) =~= text@);
        if count < 12 {
            assert(text@.skip(i as int) =~= Seq::<char>::empty());
            assert(without_dashes(Seq::<char>::empty()) =~= Seq::<char>::empty());
        }
        assert(id@ =~= without_dashes(text@).take(12));
    }
    id
}

/// The container id for the UUID with the given bytes: its text without
/// dashes, cut to twelve characters, which are the hexadecimal digits of its
/// first six bytes.
pub fn container_id_from_uuid(bytes: [u8; 16]) -> (id: String)
    ensures
        id@ == without_dashes(hyphenated_uuid(bytes@)).take(12),
        id@ == uuid_container_id(bytes@),
{
    let text = uuid_text(bytes);
    proof {
        lemma_hyphenated_uuid_digits(bytes@);
    }
    short_id(text.as_str())
}

/// A new container id: the id of a random version-4 UUID (see
/// `container_id_from_uuid`). Which UUID is drawn is left open.
pub fn new_container_id() -> (id: String)
    ensures
        exists|b: Seq<u8>|
            b.len() == 16 && b[6] / 16 == 4 && b[8] / 64 == 2 && #[trigger] uuid_container_id(b)
                == id@,
        id@.len() == 12,
        forall|i: int| 0 <= i < 12 ==> is_lower_hex(#[trigger] id@[i]),
{
    let bytes = random_uuid_bytes();
    proof {
        lemma_hyphenated_uuid_digits(bytes@);
    }
    container_id_from_uuid(bytes)
}

} // verus!
