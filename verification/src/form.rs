//! URL-encoded forms.

use vstd::prelude::*;
use vstd::string::StringSliceAdditionalSpecFns;
use vstd::utf8::*;

verus! {

/// `&`
pub const AMPERSAND: u8 = 38;

/// `=`
pub const EQUALS: u8 = 61;

/// `+`
pub const PLUS: u8 = 43;

/// `%`
pub const PERCENT: u8 = 37;

/// A space.
pub const SPACE: u8 = 32;

/// The value of a hexadecimal digit, in either case.
pub open spec fn hex_value(b: u8) -> Option<u8> {
    if 48 <= b <= 57 {
        Some((b - 48) as u8)
    } else if 65 <= b <= 70 {
        Some((b - 55) as u8)
    } else if 97 <= b <= 102 {
        Some((b - 87) as u8)
    } else {
        None
    }
}

/// A percent sign with two hexadecimal digits behind it starts `b`.
pub open spec fn escape_at_front(b: Seq<u8>) -> bool {
    b.len() > 2 && b[0] == PERCENT && hex_value(b[1]) is Some && hex_value(b[2]) is Some
}

/// The decoded form: `+` stands for a space, an escape for the byte it names, and
/// every other byte for itself.
pub open spec fn url_decoded(b: Seq<u8>) -> Seq<u8>
    decreases b.len(),
{
    if b.len() == 0 {
        Seq::empty()
    } else if b[0] == PLUS {
        seq![SPACE] + url_decoded(b.skip(1))
    } else if escape_at_front(b) {
        seq![(16 * hex_value(b[1])->0 + hex_value(b[2])->0) as u8] + url_decoded(b.skip(3))
    } else {
        seq![b[0]] + url_decoded(b.skip(1))
    }
}

fn hex_digit(b: u8) -> (v: Option<u8>)
    ensures
        v == hex_value(b),
        v is Some ==> v->0 < 16,
{
    if 48 <= b && b <= 57 {
        Some(b - 48)
    } else if 65 <= b && b <= 70 {
        Some(b - 55)
    } else if 97 <= b && b <= 102 {
        Some(b - 87)
    } else {
        None
    }
}

/// Decodes `input` into `out` as far as it fits, and returns how many bytes were
/// written.
pub fn url_decode(input: &str, out: &mut [u8]) -> (n: usize)
    ensures
        final(out)@.len() == old(out)@.len(),
        n == (if url_decoded(input.spec_bytes()).len() < old(out)@.len() {
            url_decoded(input.spec_bytes()).len()
        } else {
            old(out)@.len()
        }),
        final(out)@ == url_decoded(input.spec_bytes()).take(n as int) + old(out)@.skip(n as int),
{
    let bytes: &[u8] = input.as_bytes();
    let ghost before = out@;
    let ghost all = url_decoded(bytes@);
    let room: usize = out.len();
    let total: usize = bytes.len();
    let mut i: usize = 0;
    let mut o: usize = 0;
    assert(bytes@.skip(0) =~= bytes@);
    assert(all.take(0) + before.skip(0) =~= before);
    while i < total && o < room
        invariant
            total == bytes@.len(),
            room == before.len(),
            i <= total,
            o <= room,
            out@.len() == room,
            o <= all.len(),
            all.skip(o as int) == url_decoded(bytes@.skip(i as int)),
            out@ == all.take(o as int) + before.skip(o as int),
        decreases total - i,
    {
        let ghost rest = bytes@.skip(i as int);
        let ghost tail = all.skip(o as int);
        proof {
            assert(rest.len() > 0 && rest[0] == bytes@[i as int]);
            if rest.len() > 2 {
                assert(rest[1] == bytes@[i + 1] && rest[2] == bytes@[i + 2]);
            }
        }
        let mut step: usize = 1;
        let mut byte: u8 = bytes[i];
        if byte == PLUS {
            byte = SPACE;
        } else if byte == PERCENT && total - i > 2 {
            let hi = hex_digit(bytes[i + 1]);
            let lo = hex_digit(bytes[i + 2]);
            if let (Some(h), Some(l)) = (hi, lo) {
                byte = h * 16 + l;
                step = 3;
            }
        }
        proof {
            assert(tail == seq![byte] + url_decoded(rest.skip(step as int)));
            assert(rest.skip(step as int) =~= bytes@.skip(i + step));
            assert(tail[0] == byte);
            assert(all[o as int] == tail[0]);
            assert(all.skip(o + 1) =~= tail.skip(1));
            assert(tail.skip(1) =~= url_decoded(rest.skip(step as int)));
        }
        out[o] = byte;
        i = i + step;
        o = o + 1;
        assert(out@ =~= all.take(o as int) + before.skip(o as int));
    }
    proof {
        if i >= total {
            assert(bytes@.skip(i as int) =~= Seq::<u8>::empty());
            assert(all.skip(o as int).len() == 0);
        }
    }
    o
}

/// The first place of `c`, or the length where it does not occur.
pub open spec fn first_of(b: Seq<u8>, c: u8) -> int
    decreases b.len(),
{
    if b.len() == 0 || b[0] == c {
        0
    } else {
        1 + first_of(b.skip(1), c)
    }
}

/// The value of a pair `key=value`, where its key is the given one.
pub open spec fn pair_value(pair: Seq<u8>, key: Seq<u8>) -> Option<Seq<u8>> {
    let k = first_of(pair, EQUALS);
    if k < pair.len() && pair.take(k) == key {
        Some(pair.skip(k + 1))
    } else {
        None
    }
}

/// The value of the last pair with the given key, in a body of pairs joined by `&`.
pub open spec fn field(body: Seq<u8>, key: Seq<u8>) -> Option<Seq<u8>>
    decreases body.len(),
{
    let k = first_of(body, AMPERSAND);
    if !(0 <= k < body.len()) {
        pair_value(body, key)
    } else {
        match field(body.skip(k + 1), key) {
            Some(v) => Some(v),
            None => pair_value(body.take(k), key),
        }
    }
}

/// `ssid`
pub open spec fn ssid_key() -> Seq<u8> {
    seq![115u8, 115, 105, 100]
}

/// `pass`
pub open spec fn pass_key() -> Seq<u8> {
    seq![112u8, 97, 115, 115]
}

proof fn lemma_first_of(b: Seq<u8>, c: u8)
    ensures
        0 <= first_of(b, c) <= b.len(),
        first_of(b, c) < b.len() ==> b[first_of(b, c)] == c,
        forall|i: int| 0 <= i < first_of(b, c) ==> b[i] != c,
    decreases b.len(),
{
    if b.len() > 0 && b[0] != c {
        lemma_first_of(b.skip(1), c);
        assert forall|i: int| 0 <= i < first_of(b, c) implies b[i] != c by {
            if i > 0 {
                assert(b.skip(1)[i - 1] == b[i]);
            }
        }
    }
}

proof fn lemma_first_of_unique(b: Seq<u8>, c: u8, k: int)
    requires
        0 <= k <= b.len(),
        k < b.len() ==> b[k] == c,
        forall|i: int| 0 <= i < k ==> b[i] != c,
    ensures
        first_of(b, c) == k,
{
    lemma_first_of(b, c);
    let f = first_of(b, c);
    if f < k {
        assert(b[f] != c);
    } else if k < f {
        assert(b[k] != c);
    }
}

fn find(s: &str, c: u8) -> (k: usize)
    ensures
        k == first_of(s.spec_bytes(), c),
        k <= s.spec_bytes().len(),
        k < s.spec_bytes().len() ==> s.spec_bytes()[k as int] == c,
{
    let bytes: &[u8] = s.as_bytes();
    let mut k: usize = 0;
    while k < bytes.len() && bytes[k] != c
        invariant
            k <= bytes@.len(),
            forall|i: int| 0 <= i < k ==> bytes@[i] != c,
        ensures
            k <= bytes@.len(),
            k < bytes@.len() ==> bytes@[k as int] == c,
            forall|i: int| 0 <= i < k ==> bytes@[i] != c,
        decreases bytes.len() - k,
    {
        k = k + 1;
    }
    proof {
        lemma_first_of_unique(bytes@, c, k as int);
    }
    k
}

/// An ASCII byte stands on a character boundary, and so does what follows it.
proof fn lemma_ascii_boundary(b: Seq<u8>, k: int)
    requires
        valid_utf8(b),
        0 <= k < b.len(),
        b[k] < 0x80,
    ensures
        is_char_boundary(b, k),
{
    utf8_byte_ranges_bitwise(b[k]);
    is_char_boundary_iff_not_is_continuation_byte(b, k);
}

proof fn lemma_behind_ascii(b: Seq<u8>)
    requires
        valid_utf8(b),
        b.len() > 0,
        b[0] < 0x80,
    ensures
        is_char_boundary(b, 1),
{
    utf8_byte_ranges_bitwise(b[0]);
    reveal_with_fuel(is_char_boundary, 2);
}

/// The parts before and behind the ASCII byte at `k`.
fn cut(s: &str, k: usize) -> (r: (&str, &str))
    requires
        k < s.spec_bytes().len(),
        s.spec_bytes()[k as int] < 0x80,
    ensures
        r.0.spec_bytes() == s.spec_bytes().take(k as int),
        r.1.spec_bytes() == s.spec_bytes().skip(k + 1),
{
    proof {
        encode_utf8_valid_utf8(s@);
        lemma_ascii_boundary(s.spec_bytes(), k as int);
    }
    let (head, tail) = s.split_at(k);
    proof {
        encode_utf8_valid_utf8(tail@);
        lemma_behind_ascii(tail.spec_bytes());
    }
    let (_sep, rest) = tail.split_at(1);
    assert(head.spec_bytes() =~= s.spec_bytes().take(k as int));
    assert(rest.spec_bytes() =~= s.spec_bytes().skip(k + 1));
    (head, rest)
}

fn same_bytes(s: &str, key: &[u8]) -> (b: bool)
    ensures
        b == (s.spec_bytes() == key@),
{
    let bytes: &[u8] = s.as_bytes();
    if bytes.len() != key.len() {
        return false;
    }
    let mut i: usize = 0;
    while i < key.len()
        invariant
            i <= key@.len(),
            bytes@.len() == key@.len(),
            bytes@ == s.spec_bytes(),
            forall|j: int| 0 <= j < i ==> bytes@[j] == key@[j],
        decreases key.len() - i,
    {
        if bytes[i] != key[i] {
            return false;
        }
        i = i + 1;
    }
    assert(bytes@ =~= key@);
    true
}

/// The newer value if there is one, else the older.
pub open spec fn newer(new: Option<Seq<u8>>, older: Option<Seq<u8>>) -> Option<Seq<u8>> {
    match new {
        Some(v) => Some(v),
        None => older,
    }
}

/// The bytes of an optional string.
pub open spec fn bytes_of(s: Option<&str>) -> Option<Seq<u8>> {
    match s {
        Some(t) => Some(t.spec_bytes()),
        None => None,
    }
}

/// The network name and password of a form body such as `ssid=value&pass=value`,
/// still encoded. A missing password is the empty one; a key that comes more than
/// once has its last value.
pub fn parse_form(body: &str) -> (r: Option<(&str, &str)>)
    ensures
        r is Some == field(body.spec_bytes(), ssid_key()) is Some,
        match r {
            Some((ssid, pass)) => {
                &&& field(body.spec_bytes(), ssid_key()) == Some(ssid.spec_bytes())
                &&& pass.spec_bytes() == (match field(body.spec_bytes(), pass_key()) {
                    Some(v) => v,
                    None => Seq::empty(),
                })
            },
            None => true,
        },
{
    let mut ssid: Option<&str> = None;
    let mut pass: Option<&str> = None;
    let mut rest: &str = body;
    let mut more: bool = true;
    let ssid_bytes: [u8; 4] = [115, 115, 105, 100];
    let pass_bytes: [u8; 4] = [112, 97, 115, 115];
    assert(ssid_bytes@ =~= ssid_key());
    assert(pass_bytes@ =~= pass_key());
    while more
        invariant
            ssid_bytes@ == ssid_key(),
            pass_bytes@ == pass_key(),
            more ==> field(body.spec_bytes(), ssid_key()) == newer(
                field(rest.spec_bytes(), ssid_key()),
                bytes_of(ssid),
            ),
            more ==> field(body.spec_bytes(), pass_key()) == newer(
                field(rest.spec_bytes(), pass_key()),
                bytes_of(pass),
            ),
            !more ==> field(body.spec_bytes(), ssid_key()) == bytes_of(ssid),
            !more ==> field(body.spec_bytes(), pass_key()) == bytes_of(pass),
        decreases (if more {
            1 + rest.spec_bytes().len()
        } else {
            0
        }),
    {
        let k = find(rest, AMPERSAND);
        let (pair, next) = if k < rest.as_bytes().len() {
            cut(rest, k)
        } else {
            more = false;
            (rest, rest)
        };
        let e = find(pair, EQUALS);
        if e < pair.as_bytes().len() {
            let (key, value) = cut(pair, e);
            proof {
                assert(key.spec_bytes() == pair.spec_bytes().take(e as int));
                assert(ssid_key() != pass_key()) by {
                    assert(ssid_key()[0] != pass_key()[0]);
                }
            }
            if same_bytes(key, ssid_bytes.as_slice()) {
                ssid = Some(value);
            } else if same_bytes(key, pass_bytes.as_slice()) {
                pass = Some(value);
            }
        }
        rest = next;
    }
    match ssid {
        None => None,
        Some(name) => {
            let password = match pass {
                Some(p) => p,
                None => {
                    proof {
                        reveal_strlit("");
                        assert(""@ =~= Seq::<char>::empty());
                        assert(encode_utf8(Seq::<char>::empty()) =~= Seq::<u8>::empty());
                    }
                    ""
                },
            };
            Some((name, password))
        },
    }
}

/// Text without `+` and `%` decodes to itself.
pub proof fn plain_text_decodes_to_itself(b: Seq<u8>)
    requires
        forall|i: int| 0 <= i < b.len() ==> b[i] != PLUS && b[i] != PERCENT,
    ensures
        url_decoded(b) == b,
    decreases b.len(),
{
    if b.len() > 0 {
        assert forall|i: int| 0 <= i < b.skip(1).len() implies b.skip(1)[i] != PLUS && b.skip(1)[i]
            != PERCENT by {
            assert(b.skip(1)[i] == b[i + 1]);
        }
        plain_text_decodes_to_itself(b.skip(1));
        assert(seq![b[0]] + b.skip(1) =~= b);
    } else {
        assert(b =~= Seq::<u8>::empty());
    }
}

/// The upper-case digit of a value below 16.
pub open spec fn hex_char(v: u8) -> u8 {
    if v < 10 {
        (48 + v) as u8
    } else {
        (55 + v) as u8
    }
}

/// Every byte written as an escape.
pub open spec fn percent_encoded(b: Seq<u8>) -> Seq<u8>
    decreases b.len(),
{
    if b.len() == 0 {
        Seq::empty()
    } else {
        seq![PERCENT, hex_char(b[0] / 16), hex_char(b[0] % 16)] + percent_encoded(b.skip(1))
    }
}

/// Escaped bytes decode to themselves, whatever they are.
pub proof fn escaped_bytes_decode_to_themselves(b: Seq<u8>)
    ensures
        url_decoded(percent_encoded(b)) == b,
    decreases b.len(),
{
    if b.len() == 0 {
        assert(b =~= Seq::<u8>::empty());
    } else {
        let e = percent_encoded(b);
        escaped_bytes_decode_to_themselves(b.skip(1));
        assert(e.skip(3) =~= percent_encoded(b.skip(1)));
        assert(hex_value(e[1]) == Some((b[0] / 16) as u8));
        assert(hex_value(e[2]) == Some((b[0] % 16) as u8));
        assert(seq![b[0]] + b.skip(1) =~= b);
    }
}

/// Decoding never makes text longer.
pub proof fn decoding_never_grows(b: Seq<u8>)
    ensures
        url_decoded(b).len() <= b.len(),
    decreases b.len(),
{
    if b.len() > 0 {
        decoding_never_grows(b.skip(1));
        if b.len() > 2 {
            decoding_never_grows(b.skip(3));
        }
    }
}

/// A single pair has the value behind its first equals sign, whatever follows.
pub proof fn single_pair_has_its_value(key: Seq<u8>, value: Seq<u8>)
    requires
        forall|i: int| 0 <= i < key.len() ==> key[i] != EQUALS && key[i] != AMPERSAND,
        forall|i: int| 0 <= i < value.len() ==> value[i] != AMPERSAND,
    ensures
        field(key + seq![EQUALS] + value, key) == Some(value),
{
    let body = key + seq![EQUALS] + value;
    lemma_first_of_unique(body, EQUALS, key.len() as int);
    lemma_first_of_unique(body, AMPERSAND, body.len() as int);
    assert(body.take(key.len() as int) =~= key);
    assert(body.skip((key.len() + 1) as int) =~= value);
}

/// Of several pairs the last one with a key counts; those with other keys do not
/// matter.
pub proof fn last_pair_wins(pair: Seq<u8>, rest: Seq<u8>, key: Seq<u8>)
    requires
        forall|i: int| 0 <= i < pair.len() ==> pair[i] != AMPERSAND,
    ensures
        field(pair + seq![AMPERSAND] + rest, key) == newer(
            field(rest, key),
            pair_value(pair, key),
        ),
{
    let body = pair + seq![AMPERSAND] + rest;
    lemma_first_of_unique(body, AMPERSAND, pair.len() as int);
    assert(body.take(pair.len() as int) =~= pair);
    assert(body.skip((pair.len() + 1) as int) =~= rest);
}

/// `d` is a hexadecimal digit that counts `h`, in either case.
pub open spec fn is_digit_of(d: u8, h: u8) -> bool {
    if h < 10 {
        d == 48 + h
    } else {
        h < 16 && (d == 55 + h || d == 87 + h)
    }
}

/// How decoding goes through a text from its front: a plus is a space, a percent sign
/// with two hexadecimal digits is the byte that they count, and any other byte, a percent
/// sign without such digits among them, is itself.
pub proof fn text_decodes_from_its_front(c: u8, rest: Seq<u8>)
    ensures
        url_decoded(seq![43u8] + rest) == seq![32u8] + url_decoded(rest),
        c != 43 && c != 37 ==> url_decoded(seq![c] + rest) == seq![c] + url_decoded(rest),
        rest.len() < 2 || !(exists|h: u8| is_digit_of(rest[0], h)) || !(exists|l: u8|
            is_digit_of(rest[1], l)) ==> url_decoded(seq![37u8] + rest) == seq![37u8]
            + url_decoded(rest),
{
    assert((seq![43u8] + rest).skip(1) =~= rest);
    assert((seq![c] + rest).skip(1) =~= rest);
    let p = seq![37u8] + rest;
    assert(p.skip(1) =~= rest);
    if escape_at_front(p) {
        assert(p[1] == rest[0] && p[2] == rest[1]);
        assert(is_digit_of(rest[0], hex_value(rest[0])->0));
        assert(is_digit_of(rest[1], hex_value(rest[1])->0));
    }
}

/// An escape is the byte that its two digits count.
pub proof fn escape_decodes_to_its_byte(d: u8, e: u8, h: u8, l: u8, rest: Seq<u8>)
    requires
        is_digit_of(d, h),
        is_digit_of(e, l),
    ensures
        url_decoded(seq![37u8, d, e] + rest) == seq![(16 * h + l) as u8] + url_decoded(rest),
{
    let p = seq![37u8, d, e] + rest;
    assert(p.skip(3) =~= rest);
    assert(hex_value(d) == Some(h) && hex_value(e) == Some(l));
}

/// Nothing decodes to nothing.
pub proof fn nothing_decodes_to_nothing()
    ensures
        url_decoded(Seq::empty()) == Seq::<u8>::empty(),
{
}

/// A pair has a value for its own key and for no other; what has no equals sign has none.
pub proof fn pair_has_a_value_for_its_key(key: Seq<u8>, value: Seq<u8>, asked: Seq<u8>)
    requires
        forall|i: int| 0 <= i < key.len() ==> key[i] != 61,
    ensures
        pair_value(key + seq![61u8] + value, asked) == (if asked == key {
            Some(value)
        } else {
            None
        }),
        pair_value(key, asked) is None,
{
    let pair = key + seq![61u8] + value;
    lemma_first_of_unique(pair, EQUALS, key.len() as int);
    lemma_first_of_unique(key, EQUALS, key.len() as int);
    assert(pair.take(key.len() as int) =~= key);
    assert(pair.skip((key.len() + 1) as int) =~= value);
}

/// A body without an ampersand is one pair; otherwise what stands behind the first one
/// has the say, and what stands before it only where that has none.
pub proof fn later_pairs_have_the_say(pair: Seq<u8>, rest: Seq<u8>, key: Seq<u8>)
    requires
        forall|i: int| 0 <= i < pair.len() ==> pair[i] != 38,
    ensures
        field(pair, key) == pair_value(pair, key),
        field(pair + seq![38u8] + rest, key) == (if field(rest, key) is Some {
            field(rest, key)
        } else {
            pair_value(pair, key)
        }),
{
    last_pair_wins(pair, rest, key);
    lemma_first_of_unique(pair, AMPERSAND, pair.len() as int);
}

/// The keys are the words `ssid` and `pass`.
pub proof fn keys_are_their_words()
    ensures
        ssid_key().len() == "ssid"@.len(),
        forall|i: int| 0 <= i < ssid_key().len() ==> #[trigger] ssid_key()[i] == "ssid"@[i] as u8,
        pass_key().len() == "pass"@.len(),
        forall|i: int| 0 <= i < pass_key().len() ==> #[trigger] pass_key()[i] == "pass"@[i] as u8,
{
    reveal_strlit("ssid");
    reveal_strlit("pass");
}

} // verus!
