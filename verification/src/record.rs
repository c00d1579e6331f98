//! The bytes of a ban record.
//!
//! A record is written as the JSON object `{"reason":"..","expires":N}`
//! in its compact form: the reason as UTF-8 with the escapes that JSON
//! demands, the expiry as the shortest decimal numeral. Reading accepts
//! exactly what writing produces, so a byte string stands for at most one
//! record, and every other byte string counts as corrupt.

use crate::decimal::{decimal, decimal_bytes, digits_value, is_canonical, lemma_canonical,
    lemma_decimal, parse_u64};
use vstd::prelude::*;
use vstd::utf8::{decode_utf8, encode_utf8, valid_utf8};

verus! {

/// The lower-case hexadecimal digit of `n`, for `n` below 16.
pub open spec fn hex_digit(n: u8) -> u8 {
    if n < 10 {
        (48 + n) as u8
    } else {
        (87 + n) as u8
    }
}

/// How one byte of a string is written inside the quotes.
pub open spec fn escape_byte(b: u8) -> Seq<u8> {
    if b == 0x22 {
        seq![0x5cu8, 0x22u8]
    } else if b == 0x5c {
        seq![0x5cu8, 0x5cu8]
    } else if b == 0x08 {
        seq![0x5cu8, 0x62u8]
    } else if b == 0x0c {
        seq![0x5cu8, 0x66u8]
    } else if b == 0x0a {
        seq![0x5cu8, 0x6eu8]
    } else if b == 0x0d {
        seq![0x5cu8, 0x72u8]
    } else if b == 0x09 {
        seq![0x5cu8, 0x74u8]
    } else if b < 0x20 {
        seq![0x5cu8, 0x75u8, 0x30u8, 0x30u8, hex_digit(b / 16), hex_digit(b % 16)]
    } else {
        seq![b]
    }
}

/// How the bytes of a string are written inside the quotes.
pub open spec fn escaped(s: Seq<u8>) -> Seq<u8>
    decreases s.len(),
{
    if s.len() == 0 {
        Seq::empty()
    } else {
        escape_byte(s[0]) + escaped(s.skip(1))
    }
}

/// `{"reason":"`
pub open spec fn opening() -> Seq<u8> {
    seq![0x7bu8, 0x22u8, 0x72u8, 0x65u8, 0x61u8, 0x73u8, 0x6fu8, 0x6eu8, 0x22u8, 0x3au8, 0x22u8]
}

/// `","expires":`
pub open spec fn middle() -> Seq<u8> {
    seq![
        0x22u8,
        0x2cu8,
        0x22u8,
        0x65u8,
        0x78u8,
        0x70u8,
        0x69u8,
        0x72u8,
        0x65u8,
        0x73u8,
        0x22u8,
        0x3au8,
    ]
}

/// The bytes of the record with this reason and this expiry.
pub open spec fn record_bytes(reason: Seq<char>, expires: u64) -> Seq<u8> {
    opening() + escaped(encode_utf8(reason)) + middle() + decimal(expires as nat) + seq![0x7du8]
}

/// The record that `bytes` stands for, if it stands for one.
pub open spec fn record_of(bytes: Seq<u8>) -> Option<(Seq<char>, u64)> {
    if exists|reason: Seq<char>, expires: u64| #[trigger] record_bytes(reason, expires) == bytes {
        Some(
            choose|e: (Seq<char>, u64)| #[trigger] record_bytes(e.0, e.1) == bytes,
        )
    } else {
        None
    }
}

/// The byte that a two-character escape with the second character `c`
/// stands for.
spec fn short_code(c: u8) -> Option<u8> {
    if c == 0x22 {
        Some(0x22u8)
    } else if c == 0x5c {
        Some(0x5cu8)
    } else if c == 0x62 {
        Some(0x08u8)
    } else if c == 0x66 {
        Some(0x0cu8)
    } else if c == 0x6e {
        Some(0x0au8)
    } else if c == 0x72 {
        Some(0x0du8)
    } else if c == 0x74 {
        Some(0x09u8)
    } else {
        None
    }
}

/// The value of a lower-case hexadecimal digit.
spec fn hex_value(c: u8) -> Option<u8> {
    if 48 <= c <= 57 {
        Some((c - 48) as u8)
    } else if 97 <= c <= 102 {
        Some((c - 87) as u8)
    } else {
        None
    }
}

/// The byte that the first token of `s` stands for, and the token's width.
/// There is none where `s` is empty, begins with the closing quote, or
/// begins with what writing never produces.
spec fn head_token(s: Seq<u8>) -> Option<(u8, int)> {
    if s.len() == 0 || s[0] == 0x22 || s[0] < 0x20 {
        None
    } else if s[0] != 0x5c {
        Some((s[0], 1))
    } else if s.len() >= 2 && short_code(s[1]) is Some {
        Some((short_code(s[1])->0, 2))
    } else if s.len() >= 6 && s[1] == 0x75 && s[2] == 0x30 && s[3] == 0x30 && (s[4] == 0x30 || s[4]
        == 0x31) && hex_value(s[5]) is Some {
        let b = ((s[4] - 48) * 16 + hex_value(s[5])->0) as u8;
        if escape_byte(b).len() == 6 {
            Some((b, 6))
        } else {
            None
        }
    } else {
        None
    }
}

proof fn lemma_token_sound(s: Seq<u8>)
    requires
        head_token(s) is Some,
    ensures
        ({
            let (b, w) = head_token(s)->0;
            &&& 1 <= w <= s.len()
            &&& s.take(w) == escape_byte(b)
        }),
{
    let (b, w) = head_token(s)->0;
    assert(s.take(w) =~= escape_byte(b));
}

proof fn lemma_token_complete(b: u8, rest: Seq<u8>)
    ensures
        head_token(escape_byte(b) + rest) == Some((b, escape_byte(b).len() as int)),
{
    let e = escape_byte(b);
    let s = e + rest;
    assert(s[0] == e[0]);
    if e.len() >= 2 {
        assert(s[1] == e[1]);
    }
    if e.len() == 6 {
        assert(s[2] == e[2]);
        assert(s[3] == e[3]);
        assert(s[4] == e[4]);
        assert(s[5] == e[5]);
        assert(b < 0x20);
        assert(hex_value(hex_digit(b % 16)) == Some((b % 16) as u8));
        assert(b / 16 == 0 || b / 16 == 1);
    }
}

/// The bytes that the string at the head of `s` stands for, and the index
/// of its closing quote.
spec fn unescape(s: Seq<u8>) -> Option<(Seq<u8>, int)>
    decreases s.len(),
{
    if s.len() > 0 && s[0] == 0x22 {
        Some((Seq::empty(), 0))
    } else {
        match head_token(s) {
            None => None,
            Some((b, w)) => if 1 <= w <= s.len() {
                match unescape(s.skip(w)) {
                    None => None,
                    Some((raw, n)) => Some((seq![b] + raw, n + w)),
                }
            } else {
                None
            },
        }
    }
}

proof fn lemma_unescape_sound(s: Seq<u8>)
    requires
        unescape(s) is Some,
    ensures
        ({
            let (raw, n) = unescape(s)->0;
            &&& 0 <= n < s.len()
            &&& s[n] == 0x22
            &&& s.take(n) == escaped(raw)
        }),
    decreases s.len(),
{
    if s.len() > 0 && s[0] == 0x22 {
        assert(s.take(0) =~= escaped(Seq::<u8>::empty()));
    } else {
        let (b, w) = head_token(s)->0;
        lemma_token_sound(s);
        let t = s.skip(w);
        lemma_unescape_sound(t);
        let (raw, n) = unescape(t)->0;
        let whole = seq![b] + raw;
        assert(whole.skip(1) =~= raw);
        assert(whole[0] == b);
        assert(escaped(whole) == escape_byte(b) + escaped(raw));
        assert(s.take(n + w) =~= s.take(w) + t.take(n));
        assert(s[n + w] == t[n]);
    }
}

proof fn lemma_unescape_complete(raw: Seq<u8>, rest: Seq<u8>)
    ensures
        unescape(escaped(raw) + seq![0x22u8] + rest) == Some((raw, escaped(raw).len() as int)),
    decreases raw.len(),
{
    let s = escaped(raw) + seq![0x22u8] + rest;
    if raw.len() == 0 {
        assert(escaped(raw) =~= Seq::<u8>::empty());
        assert(s[0] == 0x22);
        assert(raw =~= Seq::<u8>::empty());
    } else {
        let b = raw[0];
        let e = escape_byte(b);
        let tail = escaped(raw.skip(1)) + seq![0x22u8] + rest;
        assert(s =~= e + tail);
        lemma_token_complete(b, tail);
        assert(s[0] == e[0]);
        assert(s[0] != 0x22);
        assert(s.skip(e.len() as int) =~= tail);
        lemma_unescape_complete(raw.skip(1), rest);
        assert(seq![b] + raw.skip(1) =~= raw);
    }
}

/// What reading makes of `s`: the mirror of `record_bytes`.
spec fn parse_record(s: Seq<u8>) -> Option<(Seq<char>, u64)> {
    if !opening().is_prefix_of(s) {
        None
    } else {
        match unescape(s.skip(11)) {
            None => None,
            Some((raw, n)) => {
                let rest = s.skip(11 + n);
                if !valid_utf8(raw) || !middle().is_prefix_of(rest) {
                    None
                } else {
                    let tail = rest.skip(12);
                    if tail.len() < 2 || tail.last() != 0x7d {
                        None
                    } else {
                        let numeral = tail.drop_last();
                        if is_canonical(numeral) && digits_value(numeral) <= u64::MAX {
                            Some((decode_utf8(raw), digits_value(numeral) as u64))
                        } else {
                            None
                        }
                    }
                }
            },
        }
    }
}

proof fn lemma_parse_sound(s: Seq<u8>)
    requires
        parse_record(s) is Some,
    ensures
        ({
            let (reason, expires) = parse_record(s)->0;
            record_bytes(reason, expires) == s
        }),
{
    let (reason, expires) = parse_record(s)->0;
    let body = s.skip(11);
    lemma_unescape_sound(body);
    let (raw, n) = unescape(body)->0;
    let rest = s.skip(11 + n);
    let tail = rest.skip(12);
    let numeral = tail.drop_last();
    vstd::utf8::decode_utf8_encode_utf8(raw);
    lemma_canonical(numeral);
    assert(s =~= opening() + body.take(n) + middle() + numeral + seq![0x7du8]) by {
        assert(s.take(11) =~= opening());
        assert(rest.take(12) =~= middle());
        assert(s =~= s.take(11) + body.take(n) + rest.take(12) + tail);
        assert(tail =~= numeral + seq![0x7du8]);
    }
}

proof fn lemma_parse_complete(reason: Seq<char>, expires: u64)
    ensures
        parse_record(record_bytes(reason, expires)) == Some((reason, expires)),
{
    let raw = encode_utf8(reason);
    let numeral = decimal(expires as nat);
    let after = middle().skip(1) + numeral + seq![0x7du8];
    let s = record_bytes(reason, expires);
    lemma_decimal(expires as nat);
    vstd::utf8::encode_utf8_valid_utf8(reason);
    vstd::utf8::encode_utf8_decode_utf8(reason);
    assert(opening().is_prefix_of(s));
    let body = s.skip(11);
    assert(body =~= escaped(raw) + seq![0x22u8] + after);
    lemma_unescape_complete(raw, after);
    let n = escaped(raw).len() as int;
    let rest = s.skip(11 + n);
    assert(rest =~= middle() + numeral + seq![0x7du8]);
    assert(middle().is_prefix_of(rest));
    let tail = rest.skip(12);
    assert(tail =~= numeral + seq![0x7du8]);
    assert(tail.drop_last() =~= numeral);
}

/// Writing is one-to-one: a byte string is the record of at most one
/// reason and expiry, and reading gives them back.
pub proof fn lemma_record_round_trip(reason: Seq<char>, expires: u64)
    ensures
        record_of(record_bytes(reason, expires)) == Some((reason, expires)),
{
    let s = record_bytes(reason, expires);
    let e = choose|e: (Seq<char>, u64)| #[trigger] record_bytes(e.0, e.1) == s;
    assert(record_bytes((reason, expires).0, (reason, expires).1) == s);
    lemma_parse_complete(reason, expires);
    lemma_parse_complete(e.0, e.1);
}

proof fn lemma_record_is_parse(s: Seq<u8>)
    ensures
        record_of(s) == parse_record(s),
{
    if parse_record(s) is Some {
        lemma_parse_sound(s);
        let p = parse_record(s)->0;
        lemma_record_round_trip(p.0, p.1);
    } else {
        if exists|reason: Seq<char>, expires: u64| #[trigger]
            record_bytes(reason, expires) == s {
            let (reason, expires) = choose|reason: Seq<char>, expires: u64| #[trigger]
                record_bytes(reason, expires) == s;
            lemma_parse_complete(reason, expires);
        }
    }
}

/// `String::from_utf8`: the string that a byte vector holds where the
/// bytes are valid UTF-8, and nothing where they are not.
#[verifier::external_body]
fn string_from_utf8(bytes: Vec<u8>) -> (r: Option<String>)
    ensures
        match r {
            Some(s) => valid_utf8(bytes@) && s@ == decode_utf8(bytes@),
            None => !valid_utf8(bytes@),
        },
{
    String::from_utf8(bytes).ok()
}

/// Appends `more` to `out`.
fn push_bytes(out: &mut Vec<u8>, more: &[u8])
    ensures
        final(out)@ == old(out)@ + more@,
{
    let mut i: usize = 0;
    while i < more.len()
        invariant
            i <= more.len(),
            out@ == old(out)@ + more@.take(i as int),
        decreases more.len() - i,
    {
        out.push(more[i]);
        i = i + 1;
        assert(out@ =~= old(out)@ + more@.take(i as int));
    }
    assert(more@.take(more.len() as int) =~= more@);
}

fn hex_digit_of(n: u8) -> (d: u8)
    requires
        n < 16,
    ensures
        d == hex_digit(n),
{
    if n < 10 {
        48 + n
    } else {
        87 + n
    }
}

/// Appends to `out` how `b` is written inside the quotes.
fn push_escaped(out: &mut Vec<u8>, b: u8)
    ensures
        final(out)@ == old(out)@ + escape_byte(b),
{
    if b == 0x22 {
        out.push(0x5c);
        out.push(0x22);
    } else if b == 0x5c {
        out.push(0x5c);
        out.push(0x5c);
    } else if b == 0x08 {
        out.push(0x5c);
        out.push(0x62);
    } else if b == 0x0c {
        out.push(0x5c);
        out.push(0x66);
    } else if b == 0x0a {
        out.push(0x5c);
        out.push(0x6e);
    } else if b == 0x0d {
        out.push(0x5c);
        out.push(0x72);
    } else if b == 0x09 {
        out.push(0x5c);
        out.push(0x74);
    } else if b < 0x20 {
        out.push(0x5c);
        out.push(0x75);
        out.push(0x30);
        out.push(0x30);
        out.push(hex_digit_of(b / 16));
        out.push(hex_digit_of(b % 16));
    } else {
        out.push(b);
    }
    assert(out@ =~= old(out)@ + escape_byte(b));
}

/// The bytes of the record with this reason and this expiry.
pub fn encode_record(reason: &str, expires: u64) -> (out: Vec<u8>)
    ensures
        out@ == record_bytes(reason@, expires),
{
    let raw = reason.as_bytes();
    let mut out: Vec<u8> = vec![
        0x7bu8,
        0x22u8,
        0x72u8,
        0x65u8,
        0x61u8,
        0x73u8,
        0x6fu8,
        0x6eu8,
        0x22u8,
        0x3au8,
        0x22u8,
    ];
    assert(out@ =~= opening());
    let mut i: usize = 0;
    assert(raw@.skip(0) =~= raw@);
    while i < raw.len()
        invariant
            i <= raw.len(),
            out@ + escaped(raw@.skip(i as int)) == opening() + escaped(raw@),
        decreases raw.len() - i,
    {
        let ghost before = out@;
        let ghost rest = raw@.skip(i as int);
        push_escaped(&mut out, raw[i]);
        i = i + 1;
        assert(rest.skip(1) =~= raw@.skip(i as int));
        assert(out@ + escaped(raw@.skip(i as int)) =~= before + escaped(rest));
    }
    assert(out@ =~= opening() + escaped(raw@)) by {
        assert(escaped(raw@.skip(i as int)) =~= Seq::<u8>::empty());
    }
    let mid: Vec<u8> = vec![
        0x22u8,
        0x2cu8,
        0x22u8,
        0x65u8,
        0x78u8,
        0x70u8,
        0x69u8,
        0x72u8,
        0x65u8,
        0x73u8,
        0x22u8,
        0x3au8,
    ];
    assert(mid@ =~= middle());
    push_bytes(&mut out, mid.as_slice());
    let numeral = decimal_bytes(expires);
    push_bytes(&mut out, numeral.as_slice());
    out.push(0x7d);
    assert(out@ =~= record_bytes(reason@, expires));
    out
}

/// Whether `lit` stands in `s` at index `at`.
fn has_bytes_at(s: &[u8], at: usize, lit: &[u8]) -> (r: bool)
    requires
        at <= s.len(),
    ensures
        r == lit@.is_prefix_of(s@.skip(at as int)),
{
    if lit.len() > s.len() - at {
        return false;
    }
    let ghost t = s@.skip(at as int);
    let mut i: usize = 0;
    while i < lit.len()
        invariant
            i <= lit.len(),
            at + lit.len() <= s.len(),
            t == s@.skip(at as int),
            t.take(i as int) == lit@.take(i as int),
        decreases lit.len() - i,
    {
        if s[at + i] != lit[i] {
            assert(t[i as int] != lit@[i as int]);
            return false;
        }
        i = i + 1;
        assert(t.take(i as int) =~= t.take(i - 1).push(t[i - 1]));
        assert(lit@.take(i as int) =~= lit@.take(i - 1).push(lit@[i - 1]));
    }
    assert(lit@.take(lit.len() as int) =~= lit@);
    assert(t.take(lit.len() as int) =~= t.subrange(0, lit.len() as int));
    true
}

fn short_code_of(c: u8) -> (r: Option<u8>)
    ensures
        r == short_code(c),
{
    if c == 0x22 {
        Some(0x22)
    } else if c == 0x5c {
        Some(0x5c)
    } else if c == 0x62 {
        Some(0x08)
    } else if c == 0x66 {
        Some(0x0c)
    } else if c == 0x6e {
        Some(0x0a)
    } else if c == 0x72 {
        Some(0x0d)
    } else if c == 0x74 {
        Some(0x09)
    } else {
        None
    }
}

fn hex_value_of(c: u8) -> (r: Option<u8>)
    ensures
        r == hex_value(c),
{
    if 48 <= c && c <= 57 {
        Some(c - 48)
    } else if 97 <= c && c <= 102 {
        Some(c - 87)
    } else {
        None
    }
}

/// Reads the token at index `at` of `s`.
fn read_token(s: &[u8], at: usize) -> (r: Option<(u8, usize)>)
    requires
        at <= s.len(),
    ensures
        match r {
            Some((b, w)) => head_token(s@.skip(at as int)) == Some((b, w as int)),
            None => head_token(s@.skip(at as int)) is None,
        },
{
    let ghost t = s@.skip(at as int);
    let left: usize = s.len() - at;
    if left == 0 || s[at] == 0x22 || s[at] < 0x20 {
        return None;
    }
    assert(t[0] == s@[at as int]);
    if s[at] != 0x5c {
        return Some((s[at], 1));
    }
    if left >= 2 {
        assert(t[1] == s@[at + 1]);
        match short_code_of(s[at + 1]) {
            Some(b) => {
                return Some((b, 2));
            },
            None => {},
        }
    }
    if left >= 6 && s[at + 1] == 0x75 && s[at + 2] == 0x30 && s[at + 3] == 0x30 && (s[at + 4]
        == 0x30 || s[at + 4] == 0x31) {
        assert(t[2] == s@[at + 2] && t[3] == s@[at + 3] && t[4] == s@[at + 4] && t[5] == s@[at
            + 5]);
        match hex_value_of(s[at + 5]) {
            Some(low) => {
                let b: u8 = (s[at + 4] - 48) * 16 + low;
                if b == 0x08 || b == 0x0c || b == 0x0a || b == 0x0d || b == 0x09 {
                    return None;
                }
                return Some((b, 6));
            },
            None => {
                return None;
            },
        }
    }
    assert(left >= 6 ==> (t[1] == s@[at + 1] && t[2] == s@[at + 2] && t[3] == s@[at + 3] && t[4]
        == s@[at + 4]));
    None
}

/// `x` with `acc` put before its bytes and `d` added to its index.
spec fn lifted(x: Option<(Seq<u8>, int)>, acc: Seq<u8>, d: int) -> Option<(Seq<u8>, int)> {
    match x {
        None => None,
        Some((raw, n)) => Some((acc + raw, n + d)),
    }
}

/// Reads the string that begins at index `start` of `s`: its bytes and the
/// index of its closing quote.
fn read_string(s: &[u8], start: usize) -> (r: Option<(Vec<u8>, usize)>)
    requires
        start <= s.len(),
    ensures
        match r {
            Some((raw, end)) => start <= end < s.len() && unescape(s@.skip(start as int)) == Some(
                (raw@, end - start),
            ),
            None => unescape(s@.skip(start as int)) is None,
        },
{
    let mut acc: Vec<u8> = Vec::new();
    let mut i: usize = start;
    let ghost goal = unescape(s@.skip(start as int));
    proof {
        let x = unescape(s@.skip(start as int));
        if x is Some {
            let (raw, n) = x->0;
            assert(acc@ + raw =~= raw);
        }
    }
    loop
        invariant
            start <= i <= s.len(),
            goal == unescape(s@.skip(start as int)),
            goal == lifted(unescape(s@.skip(i as int)), acc@, i - start),
        decreases s.len() - i,
    {
        let ghost t = s@.skip(i as int);
        if i < s.len() && s[i] == 0x22 {
            assert(t[0] == 0x22);
            assert(acc@ + Seq::<u8>::empty() =~= acc@);
            return Some((acc, i));
        }
        if i < s.len() {
            assert(t[0] == s@[i as int]);
        }
        match read_token(s, i) {
            None => {
                return None;
            },
            Some((b, w)) => {
                proof {
                    lemma_token_sound(t);
                    assert(t.skip(w as int) =~= s@.skip(i + w));
                    let inner = unescape(t.skip(w as int));
                    if inner is Some {
                        let (raw, n) = inner->0;
                        assert(acc@ + (seq![b] + raw) =~= acc@.push(b) + raw);
                    }
                }
                acc.push(b);
                i = i + w;
            },
        }
    }
}

/// Reads a record: the reason and the expiry that `bytes` stands for, or
/// nothing where `bytes` is not what writing a record produces.
pub fn decode_record(bytes: &[u8]) -> (r: Option<(String, u64)>)
    ensures
        match r {
            Some((reason, expires)) => record_of(bytes@) == Some((reason@, expires)),
            None => record_of(bytes@) is None,
        },
{
    proof {
        lemma_record_is_parse(bytes@);
    }
    let open: Vec<u8> = vec![
        0x7bu8,
        0x22u8,
        0x72u8,
        0x65u8,
        0x61u8,
        0x73u8,
        0x6fu8,
        0x6eu8,
        0x22u8,
        0x3au8,
        0x22u8,
    ];
    assert(open@ =~= opening());
    assert(bytes@.skip(0) =~= bytes@);
    if !has_bytes_at(bytes, 0, open.as_slice()) {
        return None;
    }
    let (raw, end) = match read_string(bytes, 11) {
        Some(found) => found,
        None => {
            return None;
        },
    };
    let ghost rest = bytes@.skip(end as int);
    let mid: Vec<u8> = vec![
        0x22u8,
        0x2cu8,
        0x22u8,
        0x65u8,
        0x78u8,
        0x70u8,
        0x69u8,
        0x72u8,
        0x65u8,
        0x73u8,
        0x22u8,
        0x3au8,
    ];
    assert(mid@ =~= middle());
    let ghost raw_bytes = raw@;
    let reason = match string_from_utf8(raw) {
        Some(text) => text,
        None => {
            return None;
        },
    };
    if !has_bytes_at(bytes, end, mid.as_slice()) {
        return None;
    }
    let from: usize = end + 12;
    let ghost tail = rest.skip(12);
    assert(tail =~= bytes@.skip(from as int));
    if bytes.len() - from < 2 || bytes[bytes.len() - 1] != 0x7d {
        return None;
    }
    let numeral = vstd::slice::slice_subrange(bytes, from, bytes.len() - 1);
    assert(numeral@ =~= tail.drop_last());
    if numeral[0] == 43 || (numeral.len() > 1 && numeral[0] == 48) {
        return None;
    }
    match parse_u64(numeral) {
        Some(expires) => Some((reason, expires)),
        None => None,
    }
}

} // verus!
