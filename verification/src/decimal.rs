//! Decimal numerals as bytes: how counters and timestamps are written to
//! the store and read back.

use vstd::prelude::*;

verus! {

/// Whether `b` is an ASCII digit.
pub open spec fn is_digit(b: u8) -> bool {
    48 <= b <= 57
}

/// Whether every byte of `s` is an ASCII digit.
pub open spec fn all_digits(s: Seq<u8>) -> bool {
    forall|i: int| 0 <= i < s.len() ==> is_digit(#[trigger] s[i])
}

/// The number that a sequence of digits stands for, most significant first.
pub open spec fn digits_value(s: Seq<u8>) -> nat
    decreases s.len(),
{
    if s.len() == 0 {
        0
    } else {
        digits_value(s.drop_last()) * 10 + (s.last() - 48) as nat
    }
}

/// The shortest decimal numeral of `n`.
pub open spec fn decimal(n: nat) -> Seq<u8>
    decreases n,
{
    if n < 10 {
        seq![(48 + n) as u8]
    } else {
        decimal(n / 10).push((48 + n % 10) as u8)
    }
}

/// Whether `s` is the shortest numeral of some number: digits only, at
/// least one, and no leading zero before another digit.
pub open spec fn is_canonical(s: Seq<u8>) -> bool {
    s.len() > 0 && all_digits(s) && (s.len() > 1 ==> s[0] != 48)
}

/// What `str::parse` reads from `s` for an unsigned type with the largest
/// value `max`: an optional `+`, then one or more digits, leading zeros
/// allowed, and no number beyond `max`.
pub open spec fn number_in(s: Seq<u8>, max: nat) -> Option<nat> {
    let body = if s.len() > 0 && s[0] == 43 {
        s.skip(1)
    } else {
        s
    };
    if body.len() > 0 && all_digits(body) && digits_value(body) <= max {
        Some(digits_value(body))
    } else {
        None
    }
}

/// A numeral is canonical and stands for its number.
pub proof fn lemma_decimal(n: nat)
    ensures
        is_canonical(decimal(n)),
        digits_value(decimal(n)) == n,
    decreases n,
{
    if n < 10 {
        let s = decimal(n);
        assert(s.drop_last() =~= Seq::<u8>::empty());
        assert(digits_value(s.drop_last()) == 0);
    } else {
        lemma_decimal(n / 10);
        let p = decimal(n / 10);
        let s = decimal(n);
        assert(s.drop_last() =~= p);
        assert(s[0] == p[0]);
        if p.len() == 1 {
            assert(p.drop_last() =~= Seq::<u8>::empty());
            assert(digits_value(p.drop_last()) == 0);
        }
    }
}

/// A canonical digit sequence is the numeral of its value.
pub proof fn lemma_canonical(s: Seq<u8>)
    requires
        is_canonical(s),
    ensures
        decimal(digits_value(s)) == s,
    decreases s.len(),
{
    if s.len() == 1 {
        assert(s.drop_last() =~= Seq::<u8>::empty());
        assert(digits_value(s.drop_last()) == 0);
        assert(is_digit(s[0]));
        assert(decimal(digits_value(s)) =~= s);
    } else {
        let p = s.drop_last();
        assert(is_digit(s[s.len() - 1]));
        assert(all_digits(p)) by {
            assert forall|i: int| 0 <= i < p.len() implies is_digit(#[trigger] p[i]) by {
                assert(p[i] == s[i]);
            }
        }
        assert(p[0] == s[0]);
        lemma_canonical(p);
        lemma_value_of_canonical(p);
        let v = digits_value(s);
        assert(v / 10 == digits_value(p));
        assert(v % 10 == (s.last() - 48) as nat);
        assert(decimal(v) =~= s);
    }
}

/// A canonical sequence of two or more digits stands for ten or more; one
/// that does not begin with zero stands for one or more.
pub proof fn lemma_value_of_canonical(s: Seq<u8>)
    requires
        s.len() > 0,
        all_digits(s),
        s[0] != 48,
    ensures
        digits_value(s) >= 1,
        s.len() > 1 ==> digits_value(s) >= 10,
    decreases s.len(),
{
    assert(is_digit(s[0]));
    if s.len() == 1 {
        assert(s.drop_last() =~= Seq::<u8>::empty());
        assert(digits_value(s.drop_last()) == 0);
    } else {
        let p = s.drop_last();
        assert(is_digit(s[s.len() - 1]));
        assert(all_digits(p)) by {
            assert forall|i: int| 0 <= i < p.len() implies is_digit(#[trigger] p[i]) by {
                assert(p[i] == s[i]);
            }
        }
        assert(p[0] == s[0]);
        lemma_value_of_canonical(p);
    }
}

/// The shortest decimal numeral of `n`.
pub fn decimal_bytes(n: u64) -> (r: Vec<u8>)
    ensures
        r@ == decimal(n as nat),
{
    let mut low: Vec<u8> = Vec::new();
    let mut m: u64 = n;
    assert(decimal(m as nat) + low@.reverse() =~= decimal(n as nat));
    while m >= 10
        invariant
            decimal(m as nat) + low@.reverse() == decimal(n as nat),
        decreases m,
    {
        let d: u8 = 48 + (m % 10) as u8;
        let ghost before = low@;
        low.push(d);
        assert(low@.reverse() =~= seq![d] + before.reverse());
        assert(decimal((m / 10) as nat) + low@.reverse() =~= decimal(m as nat)
            + before.reverse());
        m = m / 10;
    }
    let d: u8 = 48 + m as u8;
    let ghost before = low@;
    low.push(d);
    assert(low@.reverse() =~= seq![d] + before.reverse());
    assert(low@.reverse() =~= decimal(n as nat));
    let mut r: Vec<u8> = Vec::new();
    let mut i: usize = low.len();
    while i > 0
        invariant
            i <= low.len(),
            r@ == low@.reverse().take(low.len() - i),
        decreases i,
    {
        i = i - 1;
        r.push(low[i]);
        assert(r@ =~= low@.reverse().take(low.len() - i));
    }
    assert(low@.reverse().take(low.len() as int) =~= low@.reverse());
    r
}

/// Reads a number as `str::parse::<u64>` does.
pub fn parse_u64(s: &[u8]) -> (r: Option<u64>)
    ensures
        match r {
            Some(v) => number_in(s@, u64::MAX as nat) == Some(v as nat),
            None => number_in(s@, u64::MAX as nat) is None,
        },
{
    let start: usize = if s.len() > 0 && s[0] == 43 {
        1
    } else {
        0
    };
    let ghost body = s@.skip(start as int);
    assert(s@.skip(0) =~= s@);
    assert(body == if s@.len() > 0 && s@[0] == 43 {
        s@.skip(1)
    } else {
        s@
    });
    if start == s.len() {
        return None;
    }
    let mut acc: u64 = 0;
    let mut i: usize = start;
    assert(body.take(0) =~= Seq::<u8>::empty());
    while i < s.len()
        invariant
            start <= i <= s.len(),
            start < s.len(),
            body == s@.skip(start as int),
            body == if s@.len() > 0 && s@[0] == 43 {
                s@.skip(1)
            } else {
                s@
            },
            all_digits(body.take(i - start)),
            digits_value(body.take(i - start)) == acc,
        decreases s.len() - i,
    {
        let b: u8 = s[i];
        let ghost head = body.take(i - start);
        let ghost next = body.take(i + 1 - start);
        assert(next.drop_last() =~= head);
        assert(next.last() == b);
        if b < 48 || b > 57 {
            assert(!is_digit(body[i - start]));
            return None;
        }
        assert(all_digits(next)) by {
            assert forall|j: int| 0 <= j < next.len() implies is_digit(#[trigger] next[j]) by {
                if j < head.len() {
                    assert(next[j] == head[j]);
                }
            }
        }
        let d: u64 = (b - 48) as u64;
        if acc > (u64::MAX - d) / 10 {
            proof {
                assert(digits_value(next) > u64::MAX);
                lemma_value_grows(body, i + 1 - start);
            }
            return None;
        }
        acc = acc * 10 + d;
        i = i + 1;
    }
    assert(body.take(body.len() as int) =~= body);
    Some(acc)
}

/// Reads a number as `str::parse::<u32>` does.
pub fn parse_u32(s: &[u8]) -> (r: Option<u32>)
    ensures
        match r {
            Some(v) => number_in(s@, u32::MAX as nat) == Some(v as nat),
            None => number_in(s@, u32::MAX as nat) is None,
        },
{
    match parse_u64(s) {
        Some(v) => if v <= 0xffff_ffff {
            Some(v as u32)
        } else {
            None
        },
        None => None,
    }
}

/// A prefix of a digit sequence stands for no more than the whole.
pub proof fn lemma_value_grows(s: Seq<u8>, k: int)
    requires
        0 <= k <= s.len(),
    ensures
        digits_value(s.take(k)) <= digits_value(s),
    decreases s.len() - k,
{
    if k == s.len() {
        assert(s.take(k) =~= s);
    } else {
        lemma_value_grows(s, k + 1);
        let t = s.take(k + 1);
        assert(t.drop_last() =~= s.take(k));
    }
}

} // verus!

verus! {

/// The shortest decimal numeral of `n` as characters.
pub open spec fn decimal_text(n: nat) -> Seq<char> {
    Seq::new(decimal(n).len(), |i: int| decimal(n)[i] as char)
}

/// The shortest decimal numeral of `n` as characters.
pub fn decimal_chars(n: u64) -> (r: Vec<char>)
    ensures
        r@ == decimal_text(n as nat),
{
    let bytes = decimal_bytes(n);
    let mut r: Vec<char> = Vec::new();
    let mut i: usize = 0;
    while i < bytes.len()
        invariant
            i <= bytes.len(),
            bytes@ == decimal(n as nat),
            r@.len() == i,
            forall|j: int| 0 <= j < i ==> r@[j] == bytes@[j] as char,
        decreases bytes.len() - i,
    {
        r.push(bytes[i] as char);
        i = i + 1;
    }
    assert(r@ =~= decimal_text(n as nat));
    r
}

} // verus!

verus! {

/// A numeral reads as its number, where the number is within `max`.
pub proof fn lemma_number_in_decimal(n: nat, max: nat)
    requires
        n <= max,
    ensures
        number_in(decimal(n), max) == Some(n),
{
    lemma_decimal(n);
    assert(is_digit(decimal(n)[0]));
}

} // verus!
