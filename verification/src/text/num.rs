use vstd::prelude::*;

verus! {

/// Whether `c` is an ASCII decimal digit.
pub open spec fn is_digit(c: char) -> bool {
    '0' <= c <= '9'
}

/// Whether every character of `s` is a decimal digit.
pub open spec fn all_digits(s: Seq<char>) -> bool {
    forall|i: int| 0 <= i < s.len() ==> is_digit(#[trigger] s[i])
}

/// The value of a run of decimal digits.
pub open spec fn digits_value(s: Seq<char>) -> nat
    decreases s.len(),
{
    if s.len() == 0 {
        0
    } else {
        digits_value(s.drop_last()) * 10 + ((s.last() as int - 48) as nat)
    }
}

/// The digits of an unsigned number, after an optional leading plus sign.
pub open spec fn unsigned_body(s: Seq<char>) -> Seq<char> {
    if s.len() > 0 && s[0] == '+' {
        s.drop_first()
    } else {
        s
    }
}

/// What `str::parse::<u32>` gives: an optional plus sign, then at least one
/// digit, and a value that fits.
pub open spec fn parse_u32(s: Seq<char>) -> Option<u32> {
    let b = unsigned_body(s);
    if b.len() > 0 && all_digits(b) && digits_value(b) <= u32::MAX {
        Some(digits_value(b) as u32)
    } else {
        None
    }
}

/// What `str::parse::<i32>` gives: an optional sign, then at least one
/// digit, and a value that fits.
pub open spec fn parse_i32(s: Seq<char>) -> Option<i32> {
    if s.len() > 0 && s[0] == '-' {
        let b = s.drop_first();
        if b.len() > 0 && all_digits(b) && digits_value(b) <= 0x8000_0000 {
            Some((-(digits_value(b) as int)) as i32)
        } else {
            None
        }
    } else {
        let b = unsigned_body(s);
        if b.len() > 0 && all_digits(b) && digits_value(b) <= i32::MAX {
            Some(digits_value(b) as i32)
        } else {
            None
        }
    }
}

proof fn lemma_prefix_value_le(s: Seq<char>, k: int)
    requires
        0 <= k <= s.len(),
    ensures
        digits_value(s.take(k)) <= digits_value(s),
    decreases s.len() - k,
{
    if k < s.len() {
        lemma_prefix_value_le(s, k + 1);
        assert(s.take(k + 1).drop_last() == s.take(k));
    } else {
        assert(s.take(k) == s);
    }
}

/// The value of the digits `cs[start..]` when they are all digits, there is
/// at least one, and the value is at most `limit`.
fn bounded_digits_value(cs: &[char], start: usize, limit: u64) -> (r: Option<u64>)
    requires
        start <= cs@.len(),
        limit <= u32::MAX + 1,
    ensures
        ({
            let b = cs@.skip(start as int);
            match r {
                Some(v) => b.len() > 0 && all_digits(b) && v == digits_value(b) && v <= limit,
                None => !(b.len() > 0 && all_digits(b) && digits_value(b) <= limit),
            }
        }),
{
    let len = cs.len();
    if start == len {
        return None;
    }
    let ghost b = cs@.skip(start as int);
    let mut acc: u64 = 0;
    let mut i: usize = start;
    while i < len
        invariant
            len == cs@.len(),
            start <= i <= len,
            b == cs@.skip(start as int),
            all_digits(cs@.subrange(start as int, i as int)),
            acc == digits_value(cs@.subrange(start as int, i as int)),
            acc <= limit,
            limit <= u32::MAX + 1,
        decreases len - i,
    {
        let c = cs[i];
        if !('0' <= c && c <= '9') {
            assert(b[i - start] == c);
            return None;
        }
        let d = (c as u32 - 48) as u64;
        let next = acc * 10 + d;
        proof {
            let p = cs@.subrange(start as int, i + 1);
            assert(p.drop_last() == cs@.subrange(start as int, i as int));
            assert(p.last() == c);
            assert(p == b.take(i + 1 - start));
        }
        if next > limit {
            proof {
                let p = cs@.subrange(start as int, i + 1);
                if all_digits(b) {
                    lemma_prefix_value_le(b, i + 1 - start);
                }
            }
            return None;
        }
        acc = next;
        i = i + 1;
    }
    assert(cs@.subrange(start as int, len as int) == b);
    Some(acc)
}

/// Parses an unsigned 32-bit number.
pub fn parse_u32_chars(cs: &[char]) -> (r: Option<u32>)
    ensures
        r == parse_u32(cs@),
{
    let start: usize = if cs.len() > 0 && cs[0] == '+' { 1 } else { 0 };
    assert(cs@.skip(start as int) == unsigned_body(cs@));
    match bounded_digits_value(cs, start, 0xffff_ffff) {
        Some(v) => Some(v as u32),
        None => None,
    }
}

/// Parses a signed 32-bit number.
pub fn parse_i32_chars(cs: &[char]) -> (r: Option<i32>)
    ensures
        r == parse_i32(cs@),
{
    if cs.len() > 0 && cs[0] == '-' {
        assert(cs@.skip(1) == cs@.drop_first());
        match bounded_digits_value(cs, 1, 0x8000_0000) {
            Some(v) => {
                let w = v as i64;
                Some((-w) as i32)
            },
            None => None,
        }
    } else {
        let start: usize = if cs.len() > 0 && cs[0] == '+' { 1 } else { 0 };
        assert(cs@.skip(start as int) == unsigned_body(cs@));
        match bounded_digits_value(cs, start, 0x7fff_ffff) {
            Some(v) => Some(v as i32),
            None => None,
        }
    }
}

} // verus!
