use vstd::prelude::*;

verus! {

/// The character that stands for the digit `d` (0 to 15), with lower-case
/// letters above nine.
pub open spec fn digit_char(d: int) -> char {
    if d == 0 { '0' }
    else if d == 1 { '1' }
    else if d == 2 { '2' }
    else if d == 3 { '3' }
    else if d == 4 { '4' }
    else if d == 5 { '5' }
    else if d == 6 { '6' }
    else if d == 7 { '7' }
    else if d == 8 { '8' }
    else if d == 9 { '9' }
    else if d == 10 { 'a' }
    else if d == 11 { 'b' }
    else if d == 12 { 'c' }
    else if d == 13 { 'd' }
    else if d == 14 { 'e' }
    else { 'f' }
}

/// The decimal rendering of `n`, without leading zeros.
pub open spec fn decimal(n: nat) -> Seq<char>
    decreases n,
{
    if n < 10 {
        seq![digit_char(n as int)]
    } else {
        decimal(n / 10).push(digit_char((n % 10) as int))
    }
}

/// The decimal rendering of a signed integer: a minus sign before the
/// magnitude of a negative number.
pub open spec fn signed_decimal(i: int) -> Seq<char> {
    if i < 0 {
        seq!['-'] + decimal((-i) as nat)
    } else {
        decimal(i as nat)
    }
}

/// The lower-case hexadecimal rendering of `n`, without leading zeros.
pub open spec fn hex(n: nat) -> Seq<char>
    decreases n,
{
    if n < 16 {
        seq![digit_char(n as int)]
    } else {
        hex(n / 16).push(digit_char((n % 16) as int))
    }
}

/// Two decimal digits for `n`, zero-padded on the left (`n` below 100).
pub open spec fn two_digits(n: nat) -> Seq<char> {
    seq![digit_char((n / 10) as int), digit_char((n % 10) as int)]
}

/// The rendering of a boolean, as `true` or `false`.
pub open spec fn bool_text(b: bool) -> Seq<char> {
    if b { seq!['t', 'r', 'u', 'e'] } else { seq!['f', 'a', 'l', 's', 'e'] }
}

/// The JSON string escape of one character: quote, backslash, newline,
/// carriage return and tab are written with a backslash.
pub open spec fn json_escape_char(c: char) -> Seq<char> {
    if c == '"' {
        seq!['\\', '"']
    } else if c == '\\' {
        seq!['\\', '\\']
    } else if c == '\n' {
        seq!['\\', 'n']
    } else if c == '\r' {
        seq!['\\', 'r']
    } else if c == '\t' {
        seq!['\\', 't']
    } else {
        seq![c]
    }
}

/// The JSON string escape of a sequence of characters.
pub open spec fn json_escape(s: Seq<char>) -> Seq<char>
    decreases s.len(),
{
    if s.len() == 0 {
        Seq::empty()
    } else {
        json_escape(s.drop_last()) + json_escape_char(s.last())
    }
}

/// The character for a digit below 16.
pub fn digit_for(d: u32) -> (c: char)
    requires
        d < 16,
    ensures
        c == digit_char(d as int),
{
    match d {
        0 => '0',
        1 => '1',
        2 => '2',
        3 => '3',
        4 => '4',
        5 => '5',
        6 => '6',
        7 => '7',
        8 => '8',
        9 => '9',
        10 => 'a',
        11 => 'b',
        12 => 'c',
        13 => 'd',
        14 => 'e',
        _ => 'f',
    }
}

/// Appends the decimal rendering of `n`.
pub fn push_decimal(out: &mut String, n: u128)
    ensures
        final(out)@ == old(out)@ + decimal(n as nat),
    decreases n,
{
    let ghost start = out@;
    if n >= 10 {
        push_decimal(out, n / 10);
    }
    out.push(digit_for((n % 10) as u32));
    proof {
        if n >= 10 {
            assert(out@ == start + decimal((n / 10) as nat).push(digit_char((n % 10) as int)));
            assert(decimal(n as nat) == decimal((n / 10) as nat).push(digit_char((n % 10) as int)));
        } else {
            assert(decimal(n as nat) == seq![digit_char(n as int)]);
        }
    }
}

/// Appends the decimal rendering of a signed integer.
pub fn push_signed_decimal(out: &mut String, n: i128)
    requires
        n > i128::MIN,
    ensures
        final(out)@ == old(out)@ + signed_decimal(n as int),
{
    if n < 0 {
        out.push('-');
        push_decimal(out, (-n) as u128);
    } else {
        push_decimal(out, n as u128);
    }
}

/// Appends the lower-case hexadecimal rendering of `n`.
pub fn push_hex(out: &mut String, n: u64)
    ensures
        final(out)@ == old(out)@ + hex(n as nat),
    decreases n,
{
    let ghost start = out@;
    if n >= 16 {
        push_hex(out, n / 16);
    }
    out.push(digit_for((n % 16) as u32));
    proof {
        if n >= 16 {
            assert(out@ == start + hex((n / 16) as nat).push(digit_char((n % 16) as int)));
        }
    }
}

/// Appends `n` as two zero-padded decimal digits.
pub fn push_two_digits(out: &mut String, n: u128)
    requires
        n < 100,
    ensures
        final(out)@ == old(out)@ + two_digits(n as nat),
{
    let ghost start = out@;
    out.push(digit_for((n / 10) as u32));
    out.push(digit_for((n % 10) as u32));
    assert(out@ == start + two_digits(n as nat));
}

/// Appends `true` or `false`.
pub fn push_bool(out: &mut String, b: bool)
    ensures
        final(out)@ == old(out)@ + bool_text(b),
{
    let ghost start = out@;
    if b {
        out.push('t');
        out.push('r');
        out.push('u');
        out.push('e');
    } else {
        out.push('f');
        out.push('a');
        out.push('l');
        out.push('s');
        out.push('e');
    }
    assert(out@ == start + bool_text(b));
}

/// Appends the JSON string escape of `s`.
pub fn push_json_escaped(out: &mut String, s: &[char])
    ensures
        final(out)@ == old(out)@ + json_escape(s@),
{
    let ghost start = out@;
    let mut i: usize = 0;
    while i < s.len()
        invariant
            i <= s@.len(),
            out@ == start + json_escape(s@.take(i as int)),
        decreases s@.len() - i,
    {
        let c = s[i];
        let ghost before = out@;
        if c == '"' {
            out.push('\\');
            out.push('"');
        } else if c == '\\' {
            out.push('\\');
            out.push('\\');
        } else if c == '\n' {
            out.push('\\');
            out.push('n');
        } else if c == '\r' {
            out.push('\\');
            out.push('r');
        } else if c == '\t' {
            out.push('\\');
            out.push('t');
        } else {
            out.push(c);
        }
        assert(out@ == before + json_escape_char(c));
        assert(s@.take(i + 1 as int).drop_last() == s@.take(i as int));
        i = i + 1;
        assert(json_escape(s@.take(i as int)) == json_escape(s@.take(i - 1 as int)) + json_escape_char(c));
    }
    assert(s@.take(s@.len() as int) == s@);
}

/// The parts joined with the separator between each two of them.
pub open spec fn join(parts: Seq<Seq<char>>, sep: Seq<char>) -> Seq<char>
    decreases parts.len(),
{
    if parts.len() == 0 {
        Seq::empty()
    } else if parts.len() == 1 {
        parts[0]
    } else {
        join(parts.drop_last(), sep) + sep + parts.last()
    }
}

/// The parts one after the other.
pub open spec fn concat(parts: Seq<Seq<char>>) -> Seq<char>
    decreases parts.len(),
{
    if parts.len() == 0 {
        Seq::empty()
    } else {
        concat(parts.drop_last()) + parts.last()
    }
}

/// The numbers in decimal, separated by commas.
pub open spec fn comma_numbers(ns: Seq<i32>) -> Seq<char> {
    join(ns.map_values(|n: i32| signed_decimal(n as int)), ","@)
}

/// Appends the numbers in decimal, separated by commas.
pub fn push_comma_numbers(out: &mut String, ns: &[i32])
    ensures
        final(out)@ == old(out)@ + comma_numbers(ns@),
{
    let ghost start = out@;
    let ghost f = |n: i32| signed_decimal(n as int);
    let mut i: usize = 0;
    while i < ns.len()
        invariant
            i <= ns@.len(),
            f == (|n: i32| signed_decimal(n as int)),
            out@ == start + join(ns@.take(i as int).map_values(f), ","@),
        decreases ns@.len() - i,
    {
        let ghost before = out@;
        if i > 0 {
            out.push(',');
        }
        push_signed_decimal(out, ns[i] as i128);
        proof {
            let parts = ns@.take(i + 1).map_values(f);
            assert(parts.drop_last() == ns@.take(i as int).map_values(f));
            assert(parts.last() == signed_decimal(ns@[i as int] as int));
            if i == 0 {
                assert(join(parts, ","@) == parts[0]);
                assert(join(ns@.take(0).map_values(f), ","@) == Seq::<char>::empty());
            } else {
                reveal_strlit(",");
                assert(out@ == before + ","@ + signed_decimal(ns@[i as int] as int));
            }
        }
        i = i + 1;
    }
    assert(ns@.take(ns@.len() as int) == ns@);
}

/// A character with line breaks and tabs turned into spaces.
pub open spec fn flatten_char(c: char) -> char {
    if c == '\n' || c == '\r' || c == '\t' {
        ' '
    } else {
        c
    }
}

/// A field with its line breaks and tabs turned into spaces, so that it
/// stays on one log line.
pub open spec fn one_line(s: Seq<char>) -> Seq<char> {
    s.map_values(|c: char| flatten_char(c))
}

/// Appends `cs` with its line breaks and tabs turned into spaces.
pub fn push_one_line(out: &mut String, cs: &[char])
    ensures
        final(out)@ == old(out)@ + one_line(cs@),
{
    let ghost start = out@;
    let mut i: usize = 0;
    while i < cs.len()
        invariant
            i <= cs@.len(),
            out@ == start + one_line(cs@.take(i as int)),
        decreases cs@.len() - i,
    {
        let c = cs[i];
        if c == '\n' || c == '\r' || c == '\t' {
            out.push(' ');
        } else {
            out.push(c);
        }
        i = i + 1;
        assert(cs@.take(i as int) == cs@.take(i - 1 as int).push(c));
        assert(one_line(cs@.take(i as int)) == one_line(cs@.take(i - 1 as int)).push(flatten_char(c)));
    }
    assert(cs@.take(cs@.len() as int) == cs@);
}

/// The ASCII lower-case form of a character; other characters stay.
pub open spec fn lower_char(c: char) -> char {
    if 'A' <= c <= 'Z' {
        ((c as u32) + 32) as char
    } else {
        c
    }
}

/// The ASCII lower-case form of a sequence, as `str::to_ascii_lowercase`
/// gives it.
pub open spec fn ascii_lowercase(s: Seq<char>) -> Seq<char> {
    s.map_values(|c: char| lower_char(c))
}

/// The ASCII lower-case form of `cs`.
pub fn to_ascii_lowercase(cs: &[char]) -> (v: Vec<char>)
    ensures
        v@ == ascii_lowercase(cs@),
{
    let mut v: Vec<char> = Vec::new();
    let mut i: usize = 0;
    while i < cs.len()
        invariant
            i <= cs@.len(),
            v@ == ascii_lowercase(cs@.take(i as int)),
        decreases cs@.len() - i,
    {
        let c = cs[i];
        let l = if 'A' <= c && c <= 'Z' {
            ((c as u8) + 32) as char
        } else {
            c
        };
        assert(l == lower_char(c)) by {
            if 'A' <= c && c <= 'Z' {
                assert((c as u8) as u32 == c as u32);
            }
        }
        v.push(l);
        i = i + 1;
        assert(cs@.take(i as int) == cs@.take(i - 1 as int).push(c));
        assert(v@ == ascii_lowercase(cs@.take(i as int)));
    }
    assert(cs@.take(cs@.len() as int) == cs@);
    v
}

} // verus!
