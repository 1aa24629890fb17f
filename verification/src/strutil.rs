//! Small verified string utilities: decimal formatting, prefix tests, and a
//! single trusted wrapper for appending one character to a `String`.

use vstd::prelude::*;
use vstd::string::*;

verus! {

/// Relies on std's String::push: appends exactly the given character.
#[verifier::external_body]
pub fn push_char(s: &mut String, c: char)
    ensures
        final(s)@ == old(s)@.push(c),
{
    s.push(c);
}

/// The character for one decimal digit.
pub open spec fn spec_digit(d: int) -> char {
    if d == 0 {
        '0'
    } else if d == 1 {
        '1'
    } else if d == 2 {
        '2'
    } else if d == 3 {
        '3'
    } else if d == 4 {
        '4'
    } else if d == 5 {
        '5'
    } else if d == 6 {
        '6'
    } else if d == 7 {
        '7'
    } else if d == 8 {
        '8'
    } else {
        '9'
    }
}

/// The decimal representation of a non-negative integer, most significant
/// digit first, with no leading zeros (a single zero for 0).
pub open spec fn spec_dec(n: int) -> Seq<char>
    decreases n,
{
    if n < 10 {
        seq![spec_digit(n)]
    } else {
        spec_dec(n / 10).push(spec_digit(n % 10))
    }
}

fn digit_str(d: u64) -> (r: &'static str)
    requires
        d < 10,
    ensures
        r@ =~= seq![spec_digit(d as int)],
{
    proof {
        reveal_strlit("0");
        reveal_strlit("1");
        reveal_strlit("2");
        reveal_strlit("3");
        reveal_strlit("4");
        reveal_strlit("5");
        reveal_strlit("6");
        reveal_strlit("7");
        reveal_strlit("8");
        reveal_strlit("9");
    }
    match d {
        0 => "0",
        1 => "1",
        2 => "2",
        3 => "3",
        4 => "4",
        5 => "5",
        6 => "6",
        7 => "7",
        8 => "8",
        _ => "9",
    }
}

/// Decimal formatting of an unsigned integer.
pub fn u64_to_string(n: u64) -> (s: String)
    ensures
        s@ == spec_dec(n as int),
    decreases n,
{
    if n < 10 {
        digit_str(n).to_owned()
    } else {
        let mut s = u64_to_string(n / 10);
        s.append(digit_str(n % 10));
        proof {
            assert(s@ =~= spec_dec(n as int));
        }
        s
    }
}

/// Whether `s` begins with the characters of `p`.
pub fn str_starts_with(s: &str, p: &str) -> (r: bool)
    ensures
        r <==> (s@.len() >= p@.len() && s@.subrange(0, p@.len() as int) =~= p@),
{
    let sn = s.unicode_len();
    let pn = p.unicode_len();
    if sn < pn {
        return false;
    }
    let mut i: usize = 0;
    while i < pn
        invariant
            i <= pn,
            pn <= sn,
            sn == s@.len(),
            pn == p@.len(),
            forall|j: int| 0 <= j < i ==> s@[j] == p@[j],
        decreases pn - i,
    {
        if s.get_char(i) != p.get_char(i) {
            return false;
        }
        i += 1;
    }
    proof {
        assert(s@.subrange(0, p@.len() as int) =~= p@);
    }
    true
}

/// The character for one hexadecimal digit.
pub open spec fn spec_hex_digit(d: int) -> char {
    if d < 10 {
        spec_digit(d)
    } else if d == 10 {
        'a'
    } else if d == 11 {
        'b'
    } else if d == 12 {
        'c'
    } else if d == 13 {
        'd'
    } else if d == 14 {
        'e'
    } else {
        'f'
    }
}

/// How one character appears inside a JSON string: quote and backslash are
/// escaped, control characters take the universal escape, and everything else
/// stands for itself.
pub open spec fn spec_json_esc_char(c: char) -> Seq<char> {
    if c == '"' {
        seq!['\\', '"']
    } else if c == '\\' {
        seq!['\\', '\\']
    } else if (c as u32) < 32 {
        seq!['\\', 'u', '0', '0', spec_hex_digit((c as u32) as int / 16), spec_hex_digit(
            (c as u32) as int % 16,
        )]
    } else {
        seq![c]
    }
}

/// The body of a JSON string: every character escaped as needed.
pub open spec fn spec_json_escaped(s: Seq<char>) -> Seq<char>
    decreases s.len(),
{
    if s.len() == 0 {
        Seq::empty()
    } else {
        spec_json_escaped(s.drop_last()) + spec_json_esc_char(s.last())
    }
}

/// A JSON string literal: the escaped body in quotes.
pub open spec fn spec_json_string(s: Seq<char>) -> Seq<char> {
    seq!['"'] + spec_json_escaped(s) + seq!['"']
}

fn hex_digit_char(d: u32) -> (r: char)
    requires
        d < 16,
    ensures
        r == spec_hex_digit(d as int),
{
    match d {
        0 => '0',
        1 => '1',
        2 => '2',
        3 => '3',
        4 => '4',
        5 => '5',
        6 => '6',
        7 => '7',
        8 => '8',
        9 => '9',
        10 => 'a',
        11 => 'b',
        12 => 'c',
        13 => 'd',
        14 => 'e',
        _ => 'f',
    }
}

/// Appends one string as a JSON string literal, quotes and escapes included.
pub fn append_json_string(out: &mut String, s: &str)
    ensures
        final(out)@ == old(out)@ + spec_json_string(s@),
{
    push_char(out, '"');
    let n = s.unicode_len();
    let mut i: usize = 0;
    while i < n
        invariant
            i <= n,
            n == s@.len(),
            out@ == old(out)@ + seq!['"'] + spec_json_escaped(s@.take(i as int)),
        decreases n - i,
    {
        let c = s.get_char(i);
        proof {
            assert(s@.take(i + 1).drop_last() =~= s@.take(i as int));
            assert(s@.take(i + 1).last() == s@[i as int]);
        }
        let code = c as u32;
        if c == '"' {
            push_char(out, '\\');
            push_char(out, '"');
        } else if c == '\\' {
            push_char(out, '\\');
            push_char(out, '\\');
        } else if code < 32 {
            push_char(out, '\\');
            push_char(out, 'u');
            push_char(out, '0');
            push_char(out, '0');
            push_char(out, hex_digit_char(code / 16));
            push_char(out, hex_digit_char(code % 16));
        } else {
            push_char(out, c);
        }
        proof {
            assert(out@ =~= old(out)@ + seq!['"'] + spec_json_escaped(s@.take(i + 1)));
        }
        i += 1;
    }
    push_char(out, '"');
    proof {
        assert(s@.take(n as int) =~= s@);
        assert(out@ =~= old(out)@ + spec_json_string(s@));
    }
}

/// Appends the decimal rendering of an unsigned integer.
pub fn append_u64(out: &mut String, n: u64)
    ensures
        final(out)@ == old(out)@ + spec_dec(n as int),
{
    let digits = u64_to_string(n);
    out.append(digits.as_str());
}


/// A JSON string literal for a present value, the null literal for an absent
/// one.
pub open spec fn spec_json_opt_string(o: Option<Seq<char>>) -> Seq<char> {
    match o {
        Some(s) => spec_json_string(s),
        None => "null"@,
    }
}

/// Appends an optional string as JSON: a string literal or null.
pub fn append_json_opt_string(out: &mut String, o: &Option<String>)
    ensures
        final(out)@ == old(out)@ + spec_json_opt_string(
            match *o {
                Some(ref s) => Some(s@),
                None => None,
            },
        ),
{
    match o {
        Some(s) => {
            append_json_string(out, s.as_str());
        }
        None => {
            out.append("null");
        }
    }
}

} // verus!
