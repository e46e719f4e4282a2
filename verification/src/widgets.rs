//! Small text renderers: decimal numbers, relative times, aligned
//! key-value lines.

use vstd::prelude::*;
use vstd::string::*;

verus! {

/// The character of a decimal digit.
pub open spec fn digit_char(d: int) -> char {
    if d == 0 {
        '0'
    } else if d == 1 {
        '1'
    } else if d == 2 {
        '2'
    } else if d == 3 {
        '3'
    } else if d == 4 {
        '4'
    } else if d == 5 {
        '5'
    } else if d == 6 {
        '6'
    } else if d == 7 {
        '7'
    } else if d == 8 {
        '8'
    } else {
        '9'
    }
}

/// A number in decimal, without leading zeros.
pub open spec fn decimal(n: nat) -> Seq<char>
    decreases n,
{
    if n < 10 {
        seq![digit_char(n as int)]
    } else {
        decimal(n / 10).push(digit_char((n % 10) as int))
    }
}

/// A run of `n` spaces.
pub open spec fn spaces(n: int) -> Seq<char> {
    Seq::new(
        if n > 0 {
            n as nat
        } else {
            0
        },
        |i: int| ' ',
    )
}

fn digit_str(d: u64) -> (s: &'static str)
    requires
        d < 10,
    ensures
        s@ == seq![digit_char(d as int)],
{
    proof {
        reveal_strlit("0");
        reveal_strlit("1");
        reveal_strlit("2");
        reveal_strlit("3");
        reveal_strlit("4");
        reveal_strlit("5");
        reveal_strlit("6");
        reveal_strlit("7");
        reveal_strlit("8");
        reveal_strlit("9");
    }
    let s = match d {
        0 => "0",
        1 => "1",
        2 => "2",
        3 => "3",
        4 => "4",
        5 => "5",
        6 => "6",
        7 => "7",
        8 => "8",
        _ => "9",
    };
    assert(s@ =~= seq![digit_char(d as int)]);
    s
}

/// Appends `n` in decimal.
pub fn push_decimal(out: &mut String, n: u64)
    ensures
        final(out)@ == old(out)@ + decimal(n as nat),
    decreases n,
{
    if n >= 10 {
        push_decimal(out, n / 10);
    }
    out.append(digit_str(n % 10));
    assert(out@ =~= old(out)@ + decimal(n as nat));
}

/// Appends `n` spaces.
pub fn push_spaces(out: &mut String, n: usize)
    ensures
        final(out)@ == old(out)@ + spaces(n as int),
{
    let mut i: usize = 0;
    assert(out@ =~= old(out)@ + spaces(0));
    while i < n
        invariant
            i <= n,
            out@ == old(out)@ + spaces(i as int),
        decreases n - i,
    {
        proof {
            reveal_strlit(" ");
        }
        out.append(" ");
        i = i + 1;
        assert(out@ =~= old(out)@ + spaces(i as int));
    }
}

/// How long ago something happened, in words.
///
/// Under five seconds it is "just now"; under a minute, seconds; under an
/// hour, minutes and the seconds that are left, if any; from there on, hours
/// and the minutes that are left, if any.
pub open spec fn relative_time_spec(secs: u64) -> Seq<char> {
    if secs < 5 {
        "just now"@
    } else if secs < 60 {
        decimal(secs as nat) + "s ago"@
    } else if secs < 3600 {
        if secs % 60 > 0 {
            decimal((secs / 60) as nat) + "m"@ + decimal((secs % 60) as nat) + "s ago"@
        } else {
            decimal((secs / 60) as nat) + "m ago"@
        }
    } else {
        if (secs % 3600) / 60 > 0 {
            decimal((secs / 3600) as nat) + "h"@ + decimal(((secs % 3600) / 60) as nat) + "m ago"@
        } else {
            decimal((secs / 3600) as nat) + "h ago"@
        }
    }
}

/// Relative time formatting.
pub fn relative_time(secs: u64) -> (s: String)
    ensures
        s@ == relative_time_spec(secs),
{
    let mut out = String::new();
    if secs < 5 {
        out.append("just now");
    } else if secs < 60 {
        push_decimal(&mut out, secs);
        out.append("s ago");
    } else if secs < 3600 {
        let m: u64 = secs / 60;
        let s: u64 = secs % 60;
        push_decimal(&mut out, m);
        if s > 0 {
            out.append("m");
            push_decimal(&mut out, s);
            out.append("s ago");
        } else {
            out.append("m ago");
        }
    } else {
        let h: u64 = secs / 3600;
        let m: u64 = (secs % 3600) / 60;
        push_decimal(&mut out, h);
        if m > 0 {
            out.append("h");
            push_decimal(&mut out, m);
            out.append("m ago");
        } else {
            out.append("h ago");
        }
    }
    assert(out@ =~= relative_time_spec(secs));
    out
}

/// One aligned line: the key, padded with spaces to `key_width` bytes, one
/// more space, and the value. A key that is already as wide gets no padding.
pub open spec fn key_value_line(key: &str, value: &str, key_width: usize) -> Seq<char> {
    key@ + spaces(key_width - key.len()) + seq![' '] + value@
}

/// Key-value pair renderer: one line for each pair, values aligned.
pub fn key_value_lines(pairs: &[(&str, &str)], key_width: usize) -> (lines: Vec<String>)
    ensures
        lines@.len() == pairs@.len(),
        forall|i: int|
            0 <= i < pairs@.len() ==> (#[trigger] lines@[i])@ == key_value_line(
                pairs@[i].0,
                pairs@[i].1,
                key_width,
            ),
{
    proof {
        reveal_strlit(" ");
    }
    let n: usize = pairs.len();
    let mut lines: Vec<String> = Vec::with_capacity(n);
    let mut i: usize = 0;
    while i < n
        invariant
            n == pairs@.len(),
            i <= n,
            lines@.len() == i,
            " "@ == seq![' '],
            forall|k: int|
                0 <= k < i ==> (#[trigger] lines@[k])@ == key_value_line(
                    pairs@[k].0,
                    pairs@[k].1,
                    key_width,
                ),
        decreases n - i,
    {
        let key: &str = pairs[i].0;
        let value: &str = pairs[i].1;
        let key_len: usize = key.len();
        let pad: usize = if key_width > key_len {
            key_width - key_len
        } else {
            0
        };
        let mut line = String::from_str(key);
        push_spaces(&mut line, pad);
        line.append(" ");
        line.append(value);
        assert(line@ =~= key_value_line(key, value, key_width));
        lines.push(line);
        i = i + 1;
    }
    lines
}

} // verus!
