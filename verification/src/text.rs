//! Small verified operations on text, stated over sequences of characters.

use vstd::prelude::*;
use vstd::string::*;
use vstd::std_specs::iter::IteratorSpec;

verus! {

/// `String::push`: the character is added at the end, and nothing else changes.
pub assume_specification[ String::push ](text: &mut String, c: char)
    ensures
        final(text)@ == old(text)@.push(c),
;

/// Whether two texts hold the same characters.
pub fn same_text(a: &str, b: &str) -> (same: bool)
    ensures
        same == (a@ == b@),
{
    let left = String::from_str(a);
    let right = String::from_str(b);
    left == right
}

/// The characters of `text`, in order.
pub fn chars_of(text: &str) -> (chars: Vec<char>)
    ensures
        chars@ == text@,
{
    let mut chars: Vec<char> = Vec::new();
    let mut rest = text.chars();
    proof {
        broadcast use vstd::string::axiom_spec_iter;
    }
    loop
        invariant
            rest.obeys_prophetic_iter_laws(),
            rest.decrease() is Some,
            chars@ + rest.remaining() == text@,
        decreases rest.decrease()->0,
    {
        let ghost before = rest;
        let item = rest.next();
        proof {
            broadcast use vstd::string::next_postcondition;
            assert(next_post(&before, &rest, item));
        }
        match item {
            Some(c) => {
                chars.push(c);
                proof {
                    assert(chars@ + rest.remaining() =~= text@);
                }
            },
            None => {
                proof {
                    assert(chars@ =~= text@);
                }
                return chars;
            },
        }
    }
}

/// The text made of the characters `chars[from..to]`.
pub fn text_of(chars: &Vec<char>, from: usize, to: usize) -> (text: String)
    requires
        from <= to <= chars.len(),
    ensures
        text@ == chars@.subrange(from as int, to as int),
{
    let mut text = String::new();
    let mut i: usize = from;
    while i < to
        invariant
            from <= i <= to <= chars.len(),
            text@ == chars@.subrange(from as int, i as int),
        decreases to - i,
    {
        text.push(chars[i]);
        i += 1;
        proof {
            assert(text@ =~= chars@.subrange(from as int, i as int));
        }
    }
    text
}

/// The first `n` characters of `s`, or all of `s` where it has fewer.
pub open spec fn first_chars(s: Seq<char>, n: nat) -> Seq<char> {
    if s.len() <= n {
        s
    } else {
        s.take(n as int)
    }
}

/// `n` copies of `c`.
pub open spec fn repeated(c: char, n: nat) -> Seq<char> {
    Seq::new(n, |i: int| c)
}

/// `s` filled with spaces at its end up to `width` characters; longer text is
/// left as it is.
pub open spec fn padded_end(s: Seq<char>, width: nat) -> Seq<char> {
    if s.len() >= width {
        s
    } else {
        s + repeated(' ', (width - s.len()) as nat)
    }
}

/// `s` filled with spaces at its start up to `width` characters; longer text
/// is left as it is.
pub open spec fn padded_start(s: Seq<char>, width: nat) -> Seq<char> {
    if s.len() >= width {
        s
    } else {
        repeated(' ', (width - s.len()) as nat) + s
    }
}

/// The character that writes the digit `d`.
pub open spec fn digit_char(d: nat) -> char
    recommends
        d < 10,
{
    (48 + d) as u8 as char
}

/// The decimal notation of `n`, without leading zeros.
pub open spec fn decimal_digits(n: nat) -> Seq<char>
    decreases n,
{
    if n < 10 {
        seq![digit_char(n)]
    } else {
        decimal_digits(n / 10).push(digit_char(n % 10))
    }
}

/// The texts of `parts` in order, with `sep` between each two neighbours.
pub open spec fn joined(parts: Seq<Seq<char>>, sep: Seq<char>) -> Seq<char>
    decreases parts.len(),
{
    if parts.len() == 0 {
        Seq::empty()
    } else if parts.len() == 1 {
        parts[0]
    } else {
        joined(parts.drop_last(), sep) + sep + parts.last()
    }
}

/// The first `n` characters of `text`.
pub fn take_chars(text: &str, n: usize) -> (head: String)
    ensures
        head@ == first_chars(text@, n as nat),
{
    if text.unicode_len() <= n {
        String::from_str(text)
    } else {
        String::from_str(text.substring_char(0, n))
    }
}

/// A text of `n` copies of `c`.
pub fn repeat_char(c: char, n: usize) -> (text: String)
    ensures
        text@ == repeated(c, n as nat),
{
    let mut text = String::new();
    let mut i: usize = 0;
    while i < n
        invariant
            i <= n,
            text@ == repeated(c, i as nat),
        decreases n - i,
    {
        text.push(c);
        i += 1;
        proof {
            assert(text@ =~= repeated(c, i as nat));
        }
    }
    text
}

/// `text` left-aligned in a field of `width` characters.
pub fn pad_end(text: &str, width: usize) -> (field: String)
    ensures
        field@ == padded_end(text@, width as nat),
{
    let len = text.unicode_len();
    let mut field = String::from_str(text);
    if len < width {
        let fill = repeat_char(' ', width - len);
        field.append(fill.as_str());
    }
    field
}

/// `text` right-aligned in a field of `width` characters.
pub fn pad_start(text: &str, width: usize) -> (field: String)
    ensures
        field@ == padded_start(text@, width as nat),
{
    let len = text.unicode_len();
    if len < width {
        let mut field = repeat_char(' ', width - len);
        field.append(text);
        field
    } else {
        String::from_str(text)
    }
}

/// The decimal notation of `n`.
pub fn decimal(n: usize) -> (text: String)
    ensures
        text@ == decimal_digits(n as nat),
    decreases n,
{
    let last: u8 = (n % 10) as u8;
    let c: char = (48u8 + last) as char;
    if n < 10 {
        let mut text = String::new();
        text.push(c);
        proof {
            assert(text@ =~= seq![digit_char(n as nat)]);
        }
        text
    } else {
        let mut text = decimal(n / 10);
        text.push(c);
        text
    }
}

/// The texts of `parts`, with `sep` between each two neighbours.
pub fn join(parts: &Vec<String>, sep: &str) -> (text: String)
    ensures
        text@ == joined(parts.deep_view(), sep@),
{
    let mut text = String::new();
    let mut i: usize = 0;
    while i < parts.len()
        invariant
            i <= parts.len(),
            text@ == joined(parts.deep_view().take(i as int), sep@),
        decreases parts.len() - i,
    {
        if i > 0 {
            text.append(sep);
        }
        text.append(parts[i].as_str());
        proof {
            let now = parts.deep_view().take(i + 1);
            assert(now.drop_last() =~= parts.deep_view().take(i as int));
            assert(now.last() == parts[i as int]@);
        }
        i += 1;
    }
    proof {
        assert(parts.deep_view().take(i as int) =~= parts.deep_view());
    }
    text
}

} // verus!
