//! Characters, words and numbers in text.
use vstd::prelude::*;

verus! {

broadcast use vstd::string::axiom_spec_iter;

/// `String::push`: appends one character to a string.
#[verifier::external_body]
pub(crate) fn push_char(s: &mut String, c: char)
    ensures
        final(s)@ == old(s)@.push(c),
{
    s.push(c);
}

/// `String::push_str`: appends a string slice to a string.
#[verifier::external_body]
pub(crate) fn push_str(s: &mut String, t: &str)
    ensures
        final(s)@ == old(s)@ + t@,
{
    s.push_str(t);
}

/// The characters of a string slice.
pub fn chars_of(s: &str) -> (r: Vec<char>)
    ensures
        r@ == s@,
{
    let mut r: Vec<char> = Vec::new();
    for c in it: s.chars()
        invariant
            r@ == it.seq().take(it.index()),
    {
        r.push(c);
        assert(r@ =~= it.seq().take(it.index() + 1));
    }
    assert(r@ =~= s@);
    r
}

/// A string holding the given characters.
pub fn string_of(chars: &Vec<char>) -> (r: String)
    ensures
        r@ == chars@,
{
    let mut r = String::new();
    let n = chars.len();
    for i in 0..n
        invariant
            n == chars@.len(),
            r@ == chars@.take(i as int),
    {
        push_char(&mut r, chars[i]);
        assert(r@ =~= chars@.take(i + 1));
    }
    assert(chars@.take(n as int) =~= chars@);
    r
}

/// Whether `c` is a Unicode `White_Space` character (what `char::is_whitespace`
/// tests).
pub open spec fn is_space(c: char) -> bool {
    ||| '\t' <= c <= '\r'
    ||| c == ' '
    ||| c == '\u{85}'
    ||| c == '\u{a0}'
    ||| c == '\u{1680}'
    ||| '\u{2000}' <= c <= '\u{200a}'
    ||| c == '\u{2028}'
    ||| c == '\u{2029}'
    ||| c == '\u{202f}'
    ||| c == '\u{205f}'
    ||| c == '\u{3000}'
}

/// Tests whether `c` is a Unicode `White_Space` character.
pub fn is_space_char(c: char) -> (r: bool)
    ensures
        r == is_space(c),
{
    ('\t' <= c && c <= '\r') || c == ' ' || c == '\u{85}' || c == '\u{a0}' || c == '\u{1680}' || (
    '\u{2000}' <= c && c <= '\u{200a}') || c == '\u{2028}' || c == '\u{2029}' || c == '\u{202f}'
        || c == '\u{205f}' || c == '\u{3000}'
}

/// The words `ws` with the word `w` appended, unless it is empty.
pub open spec fn close_word(ws: Seq<Seq<char>>, w: Seq<char>) -> Seq<Seq<char>> {
    if w.len() > 0 {
        ws.push(w)
    } else {
        ws
    }
}

/// The state of a left-to-right scan of text: the finished lines (each a
/// sequence of words), the finished words of the current line, and the word
/// being read.
pub type ScanState = (Seq<Seq<Seq<char>>>, Seq<Seq<char>>, Seq<char>);

/// One step of the scan: a newline ends the line, other white space ends the
/// word, any other character extends the word.
pub open spec fn scan_step(st: ScanState, c: char) -> ScanState {
    if c == '\n' {
        (st.0.push(close_word(st.1, st.2)), Seq::empty(), Seq::empty())
    } else if is_space(c) {
        (st.0, close_word(st.1, st.2), Seq::empty())
    } else {
        (st.0, st.1, st.2.push(c))
    }
}

/// The state after scanning all of `s`.
pub open spec fn scan(s: Seq<char>) -> ScanState
    decreases s.len(),
{
    if s.len() == 0 {
        (Seq::empty(), Seq::empty(), Seq::empty())
    } else {
        scan_step(scan(s.drop_last()), s.last())
    }
}

/// The lines of `s` (split at every `'\n'`), each split into its words
/// (maximal runs of characters that are not white space). Line `i` of the
/// result is line `i + 1` of the text.
pub open spec fn text_lines(s: Seq<char>) -> Seq<Seq<Seq<char>>> {
    let st = scan(s);
    st.0.push(close_word(st.1, st.2))
}

/// The view of a list of words.
pub open spec fn words_view(ws: Seq<Vec<char>>) -> Seq<Seq<char>> {
    ws.map_values(|w: Vec<char>| w@)
}

/// The view of a list of lines of words.
pub open spec fn lines_view(ls: Seq<Vec<Vec<char>>>) -> Seq<Seq<Seq<char>>> {
    ls.map_values(|l: Vec<Vec<char>>| words_view(l@))
}

/// Splits text into lines of words, as [`text_lines`] describes.
pub fn split_lines_words(content: &str) -> (r: Vec<Vec<Vec<char>>>)
    ensures
        lines_view(r@) == text_lines(content@),
{
    let chars = chars_of(content);
    let n = chars.len();
    let mut lines: Vec<Vec<Vec<char>>> = Vec::new();
    let mut words: Vec<Vec<char>> = Vec::new();
    let mut word: Vec<char> = Vec::new();
    for i in 0..n
        invariant
            n == chars@.len(),
            chars@ == content@,
            (lines_view(lines@), words_view(words@), word@) == scan(chars@.take(i as int)),
    {
        let c = chars[i];
        let ghost prev = chars@.take(i as int);
        assert(chars@.take(i + 1).drop_last() =~= prev);
        assert(chars@.take(i + 1).last() == c);
        if c == '\n' {
            let ghost closed = close_word(scan(prev).1, scan(prev).2);
            let ghost old_lines = lines@;
            if word.len() > 0 {
                let mut w: Vec<char> = Vec::new();
                std::mem::swap(&mut w, &mut word);
                words.push(w);
            }
            assert(words_view(words@) =~= closed);
            let mut ws: Vec<Vec<char>> = Vec::new();
            std::mem::swap(&mut ws, &mut words);
            lines.push(ws);
            assert(words_view(words@) =~= Seq::<Seq<char>>::empty());
            assert(lines_view(lines@) =~= lines_view(old_lines).push(words_view(ws@)));
        } else if is_space_char(c) {
            if word.len() > 0 {
                let mut w: Vec<char> = Vec::new();
                std::mem::swap(&mut w, &mut word);
                words.push(w);
                assert(words_view(words@) =~= scan(prev).1.push(scan(prev).2));
            }
        } else {
            word.push(c);
        }
        assert(word@ =~= scan(chars@.take(i + 1)).2);
    }
    if word.len() > 0 {
        let mut w: Vec<char> = Vec::new();
        std::mem::swap(&mut w, &mut word);
        words.push(w);
    }
    let ghost st = scan(chars@.take(n as int));
    assert(words_view(words@) =~= close_word(st.1, st.2));
    lines.push(words);
    assert(chars@.take(n as int) =~= content@);
    assert(lines_view(lines@) =~= text_lines(content@));
    lines
}

/// The character of the decimal digit `d`.
pub open spec fn digit_char(d: nat) -> char {
    (48 + d) as char
}

/// The decimal representation of `n`, without leading zeros.
pub open spec fn decimal(n: nat) -> Seq<char>
    decreases n,
{
    if n < 10 {
        seq![digit_char(n)]
    } else {
        decimal(n / 10).push(digit_char(n % 10))
    }
}

/// Appends the decimal representation of `n` to `s`.
pub fn push_decimal(s: &mut String, n: u64)
    ensures
        final(s)@ == old(s)@ + decimal(n as nat),
    decreases n,
{
    if n >= 10 {
        push_decimal(s, n / 10);
    }
    let d = (n % 10) as u8;
    let c = (48u8 + d) as char;
    assert(c == digit_char((n % 10) as nat));
    push_char(s, c);
    assert(s@ =~= old(s)@ + decimal(n as nat));
}

/// Whether `c` is an ASCII decimal digit.
pub open spec fn is_digit(c: char) -> bool {
    '0' <= c <= '9'
}

/// The value of the decimal digit character `c`.
pub open spec fn digit_value(c: char) -> nat {
    (c as int - 48) as nat
}

/// The value of a sequence of decimal digits (0 for no digits).
pub open spec fn digits_value(s: Seq<char>) -> nat
    decreases s.len(),
{
    if s.len() == 0 {
        0
    } else {
        digits_value(s.drop_last()) * 10 + digit_value(s.last())
    }
}

/// Whether every character of `s` is a decimal digit.
pub open spec fn all_digits(s: Seq<char>) -> bool {
    forall|i: int| 0 <= i < s.len() ==> is_digit(#[trigger] s[i])
}

/// The text `s` without a leading `+`, if it has one.
pub open spec fn without_plus(s: Seq<char>) -> Seq<char> {
    if s.len() > 0 && s[0] == '+' {
        s.drop_first()
    } else {
        s
    }
}

/// What `u32::from_str` gives for the text `s`: an optional `+` sign followed
/// by at least one decimal digit and nothing else, whose value fits in a `u32`.
pub open spec fn parse_u32(s: Seq<char>) -> Option<u32> {
    let d = without_plus(s);
    if d.len() > 0 && all_digits(d) && digits_value(d) <= u32::MAX {
        Some(digits_value(d) as u32)
    } else {
        None
    }
}

/// Reads a `u32` from the characters `s[start..end]`, as [`parse_u32`] says.
pub fn parse_u32_in(s: &Vec<char>, start: usize, end: usize) -> (r: Option<u32>)
    requires
        start <= end <= s@.len(),
    ensures
        r == parse_u32(s@.subrange(start as int, end as int)),
{
    let ghost t = s@.subrange(start as int, end as int);
    let mut i = start;
    if i < end && s[i] == '+' {
        i = i + 1;
    }
    let ghost d = s@.subrange(i as int, end as int);
    assert(d =~= without_plus(t));
    if i == end {
        assert(d.len() == 0);
        return None;
    }
    let first = i;
    let limit: u64 = 0x1_0000_0000;
    let mut value: u64 = 0;
    while i < end
        invariant
            first <= i <= end <= s@.len(),
            d == s@.subrange(first as int, end as int),
            t == s@.subrange(start as int, end as int),
            d == without_plus(t),
            d.len() > 0,
            forall|k: int| first <= k < i ==> is_digit(#[trigger] s@[k]),
            value == if digits_value(s@.subrange(first as int, i as int)) < limit {
                digits_value(s@.subrange(first as int, i as int))
            } else {
                limit as nat
            },
            limit == 0x1_0000_0000,
        decreases end - i,
    {
        let c = s[i];
        if !('0' <= c && c <= '9') {
            assert(!is_digit(d[i - first]));
            return None;
        }
        let dv = (c as u32 - 48) as u64;
        let ghost prefix = s@.subrange(first as int, i as int);
        assert(s@.subrange(first as int, i + 1).drop_last() =~= prefix);
        assert(digits_value(s@.subrange(first as int, i + 1)) == digits_value(prefix) * 10
            + digit_value(c));
        if value < limit {
            value = value * 10 + dv;
            if value > limit {
                value = limit;
            }
        }
        i = i + 1;
    }
    assert(s@.subrange(first as int, end as int) =~= d);
    if value < limit {
        Some(value as u32)
    } else {
        None
    }
}

} // verus!
