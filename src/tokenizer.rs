//! Splitting an input line into words, with single quotes that keep
//! whitespace literal.

use vstd::prelude::*;
use crate::text::{push_char, views};

verus! {

/// The characters with the Unicode `White_Space` property, which
/// `char::is_whitespace` accepts.
pub open spec fn is_space_spec(c: char) -> bool {
    let n = c as u32;
    ||| 0x09 <= n <= 0x0d
    ||| n == 0x20
    ||| n == 0x85
    ||| n == 0xa0
    ||| n == 0x1680
    ||| 0x2000 <= n <= 0x200a
    ||| n == 0x2028
    ||| n == 0x2029
    ||| n == 0x202f
    ||| n == 0x205f
    ||| n == 0x3000
}

/// Whether `c` separates words outside quotes.
pub fn is_space(c: char) -> (r: bool)
    ensures
        r == is_space_spec(c),
{
    let n = c as u32;
    (0x09 <= n && n <= 0x0d) || n == 0x20 || n == 0x85 || n == 0xa0 || n == 0x1680 || (0x2000
        <= n && n <= 0x200a) || n == 0x2028 || n == 0x2029 || n == 0x202f || n == 0x205f || n
        == 0x3000
}

/// What the scanner holds between characters: the finished words, the
/// word being built, and whether a quote is open.
pub struct ScanState {
    pub words: Seq<Seq<char>>,
    pub current: Seq<char>,
    pub quoted: bool,
}

/// The scanner's state after reading one more character.
pub open spec fn scan_step(st: ScanState, c: char) -> ScanState {
    if c == '\'' {
        ScanState { quoted: !st.quoted, ..st }
    } else if is_space_spec(c) && !st.quoted {
        if st.current.len() > 0 {
            ScanState { words: st.words.push(st.current), current: Seq::empty(), quoted: false }
        } else {
            st
        }
    } else {
        ScanState { current: st.current.push(c), ..st }
    }
}

/// The scanner's state after reading all of `s`.
pub open spec fn scan(s: Seq<char>) -> ScanState
    decreases s.len(),
{
    if s.len() == 0 {
        ScanState { words: Seq::empty(), current: Seq::empty(), quoted: false }
    } else {
        scan_step(scan(s.drop_last()), s.last())
    }
}

/// The words of a line: the last word is kept when it is non-empty or when
/// a quote is still open at the end.
pub open spec fn tokenize(s: Seq<char>) -> Seq<Seq<char>> {
    let st = scan(s);
    if st.current.len() > 0 || st.quoted {
        st.words.push(st.current)
    } else {
        st.words
    }
}

/// Splits `input` into words. A single quote toggles literal mode and is
/// dropped; whitespace outside literal mode ends the current word; an
/// unterminated quote closes at the end of the line.
pub fn parse_input(input: &str) -> (r: Vec<String>)
    ensures
        views(r@) == tokenize(input@),
{
    let mut args: Vec<String> = Vec::new();
    let mut current_arg = String::new();
    let mut in_quotes = false;
    let n = input.unicode_len();
    let mut i: usize = 0;
    while i < n
        invariant
            n == input@.len(),
            i <= n,
            ({
                let st = scan(input@.take(i as int));
                &&& views(args@) == st.words
                &&& current_arg@ == st.current
                &&& in_quotes == st.quoted
            }),
        decreases n - i,
    {
        let ch = input.get_char(i);
        assert(input@.take(i + 1).drop_last() =~= input@.take(i as int));
        if ch == '\'' {
            in_quotes = !in_quotes;
        } else if is_space(ch) && !in_quotes {
            if current_arg.unicode_len() > 0 {
                let ghost old_args = args@;
                args.push(current_arg);
                assert(views(args@) =~= views(old_args).push(current_arg@));
                current_arg = String::new();
            }
        } else {
            push_char(&mut current_arg, ch);
        }
        i = i + 1;
    }
    assert(input@.take(n as int) =~= input@);
    if current_arg.unicode_len() > 0 || in_quotes {
        let ghost old_args = args@;
        args.push(current_arg);
        assert(views(args@) =~= views(old_args).push(current_arg@));
    }
    args
}

/// No quote character survives in any word of the scanner's state.
proof fn lemma_scan_has_no_quote(s: Seq<char>)
    ensures
        forall|k: int| 0 <= k < scan(s).current.len() ==> scan(s).current[k] != '\'',
        forall|w: int, k: int|
            0 <= w < scan(s).words.len() && 0 <= k < scan(s).words[w].len()
                ==> scan(s).words[w][k] != '\'',
    decreases s.len(),
{
    if s.len() > 0 {
        let prev = scan(s.drop_last());
        let c = s.last();
        lemma_scan_has_no_quote(s.drop_last());
        assert(scan(s) == scan_step(prev, c));
        if c != '\'' && !(is_space_spec(c) && !prev.quoted) {
            assert forall|k: int| 0 <= k < scan(s).current.len() implies scan(
                s,
            ).current[k] != '\'' by {
                if k < prev.current.len() {
                    assert(scan(s).current[k] == prev.current[k]);
                }
            }
        }
        if is_space_spec(c) && !prev.quoted && c != '\'' && prev.current.len() > 0 {
            assert forall|w: int, k: int|
                0 <= w < scan(s).words.len() && 0 <= k < scan(s).words[w].len() implies scan(
                s,
            ).words[w][k] != '\'' by {
                if w < prev.words.len() {
                    assert(scan(s).words[w] == prev.words[w]);
                } else {
                    assert(scan(s).words[w] == prev.current);
                }
            }
        }
    }
}

/// A word produced by the tokenizer never contains the quote character.
pub proof fn lemma_words_have_no_quote(line: Seq<char>, w: int, k: int)
    requires
        0 <= w < tokenize(line).len(),
        0 <= k < tokenize(line)[w].len(),
    ensures
        tokenize(line)[w][k] != '\'',
{
    lemma_scan_has_no_quote(line);
}

} // verus!
