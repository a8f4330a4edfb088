//! Joining lines with single spaces, and splitting text into words.

use vstd::prelude::*;

verus! {

pub open spec fn strings_view(v: Seq<String>) -> Seq<Seq<char>> {
    v.map_values(|s: String| s@)
}

/// The lines joined by single spaces.
pub open spec fn join_spaced(lines: Seq<Seq<char>>) -> Seq<char>
    decreases lines.len(),
{
    if lines.len() == 0 {
        Seq::empty()
    } else if lines.len() == 1 {
        lines[0]
    } else {
        join_spaced(lines.drop_last()) + seq![' '] + lines.last()
    }
}

/// Unicode White_Space, the characters `char::is_whitespace` accepts.
pub open spec fn is_blank(c: char) -> bool {
    ('\u{9}' <= c && c <= '\u{d}') || c == ' ' || c == '\u{85}' || c == '\u{a0}' || c == '\u{1680}'
        || ('\u{2000}' <= c && c <= '\u{200a}') || c == '\u{2028}' || c == '\u{2029}'
        || c == '\u{202f}' || c == '\u{205f}' || c == '\u{3000}'
}

/// Words found in the first `i` characters, and where the word under way
/// starts.
pub open spec fn words_upto(t: Seq<char>, i: int) -> (Seq<Seq<char>>, int)
    decreases i,
{
    if i <= 0 {
        (Seq::empty(), 0)
    } else {
        let (ws, start) = words_upto(t, i - 1);
        if is_blank(t[i - 1]) {
            if start < i - 1 {
                (ws.push(t.subrange(start, i - 1)), i)
            } else {
                (ws, i)
            }
        } else {
            (ws, start)
        }
    }
}

/// The maximal runs of non-blank characters, in order.
pub open spec fn words(t: Seq<char>) -> Seq<Seq<char>> {
    let (ws, start) = words_upto(t, t.len() as int);
    if start < t.len() {
        ws.push(t.subrange(start, t.len() as int))
    } else {
        ws
    }
}

pub fn is_blank_char(c: char) -> (r: bool)
    ensures
        r == is_blank(c),
{
    ('\u{9}' <= c && c <= '\u{d}') || c == ' ' || c == '\u{85}' || c == '\u{a0}' || c == '\u{1680}'
        || ('\u{2000}' <= c && c <= '\u{200a}') || c == '\u{2028}' || c == '\u{2029}'
        || c == '\u{202f}' || c == '\u{205f}' || c == '\u{3000}'
}

/// The lines joined by single spaces.
pub fn join_with_spaces(lines: &Vec<String>) -> (r: String)
    ensures
        r@ == join_spaced(strings_view(lines@)),
{
    let ghost v = strings_view(lines@);
    let mut out = String::new();
    let mut i: usize = 0;
    while i < lines.len()
        invariant
            i <= lines@.len(),
            v == strings_view(lines@),
            out@ == join_spaced(v.take(i as int)),
        decreases lines@.len() - i,
    {
        proof {
            assert(v.take(i + 1).drop_last() =~= v.take(i as int));
            reveal_strlit(" ");
        }
        if i > 0 {
            out.append(" ");
        }
        out.append(lines[i].as_str());
        proof {
            if i == 0 {
                assert(out@ =~= v.take(1)[0]);
            } else {
                assert(out@ =~= join_spaced(v.take(i as int)) + seq![' '] + v.take(i + 1).last());
            }
        }
        i = i + 1;
    }
    proof {
        assert(v.take(i as int) =~= v);
    }
    out
}

/// The maximal runs of non-blank characters of `text`, in order.
pub fn split_words(text: &str) -> (r: Vec<String>)
    ensures
        strings_view(r@) == words(text@),
{
    let n = text.unicode_len();
    let mut out: Vec<String> = Vec::new();
    let mut start: usize = 0;
    let mut i: usize = 0;
    while i < n
        invariant
            i <= n,
            n == text@.len(),
            words_upto(text@, i as int) == (strings_view(out@), start as int),
            start <= i,
        decreases n - i,
    {
        let c = text.get_char(i);
        if is_blank_char(c) {
            if start < i {
                let w = text.substring_char(start, i);
                let ghost before = out@;
                out.push(w.to_string());
                proof {
                    assert(strings_view(out@) =~= strings_view(before).push(w@));
                }
            }
            start = i + 1;
        }
        i = i + 1;
    }
    if start < n {
        let w = text.substring_char(start, n);
        let ghost before = out@;
        out.push(w.to_string());
        proof {
            assert(strings_view(out@) =~= strings_view(before).push(w@));
        }
    }
    out
}

} // verus!
