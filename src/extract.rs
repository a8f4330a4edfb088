//! Finding directive lines in a script: `<indicator><field> <value>`.

use vstd::prelude::*;
use crate::raw::{with_value, RawDirectives, RawView};

verus! {

pub open spec fn is_name_char(c: char) -> bool {
    ('a' <= c && c <= 'z') || ('A' <= c && c <= 'Z') || ('0' <= c && c <= '9') || c == '_'
}

pub open spec fn is_space(c: char) -> bool {
    c == ' ' || c == '\t'
}

/// End of the run of field-name characters starting at `k`.
pub open spec fn name_end(r: Seq<char>, k: int) -> int
    decreases r.len() - k,
{
    if 0 <= k < r.len() && is_name_char(r[k]) {
        name_end(r, k + 1)
    } else {
        k
    }
}

/// End of the run of spaces and tabs starting at `k`.
pub open spec fn space_end(r: Seq<char>, k: int) -> int
    decreases r.len() - k,
{
    if 0 <= k < r.len() && is_space(r[k]) {
        space_end(r, k + 1)
    } else {
        k
    }
}

/// The line without a trailing carriage return.
pub open spec fn strip_cr(line: Seq<char>) -> Seq<char> {
    if line.len() > 0 && line.last() == '\r' {
        line.drop_last()
    } else {
        line
    }
}

/// The field name and value of a directive line: the indicator, a non-empty
/// name of letters, digits and underscores, blanks, and a non-empty value.
pub open spec fn directive_of(line: Seq<char>, indicator: Seq<char>) -> Option<(Seq<char>, Seq<char>)> {
    if indicator.len() <= line.len() && line.take(indicator.len() as int) == indicator {
        let r = line.skip(indicator.len() as int);
        let n = name_end(r, 0);
        let v = space_end(r, n);
        if 0 < n && n < v && v < r.len() {
            Some((r.take(n), r.skip(v)))
        } else {
            None
        }
    } else {
        None
    }
}

/// Lines ended before index `i`, and where the line under way starts.
pub open spec fn lines_upto(t: Seq<char>, i: int) -> (Seq<Seq<char>>, int)
    decreases i,
{
    if i <= 0 {
        (Seq::empty(), 0)
    } else {
        let (ls, start) = lines_upto(t, i - 1);
        if t[i - 1] == '\n' {
            (ls.push(t.subrange(start, i - 1)), i)
        } else {
            (ls, start)
        }
    }
}

/// The pieces of `t` between newlines.
pub open spec fn lines(t: Seq<char>) -> Seq<Seq<char>> {
    let (ls, start) = lines_upto(t, t.len() as int);
    ls.push(t.subrange(start, t.len() as int))
}

/// The raw fields of the directive lines among `ls`, in order.
pub open spec fn extract_lines(ls: Seq<Seq<char>>, indicator: Seq<char>) -> RawView
    decreases ls.len(),
{
    if ls.len() == 0 {
        Seq::empty()
    } else {
        let m = extract_lines(ls.drop_last(), indicator);
        match directive_of(strip_cr(ls.last()), indicator) {
            Some((name, value)) => with_value(m, name, value),
            None => m,
        }
    }
}

pub open spec fn extract_spec(source: Seq<char>, indicator: Seq<char>) -> RawView {
    extract_lines(lines(source), indicator)
}

fn is_name_char_exec(c: char) -> (r: bool)
    ensures
        r == is_name_char(c),
{
    ('a' <= c && c <= 'z') || ('A' <= c && c <= 'Z') || ('0' <= c && c <= '9') || c == '_'
}

proof fn lemma_name_end_bounds(r: Seq<char>, k: int)
    requires
        0 <= k <= r.len(),
    ensures
        k <= name_end(r, k) <= r.len(),
    decreases r.len() - k,
{
    if k < r.len() && is_name_char(r[k]) {
        lemma_name_end_bounds(r, k + 1);
    }
}

proof fn lemma_space_end_bounds(r: Seq<char>, k: int)
    requires
        0 <= k <= r.len(),
    ensures
        k <= space_end(r, k) <= r.len(),
    decreases r.len() - k,
{
    if k < r.len() && is_space(r[k]) {
        lemma_space_end_bounds(r, k + 1);
    }
}

/// The field name and value of one line, if it is a directive line.
pub fn directive_of_line(line: &str, indicator: &str) -> (r: Option<(String, String)>)
    ensures
        match r {
            Some((name, value)) => directive_of(strip_cr(line@), indicator@) == Some((name@, value@)),
            None => directive_of(strip_cr(line@), indicator@) is None,
        },
{
    let full = line.unicode_len();
    let mut len = full;
    if len > 0 && line.get_char(len - 1) == '\r' {
        len = len - 1;
    }
    let ghost l = strip_cr(line@);
    proof {
        assert(l =~= line@.take(len as int));
    }
    let ilen = indicator.unicode_len();
    if ilen > len {
        return None;
    }
    let mut k: usize = 0;
    while k < ilen
        invariant
            k <= ilen <= len <= full,
            full == line@.len(),
            ilen == indicator@.len(),
            l == line@.take(len as int),
            forall|m: int| 0 <= m < k ==> l[m] == indicator@[m],
        decreases ilen - k,
    {
        if line.get_char(k) != indicator.get_char(k) {
            proof {
                assert(l.take(ilen as int)[k as int] != indicator@[k as int]);
            }
            return None;
        }
        k = k + 1;
    }
    proof {
        assert(l.take(ilen as int) =~= indicator@);
    }
    let ghost rest = l.skip(ilen as int);
    let mut n: usize = ilen;
    proof {
        lemma_name_end_bounds(rest, 0);
    }
    while n < len && is_name_char_exec(line.get_char(n))
        invariant
            ilen <= n <= len <= full,
            full == line@.len(),
            l == line@.take(len as int),
            rest == l.skip(ilen as int),
            name_end(rest, (n - ilen) as int) == name_end(rest, 0),
        decreases len - n,
    {
        n = n + 1;
    }
    let mut v: usize = n;
    while v < len && (line.get_char(v) == ' ' || line.get_char(v) == '\t')
        invariant
            n <= v <= len <= full,
            ilen <= n,
            full == line@.len(),
            l == line@.take(len as int),
            rest == l.skip(ilen as int),
            space_end(rest, (v - ilen) as int) == space_end(rest, (n - ilen) as int),
        decreases len - v,
    {
        v = v + 1;
    }
    if ilen < n && n < v && v < len {
        let name = line.substring_char(ilen, n).to_string();
        let value = line.substring_char(v, len).to_string();
        proof {
            assert(name@ =~= rest.take((n - ilen) as int));
            assert(value@ =~= rest.skip((v - ilen) as int));
        }
        Some((name, value))
    } else {
        None
    }
}

/// Groups the values of the directive lines of `source` by field name, in
/// the order met.
pub fn extract_directives(indicator: &str, source: &str) -> (r: RawDirectives)
    ensures
        r@ == extract_spec(source@, indicator@),
        r.wf(),
{
    let total = source.unicode_len();
    let ghost t = source@;
    let mut fields = RawDirectives::new();
    let mut start: usize = 0;
    let mut i: usize = 0;
    proof {
        assert(lines_upto(t, 0).0 =~= Seq::<Seq<char>>::empty());
    }
    while i < total
        invariant
            i <= total,
            total == t.len(),
            t == source@,
            lines_upto(t, i as int).1 == start as int,
            start <= i,
            fields@ == extract_lines(lines_upto(t, i as int).0, indicator@),
            fields.wf(),
        decreases total - i,
    {
        if source.get_char(i) == '\n' {
            let line = source.substring_char(start, i);
            let ghost ls = lines_upto(t, i as int).0;
            proof {
                assert(lines_upto(t, i + 1).0 == ls.push(line@));
                assert(ls.push(line@).drop_last() =~= ls);
            }
            match directive_of_line(line, indicator) {
                Some((name, value)) => fields.add(name.as_str(), value.as_str()),
                None => {},
            }
            start = i + 1;
        }
        i = i + 1;
    }
    let line = source.substring_char(start, total);
    let ghost ls = lines_upto(t, total as int).0;
    proof {
        assert(lines(t) == ls.push(line@));
        assert(ls.push(line@).drop_last() =~= ls);
    }
    match directive_of_line(line, indicator) {
        Some((name, value)) => fields.add(name.as_str(), value.as_str()),
        None => {},
    }
    fields
}

} // verus!
