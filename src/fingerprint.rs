//! A stable fingerprint of a resolved configuration, and the cache key made
//! from it.

use vstd::prelude::*;
use crate::directives::{Directives, DirectivesView};
use crate::expr::{Expr, ExprView};

verus! {

pub open spec fn opt_text(o: Option<Seq<char>>) -> Seq<char> {
    match o {
        Some(t) => t,
        None => Seq::empty(),
    }
}

/// The parts one after the other.
pub open spec fn concat_all(parts: Seq<Seq<char>>) -> Seq<char>
    decreases parts.len(),
{
    if parts.len() == 0 {
        Seq::empty()
    } else {
        concat_all(parts.drop_last()) + parts.last()
    }
}

pub open spec fn texts(list: Seq<ExprView>) -> Seq<Seq<char>> {
    list.map_values(|e: ExprView| e.0)
}

/// What each field contributes, in the fixed order: build command, build
/// inputs, interpreter, runtime inputs, build root, runtime files, nixpkgs
/// configuration. An absent field contributes nothing.
pub open spec fn fingerprint_parts(d: DirectivesView) -> Seq<Seq<char>> {
    seq![
        opt_text(d.build_command),
        concat_all(texts(d.build_inputs)),
        opt_text(d.interpreter),
        concat_all(texts(d.runtime_inputs)),
        opt_text(d.build_root),
        concat_all(d.runtime_files),
        match d.nixpkgs_config {
            Some(e) => e.0,
            None => Seq::empty(),
        },
    ]
}

/// The text that is hashed.
pub open spec fn fingerprint_text(d: DirectivesView) -> Seq<char> {
    concat_all(fingerprint_parts(d))
}

pub const FNV_OFFSET: u64 = 0xcbf2_9ce4_8422_2325;
pub const FNV_PRIME: u64 = 0x0000_0100_0000_01b3;

pub open spec fn fnv_step(h: u64, c: char) -> u64 {
    ((((h ^ (c as u32 as u64)) as nat) * (FNV_PRIME as nat)) % 0x1_0000_0000_0000_0000nat) as u64
}

/// 64-bit FNV-1a over the code points of `t`.
pub open spec fn fnv1a(t: Seq<char>) -> u64
    decreases t.len(),
{
    if t.len() == 0 {
        FNV_OFFSET
    } else {
        fnv_step(fnv1a(t.drop_last()), t.last())
    }
}

/// Appends the canonical texts of `list` to `out`.
fn append_texts(out: &mut String, list: &Vec<Expr>)
    ensures
        final(out)@ == old(out)@ + concat_all(texts(crate::expr::exprs_view(list@))),
{
    let ghost ts = texts(crate::expr::exprs_view(list@));
    let mut i: usize = 0;
    while i < list.len()
        invariant
            i <= list@.len(),
            ts == texts(crate::expr::exprs_view(list@)),
            out@ == old(out)@ + concat_all(ts.take(i as int)),
        decreases list@.len() - i,
    {
        proof {
            assert(ts.take(i + 1).drop_last() =~= ts.take(i as int));
        }
        out.append(list[i].as_str());
        proof {
            assert(out@ =~= old(out)@ + concat_all(ts.take(i + 1)));
        }
        i = i + 1;
    }
    proof {
        assert(ts.take(i as int) =~= ts);
    }
}

fn append_strings(out: &mut String, list: &Vec<String>)
    ensures
        final(out)@ == old(out)@ + concat_all(crate::text::strings_view(list@)),
{
    let ghost ts = crate::text::strings_view(list@);
    let mut i: usize = 0;
    while i < list.len()
        invariant
            i <= list@.len(),
            ts == crate::text::strings_view(list@),
            out@ == old(out)@ + concat_all(ts.take(i as int)),
        decreases list@.len() - i,
    {
        proof {
            assert(ts.take(i + 1).drop_last() =~= ts.take(i as int));
        }
        out.append(list[i].as_str());
        proof {
            assert(out@ =~= old(out)@ + concat_all(ts.take(i + 1)));
        }
        i = i + 1;
    }
    proof {
        assert(ts.take(i as int) =~= ts);
    }
}

fn append_opt(out: &mut String, o: &Option<String>)
    ensures
        final(out)@ == old(out)@ + opt_text(crate::directives::opt_view(*o)),
{
    match o {
        Some(t) => out.append(t.as_str()),
        None => {
            assert(out@ =~= old(out)@ + Seq::<char>::empty());
        },
    }
}

/// 64-bit FNV-1a over the code points of `t`.
pub fn fnv1a_hash(t: &str) -> (r: u64)
    ensures
        r == fnv1a(t@),
{
    let n = t.unicode_len();
    let mut h: u64 = FNV_OFFSET;
    let mut i: usize = 0;
    while i < n
        invariant
            i <= n,
            n == t@.len(),
            h == fnv1a(t@.take(i as int)),
        decreases n - i,
    {
        let c = t.get_char(i);
        proof {
            assert(t@.take(i + 1).drop_last() =~= t@.take(i as int));
        }
        h = (h ^ (c as u32 as u64)).wrapping_mul(FNV_PRIME);
        i = i + 1;
    }
    proof {
        assert(t@.take(i as int) =~= t@);
    }
    h
}

impl Expr {
    /// Stable hash of the canonical text: equal expressions hash alike.
    pub fn text_hash(&self) -> (r: u64)
        ensures
            r == fnv1a(self@.0),
    {
        fnv1a_hash(self.as_str())
    }
}

impl Directives {
    /// The fingerprinted text: each field's contribution in the fixed order.
    pub fn fingerprint_text(&self) -> (r: String)
        ensures
            r@ == fingerprint_text(self@),
    {
        let ghost p = fingerprint_parts(self@);
        let mut out = String::new();
        proof {
            assert(p.take(0) =~= Seq::<Seq<char>>::empty());
        }
        append_opt(&mut out, &self.build_command);
        proof {
            lemma_concat_take(p, 0);
        }
        append_texts(&mut out, &self.build_inputs);
        proof {
            lemma_concat_take(p, 1);
        }
        append_opt(&mut out, &self.interpreter);
        proof {
            lemma_concat_take(p, 2);
        }
        append_texts(&mut out, &self.runtime_inputs);
        proof {
            lemma_concat_take(p, 3);
        }
        append_opt(&mut out, &self.build_root);
        proof {
            lemma_concat_take(p, 4);
        }
        append_strings(&mut out, &self.runtime_files);
        proof {
            lemma_concat_take(p, 5);
        }
        match &self.nixpkgs_config {
            Some(e) => out.append(e.as_str()),
            None => {
                assert(out@ =~= out@ + Seq::<char>::empty());
            },
        }
        proof {
            lemma_concat_take(p, 6);
            assert(p.take(7) =~= p);
        }
        out
    }

    /// Stable hash of the fingerprinted text.
    pub fn fingerprint(&self) -> (r: u64)
        ensures
            r == fnv1a(fingerprint_text(self@)),
    {
        let text = self.fingerprint_text();
        fnv1a_hash(text.as_str())
    }
}

proof fn lemma_concat_take(p: Seq<Seq<char>>, k: int)
    requires
        0 <= k < p.len(),
    ensures
        concat_all(p.take(k + 1)) == concat_all(p.take(k)) + p[k],
{
    assert(p.take(k + 1).drop_last() =~= p.take(k));
}

proof fn lemma_concat_differs(a: Seq<Seq<char>>, b: Seq<Seq<char>>, j: int)
    requires
        a.len() == b.len(),
        0 <= j < a.len(),
        a[j] != b[j],
        forall|k: int| 0 <= k < a.len() && k != j ==> a[k] == b[k],
    ensures
        concat_all(a) != concat_all(b),
    decreases a.len(),
{
    let n = a.len() - 1;
    let pa = concat_all(a.drop_last());
    let pb = concat_all(b.drop_last());
    if j == n {
        assert(a.drop_last() =~= b.drop_last());
        if concat_all(a) == concat_all(b) {
            assert(concat_all(a) == pa + a[n]);
            assert(concat_all(b) == pa + b[n]);
            assert(a[n] =~= (pa + a[n]).subrange(pa.len() as int, (pa + a[n]).len() as int));
            assert(b[n] =~= (pa + b[n]).subrange(pa.len() as int, (pa + b[n]).len() as int));
        }
    } else {
        lemma_concat_differs(a.drop_last(), b.drop_last(), j);
        if concat_all(a) == concat_all(b) {
            assert(a[n] == b[n]);
            assert(pa =~= (pa + a[n]).subrange(0, pa.len() as int));
            assert(pb =~= (pb + b[n]).subrange(0, pb.len() as int));
        }
    }
}

/// Changing what one field contributes to the fingerprint, and nothing else,
/// changes the fingerprinted text. Parts are indexed in the fixed order:
/// build command, build inputs, interpreter, runtime inputs, build root,
/// runtime files, nixpkgs configuration.
pub proof fn lemma_fingerprint_separates_fields(a: DirectivesView, b: DirectivesView, j: int)
    requires
        0 <= j < 7,
        fingerprint_parts(a)[j] != fingerprint_parts(b)[j],
        forall|k: int| 0 <= k < 7 && k != j ==> fingerprint_parts(a)[k] == fingerprint_parts(b)[k],
    ensures
        fingerprint_text(a) != fingerprint_text(b),
{
    lemma_concat_differs(fingerprint_parts(a), fingerprint_parts(b), j);
}

} // verus!
