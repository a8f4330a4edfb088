//! Raw directive values grouped by field name, in order of first appearance.

use vstd::prelude::*;
use crate::text::strings_view;

verus! {

/// All values given for one field, in the order they were met.
#[derive(Debug)]
pub struct RawField {
    pub name: String,
    pub values: Vec<String>,
}

/// Field name to the raw values given for it. Each name appears once.
#[derive(Debug)]
pub struct RawDirectives {
    fields: Vec<RawField>,
}

pub type RawView = Seq<(Seq<char>, Seq<Seq<char>>)>;

pub open spec fn field_view(f: RawField) -> (Seq<char>, Seq<Seq<char>>) {
    (f.name@, strings_view(f.values@))
}

/// The values given for `name`, if any were.
pub open spec fn lookup(m: RawView, name: Seq<char>) -> Option<Seq<Seq<char>>>
    decreases m.len(),
{
    if m.len() == 0 {
        None
    } else if m[0].0 == name {
        Some(m[0].1)
    } else {
        lookup(m.drop_first(), name)
    }
}

/// `m` with `value` added after the values already given for `name`.
pub open spec fn with_value(m: RawView, name: Seq<char>, value: Seq<char>) -> RawView
    decreases m.len(),
{
    if m.len() == 0 {
        seq![(name, seq![value])]
    } else if m[0].0 == name {
        m.update(0, (name, m[0].1.push(value)))
    } else {
        seq![m[0]] + with_value(m.drop_first(), name, value)
    }
}

pub open spec fn names_unique(m: RawView) -> bool {
    forall|i: int, j: int| 0 <= i < j < m.len() ==> m[i].0 != m[j].0
}

impl View for RawDirectives {
    type V = RawView;

    closed spec fn view(&self) -> RawView {
        self.fields@.map_values(|f: RawField| field_view(f))
    }
}

proof fn lemma_lookup_suffix(m: RawView, name: Seq<char>, i: int)
    requires
        0 <= i < m.len(),
        forall|k: int| 0 <= k < i ==> m[k].0 != name,
    ensures
        lookup(m, name) == lookup(m.subrange(i, m.len() as int), name),
    decreases i,
{
    if i > 0 {
        let d = m.drop_first();
        assert(d.subrange(i - 1, d.len() as int) =~= m.subrange(i, m.len() as int));
        assert forall|k: int| 0 <= k < i - 1 implies d[k].0 != name by {
            assert(d[k] == m[k + 1]);
        }
        lemma_lookup_suffix(d, name, i - 1);
    } else {
        assert(m.subrange(0, m.len() as int) =~= m);
    }
}

proof fn lemma_lookup_absent(m: RawView, name: Seq<char>)
    requires
        forall|k: int| 0 <= k < m.len() ==> m[k].0 != name,
    ensures
        lookup(m, name) is None,
    decreases m.len(),
{
    if m.len() > 0 {
        lemma_lookup_absent(m.drop_first(), name);
    }
}

proof fn lemma_with_value_found(m: RawView, name: Seq<char>, value: Seq<char>, i: int)
    requires
        0 <= i < m.len(),
        m[i].0 == name,
        forall|k: int| 0 <= k < i ==> m[k].0 != name,
    ensures
        with_value(m, name, value) == m.update(i, (name, m[i].1.push(value))),
    decreases i,
{
    if i > 0 {
        lemma_with_value_found(m.drop_first(), name, value, i - 1);
        assert(seq![m[0]] + m.drop_first().update(i - 1, (name, m[i].1.push(value)))
            =~= m.update(i, (name, m[i].1.push(value))));
    }
}

proof fn lemma_with_value_new(m: RawView, name: Seq<char>, value: Seq<char>)
    requires
        forall|k: int| 0 <= k < m.len() ==> m[k].0 != name,
    ensures
        with_value(m, name, value) == m.push((name, seq![value])),
    decreases m.len(),
{
    if m.len() > 0 {
        lemma_with_value_new(m.drop_first(), name, value);
        assert(seq![m[0]] + m.drop_first().push((name, seq![value])) =~= m.push((name, seq![value])));
    }
}

impl RawDirectives {
    pub open spec fn wf(&self) -> bool {
        names_unique(self@)
    }

    pub fn new() -> (r: RawDirectives)
        ensures
            r@ == Seq::<(Seq<char>, Seq<Seq<char>>)>::empty(),
            r.wf(),
    {
        RawDirectives { fields: Vec::new() }
    }

    /// Position of the field called `name`.
    fn position(&self, name: &str) -> (r: Option<usize>)
        ensures
            match r {
                Some(i) => i < self@.len() && self@[i as int].0 == name@
                    && forall|k: int| 0 <= k < i ==> self@[k].0 != name@,
                None => forall|k: int| 0 <= k < self@.len() ==> self@[k].0 != name@,
            },
    {
        let key = name.to_string();
        let mut i: usize = 0;
        while i < self.fields.len()
            invariant
                i <= self@.len(),
                self@.len() == self.fields@.len(),
                forall|k: int| 0 <= k < i ==> self@[k].0 != name@,
                key@ == name@,
            decreases self.fields@.len() - i,
        {
            proof {
                assert(self@[i as int] == field_view(self.fields@[i as int]));
            }
            if self.fields[i].name == key {
                return Some(i);
            }
            i = i + 1;
        }
        None
    }

    /// The values given for `name`.
    pub fn get(&self, name: &str) -> (r: Option<&Vec<String>>)
        ensures
            match r {
                Some(v) => lookup(self@, name@) == Some(strings_view(v@)),
                None => lookup(self@, name@) is None,
            },
    {
        match self.position(name) {
            Some(i) => {
                proof {
                    lemma_lookup_suffix(self@, name@, i as int);
                    assert(self@[i as int] == field_view(self.fields@[i as int]));
                }
                Some(&self.fields[i].values)
            },
            None => {
                proof {
                    lemma_lookup_absent(self@, name@);
                }
                None
            },
        }
    }

    /// Adds `value` after those already given for `name`.
    pub fn add(&mut self, name: &str, value: &str)
        requires
            old(self).wf(),
        ensures
            final(self)@ == with_value(old(self)@, name@, value@),
            final(self).wf(),
    {
        match self.position(name) {
            Some(i) => {
                proof {
                    lemma_with_value_found(self@, name@, value@, i as int);
                }
                let ghost before = self.fields@;
                let mut field = self.fields.remove(i);
                let ghost old_values = field.values@;
                field.values.push(value.to_string());
                self.fields.insert(i, field);
                proof {
                    assert(old(self)@[i as int] == field_view(before[i as int]));
                    assert(strings_view(field.values@) =~= strings_view(old_values).push(value@));
                    assert(self.fields@ =~= before.update(i as int, field));
                    assert(self@ =~= old(self)@.update(i as int, (name@, old(self)@[i as int].1.push(value@))));
                }
            },
            None => {
                proof {
                    lemma_with_value_new(self@, name@, value@);
                }
                let first = value.to_string();
                let values = vec![first];
                self.fields.push(RawField { name: name.to_string(), values });
                proof {
                    assert(strings_view(values@) =~= seq![value@]);
                    assert(self@ =~= old(self)@.push((name@, seq![value@])));
                }
            },
        }
    }

    /// A copy of the fields.
    pub fn duplicate(&self) -> (r: RawDirectives)
        ensures
            r@ == self@,
            self.wf() ==> r.wf(),
    {
        let mut fields: Vec<RawField> = Vec::new();
        let mut i: usize = 0;
        while i < self.fields.len()
            invariant
                i <= self.fields@.len(),
                fields@.map_values(|f: RawField| field_view(f)) =~= self.fields@.take(i as int).map_values(|f: RawField| field_view(f)),
            decreases self.fields@.len() - i,
        {
            let f = &self.fields[i];
            let mut values: Vec<String> = Vec::new();
            let mut k: usize = 0;
            while k < f.values.len()
                invariant
                    k <= f.values@.len(),
                    strings_view(values@) =~= strings_view(f.values@.take(k as int)),
                decreases f.values@.len() - k,
            {
                let c = f.values[k].clone();
                let ghost before = values@;
                values.push(c);
                proof {
                    assert(f.values@.take(k + 1) =~= f.values@.take(k as int).push(f.values@[k as int]));
                    assert(strings_view(values@) =~= strings_view(before).push(c@));
                    assert(strings_view(f.values@.take(k + 1)) =~= strings_view(f.values@.take(k as int)).push(f.values@[k as int]@));
                }
                k = k + 1;
            }
            proof {
                assert(f.values@.take(k as int) =~= f.values@);
            }
            let copy = RawField { name: f.name.clone(), values };
            let ghost before = fields@;
            proof {
                assert(field_view(copy) == field_view(*f));
            }
            fields.push(copy);
            proof {
                assert(self.fields@.take(i + 1) =~= self.fields@.take(i as int).push(self.fields@[i as int]));
                assert(fields@.map_values(|f: RawField| field_view(f)) =~= before.map_values(|f: RawField| field_view(f)).push(field_view(copy)));
                assert(self.fields@.take(i + 1).map_values(|f: RawField| field_view(f)) =~= self.fields@.take(i as int).map_values(|f: RawField| field_view(f)).push(field_view(*f)));
            }
            i = i + 1;
        }
        proof {
            assert(self.fields@.take(i as int) =~= self.fields@);
        }
        RawDirectives { fields }
    }

    /// Number of distinct field names.
    pub fn len(&self) -> (r: usize)
        ensures
            r == self@.len(),
    {
        self.fields.len()
    }

    /// The field at position `i`, in order of first appearance.
    pub fn field(&self, i: usize) -> (r: &RawField)
        requires
            i < self@.len(),
        ensures
            field_view(*r) == self@[i as int],
    {
        &self.fields[i]
    }
}

} // verus!
