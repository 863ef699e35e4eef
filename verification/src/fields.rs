//! The fields that a span or an event carries: names with their values
//! written out as text.
use crate::bytes_order::str_eq;
use crate::trace_source::{record_attributes_fields, record_event_fields};
use tracing::span::Attributes;
use tracing::Event;
use vstd::prelude::*;

verus! {

/// The name of the `i`-th field.
pub open spec fn field_name(s: Seq<(String, String)>, i: int) -> Seq<char> {
    s[i].0@
}

/// No two entries have the same name.
pub open spec fn names_unique(s: Seq<(String, String)>) -> bool {
    forall|i: int, j: int|
        0 <= i < s.len() && 0 <= j < s.len() && i != j ==> #[trigger] field_name(s, i)
            != #[trigger] field_name(s, j)
}

/// The map from names to values that the entries describe.
pub open spec fn fields_map(s: Seq<(String, String)>) -> Map<Seq<char>, Seq<char>> {
    Map::new(
        |k: Seq<char>| exists|i: int| 0 <= i < s.len() && field_name(s, i) == k,
        |k: Seq<char>| s[choose|i: int| 0 <= i < s.len() && field_name(s, i) == k].1@,
    )
}

proof fn lemma_fields_map_at(s: Seq<(String, String)>, i: int)
    requires
        names_unique(s),
        0 <= i < s.len(),
    ensures
        fields_map(s).contains_key(field_name(s, i)),
        fields_map(s)[field_name(s, i)] == s[i].1@,
{
    let k = field_name(s, i);
    assert(exists|j: int| 0 <= j < s.len() && field_name(s, j) == k);
    let j = choose|j: int| 0 <= j < s.len() && field_name(s, j) == k;
    if j != i {
        assert(field_name(s, i) != field_name(s, j));
    }
}

/// Field names with their values.
#[derive(Debug)]
pub struct FieldMap {
    entries: Vec<(String, String)>,
}

impl View for FieldMap {
    type V = Map<Seq<char>, Seq<char>>;

    closed spec fn view(&self) -> Map<Seq<char>, Seq<char>> {
        fields_map(self.entries@)
    }
}

impl FieldMap {
    #[verifier::type_invariant]
    closed spec fn unique(&self) -> bool {
        names_unique(self.entries@)
    }

    /// A map with no fields.
    pub fn new() -> (r: Self)
        ensures
            r@ == Map::<Seq<char>, Seq<char>>::empty(),
    {
        let r = FieldMap { entries: Vec::new() };
        assert(r@ =~= Map::<Seq<char>, Seq<char>>::empty());
        r
    }

    /// The number of fields.
    pub fn len(&self) -> (r: usize)
        ensures
            r == self@.dom().len(),
    {
        proof {
            use_type_invariant(self);
            let s = self.entries@;
            let names = s.map_values(|e: (String, String)| e.0@);
            assert forall|i: int, j: int| 0 <= i < j < names.len() implies names[i] != names[j] by {
                assert(field_name(s, i) != field_name(s, j));
            }
            names.unique_seq_to_set();
            assert forall|k: Seq<char>| self@.contains_key(k) <==> names.contains(k) by {
                if names.contains(k) {
                    let i = choose|i: int| 0 <= i < names.len() && names[i] == k;
                    assert(field_name(s, i) == k);
                }
                if self@.contains_key(k) {
                    let i = choose|i: int| 0 <= i < s.len() && field_name(s, i) == k;
                    assert(names[i] == k);
                }
            }
            assert(self@.dom() =~= names.to_set());
        }
        self.entries.len()
    }

    /// Whether there are no fields.
    pub fn is_empty(&self) -> (r: bool)
        ensures
            r == (self@.dom().len() == 0),
    {
        self.len() == 0
    }

    fn position(&self, name: &str) -> (r: Option<usize>)
        ensures
            match r {
                Some(i) => i < self.entries@.len() && field_name(self.entries@, i as int) == name@,
                None => !self@.contains_key(name@),
            },
    {
        let mut i: usize = 0;
        while i < self.entries.len()
            invariant
                i <= self.entries@.len(),
                forall|j: int| 0 <= j < i ==> field_name(self.entries@, j) != name@,
            decreases self.entries.len() - i,
        {
            if str_eq(self.entries[i].0.as_str(), name) {
                return Some(i);
            }
            i = i + 1;
        }
        None
    }

    /// The value of the field `name`, if there is one.
    pub fn get(&self, name: &str) -> (r: Option<&String>)
        ensures
            match r {
                Some(v) => self@.contains_key(name@) && v@ == self@[name@],
                None => !self@.contains_key(name@),
            },
    {
        proof {
            use_type_invariant(self);
        }
        match self.position(name) {
            Some(i) => {
                proof {
                    lemma_fields_map_at(self.entries@, i as int);
                }
                Some(&self.entries[i].1)
            },
            None => None,
        }
    }

    /// Sets the field `name` to `value` and hands back the value it had.
    pub fn insert(&mut self, name: String, value: String) -> (r: Option<String>)
        ensures
            final(self)@ == old(self)@.insert(name@, value@),
            match r {
                Some(v) => old(self)@.contains_key(name@) && v@ == old(self)@[name@],
                None => !old(self)@.contains_key(name@),
            },
    {
        proof {
            use_type_invariant(&*self);
        }
        let ghost s0 = self.entries@;
        let found = self.position(name.as_str());
        let mut entries: Vec<(String, String)> = Vec::new();
        std::mem::swap(&mut entries, &mut self.entries);
        match found {
            Some(i) => {
                let (old_name, old_value) = entries.remove(i);
                entries.insert(i, (old_name, value));
                proof {
                    let s1 = entries@;
                    lemma_fields_map_at(s0, i as int);
                    assert forall|j: int| 0 <= j < s1.len() implies #[trigger] field_name(s1, j)
                        == field_name(s0, j) by {}
                    assert(names_unique(s1));
                    assert forall|k: Seq<char>| #[trigger] fields_map(s1).contains_key(k)
                        == fields_map(s0).insert(name@, value@).contains_key(k) by {
                        if fields_map(s0).contains_key(k) {
                            let j = choose|j: int| 0 <= j < s0.len() && field_name(s0, j) == k;
                            assert(field_name(s1, j) == k);
                        }
                        if fields_map(s1).contains_key(k) {
                            let j = choose|j: int| 0 <= j < s1.len() && field_name(s1, j) == k;
                            assert(field_name(s0, j) == k);
                        }
                    }
                    assert forall|k: Seq<char>| #[trigger] fields_map(s1).contains_key(k) implies
                        fields_map(s1)[k] == fields_map(s0).insert(name@, value@)[k] by {
                        let j = choose|j: int| 0 <= j < s1.len() && field_name(s1, j) == k;
                        lemma_fields_map_at(s1, j);
                        lemma_fields_map_at(s0, j);
                    }
                    assert(fields_map(s1) =~= fields_map(s0).insert(name@, value@));
                }
                self.entries = entries;
                Some(old_value)
            },
            None => {
                entries.push((name, value));
                proof {
                    let s1 = entries@;
                    let n = s0.len() as int;
                    assert forall|j: int| 0 <= j < n implies #[trigger] field_name(s1, j) == field_name(
                        s0,
                        j,
                    ) by {}
                    assert forall|a: int, b: int|
                        0 <= a < s1.len() && 0 <= b < s1.len() && a != b implies #[trigger] field_name(
                        s1,
                        a,
                    ) != #[trigger] field_name(s1, b) by {
                        if a < n && b < n {
                            assert(field_name(s0, a) != field_name(s0, b));
                        } else if a == n {
                            assert(field_name(s0, b) != name@);
                        } else {
                            assert(field_name(s0, a) != name@);
                        }
                    }
                    assert(names_unique(s1));
                    lemma_fields_map_at(s1, n);
                    assert forall|k: Seq<char>| #[trigger] fields_map(s1).contains_key(k)
                        == fields_map(s0).insert(name@, value@).contains_key(k) by {
                        if fields_map(s0).contains_key(k) {
                            let j = choose|j: int| 0 <= j < s0.len() && field_name(s0, j) == k;
                            assert(field_name(s1, j) == k);
                        }
                        if fields_map(s1).contains_key(k) && k != name@ {
                            let j = choose|j: int| 0 <= j < s1.len() && field_name(s1, j) == k;
                            assert(field_name(s0, j) == k);
                        }
                    }
                    assert forall|k: Seq<char>| #[trigger] fields_map(s1).contains_key(k) implies
                        fields_map(s1)[k] == fields_map(s0).insert(name@, value@)[k] by {
                        let j = choose|j: int| 0 <= j < s1.len() && field_name(s1, j) == k;
                        lemma_fields_map_at(s1, j);
                        if j < n {
                            lemma_fields_map_at(s0, j);
                        }
                    }
                    assert(fields_map(s1) =~= fields_map(s0).insert(name@, value@));
                }
                self.entries = entries;
                None
            },
        }
    }
}

impl Clone for FieldMap {
    fn clone(&self) -> (r: Self)
        ensures
            r@ == self@,
    {
        proof {
            use_type_invariant(self);
        }
        let mut entries: Vec<(String, String)> = Vec::new();
        let mut i: usize = 0;
        while i < self.entries.len()
            invariant
                i <= self.entries@.len(),
                entries@.len() == i,
                forall|j: int| 0 <= j < i ==> #[trigger] entries@[j].0@ == self.entries@[j].0@
                    && entries@[j].1@ == self.entries@[j].1@,
            decreases self.entries.len() - i,
        {
            entries.push((self.entries[i].0.clone(), self.entries[i].1.clone()));
            i = i + 1;
        }
        let ghost s0 = self.entries@;
        let ghost s1 = entries@;
        proof {
            assert forall|a: int, b: int|
                0 <= a < s1.len() && 0 <= b < s1.len() && a != b implies #[trigger] field_name(s1, a)
                != #[trigger] field_name(s1, b) by {
                assert(field_name(s0, a) != field_name(s0, b));
            }
            assert forall|k: Seq<char>| #[trigger] fields_map(s1).contains_key(k) == fields_map(
                s0,
            ).contains_key(k) by {
                if fields_map(s0).contains_key(k) {
                    let j = choose|j: int| 0 <= j < s0.len() && field_name(s0, j) == k;
                    assert(field_name(s1, j) == k);
                }
                if fields_map(s1).contains_key(k) {
                    let j = choose|j: int| 0 <= j < s1.len() && field_name(s1, j) == k;
                    assert(field_name(s0, j) == k);
                }
            }
            assert forall|k: Seq<char>| #[trigger] fields_map(s1).contains_key(k) implies fields_map(
                s1,
            )[k] == fields_map(s0)[k] by {
                let j = choose|j: int| 0 <= j < s1.len() && field_name(s1, j) == k;
                lemma_fields_map_at(s1, j);
                lemma_fields_map_at(s0, j);
            }
            assert(fields_map(s1) =~= fields_map(s0));
        }
        FieldMap { entries }
    }
}

/// Collects the fields of a span or an event, each value written out as
/// text.
#[derive(Debug)]
pub struct HashMapFieldCollector(FieldMap);

impl View for HashMapFieldCollector {
    type V = Map<Seq<char>, Seq<char>>;

    closed spec fn view(&self) -> Map<Seq<char>, Seq<char>> {
        self.0@
    }
}

impl Default for HashMapFieldCollector {
    fn default() -> (r: Self)
        ensures
            r@ == Map::<Seq<char>, Seq<char>>::empty(),
    {
        HashMapFieldCollector(FieldMap::new())
    }
}

impl HashMapFieldCollector {
    /// Records that the field `name` has the value written as `value`; a
    /// later value of the same field replaces an earlier one.
    pub fn record_field(&mut self, name: &str, value: String)
        ensures
            final(self)@ == old(self)@.insert(name@, value@),
    {
        self.0.insert(name.to_owned(), value);
    }

    /// The fields of a span's attributes.
    pub fn collect_span_fields(span: &Attributes) -> FieldMap {
        let mut collector = HashMapFieldCollector::default();
        record_attributes_fields(span, &mut collector);
        collector.into_fields()
    }

    /// The fields of an event.
    pub fn collect_event_fields(event: &Event) -> FieldMap {
        let mut collector = HashMapFieldCollector::default();
        record_event_fields(event, &mut collector);
        collector.into_fields()
    }

    /// The fields collected.
    pub fn into_fields(self) -> (r: FieldMap)
        ensures
            r@ == self@,
    {
        self.0
    }
}

} // verus!

verus! {

/// When a field is recorded twice, the later value is the one kept.
pub proof fn law_later_value_wins(
    before: Map<Seq<char>, Seq<char>>,
    name: Seq<char>,
    first: Seq<char>,
    second: Seq<char>,
)
    ensures
        before.insert(name, first).insert(name, second) == before.insert(name, second),
{
    assert(before.insert(name, first).insert(name, second) =~= before.insert(name, second));
}

} // verus!
