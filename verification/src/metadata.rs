//! Generic key/value metadata attached to match results.
use vstd::prelude::*;

verus! {

/// A single metadata value.
#[derive(Debug, PartialEq)]
pub enum MetaValue {
    /// No value
    Null,
    /// A boolean
    Bool(bool),
    /// An unsigned integer
    UInt(u64),
    /// A floating point number, held by its IEEE-754 bit pattern
    FloatBits(u64),
    /// A string
    Str(String),
}

/// Abstract value of a [`MetaValue`].
pub enum MetaValueView {
    Null,
    Bool(bool),
    UInt(u64),
    FloatBits(u64),
    Str(Seq<char>),
}

impl View for MetaValue {
    type V = MetaValueView;

    open spec fn view(&self) -> MetaValueView {
        match self {
            MetaValue::Null => MetaValueView::Null,
            MetaValue::Bool(b) => MetaValueView::Bool(*b),
            MetaValue::UInt(n) => MetaValueView::UInt(*n),
            MetaValue::FloatBits(n) => MetaValueView::FloatBits(*n),
            MetaValue::Str(s) => MetaValueView::Str(s@),
        }
    }
}

impl MetaValue {
    /// Copies this value.
    pub fn duplicate(&self) -> (r: MetaValue)
        ensures
            r@ == self@,
    {
        match self {
            MetaValue::Null => MetaValue::Null,
            MetaValue::Bool(b) => MetaValue::Bool(*b),
            MetaValue::UInt(n) => MetaValue::UInt(*n),
            MetaValue::FloatBits(n) => MetaValue::FloatBits(*n),
            MetaValue::Str(s) => MetaValue::Str(s.clone()),
        }
    }
}

/// The map obtained by applying the assignments of `entries` in order, later ones
/// overriding earlier ones.
pub open spec fn assignments_map(entries: Seq<(Seq<char>, MetaValueView)>) -> Map<
    Seq<char>,
    MetaValueView,
>
    decreases entries.len(),
{
    if entries.len() == 0 {
        Map::empty()
    } else {
        assignments_map(entries.drop_last()).insert(entries.last().0, entries.last().1)
    }
}

/// Key/value metadata. Entries are assignments applied in order: a later entry for a key
/// overrides an earlier one.
pub struct Metadata {
    entries: Vec<(String, MetaValue)>,
}

impl Metadata {
    /// The assignments, as abstract values.
    pub closed spec fn assignments(&self) -> Seq<(Seq<char>, MetaValueView)> {
        self.entries@.map_values(|e: (String, MetaValue)| (e.0@, e.1@))
    }
}

impl View for Metadata {
    type V = Map<Seq<char>, MetaValueView>;

    closed spec fn view(&self) -> Map<Seq<char>, MetaValueView> {
        assignments_map(self.assignments())
    }
}

impl Metadata {
    /// Empty metadata.
    pub fn new() -> (r: Metadata)
        ensures
            r@ == Map::<Seq<char>, MetaValueView>::empty(),
            r.assignments().len() == 0,
    {
        let r = Metadata { entries: Vec::new() };
        assert(r.assignments() =~= Seq::<(Seq<char>, MetaValueView)>::empty());
        r
    }

    /// Sets `key` to `value`, replacing an earlier value of `key`.
    pub fn insert(&mut self, key: String, value: MetaValue)
        ensures
            final(self)@ == old(self)@.insert(key@, value@),
            final(self).assignments() == old(self).assignments().push((key@, value@)),
    {
        let ghost k = key@;
        let ghost v = value@;
        self.entries.push((key, value));
        assert(self.assignments() =~= old(self).assignments().push((k, v)));
        assert(self.assignments().drop_last() =~= old(self).assignments());
    }

    /// Number of assignments held.
    pub fn num_entries(&self) -> (r: usize)
        ensures
            r == self.assignments().len(),
    {
        self.entries.len()
    }

    /// The key and value of the assignment at `index`.
    pub fn entry(&self, index: usize) -> (r: (&String, &MetaValue))
        requires
            index < self.assignments().len(),
        ensures
            (r.0@, r.1@) == self.assignments()[index as int],
    {
        let e = &self.entries[index];
        (&e.0, &e.1)
    }

    /// The value currently assigned to `key`, if any.
    pub fn get(&self, key: &str) -> (r: Option<&MetaValue>)
        ensures
            match r {
                Some(v) => self@.contains_key(key@) && self@[key@] == v@,
                None => !self@.contains_key(key@),
            },
    {
        let mut i = self.entries.len();
        while i > 0
            invariant
                i <= self.entries.len(),
                forall|j: int| i <= j < self.entries.len() ==> self.entries@[j].0@ != key@,
            decreases i,
        {
            i = i - 1;
            if crate::text::str_eq(self.entries[i].0.as_str(), key) {
                proof { lemma_assignments_lookup(self.assignments(), i as int); }
                return Some(&self.entries[i].1);
            }
        }
        proof { lemma_assignments_absent(self.assignments(), key@); }
        None
    }

    /// Applies all assignments of `other` after those of `self`.
    pub fn extend_from(&mut self, other: &Metadata)
        ensures
            final(self).assignments() == old(self).assignments() + other.assignments(),
            final(self)@ == old(self)@.union_prefer_right(other@),
    {
        proof {
            lemma_assignments_concat(self.assignments(), other.assignments());
        }
        let n = other.entries.len();
        for i in 0..n
            invariant
                n == other.entries.len(),
                self.assignments() == old(self).assignments() + other.assignments().take(i as int),
        {
            let e = &other.entries[i];
            let k = e.0.clone();
            let v = e.1.duplicate();
            self.insert(k, v);
            assert(other.assignments().take(i + 1) =~= other.assignments().take(i as int).push(
                other.assignments()[i as int],
            ));
        }
        assert(other.assignments().take(n as int) =~= other.assignments());
    }

    /// A copy of this metadata.
    pub fn duplicate(&self) -> (r: Metadata)
        ensures
            r@ == self@,
            r.assignments() == self.assignments(),
    {
        let mut r = Metadata::new();
        r.extend_from(self);
        assert(r.assignments() =~= self.assignments());
        r
    }
}

/// The value of a key in the map built from `entries` is the value of its last assignment.
pub proof fn lemma_assignments_lookup(entries: Seq<(Seq<char>, MetaValueView)>, i: int)
    requires
        0 <= i < entries.len(),
        forall|j: int| i < j < entries.len() ==> entries[j].0 != entries[i].0,
    ensures
        assignments_map(entries).contains_key(entries[i].0),
        assignments_map(entries)[entries[i].0] == entries[i].1,
    decreases entries.len(),
{
    if i < entries.len() - 1 {
        lemma_assignments_lookup(entries.drop_last(), i);
    }
}

/// Applying two lists of assignments in turn gives the first map updated by the second.
pub proof fn lemma_assignments_concat(
    a: Seq<(Seq<char>, MetaValueView)>,
    b: Seq<(Seq<char>, MetaValueView)>,
)
    ensures
        assignments_map(a + b) == assignments_map(a).union_prefer_right(assignments_map(b)),
    decreases b.len(),
{
    if b.len() == 0 {
        assert(a + b =~= a);
        assert(assignments_map(a).union_prefer_right(assignments_map(b)) =~= assignments_map(a));
    } else {
        lemma_assignments_concat(a, b.drop_last());
        assert((a + b).drop_last() =~= a + b.drop_last());
        assert((a + b).last() == b.last());
        assert(assignments_map(a + b) =~= assignments_map(a).union_prefer_right(assignments_map(b)));
    }
}

/// A key that no entry assigns is absent from the map.
pub proof fn lemma_assignments_absent(entries: Seq<(Seq<char>, MetaValueView)>, k: Seq<char>)
    requires
        forall|j: int| 0 <= j < entries.len() ==> entries[j].0 != k,
    ensures
        !assignments_map(entries).contains_key(k),
    decreases entries.len(),
{
    if entries.len() > 0 {
        lemma_assignments_absent(entries.drop_last(), k);
    }
}

} // verus!
