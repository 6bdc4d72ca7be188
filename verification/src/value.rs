use vstd::prelude::*;

verus! {

/// Source extent of a value, as byte offsets into the original text.
/// `start == end == 0` is the synthetic "unknown" extent, used for values
/// assembled from several sources (for example a list built from many entries).
#[derive(Clone, Copy, PartialEq, Eq, Structural, Debug)]
pub struct Span {
    pub start: usize,
    pub end: usize,
}

impl Span {
    /// The sentinel extent for values with no natural source position.
    pub fn unknown() -> (r: Span)
        ensures
            r == Span::spec_unknown(),
    {
        Span { start: 0, end: 0 }
    }

    pub open spec fn spec_unknown() -> Span {
        Span { start: 0, end: 0 }
    }

    pub fn new(start: usize, end: usize) -> (r: Span)
        ensures
            r == (Span { start, end }),
    {
        Span { start, end }
    }
}

/// Mathematical model of a generic value: the same shape as `Value`, with
/// strings as character sequences and collections as `Seq`.
#[allow(inconsistent_fields)]
pub enum ValueView {
    Nothing { span: Span },
    Bool { val: bool, span: Span },
    Int { val: i64, span: Span },
    Float { text: Seq<char>, span: Span },
    Str { val: Seq<char>, span: Span },
    List { vals: Seq<ValueView>, span: Span },
    Record { pairs: Seq<(Seq<char>, ValueView)>, span: Span },
}

/// The generic value model: an ordered, dynamically typed tree of records,
/// lists and scalars. A float is carried as its canonical literal text, so
/// that the conversion logic stays within exactly representable data.
#[allow(inconsistent_fields)]
#[derive(Debug)]
pub enum Value {
    Nothing { span: Span },
    Bool { val: bool, span: Span },
    Int { val: i64, span: Span },
    Float { text: String, span: Span },
    Str { val: String, span: Span },
    List { vals: Vec<Value>, span: Span },
    Record { val: Record, span: Span },
}

/// An ordered string-to-value mapping with unique keys.
#[derive(Debug)]
pub struct Record {
    pub pairs: Vec<(String, Value)>,
}

pub open spec fn value_view(v: Value) -> ValueView
    decreases v,
{
    match v {
        Value::Nothing { span } => ValueView::Nothing { span },
        Value::Bool { val, span } => ValueView::Bool { val, span },
        Value::Int { val, span } => ValueView::Int { val, span },
        Value::Float { text, span } => ValueView::Float { text: text@, span },
        Value::Str { val, span } => ValueView::Str { val: val@, span },
        Value::List { vals, span } => ValueView::List { vals: values_view(vals@), span },
        Value::Record { val, span } => ValueView::Record { pairs: pairs_view(val.pairs@), span },
    }
}

pub open spec fn values_view(s: Seq<Value>) -> Seq<ValueView>
    decreases s,
{
    if s.len() == 0 {
        Seq::empty()
    } else {
        values_view(s.drop_last()).push(value_view(s.last()))
    }
}

pub open spec fn pairs_view(s: Seq<(String, Value)>) -> Seq<(Seq<char>, ValueView)>
    decreases s,
{
    if s.len() == 0 {
        Seq::empty()
    } else {
        pairs_view(s.drop_last()).push((s.last().0@, value_view(s.last().1)))
    }
}

/// The views of a sequence of values, element by element.
pub proof fn lemma_values_view(s: Seq<Value>)
    ensures
        values_view(s).len() == s.len(),
        forall|i: int| 0 <= i < s.len() ==> values_view(s)[i] == value_view(s[i]),
    decreases s,
{
    if s.len() > 0 {
        lemma_values_view(s.drop_last());
    }
}

/// The views of a sequence of key-value pairs, element by element.
pub proof fn lemma_pairs_view(s: Seq<(String, Value)>)
    ensures
        pairs_view(s).len() == s.len(),
        forall|i: int|
            0 <= i < s.len() ==> pairs_view(s)[i] == (s[i].0@, value_view(s[i].1)),
    decreases s,
{
    if s.len() > 0 {
        lemma_pairs_view(s.drop_last());
    }
}

impl View for Value {
    type V = ValueView;

    open spec fn view(&self) -> ValueView {
        value_view(*self)
    }
}

impl View for Record {
    type V = Seq<(Seq<char>, ValueView)>;

    open spec fn view(&self) -> Seq<(Seq<char>, ValueView)> {
        pairs_view(self.pairs@)
    }
}

/// Whether some pair of `pairs` carries the key `k`.
pub open spec fn record_has_key(pairs: Seq<(Seq<char>, ValueView)>, k: Seq<char>) -> bool {
    exists|i: int| 0 <= i < pairs.len() && pairs[i].0 == k
}

/// Insertion with last-write-wins semantics: a pair whose key is already
/// present replaces the first pair with that key, in place; a new key is
/// appended at the end.
pub open spec fn record_insert(
    pairs: Seq<(Seq<char>, ValueView)>,
    k: Seq<char>,
    v: ValueView,
) -> Seq<(Seq<char>, ValueView)>
    decreases pairs.len(),
{
    if pairs.len() == 0 {
        seq![(k, v)]
    } else if pairs[0].0 == k {
        seq![(k, v)] + pairs.drop_first()
    } else {
        seq![pairs[0]] + record_insert(pairs.drop_first(), k, v)
    }
}

impl Record {
    pub fn new() -> (r: Record)
        ensures
            r@ == Seq::<(Seq<char>, ValueView)>::empty(),
    {
        Record { pairs: Vec::new() }
    }

    pub fn len(&self) -> (r: usize)
        ensures
            r == self@.len(),
    {
        proof {
            lemma_pairs_view(self.pairs@);
        }
        self.pairs.len()
    }

    /// Inserts `k -> v`; an existing key keeps its position and its value is
    /// overwritten (last write wins), a fresh key is appended.
    pub fn insert(&mut self, k: String, v: Value)
        ensures
            final(self)@ == record_insert(old(self)@, k@, v@),
    {
        proof {
            lemma_pairs_view(self.pairs@);
        }
        let ghost vold = pairs_view(old(self).pairs@);
        let mut i: usize = 0;
        while i < self.pairs.len()
            invariant
                0 <= i <= self.pairs@.len(),
                self.pairs@ == old(self).pairs@,
                vold == pairs_view(old(self).pairs@),
                vold.len() == self.pairs@.len(),
                forall|j: int| 0 <= j < self.pairs@.len() ==> vold[j] == (
                    self.pairs@[j].0@,
                    value_view(self.pairs@[j].1),
                ),
                forall|j: int| 0 <= j < i ==> vold[j].0 != k@,
            decreases self.pairs@.len() - i,
        {
            if self.pairs[i].0 == k {
                proof {
                    lemma_record_insert_found(vold, k@, v@, i as int);
                }
                self.pairs.set(i, (k, v));
                proof {
                    lemma_pairs_view(self.pairs@);
                    assert(pairs_view(self.pairs@) =~= vold.update(i as int, (k@, v@)));
                }
                return ;
            }
            i = i + 1;
        }
        proof {
            lemma_record_insert_fresh(vold, k@, v@);
        }
        self.pairs.push((k, v));
        proof {
            lemma_pairs_view(self.pairs@);
            assert(pairs_view(self.pairs@) =~= vold.push((k@, v@)));
        }
    }
}

/// When no pair of `pairs` has key `k`, inserting appends the new pair.
pub proof fn lemma_record_insert_fresh(
    pairs: Seq<(Seq<char>, ValueView)>,
    k: Seq<char>,
    v: ValueView,
)
    requires
        !record_has_key(pairs, k),
    ensures
        record_insert(pairs, k, v) == pairs.push((k, v)),
    decreases pairs.len(),
{
    if pairs.len() == 0 {
        assert(record_insert(pairs, k, v) =~= pairs.push((k, v)));
    } else {
        assert(pairs[0].0 != k);
        assert(!record_has_key(pairs.drop_first(), k)) by {
            assert forall|i: int|
                0 <= i < pairs.drop_first().len() implies pairs.drop_first()[i].0 != k by {
                assert(pairs.drop_first()[i] == pairs[i + 1]);
            }
        }
        lemma_record_insert_fresh(pairs.drop_first(), k, v);
        assert(record_insert(pairs, k, v) =~= pairs.push((k, v)));
    }
}

/// When the first pair with key `k` sits at index `i`, inserting overwrites
/// exactly that pair.
pub proof fn lemma_record_insert_found(
    pairs: Seq<(Seq<char>, ValueView)>,
    k: Seq<char>,
    v: ValueView,
    i: int,
)
    requires
        0 <= i < pairs.len(),
        pairs[i].0 == k,
        forall|j: int| 0 <= j < i ==> pairs[j].0 != k,
    ensures
        record_insert(pairs, k, v) == pairs.update(i, (k, v)),
    decreases pairs.len(),
{
    if i == 0 {
        assert(record_insert(pairs, k, v) =~= pairs.update(0, (k, v)));
    } else {
        assert(pairs.drop_first()[i - 1].0 == k);
        assert forall|j: int| 0 <= j < i - 1 implies pairs.drop_first()[j].0 != k by {
            assert(pairs.drop_first()[j] == pairs[j + 1]);
        }
        lemma_record_insert_found(pairs.drop_first(), k, v, i - 1);
        assert(record_insert(pairs, k, v) =~= pairs.update(i, (k, v)));
    }
}

} // verus!
