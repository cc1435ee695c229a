//! The two-phase field store.
//!
//! A `RawFIXMessageFields` builder accumulates decoded `(tag, value)` pairs
//! in wire order and maintains a tag index: for each tag, the positions of
//! its occurrences in the flat value array, in insertion order.  Freezing
//! hands both, unchanged, to a `RawFIXMessage`, the immutable message that
//! serves every lookup.
//!
//! The mathematical model of either phase is the flat sequence of
//! `(tag, value)` pairs in insertion order; `tag_values` projects out of it
//! the ordered occurrence list of one tag, and every contract is stated
//! over these two.

use vstd::prelude::*;
use std::collections::HashMap;
use crate::fields::{FIXMessageField, FieldType, FieldValue, field_type_of};

verus! {

broadcast use vstd::std_specs::hash::group_hash_axioms;

/// Why a lookup returned no value.  The three cases are distinct so a
/// caller can tell an absent optional field from a malformed message.
#[derive(Clone, Copy, Debug, PartialEq, Eq, Structural)]
pub enum FieldError {
    /// No value was ever stored under the requested tag.
    TagAbsent,
    /// The tag exists, but fewer occurrences than the requested index + 1.
    IndexOutOfRange,
    /// A value exists, but its kind differs from the descriptor's.
    TypeMismatch,
}

/// The values stored under `tag`, in insertion order, projected out of the
/// flat insertion sequence `s`.
pub open spec fn tag_values(s: Seq<(u32, FieldValue)>, tag: u32) -> Seq<FieldValue>
    decreases s.len(),
{
    if s.len() == 0 {
        Seq::empty()
    } else {
        let prev = tag_values(s.drop_last(), tag);
        if s.last().0 == tag {
            prev.push(s.last().1)
        } else {
            prev
        }
    }
}

/// Appending one `(tag, value)` pair appends to that tag's occurrence
/// list and leaves every other tag's list unchanged — so the i-th value
/// stored under a tag is the i-th occurrence of that tag in wire order,
/// regardless of interleaving with other tags.
pub proof fn lemma_tag_values_push(s: Seq<(u32, FieldValue)>, x: (u32, FieldValue))
    ensures
        tag_values(s.push(x), x.0) == tag_values(s, x.0).push(x.1),
        forall|t: u32| t != x.0 ==> #[trigger] tag_values(s.push(x), t) == tag_values(s, t),
{
    assert(s.push(x).drop_last() =~= s);
    assert(s.push(x).last() == x);
}

/// The occurrence counts of the listed tags, summed.
pub open spec fn total_occurrences(s: Seq<(u32, FieldValue)>, tags: Seq<u32>) -> nat
    decreases tags.len(),
{
    if tags.len() == 0 {
        0
    } else {
        total_occurrences(s, tags.drop_last()) + tag_values(s, tags.last()).len()
    }
}

/// Appending one pair raises the summed occurrence count by one when its
/// tag is among the listed tags (each listed once), and not at all when it
/// is not.
proof fn lemma_total_occurrences_push(s: Seq<(u32, FieldValue)>, x: (u32, FieldValue), tags: Seq<u32>)
    requires
        tags.no_duplicates(),
    ensures
        total_occurrences(s.push(x), tags) == total_occurrences(s, tags) + if tags.contains(x.0) {
            1int
        } else {
            0int
        },
    decreases tags.len(),
{
    lemma_tag_values_push(s, x);
    if tags.len() > 0 {
        let rest = tags.drop_last();
        assert(rest.no_duplicates());
        lemma_total_occurrences_push(s, x, rest);
        if tags.last() == x.0 {
            assert(!rest.contains(x.0)) by {
                if rest.contains(x.0) {
                    let i = choose|i: int| 0 <= i < rest.len() && rest[i] == x.0;
                    assert(tags[i] == tags[tags.len() - 1]);
                }
            }
            assert(tags.contains(x.0)) by {
                assert(tags[tags.len() - 1] == x.0);
            }
        } else {
            assert(tags.contains(x.0) == rest.contains(x.0)) by {
                if tags.contains(x.0) {
                    let i = choose|i: int| 0 <= i < tags.len() && tags[i] == x.0;
                    assert(rest[i] == x.0);
                }
                if rest.contains(x.0) {
                    let i = choose|i: int| 0 <= i < rest.len() && rest[i] == x.0;
                    assert(tags[i] == x.0);
                }
            }
        }
    }
}

/// Freezing a builder with N insertions yields a store whose occurrence
/// counts, summed across all tags, are exactly N: each insertion is
/// counted once, under its own tag.  `tags` is any duplicate-free listing
/// that covers every tag occurring in `s`.
pub proof fn lemma_total_occurrences(s: Seq<(u32, FieldValue)>, tags: Seq<u32>)
    requires
        tags.no_duplicates(),
        forall|i: int| 0 <= i < s.len() ==> tags.contains(#[trigger] s[i].0),
    ensures
        total_occurrences(s, tags) == s.len(),
    decreases s.len(),
{
    if s.len() == 0 {
        lemma_total_occurrences_empty(s, tags);
    } else {
        let prefix = s.drop_last();
        let x = s.last();
        assert(prefix.push(x) =~= s);
        lemma_total_occurrences(prefix, tags);
        lemma_total_occurrences_push(prefix, x, tags);
        assert(tags.contains(s[s.len() - 1].0));
    }
}

/// An empty insertion sequence has occurrence count zero under every tag.
proof fn lemma_total_occurrences_empty(s: Seq<(u32, FieldValue)>, tags: Seq<u32>)
    requires
        s.len() == 0,
    ensures
        total_occurrences(s, tags) == 0,
    decreases tags.len(),
{
    if tags.len() > 0 {
        lemma_total_occurrences_empty(s, tags.drop_last());
    }
}

/// The tag index `m` matches the insertion sequence `s`: a tag is indexed
/// exactly when it occurs, and its index entry lists the positions of its
/// occurrences in order.
pub open spec fn index_consistent(s: Seq<(u32, FieldValue)>, m: Map<u32, Vec<usize>>) -> bool {
    &&& forall|t: u32|
        #![trigger m.contains_key(t)]
        #![trigger tag_values(s, t)]
        m.contains_key(t) <==> tag_values(s, t).len() > 0
    &&& forall|t: u32| #[trigger] m.contains_key(t) ==> positions_ok(s, t, m[t]@)
}

/// `ps` lists, strictly increasing, the positions in `s` of the
/// occurrences of `t`, so that the i-th listed position holds the i-th
/// value stored under `t`.
pub open spec fn positions_ok(s: Seq<(u32, FieldValue)>, t: u32, ps: Seq<usize>) -> bool {
    &&& ps.len() == tag_values(s, t).len()
    &&& forall|i: int|
        #![trigger ps[i]]
        0 <= i < ps.len() ==> {
            &&& ps[i] < s.len()
            &&& s[ps[i] as int].0 == t
            &&& s[ps[i] as int].1 == tag_values(s, t)[i]
        }
    &&& forall|i: int, j: int| #![trigger ps[i], ps[j]] 0 <= i < j < ps.len() ==> ps[i] < ps[j]
}

/// What an untyped lookup of `tag` at `index` must return, given the
/// insertion sequence `s` the store was built from: the index-th value
/// stored under the tag, `TagAbsent` exactly when the tag has no
/// occurrence, and `IndexOutOfRange` exactly when it has some but not
/// `index + 1` of them.
pub open spec fn lookup_result(
    s: Seq<(u32, FieldValue)>,
    tag: u32,
    index: int,
    r: Result<&FieldValue, FieldError>,
) -> bool {
    let vs = tag_values(s, tag);
    match r {
        Ok(v) => 0 <= index < vs.len() && *v == vs[index],
        Err(e) => match e {
            FieldError::TagAbsent => vs.len() == 0,
            FieldError::IndexOutOfRange => 0 < vs.len() <= index,
            FieldError::TypeMismatch => false,
        },
    }
}

/// What a typed lookup of `tag` at `index` through a descriptor expecting
/// kind `ty` must return: as `lookup_result`, except that a stored value
/// of any other kind is reported as `TypeMismatch` — and left untouched —
/// rather than returned.
pub open spec fn typed_lookup_result(
    s: Seq<(u32, FieldValue)>,
    tag: u32,
    ty: FieldType,
    index: int,
    r: Result<&FieldValue, FieldError>,
) -> bool {
    let vs = tag_values(s, tag);
    match r {
        Ok(v) => 0 <= index < vs.len() && *v == vs[index] && field_type_of(*v) == ty,
        Err(e) => match e {
            FieldError::TagAbsent => vs.len() == 0,
            FieldError::IndexOutOfRange => 0 < vs.len() <= index,
            FieldError::TypeMismatch => 0 <= index < vs.len() && field_type_of(vs[index]) != ty,
        },
    }
}

/// Read access to a frozen message's fields: untyped lookups by tag
/// number, and typed lookups through a field descriptor.  All methods are
/// pure reads of the insertion sequence the store was built from.
pub trait FIXMessageFields {
    /// The insertion sequence this container was built from.
    spec fn spec_fields(&self) -> Seq<(u32, FieldValue)>;

    /// The container's internal invariant.
    spec fn inv(&self) -> bool;

    /// Typed lookup of the first occurrence of the descriptor's tag.
    fn get_value<F: FIXMessageField>(&self, field: &F) -> (r: Result<&FieldValue, FieldError>)
        requires
            self.inv(),
        ensures
            typed_lookup_result(
                self.spec_fields(),
                field.spec_tag_num(),
                field.spec_value_type(),
                0,
                r,
            ),
    ;

    /// Typed lookup of the index-th occurrence of the descriptor's tag.
    fn get_value_at<F: FIXMessageField>(&self, field: &F, index: usize) -> (r: Result<
        &FieldValue,
        FieldError,
    >)
        requires
            self.inv(),
        ensures
            typed_lookup_result(
                self.spec_fields(),
                field.spec_tag_num(),
                field.spec_value_type(),
                index as int,
                r,
            ),
    ;

    /// Untyped lookup of the first occurrence of a tag.
    fn get_tag_value(&self, tag_num: u32) -> (r: Result<&FieldValue, FieldError>)
        requires
            self.inv(),
        ensures
            lookup_result(self.spec_fields(), tag_num, 0, r),
    ;

    /// Untyped lookup of the index-th occurrence of a tag.
    fn get_tag_value_at(&self, tag_num: u32, index: usize) -> (r: Result<&FieldValue, FieldError>)
        requires
            self.inv(),
        ensures
            lookup_result(self.spec_fields(), tag_num, index as int, r),
    ;
}

/// A frozen message: nothing beyond read access to its fields.
pub trait FIXMessage: FIXMessageFields {

}

/// The mutable phase of the store: accumulates values in wire order and
/// keeps the tag index in step with them.
pub struct RawFIXMessageFields {
    field_values: Vec<(u32, FieldValue)>,
    field_indices: HashMap<u32, Vec<usize>>,
}

impl View for RawFIXMessageFields {
    type V = Seq<(u32, FieldValue)>;

    /// The insertion sequence accumulated so far.
    closed spec fn view(&self) -> Seq<(u32, FieldValue)> {
        self.field_values@
    }
}

impl RawFIXMessageFields {
    /// The tag index matches the values accumulated so far.
    pub closed spec fn wf(&self) -> bool {
        index_consistent(self@, self.field_indices@)
    }

    /// An empty builder: no values, no index entries.
    pub fn new() -> (r: Self)
        ensures
            r.wf(),
            r@ == Seq::<(u32, FieldValue)>::empty(),
    {
        let r = RawFIXMessageFields { field_values: Vec::new(), field_indices: HashMap::new() };
        proof {
            assert(r@ =~= Seq::<(u32, FieldValue)>::empty());
        }
        r
    }

    /// Appends `value` — already of the descriptor's expected kind — under
    /// the descriptor's tag.  Insertion always succeeds; the builder is
    /// returned for chained accumulation.
    pub fn add_value<F: FIXMessageField>(self, field: &F, value: FieldValue) -> (r: Self)
        requires
            self.wf(),
            field_type_of(value) == field.spec_value_type(),
        ensures
            r.wf(),
            r@ == self@.push((field.spec_tag_num(), value)),
    {
        let tag: u32 = field.get_tag_num();
        self.add_tag_value(tag, value)
    }

    /// Appends `value` under `tag_num` at the next free position, indexing
    /// it as that tag's next occurrence (a new index entry if the tag is
    /// new).  Insertion always succeeds; the builder is returned for
    /// chained accumulation.
    pub fn add_tag_value(self, tag_num: u32, value: FieldValue) -> (r: Self)
        requires
            self.wf(),
        ensures
            r.wf(),
            r@ == self@.push((tag_num, value)),
    {
        let ghost s0 = self@;
        let ghost m0 = self.field_indices@;
        let mut this = self;
        let pos: usize = this.field_values.len();
        let mut positions = match this.field_indices.remove(&tag_num) {
            Some(ps) => ps,
            None => Vec::new(),
        };
        let ghost ps0 = positions@;
        positions.push(pos);
        this.field_indices.insert(tag_num, positions);
        this.field_values.push((tag_num, value));
        proof {
            lemma_tag_values_push(s0, (tag_num, value));
            let s1 = this@;
            let m1 = this.field_indices@;
            assert(s1 =~= s0.push((tag_num, value)));
            assert(positions_ok(s0, tag_num, ps0)) by {
                if m0.contains_key(tag_num) {
                } else {
                    assert(tag_values(s0, tag_num).len() == 0);
                    assert(ps0 =~= Seq::<usize>::empty());
                }
            }
            assert forall|t: u32| #[trigger] m1.contains_key(t) implies positions_ok(
                s1,
                t,
                m1[t]@,
            ) by {
                if t == tag_num {
                    assert(m1[t]@ =~= ps0.push(pos));
                    assert(tag_values(s1, t) == tag_values(s0, t).push(value));
                    assert forall|i: int| #![trigger ps0.push(pos)[i]] 0 <= i < ps0.len()
                        + 1 implies {
                        &&& ps0.push(pos)[i] < s1.len()
                        &&& s1[ps0.push(pos)[i] as int].0 == t
                        &&& s1[ps0.push(pos)[i] as int].1 == tag_values(s1, t)[i]
                    } by {
                        if i < ps0.len() {
                            assert(ps0[i] < s0.len());
                            assert(s1[ps0[i] as int] == s0[ps0[i] as int]);
                        } else {
                            assert(ps0.push(pos)[i] == pos);
                            assert(s1[pos as int] == (tag_num, value));
                        }
                    }
                } else {
                    assert(m1.contains_key(t) == m0.contains_key(t));
                    assert(m1[t] == m0[t]);
                    assert(tag_values(s1, t) == tag_values(s0, t));
                    let ps = m0[t]@;
                    assert forall|i: int| #![trigger ps[i]] 0 <= i < ps.len() implies {
                        &&& ps[i] < s1.len()
                        &&& s1[ps[i] as int].0 == t
                        &&& s1[ps[i] as int].1 == tag_values(s1, t)[i]
                    } by {
                        assert(ps[i] < s0.len());
                        assert(s1[ps[i] as int] == s0[ps[i] as int]);
                    }
                }
            }
            assert forall|t: u32|
                #![trigger m1.contains_key(t)]
                #![trigger tag_values(s1, t)]
                m1.contains_key(t) <==> tag_values(s1, t).len() > 0 by {
                if t == tag_num {
                    assert(m1.contains_key(t));
                    assert(tag_values(s1, t).len() == tag_values(s0, t).len() + 1);
                } else {
                    assert(m1.contains_key(t) == m0.contains_key(t));
                    assert(tag_values(s1, t) == tag_values(s0, t));
                }
            }
        }
        this
    }

    /// Freezes the builder: hands the value array and the tag index,
    /// unchanged, to the immutable message.
    pub fn into_message(self) -> (r: RawFIXMessage)
        requires
            self.wf(),
        ensures
            r.wf(),
            r@ == self@,
    {
        RawFIXMessage { field_values: self.field_values, field_indices: self.field_indices }
    }
}

/// The frozen, read-only message: the value array and tag index of the
/// builder it came from, serving pure lookups only.
pub struct RawFIXMessage {
    field_values: Vec<(u32, FieldValue)>,
    field_indices: HashMap<u32, Vec<usize>>,
}

impl View for RawFIXMessage {
    type V = Seq<(u32, FieldValue)>;

    /// The insertion sequence this message was built from.
    closed spec fn view(&self) -> Seq<(u32, FieldValue)> {
        self.field_values@
    }
}

impl RawFIXMessage {
    /// The tag index matches the frozen values.
    pub closed spec fn wf(&self) -> bool {
        index_consistent(self@, self.field_indices@)
    }
}

impl FIXMessageFields for RawFIXMessage {
    open spec fn spec_fields(&self) -> Seq<(u32, FieldValue)> {
        self@
    }

    open spec fn inv(&self) -> bool {
        self.wf()
    }

    fn get_value<F: FIXMessageField>(&self, field: &F) -> (r: Result<&FieldValue, FieldError>) {
        self.get_value_at(field, 0)
    }

    fn get_value_at<F: FIXMessageField>(&self, field: &F, index: usize) -> (r: Result<
        &FieldValue,
        FieldError,
    >) {
        match self.get_tag_value_at(field.get_tag_num(), index) {
            Err(e) => Err(e),
            Ok(v) => {
                if v.value_type() == field.value_type() {
                    Ok(v)
                } else {
                    Err(FieldError::TypeMismatch)
                }
            },
        }
    }

    fn get_tag_value(&self, tag_num: u32) -> (r: Result<&FieldValue, FieldError>) {
        self.get_tag_value_at(tag_num, 0)
    }

    fn get_tag_value_at(&self, tag_num: u32, index: usize) -> (r: Result<&FieldValue, FieldError>) {
        match self.field_indices.get(&tag_num) {
            None => Err(FieldError::TagAbsent),
            Some(positions) => {
                if index < positions.len() {
                    let p: usize = positions[index];
                    proof {
                        assert(positions@[index as int] < self@.len());
                    }
                    Ok(&self.field_values[p].1)
                } else {
                    Err(FieldError::IndexOutOfRange)
                }
            },
        }
    }
}

impl FIXMessage for RawFIXMessage {

}

} // verus!
