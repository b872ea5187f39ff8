//! Property values.
//!
//! A props value is a keyed record of plain field values: the shape that a
//! runtime reflection layer presents for any component type. Field identity
//! is a numeric key; a field holds a number, a text, or a truth value.

use vstd::prelude::*;

use crate::keyed::{rec_map, KeyRec, KeyedTable};

verus! {

/// The kind of a field value, used when checking a parsed literal against
/// the field it is meant to fill.
#[derive(Clone, Copy, PartialEq, Eq, Structural, Debug)]
pub enum ValKind {
    /// An integer field.
    Num,
    /// A text field.
    Text,
    /// A boolean field.
    Truth,
    /// An entity-reference field.
    Ent,
}

impl DeepView for ValKind {
    type V = ValKind;

    open spec fn deep_view(&self) -> ValKind {
        *self
    }
}

/// A single field value.
#[derive(Clone, Debug)]
pub enum PropVal {
    /// An integer value.
    Num(i64),
    /// A text value.
    Text(String),
    /// A boolean value.
    Truth(bool),
    /// A reference to an entity, by its index in the world.
    Ent(usize),
}

/// The mathematical image of a [`PropVal`].
pub enum ValModel {
    /// An integer value.
    Num(int),
    /// A text value.
    Text(Seq<char>),
    /// A boolean value.
    Truth(bool),
    /// A reference to an entity.
    Ent(int),
}

impl DeepView for PropVal {
    type V = ValModel;

    open spec fn deep_view(&self) -> ValModel {
        match self {
            PropVal::Num(n) => ValModel::Num(*n as int),
            PropVal::Text(s) => ValModel::Text(s@),
            PropVal::Truth(b) => ValModel::Truth(*b),
            PropVal::Ent(e) => ValModel::Ent(*e as int),
        }
    }
}

impl PropVal {
    /// The kind of this value.
    pub open spec fn kind_spec(self) -> ValKind {
        match self {
            PropVal::Num(_) => ValKind::Num,
            PropVal::Text(_) => ValKind::Text,
            PropVal::Truth(_) => ValKind::Truth,
            PropVal::Ent(_) => ValKind::Ent,
        }
    }

    /// Returns the kind of this value.
    pub fn kind(&self) -> (k: ValKind)
        ensures
            k == self.kind_spec(),
    {
        match self {
            PropVal::Num(_) => ValKind::Num,
            PropVal::Text(_) => ValKind::Text,
            PropVal::Truth(_) => ValKind::Truth,
            PropVal::Ent(_) => ValKind::Ent,
        }
    }

    /// Returns a value equal to this one.
    pub fn duplicate(&self) -> (r: PropVal)
        ensures
            r.deep_view() == self.deep_view(),
    {
        match self {
            PropVal::Num(n) => PropVal::Num(*n),
            PropVal::Text(s) => PropVal::Text(s.clone()),
            PropVal::Truth(b) => PropVal::Truth(*b),
            PropVal::Ent(e) => PropVal::Ent(*e),
        }
    }
}

/// A props value: the keyed field record a construction step consumes.
pub type Props = KeyedTable<PropVal>;

/// The mathematical image of a props value.
pub type PropsModel = Map<u64, ValModel>;

/// One ordered field write of a patch.
pub type FieldWrite = KeyRec<PropVal>;

/// The mathematical image of an ordered write list.
pub open spec fn writes_model(ws: Seq<FieldWrite>) -> Seq<(u64, ValModel)> {
    ws.map_values(|w: FieldWrite| (w.key, w.value.deep_view()))
}

/// Applies an ordered write list to a props image, earliest write first.
pub open spec fn apply_writes(m: PropsModel, ws: Seq<(u64, ValModel)>) -> PropsModel
    decreases ws.len(),
{
    if ws.len() == 0 {
        m
    } else {
        apply_writes(m, ws.drop_last()).insert(ws.last().0, ws.last().1)
    }
}

/// The value of the last write to a key in a write list, if any.
pub open spec fn last_write(ws: Seq<(u64, ValModel)>, k: u64) -> Option<ValModel>
    decreases ws.len(),
{
    if ws.len() == 0 {
        None
    } else if ws.last().0 == k {
        Some(ws.last().1)
    } else {
        last_write(ws.drop_last(), k)
    }
}

/// Applying a write list reads back as: the last write to the key if one
/// exists, and the base value otherwise.
pub proof fn lemma_apply_writes_get(m: PropsModel, ws: Seq<(u64, ValModel)>, k: u64)
    ensures
        match last_write(ws, k) {
            Some(v) => apply_writes(m, ws).contains_key(k) && apply_writes(m, ws)[k] == v,
            None => apply_writes(m, ws).contains_key(k) == m.contains_key(k)
                && (m.contains_key(k) ==> apply_writes(m, ws)[k] == m[k]),
        },
    decreases ws.len(),
{
    if ws.len() > 0 {
        lemma_apply_writes_get(m, ws.drop_last(), k);
    }
}

/// Applying a concatenation applies the two lists in order.
pub proof fn lemma_apply_writes_concat(m: PropsModel, a: Seq<(u64, ValModel)>, b: Seq<(u64, ValModel)>)
    ensures
        apply_writes(m, a + b) == apply_writes(apply_writes(m, a), b),
    decreases b.len(),
{
    if b.len() == 0 {
        assert(a + b =~= a);
    } else {
        lemma_apply_writes_concat(m, a, b.drop_last());
        assert((a + b).drop_last() =~= a + b.drop_last());
        assert((a + b).last() == b.last());
    }
}

impl KeyedTable<PropVal> {
    /// Applies an ordered write list to this props value, earliest first.
    pub fn apply(&mut self, ws: &Vec<FieldWrite>)
        requires
            old(self).wf(),
        ensures
            final(self).wf(),
            final(self).deep_view() == apply_writes(old(self).deep_view(), writes_model(ws@)),
    {
        let n = ws.len();
        for i in 0..n
            invariant
                n == ws@.len(),
                self.wf(),
                self.deep_view() == apply_writes(old(self).deep_view(), writes_model(ws@).subrange(0, i as int)),
        {
            self.set(ws[i].key, ws[i].value.duplicate());
            proof {
                let wm = writes_model(ws@);
                assert(wm.subrange(0, i + 1).drop_last() =~= wm.subrange(0, i as int));
                assert(wm.subrange(0, i + 1).last() == wm[i as int]);
            }
        }
        proof {
            assert(writes_model(ws@).subrange(0, n as int) =~= writes_model(ws@));
        }
    }

    /// Returns a props value with the same fields as this one.
    pub fn duplicate(&self) -> (r: Props)
        requires
            self.wf(),
        ensures
            r.wf(),
            r.deep_view() == self.deep_view(),
    {
        let mut r: Props = KeyedTable::new();
        let n = self.recs.len();
        for i in 0..n
            invariant
                n == self.recs@.len(),
                self.wf(),
                r.wf(),
                r.deep_view() == rec_map(self.recs@.subrange(0, i as int)),
        {
            r.set(self.recs[i].key, self.recs[i].value.duplicate());
            proof {
                assert(self.recs@.subrange(0, i + 1).drop_last() =~= self.recs@.subrange(0, i as int));
                assert(self.recs@.subrange(0, i + 1).last() == self.recs@[i as int]);
            }
        }
        proof {
            assert(self.recs@.subrange(0, n as int) =~= self.recs@);
        }
        r
    }
}

/// Duplicates an ordered write list, preserving its image.
pub fn duplicate_writes(ws: &Vec<FieldWrite>) -> (r: Vec<FieldWrite>)
    ensures
        writes_model(r@) == writes_model(ws@),
{
    let mut r: Vec<FieldWrite> = Vec::new();
    let n = ws.len();
    for i in 0..n
        invariant
            n == ws@.len(),
            r@.len() == i,
            forall|j: int| 0 <= j < i ==> (#[trigger] r@[j]).key == ws@[j].key
                && r@[j].value.deep_view() == ws@[j].value.deep_view(),
    {
        r.push(KeyRec { key: ws[i].key, value: ws[i].value.duplicate() });
    }
    proof {
        assert(writes_model(r@) =~= writes_model(ws@));
    }
    r
}

} // verus!
