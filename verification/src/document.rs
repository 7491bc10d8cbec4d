//! The configuration document model.
//!
//! A document is a tree: a scalar (null, boolean, number, string), an ordered
//! sequence, or a mapping from string keys to sub-documents.  Numbers are
//! carried as their decimal text, which keeps the model exact and free of
//! floating point.  The mathematical shape of a document, [`DocView`], turns
//! each mapping into a `Map`, so key order is no part of a document's meaning.

use vstd::prelude::*;

verus! {

/// A configuration document.
///
/// Mappings are key-value lists; a well-formed document ([`doc_wf`]) keeps
/// the keys of every mapping distinct.
pub enum Document {
    Null,
    Bool(bool),
    /// A number, carried as its decimal text.
    Num(String),
    Str(String),
    Arr(Vec<Document>),
    Obj(Vec<(String, Document)>),
}

/// The mathematical shape of a document.
pub enum DocView {
    Null,
    Bool(bool),
    Num(Seq<char>),
    Str(Seq<char>),
    Arr(Seq<DocView>),
    Obj(Map<Seq<char>, DocView>),
}

/// The shape of a document: scalars keep their value, sequences map their
/// elements, and a mapping becomes the `Map` of its entries.
pub open spec fn doc_view(d: Document) -> DocView
    decreases d,
{
    match d {
        Document::Null => DocView::Null,
        Document::Bool(b) => DocView::Bool(b),
        Document::Num(s) => DocView::Num(s@),
        Document::Str(s) => DocView::Str(s@),
        Document::Arr(items) => DocView::Arr(
            Seq::new(
                items@.len(),
                |i: int|
                    if 0 <= i < items@.len() {
                        doc_view(items@[i])
                    } else {
                        DocView::Null
                    },
            ),
        ),
        Document::Obj(entries) => DocView::Obj(obj_map(entries@)),
    }
}

/// The `Map` described by a key-value list; on a duplicate key the later
/// entry wins.
pub open spec fn obj_map(entries: Seq<(String, Document)>) -> Map<Seq<char>, DocView>
    decreases entries,
{
    if entries.len() == 0 {
        Map::empty()
    } else {
        obj_map(entries.drop_last()).insert(entries.last().0@, doc_view(entries.last().1))
    }
}

impl View for Document {
    type V = DocView;

    open spec fn view(&self) -> DocView {
        doc_view(*self)
    }
}

/// True when no two entries of the list share a key.
pub open spec fn distinct_keys(entries: Seq<(String, Document)>) -> bool {
    forall|i: int, j: int| 0 <= i < j < entries.len() ==> entries[i].0@ != entries[j].0@
}

/// Well-formedness: the keys of every mapping, at every depth, are distinct.
pub open spec fn doc_wf(d: Document) -> bool
    decreases d,
{
    match d {
        Document::Arr(items) => forall|i: int|
            0 <= i < items@.len() ==> doc_wf(#[trigger] items@[i]),
        Document::Obj(entries) => distinct_keys(entries@) && forall|i: int|
            0 <= i < entries@.len() ==> doc_wf(#[trigger] entries@[i].1),
        _ => true,
    }
}

/// True when some entry of the list carries the key.
pub open spec fn has_key(entries: Seq<(String, Document)>, k: Seq<char>) -> bool {
    exists|i: int| 0 <= i < entries.len() && entries[i].0@ == k
}

/// A key-value list describes a map over exactly the keys it lists.
pub proof fn lemma_obj_map_domain(entries: Seq<(String, Document)>)
    ensures
        forall|k: Seq<char>| #[trigger]
            obj_map(entries).dom().contains(k) <==> has_key(entries, k),
    decreases entries.len(),
{
    if entries.len() > 0 {
        lemma_obj_map_domain(entries.drop_last());
        assert forall|k: Seq<char>| #[trigger]
            obj_map(entries).dom().contains(k) implies has_key(entries, k) by {
            if k == entries.last().0@ {
                assert(entries[entries.len() - 1].0@ == k);
            } else {
                assert(obj_map(entries.drop_last()).dom().contains(k));
                assert(has_key(entries.drop_last(), k));
                let i = choose|i: int|
                    0 <= i < entries.drop_last().len() && entries.drop_last()[i].0@ == k;
                assert(entries.drop_last()[i] == entries[i]);
                assert(entries[i].0@ == k);
            }
        }
        assert forall|k: Seq<char>| has_key(entries, k) implies #[trigger]
            obj_map(entries).dom().contains(k) by {
            let i = choose|i: int| 0 <= i < entries.len() && entries[i].0@ == k;
            if i < entries.len() - 1 {
                assert(entries.drop_last()[i].0@ == k);
                assert(has_key(entries.drop_last(), k));
                assert(obj_map(entries.drop_last()).dom().contains(k));
            } else {
                assert(k == entries.last().0@);
            }
        }
    }
}

/// With distinct keys, the map of a key-value list sends each listed key to
/// the shape of its entry's value.
pub proof fn lemma_obj_map_value(entries: Seq<(String, Document)>, i: int)
    requires
        0 <= i < entries.len(),
        distinct_keys(entries),
    ensures
        obj_map(entries).dom().contains(entries[i].0@),
        obj_map(entries)[entries[i].0@] == doc_view(entries[i].1),
    decreases entries.len(),
{
    if i == entries.len() - 1 {
    } else {
        assert(entries.drop_last()[i] == entries[i]);
        lemma_obj_map_value(entries.drop_last(), i);
        assert(entries[i].0@ != entries.last().0@);
    }
}

/// Two key-value lists with the same keys and value shapes, entry by entry,
/// describe the same map.
pub proof fn lemma_obj_map_congruence(a: Seq<(String, Document)>, b: Seq<(String, Document)>)
    requires
        a.len() == b.len(),
        forall|i: int|
            0 <= i < a.len() ==> (#[trigger] a[i]).0@ == b[i].0@ && doc_view(a[i].1) == doc_view(
                b[i].1,
            ),
    ensures
        obj_map(a) == obj_map(b),
    decreases a.len(),
{
    if a.len() > 0 {
        assert(forall|i: int|
            0 <= i < a.drop_last().len() ==> (#[trigger] a.drop_last()[i]) == a[i]
                && b.drop_last()[i] == b[i]);
        lemma_obj_map_congruence(a.drop_last(), b.drop_last());
        assert(a.last() == a[a.len() - 1]);
        assert(b.last() == b[b.len() - 1]);
    }
}

impl Clone for Document {
    /// Deep copy: the copy has the same shape and the same well-formedness.
    #[verifier::loop_isolation(false)]
    fn clone(&self) -> (r: Document)
        ensures
            r@ == self@,
            doc_wf(r) == doc_wf(*self),
        decreases *self,
    {
        match self {
            Document::Null => Document::Null,
            Document::Bool(b) => Document::Bool(*b),
            Document::Num(s) => Document::Num(s.clone()),
            Document::Str(s) => Document::Str(s.clone()),
            Document::Arr(items) => {
                let mut out: Vec<Document> = Vec::new();
                let mut idx: usize = 0;
                while idx < items.len()
                    invariant
                        idx <= items@.len(),
                        out@.len() == idx,
                        forall|j: int|
                            0 <= j < idx ==> doc_view(#[trigger] out@[j]) == doc_view(items@[j])
                                && doc_wf(out@[j]) == doc_wf(items@[j]),
                    decreases items@.len() - idx,
                {
                    out.push(items[idx].clone());
                    idx = idx + 1;
                }
                proof {
                    assert(doc_view(Document::Arr(out))->Arr_0 =~= doc_view(*self)->Arr_0);
                    if doc_wf(*self) {
                        assert forall|j: int| 0 <= j < out@.len() implies doc_wf(
                            #[trigger] out@[j],
                        ) by {
                            assert(doc_wf(items@[j]));
                        }
                    }
                    if doc_wf(Document::Arr(out)) {
                        assert forall|j: int| 0 <= j < items@.len() implies doc_wf(
                            #[trigger] items@[j],
                        ) by {
                            assert(doc_wf(out@[j]));
                        }
                    }
                }
                Document::Arr(out)
            },
            Document::Obj(entries) => {
                let mut out: Vec<(String, Document)> = Vec::new();
                let mut idx: usize = 0;
                while idx < entries.len()
                    invariant
                        idx <= entries@.len(),
                        out@.len() == idx,
                        forall|j: int|
                            0 <= j < idx ==> (#[trigger] out@[j]).0@ == entries@[j].0@
                                && doc_view(out@[j].1) == doc_view(entries@[j].1)
                                && doc_wf(out@[j].1) == doc_wf(entries@[j].1),
                    decreases entries@.len() - idx,
                {
                    let pair = &entries[idx];
                    out.push((pair.0.clone(), pair.1.clone()));
                    idx = idx + 1;
                }
                proof {
                    lemma_obj_map_congruence(out@, entries@);
                    if distinct_keys(entries@) {
                        assert forall|i: int, j: int| 0 <= i < j < out@.len() implies (
                        #[trigger] out@[i]).0@ != (#[trigger] out@[j]).0@ by {
                            assert(entries@[i].0@ != entries@[j].0@);
                        }
                        assert(distinct_keys(out@));
                    }
                    if distinct_keys(out@) {
                        assert forall|i: int, j: int| 0 <= i < j < entries@.len() implies (
                        #[trigger] entries@[i]).0@ != (#[trigger] entries@[j]).0@ by {
                            assert(out@[i].0@ != out@[j].0@);
                        }
                        assert(distinct_keys(entries@));
                    }
                    if doc_wf(*self) {
                        assert forall|j: int| 0 <= j < out@.len() implies doc_wf(
                            (#[trigger] out@[j]).1,
                        ) by {
                            assert(doc_wf(entries@[j].1));
                        }
                    }
                    if doc_wf(Document::Obj(out)) {
                        assert forall|j: int| 0 <= j < entries@.len() implies doc_wf(
                            (#[trigger] entries@[j]).1,
                        ) by {
                            assert(doc_wf(out@[j].1));
                        }
                    }
                }
                Document::Obj(out)
            },
        }
    }
}

impl Document {
    /// Structural equality of two well-formed documents: true exactly when
    /// they have the same shape, whatever the order of mapping entries.
    #[verifier::loop_isolation(false)]
    pub fn deep_eq(&self, other: &Document) -> (r: bool)
        ensures
            (doc_wf(*self) && doc_wf(*other)) ==> r == (self@ == other@),
        decreases *self,
    {
        match (self, other) {
            (Document::Null, Document::Null) => true,
            (Document::Bool(a), Document::Bool(b)) => *a == *b,
            (Document::Num(a), Document::Num(b)) => string_eq(a, b),
            (Document::Str(a), Document::Str(b)) => string_eq(a, b),
            (Document::Arr(a), Document::Arr(b)) => {
                if a.len() != b.len() {
                    proof {
                        assert(self@->Arr_0.len() == a@.len());
                        assert(other@->Arr_0.len() == b@.len());
                    }
                    return false;
                }
                let mut idx: usize = 0;
                while idx < a.len()
                    invariant
                        idx <= a@.len(),
                        (doc_wf(*self) && doc_wf(*other)) ==> forall|j: int|
                            0 <= j < idx ==> doc_view(#[trigger] a@[j]) == doc_view(b@[j]),
                    decreases a@.len() - idx,
                {
                    let same = a[idx].deep_eq(&b[idx]);
                    if !same {
                        proof {
                            if doc_wf(*self) && doc_wf(*other) {
                                assert(doc_wf(a@[idx as int]));
                                assert(doc_wf(b@[idx as int]));
                                assert(self@->Arr_0[idx as int] != other@->Arr_0[idx as int]);
                            }
                        }
                        return false;
                    }
                    idx = idx + 1;
                }
                proof {
                    if doc_wf(*self) && doc_wf(*other) {
                        assert(self@->Arr_0 =~= other@->Arr_0);
                    }
                }
                true
            },
            (Document::Obj(a), Document::Obj(b)) => {
                let mut idx: usize = 0;
                while idx < a.len()
                    invariant
                        idx <= a@.len(),
                        (doc_wf(*self) && doc_wf(*other)) ==> forall|i: int|
                            0 <= i < idx ==> obj_map(b@).dom().contains(
                                (#[trigger] a@[i]).0@,
                            ) && obj_map(b@)[a@[i].0@] == doc_view(a@[i].1),
                    decreases a@.len() - idx,
                {
                    let key_match = find_key_index(b, &a[idx].0);
                    match key_match {
                        None => {
                            proof {
                                if doc_wf(*self) && doc_wf(*other) {
                                    lemma_obj_map_domain(b@);
                                    lemma_obj_map_value(a@, idx as int);
                                    assert(obj_map(a@) != obj_map(b@));
                                }
                            }
                            return false;
                        },
                        Some(j) => {
                            let same = a[idx].1.deep_eq(&b[j].1);
                            proof {
                                if doc_wf(*self) && doc_wf(*other) {
                                    assert(doc_wf(a@[idx as int].1));
                                    assert(doc_wf(b@[j as int].1));
                                    lemma_obj_map_value(a@, idx as int);
                                    lemma_obj_map_value(b@, j as int);
                                }
                            }
                            if !same {
                                proof {
                                    if doc_wf(*self) && doc_wf(*other) {
                                        assert(obj_map(a@)[a@[idx as int].0@] != obj_map(
                                            b@,
                                        )[a@[idx as int].0@]);
                                    }
                                }
                                return false;
                            }
                        },
                    }
                    idx = idx + 1;
                }
                let mut jdx: usize = 0;
                while jdx < b.len()
                    invariant
                        jdx <= b@.len(),
                        (doc_wf(*self) && doc_wf(*other)) ==> forall|i: int|
                            0 <= i < idx ==> obj_map(b@).dom().contains(
                                (#[trigger] a@[i]).0@,
                            ) && obj_map(b@)[a@[i].0@] == doc_view(a@[i].1),
                        idx == a@.len(),
                        forall|jj: int| 0 <= jj < jdx ==> has_key(a@, (#[trigger] b@[jj]).0@),
                    decreases b@.len() - jdx,
                {
                    let back_match = find_key_index(a, &b[jdx].0);
                    match back_match {
                        None => {
                            proof {
                                if doc_wf(*self) && doc_wf(*other) {
                                    lemma_obj_map_domain(a@);
                                    lemma_obj_map_value(b@, jdx as int);
                                    assert(!obj_map(a@).dom().contains(b@[jdx as int].0@));
                                    assert(obj_map(a@) != obj_map(b@));
                                }
                            }
                            return false;
                        },
                        Some(_) => {},
                    }
                    jdx = jdx + 1;
                }
                proof {
                    if doc_wf(*self) && doc_wf(*other) {
                        lemma_obj_map_domain(a@);
                        lemma_obj_map_domain(b@);
                        assert forall|k: Seq<char>| #[trigger]
                            obj_map(a@).dom().contains(k) implies obj_map(b@).dom().contains(k)
                            && obj_map(a@)[k] == obj_map(b@)[k] by {
                            let i = choose|i: int| 0 <= i < a@.len() && a@[i].0@ == k;
                            assert(obj_map(b@).dom().contains(a@[i].0@) && obj_map(b@)[a@[i].0@]
                                == doc_view(a@[i].1));
                            lemma_obj_map_value(a@, i);
                        }
                        assert forall|k: Seq<char>| #[trigger]
                            obj_map(b@).dom().contains(k) implies obj_map(a@).dom().contains(
                            k,
                        ) by {
                            let jj = choose|jj: int| 0 <= jj < b@.len() && b@[jj].0@ == k;
                            assert(has_key(a@, b@[jj].0@));
                        }
                        assert(obj_map(a@) =~= obj_map(b@));
                    }
                }
                true
            },
            _ => false,
        }
    }
}

/// String equality, stated over the character sequences.
pub fn string_eq(a: &String, b: &String) -> (r: bool)
    ensures
        r == (a@ == b@),
{
    a.eq(b)
}

/// The position of `key` in a key-value list, if any entry carries it.
pub fn find_key_index(entries: &Vec<(String, Document)>, key: &String) -> (r: Option<usize>)
    ensures
        r matches Some(i) ==> i < entries@.len() && entries@[i as int].0@ == key@,
        r is None ==> !has_key(entries@, key@),
{
    let mut idx: usize = 0;
    while idx < entries.len()
        invariant
            idx <= entries@.len(),
            forall|j: int| 0 <= j < idx ==> (#[trigger] entries@[j]).0@ != key@,
        decreases entries@.len() - idx,
    {
        if string_eq(&entries[idx].0, key) {
            return Some(idx);
        }
        idx = idx + 1;
    }
    None
}

} // verus!
