//! Deep merge of two documents.
//!
//! When both sides are mappings the merge recurses key by key; in every other
//! case the overlay replaces the base wholesale.  Keys only in the base are
//! kept, keys only in the overlay are inserted, and sequences are never merged
//! element-wise.

use vstd::prelude::*;

use crate::document::distinct_keys;
use crate::document::doc_view;
use crate::document::doc_wf;
use crate::document::find_key_index;
use crate::document::has_key;
use crate::document::lemma_obj_map_domain;
use crate::document::lemma_obj_map_value;
use crate::document::obj_map;
use crate::document::DocView;
use crate::document::Document;
use crate::errors::TokenProviderError;

verus! {

/// The merge of two document shapes.  Two mappings merge key by key, the
/// overlay winning on shared keys; any other pair is replaced by the overlay.
pub open spec fn merge_doc(base: DocView, overlay: DocView) -> DocView
    decreases overlay,
{
    match (base, overlay) {
        (DocView::Obj(bm), DocView::Obj(om)) => DocView::Obj(
            Map::new(
                |k: Seq<char>| bm.dom().contains(k) || om.dom().contains(k),
                |k: Seq<char>|
                    if om.dom().contains(k) {
                        if bm.dom().contains(k) {
                            merge_doc(bm[k], om[k])
                        } else {
                            om[k]
                        }
                    } else {
                        bm[k]
                    },
            ),
        ),
        (_, ov) => ov,
    }
}

/// Merging a document into itself changes nothing.
pub proof fn lemma_merge_self(d: DocView)
    ensures
        merge_doc(d, d) == d,
    decreases d,
{
    match d {
        DocView::Obj(m) => {
            let mm = merge_doc(d, d)->Obj_0;
            assert forall|k: Seq<char>| #[trigger] m.dom().contains(k) implies mm.dom().contains(
                k,
            ) && mm[k] == m[k] by {
                lemma_merge_self(m[k]);
                assert(mm[k] == merge_doc(m[k], m[k]));
            }
            assert(mm =~= m);
        },
        _ => {},
    }
}

/// The overlay is absorbed: merging the same overlay a second time into the
/// result of a merge changes nothing.
pub proof fn lemma_merge_idempotent(a: DocView, b: DocView)
    ensures
        merge_doc(merge_doc(a, b), b) == merge_doc(a, b),
    decreases b,
{
    if a is Obj && b is Obj {
        let am = a->Obj_0;
        let bm = b->Obj_0;
        let m1 = merge_doc(a, b)->Obj_0;
        assert forall|k: Seq<char>| bm.dom().contains(k) implies #[trigger] merge_doc(
            m1[k],
            bm[k],
        ) == m1[k] by {
            if am.dom().contains(k) {
                lemma_merge_idempotent(am[k], bm[k]);
            } else {
                lemma_merge_self(bm[k]);
            }
        }
        let m2 = merge_doc(merge_doc(a, b), b)->Obj_0;
        assert forall|k: Seq<char>| #[trigger] m1.dom().contains(k) implies m2.dom().contains(k)
            && m2[k] == m1[k] by {
            if bm.dom().contains(k) {
                assert(m2[k] == merge_doc(m1[k], bm[k]));
            } else {
                assert(m2[k] == m1[k]);
            }
        }
        assert forall|k: Seq<char>| #[trigger] m2.dom().contains(k) implies m1.dom().contains(
            k,
        ) by {}
        assert(m2 =~= m1);
    } else {
        lemma_merge_self(b);
    }
}

/// Merging an empty mapping into a mapping is a no-op.
pub proof fn lemma_merge_empty_overlay(d: DocView)
    requires
        d is Obj,
    ensures
        merge_doc(d, DocView::Obj(Map::empty())) == d,
{
    assert(merge_doc(d, DocView::Obj(Map::empty()))->Obj_0 =~= d->Obj_0);
}

/// Merging any document into an empty mapping yields that document.
pub proof fn lemma_merge_empty_base(d: DocView)
    ensures
        merge_doc(DocView::Obj(Map::empty()), d) == d,
{
    if d is Obj {
        assert(merge_doc(DocView::Obj(Map::empty()), d)->Obj_0 =~= d->Obj_0);
    }
}

/// The merge itself.  Two mappings merge entry by entry: base entries keep
/// their place (merged with the overlay's value on a shared key), overlay
/// entries with fresh keys are appended; any other pair yields a copy of the
/// overlay.
#[verifier::loop_isolation(false)]
#[verifier::rlimit(100)]
fn merge_into(base: &Document, overlay: &Document) -> (r: Document)
    ensures
        (doc_wf(*base) && doc_wf(*overlay)) ==> (r@ == merge_doc(base@, overlay@) && doc_wf(r)),
    decreases *overlay,
{
    match (base, overlay) {
        (Document::Obj(b), Document::Obj(o)) => {
            let ghost bm = obj_map(b@);
            let ghost om = obj_map(o@);
            let ghost wfin = doc_wf(*base) && doc_wf(*overlay);
            let ghost m = merge_doc(base@, overlay@)->Obj_0;
            let mut out: Vec<(String, Document)> = Vec::new();
            let mut idx: usize = 0;
            while idx < b.len()
                invariant
                    idx <= b@.len(),
                    out@.len() == idx,
                    forall|i: int| 0 <= i < idx ==> (#[trigger] out@[i]).0@ == b@[i].0@,
                    wfin ==> forall|i: int|
                        0 <= i < idx ==> doc_wf((#[trigger] out@[i]).1) && doc_view(out@[i].1)
                            == m[b@[i].0@],
                decreases b@.len() - idx,
            {
                let entry = &b[idx];
                let key_in_overlay = find_key_index(o, &entry.0);
                match key_in_overlay {
                    Some(j) => {
                        proof {
                            if wfin {
                                assert(doc_wf(b@[idx as int].1));
                                assert(doc_wf(o@[j as int].1));
                            }
                        }
                        let merged = merge_into(&entry.1, &o[j].1);
                        proof {
                            if wfin {
                                lemma_obj_map_value(b@, idx as int);
                                lemma_obj_map_value(o@, j as int);
                                assert(m[b@[idx as int].0@] == merge_doc(
                                    bm[b@[idx as int].0@],
                                    om[b@[idx as int].0@],
                                ));
                            }
                        }
                        out.push((entry.0.clone(), merged));
                    },
                    None => {
                        proof {
                            if wfin {
                                lemma_obj_map_domain(o@);
                                lemma_obj_map_value(b@, idx as int);
                                assert(!om.dom().contains(b@[idx as int].0@));
                                assert(m[b@[idx as int].0@] == bm[b@[idx as int].0@]);
                            }
                        }
                        out.push((entry.0.clone(), entry.1.clone()));
                    },
                }
                idx = idx + 1;
            }
            let ghost out_mid = out@;
            let mut jdx: usize = 0;
            while jdx < o.len()
                invariant
                    jdx <= o@.len(),
                    out_mid.len() <= out@.len(),
                    forall|t: int| 0 <= t < out_mid.len() ==> #[trigger] out@[t] == out_mid[t],
                    forall|t: int|
                        out_mid.len() <= t < out@.len() ==> !has_key(
                            b@,
                            (#[trigger] out@[t]).0@,
                        ) && exists|jj: int| 0 <= jj < jdx && out@[t].0@ == o@[jj].0@,
                    wfin ==> forall|t: int|
                        out_mid.len() <= t < out@.len() ==> om.dom().contains(
                            (#[trigger] out@[t]).0@,
                        ) && !bm.dom().contains(out@[t].0@) && doc_view(out@[t].1)
                            == m[out@[t].0@] && doc_wf(out@[t].1),
                    wfin ==> forall|t1: int, t2: int|
                        out_mid.len() <= t1 < t2 < out@.len() ==> (#[trigger] out@[t1]).0@ != (
                        #[trigger] out@[t2]).0@,
                    forall|jj: int|
                        0 <= jj < jdx && !has_key(b@, (#[trigger] o@[jj]).0@) ==> exists|t: int|
                            out_mid.len() <= t < out@.len() && out@[t].0@ == o@[jj].0@,
                decreases o@.len() - jdx,
            {
                let entry = &o[jdx];
                let fresh = find_key_index(b, &entry.0);
                match fresh {
                    None => {
                        proof {
                            lemma_obj_map_domain(b@);
                            if wfin {
                                lemma_obj_map_value(o@, jdx as int);
                                assert(!bm.dom().contains(o@[jdx as int].0@));
                                assert(m[o@[jdx as int].0@] == om[o@[jdx as int].0@]);
                                assert forall|t1: int|
                                    out_mid.len() <= t1 < out@.len() implies (
                                #[trigger] out@[t1]).0@ != o@[jdx as int].0@ by {
                                    let jj = choose|jj: int|
                                        0 <= jj < jdx && out@[t1].0@ == o@[jj].0@;
                                    assert(distinct_keys(o@));
                                }
                            }
                        }
                        let ghost pre = out@;
                        out.push((entry.0.clone(), entry.1.clone()));
                        proof {
                            assert(out@[out@.len() - 1].0@ == o@[jdx as int].0@);
                            assert forall|jj: int|
                                0 <= jj < jdx && !has_key(
                                    b@,
                                    (#[trigger] o@[jj]).0@,
                                ) implies exists|t: int|
                                out_mid.len() <= t < out@.len() && out@[t].0@ == o@[jj].0@ by {
                                let t0 = choose|t: int|
                                    out_mid.len() <= t < pre.len() && pre[t].0@ == o@[jj].0@;
                                assert(out@[t0] == pre[t0]);
                                assert(out_mid.len() <= t0 < out@.len() && out@[t0].0@
                                    == o@[jj].0@);
                            }
                        }
                    },
                    Some(_) => {
                        proof {
                            assert(has_key(b@, o@[jdx as int].0@));
                        }
                    },
                }
                jdx = jdx + 1;
            }
            proof {
                if wfin {
                    lemma_obj_map_domain(b@);
                    lemma_obj_map_domain(o@);
                    assert forall|t1: int, t2: int|
                        0 <= t1 < t2 < out@.len() implies (#[trigger] out@[t1]).0@ != (
                    #[trigger] out@[t2]).0@ by {
                        if t2 < out_mid.len() {
                            assert(distinct_keys(b@));
                            assert(out@[t1].0@ == b@[t1].0@ && out@[t2].0@ == b@[t2].0@);
                        } else if t1 < out_mid.len() {
                            assert(out@[t1].0@ == b@[t1].0@);
                            assert(has_key(b@, b@[t1].0@));
                        }
                    }
                    assert(distinct_keys(out@));
                    lemma_obj_map_domain(out@);
                    assert forall|k: Seq<char>| #[trigger] obj_map(out@).dom().contains(
                        k,
                    ) implies m.dom().contains(k) && obj_map(out@)[k] == m[k] by {
                        let t = choose|t: int| 0 <= t < out@.len() && out@[t].0@ == k;
                        lemma_obj_map_value(out@, t);
                        if t < out_mid.len() {
                            assert(out@[t].0@ == b@[t].0@);
                            lemma_obj_map_value(b@, t);
                            assert(bm.dom().contains(k));
                        }
                    }
                    assert forall|k: Seq<char>| #[trigger] m.dom().contains(k) implies obj_map(
                        out@,
                    ).dom().contains(k) by {
                        if bm.dom().contains(k) {
                            let i = choose|i: int| 0 <= i < b@.len() && b@[i].0@ == k;
                            assert(out@[i].0@ == k);
                            assert(has_key(out@, k));
                        } else {
                            assert(om.dom().contains(k));
                            let jj = choose|jj: int| 0 <= jj < o@.len() && o@[jj].0@ == k;
                            assert(!has_key(b@, o@[jj].0@));
                            let t = choose|t: int|
                                out_mid.len() <= t < out@.len() && out@[t].0@ == o@[jj].0@;
                            assert(has_key(out@, k));
                        }
                    }
                    assert(obj_map(out@) =~= m);
                    assert(doc_wf(Document::Obj(out)));
                }
            }
            Document::Obj(out)
        },
        _ => {
            let copy = overlay.clone();
            proof {
                if doc_wf(*base) && doc_wf(*overlay) {
                    assert(!(base@ is Obj && overlay@ is Obj));
                }
            }
            copy
        },
    }
}

/// Deep merge of `new` into `existing`, in place.  The overlay takes
/// precedence on conflicts; the call always succeeds.
pub fn deep_merge_json(existing: &mut Document, new: Document) -> (r: Result<
    (),
    TokenProviderError,
>)
    ensures
        r is Ok,
        (doc_wf(*old(existing)) && doc_wf(new)) ==> (final (existing)@ == merge_doc(
            old(existing)@,
            new@,
        ) && doc_wf(*final (existing))),
{
    let merged = merge_into(&*existing, &new);
    *existing = merged;
    Ok(())
}

} // verus!

