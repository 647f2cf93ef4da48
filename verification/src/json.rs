//! Generic JSON-like document trees and the deep-merge engine.
//!
//! `Doc` is the executable tree; `Jv` is its mathematical model, with
//! objects as finite maps from key text to values. Merging follows
//! last-write-wins precedence: objects merge key by key, anything else in
//! the second document overwrites the first.

use vstd::prelude::*;

verus! {

/// Mathematical model of a document value.
pub enum Jv {
    Null,
    Bool(bool),
    Int(int),
    Str(Seq<char>),
    Arr(Seq<Jv>),
    Obj(Map<Seq<char>, Jv>),
}

/// An executable JSON-like document value. Object entries keep insertion
/// order; well-formed objects have pairwise-distinct keys.
#[derive(Debug)]
pub enum Doc {
    Null,
    Bool(bool),
    Int(i64),
    Str(String),
    Arr(Vec<Doc>),
    Obj(Vec<(String, Doc)>),
}

/// Model of a document value.
pub open spec fn doc_view(d: Doc) -> Jv
    decreases d,
{
    match d {
        Doc::Null => Jv::Null,
        Doc::Bool(b) => Jv::Bool(b),
        Doc::Int(i) => Jv::Int(i as int),
        Doc::Str(s) => Jv::Str(s@),
        Doc::Arr(v) => Jv::Arr(docs_view(v@)),
        Doc::Obj(e) => Jv::Obj(entries_map(e@)),
    }
}

/// Models of a sequence of document values.
pub open spec fn docs_view(s: Seq<Doc>) -> Seq<Jv>
    decreases s,
{
    if s.len() == 0 {
        Seq::empty()
    } else {
        docs_view(s.drop_last()).push(doc_view(s.last()))
    }
}

/// The finite map denoted by an object's entry list; on duplicate keys the
/// later entry wins.
pub open spec fn entries_map(s: Seq<(String, Doc)>) -> Map<Seq<char>, Jv>
    decreases s,
{
    if s.len() == 0 {
        Map::empty()
    } else {
        entries_map(s.drop_last()).insert(s.last().0@, doc_view(s.last().1))
    }
}

impl View for Doc {
    type V = Jv;

    open spec fn view(&self) -> Jv {
        doc_view(*self)
    }
}

/// Well-formedness: every object in the tree has pairwise-distinct keys.
pub open spec fn doc_wf(d: Doc) -> bool
    decreases d,
{
    match d {
        Doc::Arr(v) => docs_wf(v@),
        Doc::Obj(e) => entries_wf(e@),
        _ => true,
    }
}

/// Well-formedness of an array's elements.
pub open spec fn docs_wf(s: Seq<Doc>) -> bool
    decreases s,
{
    forall|i: int| #![trigger s[i]] 0 <= i < s.len() ==> doc_wf(s[i])
}

/// Well-formedness of an object's entry list.
pub open spec fn entries_wf(s: Seq<(String, Doc)>) -> bool
    decreases s,
{
    &&& forall|i: int| #![trigger s[i]] 0 <= i < s.len() ==> doc_wf(s[i].1)
    &&& forall|i: int, j: int| 0 <= i < j < s.len() ==> (#[trigger] s[i].0@) != (#[trigger] s[j].0@)
}

/// How `entries_map` relates to the entry list: a key is present exactly
/// when some entry carries it, and an entry whose key has no later
/// duplicate gives the key's value.
pub proof fn lemma_entries_map(s: Seq<(String, Doc)>)
    ensures
        forall|k: Seq<char>| #[trigger] entries_map(s).contains_key(k) <==> exists|i: int|
            0 <= i < s.len() && s[i].0@ == k,
        forall|i: int| #![trigger s[i]] 0 <= i < s.len() && (forall|j: int| i < j < s.len()
            ==> s[j].0@ != s[i].0@) ==> entries_map(s).contains_key(s[i].0@)
            && entries_map(s)[s[i].0@] == doc_view(s[i].1),
    decreases s.len(),
{
    if s.len() > 0 {
        let t = s.drop_last();
        lemma_entries_map(t);
        assert forall|k: Seq<char>| #[trigger] entries_map(s).contains_key(k) implies exists|i: int|
            0 <= i < s.len() && s[i].0@ == k by {
            if k == s.last().0@ {
                assert(s[s.len() - 1].0@ == k);
            } else {
                assert(entries_map(t).contains_key(k));
                let i = choose|i: int| 0 <= i < t.len() && t[i].0@ == k;
                assert(s[i].0@ == k);
            }
        }
        assert forall|k: Seq<char>| (exists|i: int| 0 <= i < s.len() && s[i].0@ == k)
            implies #[trigger] entries_map(s).contains_key(k) by {
            let i = choose|i: int| 0 <= i < s.len() && s[i].0@ == k;
            if i == s.len() - 1 {
            } else {
                assert(t[i].0@ == k);
                assert(entries_map(t).contains_key(k));
            }
        }
        assert forall|i: int| 0 <= i < s.len() && (forall|j: int| i < j < s.len()
            ==> s[j].0@ != s[i].0@) implies entries_map(s).contains_key(#[trigger] s[i].0@)
            && entries_map(s)[s[i].0@] == doc_view(s[i].1) by {
            if i == s.len() - 1 {
            } else {
                assert(s[s.len() - 1].0@ != s[i].0@);
                assert(t[i].0@ == s[i].0@ && t[i].1 == s[i].1);
                assert(forall|j: int| i < j < t.len() ==> t[j].0@ != t[i].0@);
            }
        }
    }
}

/// Structure-preserving copy of a document.
#[verifier::loop_isolation(false)]
pub fn doc_copy(d: &Doc) -> (r: Doc)
    ensures
        r@ == d@,
        doc_wf(r) == doc_wf(*d),
    decreases *d,
{
    match d {
        Doc::Null => Doc::Null,
        Doc::Bool(b) => Doc::Bool(*b),
        Doc::Int(i) => Doc::Int(*i),
        Doc::Str(s) => Doc::Str(s.clone()),
        Doc::Arr(v) => {
            let mut out: Vec<Doc> = Vec::new();
            let mut i: usize = 0;
            while i < v.len()
                invariant
                    i <= v@.len(),
                    out@.len() == i,
                    forall|j: int| #![trigger out@[j]] 0 <= j < i ==> doc_view(out@[j])
                        == doc_view(v@[j]) && doc_wf(out@[j]) == doc_wf(v@[j]),
                decreases v@.len() - i,
            {
                proof {
                    assert(*d == Doc::Arr(*v));
                    assert(decreases_to!(*d => d->Arr_0));
                    assert(decreases_to!(d->Arr_0 => d->Arr_0@));
                    assert(decreases_to!(d->Arr_0@ => d->Arr_0@[i as int]));
                    assert(decreases_to!(*d => v@[i as int]));
                }
                let c = doc_copy(&v[i]);
                out.push(c);
                i = i + 1;
            }
            proof {
                lemma_docs_pointwise(out@, v@);
            }
            Doc::Arr(out)
        }
        Doc::Obj(e) => {
            let mut out: Vec<(String, Doc)> = Vec::new();
            let mut i: usize = 0;
            while i < e.len()
                invariant
                    i <= e@.len(),
                    out@.len() == i,
                    forall|j: int| #![trigger out@[j]] 0 <= j < i ==> out@[j].0 == e@[j].0
                        && doc_view(out@[j].1) == doc_view(e@[j].1)
                        && doc_wf(out@[j].1) == doc_wf(e@[j].1),
                decreases e@.len() - i,
            {
                proof {
                    assert(*d == Doc::Obj(*e));
                    assert(decreases_to!(*d => d->Obj_0));
                    assert(decreases_to!(d->Obj_0 => d->Obj_0@));
                    assert(decreases_to!(d->Obj_0@ => d->Obj_0@[i as int]));
                    assert(decreases_to!(d->Obj_0@[i as int] => d->Obj_0@[i as int].1));
                    assert(decreases_to!(*d => e@[i as int].1));
                }
                let k = e[i].0.clone();
                let c = doc_copy(&e[i].1);
                out.push((k, c));
                i = i + 1;
            }
            proof {
                lemma_entries_pointwise(out@, e@);
            }
            Doc::Obj(out)
        }
    }
}

/// Sequences of documents with pointwise-equal models have equal models
/// and agree on well-formedness.
pub proof fn lemma_docs_pointwise(a: Seq<Doc>, b: Seq<Doc>)
    requires
        a.len() == b.len(),
        forall|j: int| #![trigger a[j]] 0 <= j < a.len() ==> doc_view(a[j]) == doc_view(b[j])
            && doc_wf(a[j]) == doc_wf(b[j]),
    ensures
        docs_view(a) == docs_view(b),
        docs_wf(a) == docs_wf(b),
    decreases a.len(),
{
    if a.len() > 0 {
        lemma_docs_pointwise(a.drop_last(), b.drop_last());
        assert(docs_view(a) == docs_view(b));
        assert(docs_wf(a) <==> docs_wf(b)) by {
            if docs_wf(a) {
                assert forall|i: int| 0 <= i < b.len() implies doc_wf(#[trigger] b[i]) by {
                    assert(doc_wf(a[i]));
                }
            }
            if docs_wf(b) {
                assert forall|i: int| 0 <= i < a.len() implies doc_wf(#[trigger] a[i]) by {
                    assert(doc_wf(b[i]) == doc_wf(a[i]));
                }
            }
        }
    } else {
        assert(a =~= b);
    }
}

/// Entry lists with equal keys and pointwise-equal value models denote the
/// same map and agree on well-formedness.
pub proof fn lemma_entries_pointwise(a: Seq<(String, Doc)>, b: Seq<(String, Doc)>)
    requires
        a.len() == b.len(),
        forall|j: int| #![trigger a[j]] 0 <= j < a.len() ==> a[j].0 == b[j].0
            && doc_view(a[j].1) == doc_view(b[j].1) && doc_wf(a[j].1) == doc_wf(b[j].1),
    ensures
        entries_map(a) == entries_map(b),
        entries_wf(a) == entries_wf(b),
    decreases a.len(),
{
    if a.len() > 0 {
        lemma_entries_pointwise(a.drop_last(), b.drop_last());
        assert(a.last().0@ == b.last().0@);
        assert(entries_map(a) == entries_map(b));
        assert(entries_wf(a) <==> entries_wf(b)) by {
            if entries_wf(a) {
                assert forall|i: int| 0 <= i < b.len() implies doc_wf(#[trigger] b[i].1) by {
                    assert(doc_wf(a[i].1));
                }
                assert forall|i: int, j: int| 0 <= i < j < b.len() implies
                    (#[trigger] b[i].0@) != (#[trigger] b[j].0@) by {
                    assert(a[i].0@ != a[j].0@);
                }
            }
            if entries_wf(b) {
                assert forall|i: int| 0 <= i < a.len() implies doc_wf(#[trigger] a[i].1) by {
                    assert(doc_wf(b[i].1));
                }
                assert forall|i: int, j: int| 0 <= i < j < a.len() implies
                    (#[trigger] a[i].0@) != (#[trigger] a[j].0@) by {
                    assert(b[i].0@ != b[j].0@);
                }
            }
        }
    } else {
        assert(a =~= b);
    }
}

/// Index of the entry carrying `key`, if any.
pub(crate) fn obj_find(entries: &Vec<(String, Doc)>, key: &str) -> (r: Option<usize>)
    ensures
        match r {
            Some(i) => i < entries@.len() && entries@[i as int].0@ == key@,
            None => forall|i: int| #![trigger entries@[i]] 0 <= i < entries@.len()
                ==> entries@[i].0@ != key@,
        },
{
    let mut i: usize = 0;
    while i < entries.len()
        invariant
            i <= entries@.len(),
            forall|j: int| #![trigger entries@[j]] 0 <= j < i ==> entries@[j].0@ != key@,
        decreases entries@.len() - i,
    {
        if crate::text::str_eq_str(entries[i].0.as_str(), key) {
            return Some(i);
        }
        i = i + 1;
    }
    None
}

/// The merged value at key `k` when two objects merge.
pub open spec fn merge_entry(ma: Map<Seq<char>, Jv>, mb: Map<Seq<char>, Jv>, k: Seq<char>) -> Jv {
    if mb.contains_key(k) {
        if ma.contains_key(k) {
            merge_jv(ma[k], mb[k])
        } else {
            mb[k]
        }
    } else {
        ma[k]
    }
}

/// Deep merge of two document models: two objects merge key by key, with
/// values merging recursively on shared keys; any other second value
/// overwrites the first entirely.
pub open spec fn merge_jv(a: Jv, b: Jv) -> Jv
    decreases b,
{
    match (a, b) {
        (Jv::Obj(ma), Jv::Obj(mb)) => Jv::Obj(
            Map::new(
                |k: Seq<char>| ma.contains_key(k) || mb.contains_key(k),
                |k: Seq<char>|
                    if mb.contains_key(k) {
                        if ma.contains_key(k) {
                            merge_jv(ma[k], mb[k])
                        } else {
                            mb[k]
                        }
                    } else {
                        ma[k]
                    },
            ),
        ),
        _ => b,
    }
}

/// The entries of `eb` whose keys are absent from `ma`, in order.
pub open spec fn absent_entries(eb: Seq<(String, Doc)>, ma: Map<Seq<char>, Jv>) -> Seq<
    (String, Doc),
>
    decreases eb.len(),
{
    if eb.len() == 0 {
        Seq::empty()
    } else {
        let rest = absent_entries(eb.drop_last(), ma);
        if ma.contains_key(eb.last().0@) {
            rest
        } else {
            rest.push(eb.last())
        }
    }
}

proof fn lemma_absent_entries(eb: Seq<(String, Doc)>, ma: Map<Seq<char>, Jv>)
    ensures
        forall|t: int| #![trigger absent_entries(eb, ma)[t]] 0 <= t < absent_entries(eb, ma).len()
            ==> !ma.contains_key(absent_entries(eb, ma)[t].0@) && exists|u: int|
            0 <= u < eb.len() && eb[u] == absent_entries(eb, ma)[t],
        forall|k: Seq<char>| #![auto] (exists|u: int| 0 <= u < eb.len() && eb[u].0@ == k)
            && !ma.contains_key(k) ==> exists|t: int| 0 <= t < absent_entries(eb, ma).len()
            && absent_entries(eb, ma)[t].0@ == k,
        (forall|i: int, j: int| 0 <= i < j < eb.len() ==> (#[trigger] eb[i].0@)
            != (#[trigger] eb[j].0@)) ==> (forall|i: int, j: int|
            0 <= i < j < absent_entries(eb, ma).len()
            ==> (#[trigger] absent_entries(eb, ma)[i].0@)
            != (#[trigger] absent_entries(eb, ma)[j].0@)),
    decreases eb.len(),
{
    if eb.len() > 0 {
        let t0 = eb.drop_last();
        lemma_absent_entries(t0, ma);
        let rest = absent_entries(t0, ma);
        let cur = absent_entries(eb, ma);
        assert forall|t: int| 0 <= t < cur.len() implies !ma.contains_key(
            (#[trigger] cur[t]).0@,
        ) && exists|u: int| 0 <= u < eb.len() && eb[u] == cur[t] by {
            if t < rest.len() {
                assert(cur[t] == rest[t]);
                let u = choose|u: int| 0 <= u < t0.len() && t0[u] == rest[t];
                assert(eb[u] == cur[t]);
            } else {
                assert(cur[t] == eb.last());
                assert(eb[eb.len() - 1] == cur[t]);
            }
        }
        assert forall|k: Seq<char>| #![auto] (exists|u: int| 0 <= u < eb.len() && eb[u].0@ == k)
            && !ma.contains_key(k) implies exists|t: int| 0 <= t < cur.len()
            && cur[t].0@ == k by {
            let u = choose|u: int| 0 <= u < eb.len() && eb[u].0@ == k;
            if u == eb.len() - 1 {
                assert(cur[cur.len() - 1].0@ == k);
            } else {
                assert(t0[u].0@ == k);
                let t = choose|t: int| 0 <= t < rest.len() && rest[t].0@ == k;
                assert(cur[t].0@ == k);
            }
        }
        if forall|i: int, j: int| 0 <= i < j < eb.len() ==> (#[trigger] eb[i].0@)
            != (#[trigger] eb[j].0@) {
            assert(forall|i: int, j: int| 0 <= i < j < t0.len() ==> (#[trigger] t0[i].0@)
                != (#[trigger] t0[j].0@));
            assert forall|i: int, j: int| 0 <= i < j < cur.len() implies
                (#[trigger] cur[i].0@) != (#[trigger] cur[j].0@) by {
                if j < rest.len() {
                    assert(cur[i] == rest[i] && cur[j] == rest[j]);
                } else {
                    assert(cur.len() == rest.len() + 1 && j == rest.len());
                    assert(cur[j] == eb.last());
                    assert(cur[i] == rest[i]);
                    let u = choose|u: int| 0 <= u < t0.len() && t0[u] == rest[i];
                    assert(eb[u] == cur[i]);
                    assert(eb[u].0@ != eb[eb.len() - 1].0@);
                }
            }
        }
    }
}

/// Deep merge of two well-formed documents, returning a new document.
#[verifier::loop_isolation(false)]
pub fn merged(a: &Doc, b: &Doc) -> (r: Doc)
    requires
        doc_wf(*a),
        doc_wf(*b),
    ensures
        r@ == merge_jv(a@, b@),
        doc_wf(r),
    decreases *b,
{
    match (a, b) {
        (Doc::Obj(ea), Doc::Obj(eb)) => {
            let ghost ma = entries_map(ea@);
            let ghost mb = entries_map(eb@);
            proof {
                lemma_entries_map(ea@);
                lemma_entries_map(eb@);
                lemma_absent_entries(eb@, ma);
            }
            let mut out: Vec<(String, Doc)> = Vec::new();
            let mut i: usize = 0;
            while i < ea.len()
                invariant
                    doc_wf(*a),
                    doc_wf(*b),
                    a@ == Jv::Obj(ma),
                    b@ == Jv::Obj(mb),
                    ma == entries_map(ea@),
                    mb == entries_map(eb@),
                    a matches Doc::Obj(x) && x@ == ea@,
                    b matches Doc::Obj(x) && x@ == eb@,
                    i <= ea@.len(),
                    out@.len() == i,
                    forall|j: int| #![trigger out@[j]] 0 <= j < i ==> out@[j].0@ == ea@[j].0@
                        && doc_view(out@[j].1) == merge_entry(ma, mb, ea@[j].0@)
                        && doc_wf(out@[j].1),
                decreases ea@.len() - i,
            {
                proof {
                    lemma_entries_map(ea@);
                    lemma_entries_map(eb@);
                    assert(forall|j: int| (i as int) < j < ea@.len() ==> ea@[j].0@
                        != ea@[i as int].0@);
                    assert(ma.contains_key(ea@[i as int].0@));
                    assert(ma[ea@[i as int].0@] == doc_view(ea@[i as int].1));
                }
                let k = ea[i].0.clone();
                let nv: Doc = match obj_find(eb, k.as_str()) {
                    Some(j) => {
                        proof {
                            assert(forall|j2: int| (j as int) < j2 < eb@.len() ==> eb@[j2].0@
                                != eb@[j as int].0@);
                            assert(mb.contains_key(eb@[j as int].0@));
                            assert(mb[eb@[j as int].0@] == doc_view(eb@[j as int].1));
                            assert(decreases_to!(*b => eb@[j as int].1));
                        }
                        merged(&ea[i].1, &eb[j].1)
                    }
                    None => {
                        proof {
                            assert(!mb.contains_key(ea@[i as int].0@));
                        }
                        doc_copy(&ea[i].1)
                    }
                };
                out.push((k, nv));
                i = i + 1;
            }
            let ghost asplit = out@.len() as int;
            let mut j: usize = 0;
            while j < eb.len()
                invariant
                    doc_wf(*a),
                    doc_wf(*b),
                    a@ == Jv::Obj(ma),
                    b@ == Jv::Obj(mb),
                    ma == entries_map(ea@),
                    mb == entries_map(eb@),
                    a matches Doc::Obj(x) && x@ == ea@,
                    b matches Doc::Obj(x) && x@ == eb@,
                    j <= eb@.len(),
                    asplit == ea@.len(),
                    out@.len() == asplit + absent_entries(eb@.subrange(0, j as int), ma).len(),
                    forall|t: int| #![trigger out@[t]] 0 <= t < asplit ==> out@[t].0@
                        == ea@[t].0@ && doc_view(out@[t].1) == merge_entry(ma, mb, ea@[t].0@)
                        && doc_wf(out@[t].1),
                    forall|t: int| #![trigger out@[t]] asplit <= t < out@.len() ==> out@[t].0@
                        == absent_entries(eb@.subrange(0, j as int), ma)[t - asplit].0@
                        && doc_view(out@[t].1) == merge_entry(ma, mb, out@[t].0@)
                        && doc_wf(out@[t].1)
                        && !ma.contains_key(out@[t].0@),
                decreases eb@.len() - j,
            {
                proof {
                    lemma_entries_map(eb@);
                    assert(forall|j2: int| (j as int) < j2 < eb@.len() ==> eb@[j2].0@
                        != eb@[j as int].0@);
                    assert(mb.contains_key(eb@[j as int].0@));
                    assert(mb[eb@[j as int].0@] == doc_view(eb@[j as int].1));
                }
                let ghost pre = eb@.subrange(0, j as int);
                let ghost post = eb@.subrange(0, j as int + 1);
                proof {
                    assert(post.drop_last() =~= pre);
                    assert(post.last() == eb@[j as int]);
                }
                let kb = &eb[j].0;
                match obj_find(ea, kb.as_str()) {
                    Some(_) => {
                        proof {
                            lemma_entries_map(ea@);
                            assert(ma.contains_key(eb@[j as int].0@));
                            assert(absent_entries(post, ma) =~= absent_entries(pre, ma));
                        }
                    }
                    None => {
                        proof {
                            lemma_entries_map(ea@);
                            assert(!ma.contains_key(eb@[j as int].0@));
                            assert(absent_entries(post, ma) =~= absent_entries(pre, ma).push(
                                eb@[j as int],
                            ));
                        }
                        let kc = eb[j].0.clone();
                        let vc = doc_copy(&eb[j].1);
                        out.push((kc, vc));
                    }
                }
                j = j + 1;
            }
            proof {
                assert(eb@.subrange(0, eb@.len() as int) =~= eb@);
            }
            let r = Doc::Obj(out);
            proof {
                let outs = out@;
                let abs = absent_entries(eb@, ma);
                lemma_absent_entries(eb@, ma);
                lemma_entries_map(ea@);
                lemma_entries_map(eb@);
                // keys of out are pairwise distinct
                assert forall|p: int, q: int| 0 <= p < q < outs.len() implies
                    (#[trigger] outs[p].0@) != (#[trigger] outs[q].0@) by {
                    if q < asplit {
                        assert(ea@[p].0@ != ea@[q].0@);
                    } else if p < asplit {
                        assert(ma.contains_key(ea@[p].0@));
                        assert(!ma.contains_key(outs[q].0@));
                    } else {
                        assert(abs[p - asplit].0@ != abs[q - asplit].0@);
                    }
                }
                assert(entries_wf(outs));
                lemma_entries_map(outs);
                let target = merge_jv(a@, b@);
                let tm = Map::<Seq<char>, Jv>::new(
                    |k: Seq<char>| ma.contains_key(k) || mb.contains_key(k),
                    |k: Seq<char>| merge_entry(ma, mb, k),
                );
                assert(target is Obj);
                assert(target->Obj_0 =~= tm);
                assert(target == Jv::Obj(tm));
                assert forall|k: Seq<char>| #[trigger] entries_map(outs).contains_key(k)
                    implies tm.contains_key(k) && entries_map(outs)[k] == tm[k] by {
                    let t = choose|t: int| 0 <= t < outs.len() && outs[t].0@ == k;
                    assert(forall|t2: int| t < t2 < outs.len() ==> outs[t2].0@ != outs[t].0@);
                    assert(entries_map(outs)[k] == doc_view(outs[t].1));
                    if t < asplit {
                        assert(ma.contains_key(k));
                        assert(doc_view(outs[t].1) == merge_entry(ma, mb, k));
                    } else {
                        assert(!ma.contains_key(k));
                        let u = choose|u: int| 0 <= u < eb@.len() && eb@[u] == abs[t - asplit];
                        assert(eb@[u].0@ == k);
                        assert(mb.contains_key(k));
                        assert(doc_view(outs[t].1) == merge_entry(ma, mb, k));
                    }
                }
                assert forall|k: Seq<char>| #[trigger] tm.contains_key(k) implies
                    entries_map(outs).contains_key(k) by {
                    if ma.contains_key(k) {
                        let u = choose|u: int| 0 <= u < ea@.len() && ea@[u].0@ == k;
                        assert(outs[u].0@ == k);
                    } else {
                        assert(mb.contains_key(k));
                        let u = choose|u: int| 0 <= u < eb@.len() && eb@[u].0@ == k;
                        let t = choose|t: int| 0 <= t < abs.len() && abs[t].0@ == k;
                        assert(outs[asplit + t].0@ == k);
                    }
                }
                assert(entries_map(outs) =~= tm);
                assert(r@ == target);
            }
            r
        }
        _ => {
            let r = doc_copy(b);
            proof {
                assert(!(a@ is Obj && b@ is Obj) ==> merge_jv(a@, b@) == b@);
                assert(match (a, b) {
                    (Doc::Obj(_), Doc::Obj(_)) => false,
                    _ => true,
                });
            }
            r
        }
    }
}

/// Deep-merge `b` into `a` in place, with `b` taking precedence.
pub fn json_merge(a: &mut Doc, b: &Doc)
    requires
        doc_wf(*old(a)),
        doc_wf(*b),
    ensures
        final(a)@ == merge_jv(old(a)@, b@),
        doc_wf(*final(a)),
{
    let m = merged(a, b);
    *a = m;
}


/// Last-write-wins precedence of the deep merge of two objects, stated per
/// key: a key present in only one document keeps that document's value; a
/// key present in both takes the second document's value, except that two
/// objects merge recursively.
pub proof fn lemma_merge_precedence(ma: Map<Seq<char>, Jv>, mb: Map<Seq<char>, Jv>, k: Seq<char>)
    ensures
        merge_jv(Jv::Obj(ma), Jv::Obj(mb)) matches Jv::Obj(m) && {
            &&& m.contains_key(k) == (ma.contains_key(k) || mb.contains_key(k))
            &&& (ma.contains_key(k) && !mb.contains_key(k) ==> m[k] == ma[k])
            &&& (!ma.contains_key(k) && mb.contains_key(k) ==> m[k] == mb[k])
            &&& (ma.contains_key(k) && mb.contains_key(k) ==> m[k] == merge_jv(ma[k], mb[k]))
        },
{
}

/// Precedence across three object documents merged in increasing
/// precedence: a key present in only one document keeps that document's
/// value, and for a key whose highest-precedence occurrence is not an
/// object, that occurrence wins outright.
pub proof fn lemma_merge_three_precedence(
    ma: Map<Seq<char>, Jv>,
    mb: Map<Seq<char>, Jv>,
    mc: Map<Seq<char>, Jv>,
    k: Seq<char>,
)
    ensures
        merge_jv(merge_jv(Jv::Obj(ma), Jv::Obj(mb)), Jv::Obj(mc)) matches Jv::Obj(m) && {
            &&& m.contains_key(k) == (ma.contains_key(k) || mb.contains_key(k)
                || mc.contains_key(k))
            &&& (ma.contains_key(k) && !mb.contains_key(k) && !mc.contains_key(k) ==> m[k]
                == ma[k])
            &&& (!ma.contains_key(k) && mb.contains_key(k) && !mc.contains_key(k) ==> m[k]
                == mb[k])
            &&& (!ma.contains_key(k) && !mb.contains_key(k) && mc.contains_key(k) ==> m[k]
                == mc[k])
            &&& (mc.contains_key(k) && !(mc[k] is Obj) ==> m[k] == mc[k])
            &&& (!mc.contains_key(k) && mb.contains_key(k) && !(mb[k] is Obj) ==> m[k]
                == mb[k])
        },
{
    lemma_merge_precedence(ma, mb, k);
    let ab = merge_jv(Jv::Obj(ma), Jv::Obj(mb));
    lemma_merge_precedence(ab->Obj_0, mc, k);
}

} // verus!
