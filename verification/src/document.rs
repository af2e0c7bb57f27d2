use vstd::prelude::*;

verus! {

/// A semi-structured document: the JSON-shaped value that events carry as
/// `context`, `properties`, `traits` or `integrations`.
///
/// `Int` holds a whole number; `Num` carries any other JSON number verbatim
/// as its decimal rendering (see [`Doc::number`]), so fractional and
/// large-unsigned payloads keep their exact wire bytes. Object members are
/// kept sorted by key and free of duplicates (the well-formedness predicate
/// [`docv_wf`]); the builder [`Doc::set`] and the merger [`merge`] maintain
/// that canonical shape, which matches the order in which documents are
/// serialized.
#[derive(Debug, PartialEq)]
pub enum Doc {
    Null,
    Bool(bool),
    Int(i64),
    Num(String),
    Str(String),
    Arr(Vec<Doc>),
    Obj(Vec<(String, Doc)>),
}

/// The mathematical model of a [`Doc`]: strings become character sequences,
/// vectors become sequences, and object members keep their order.
pub enum DocV {
    Null,
    Bool(bool),
    Int(int),
    Num(Seq<char>),
    Str(Seq<char>),
    Arr(Seq<DocV>),
    Obj(Seq<(Seq<char>, DocV)>),
}

pub open spec fn doc_view(d: Doc) -> DocV
    decreases d,
{
    match d {
        Doc::Null => DocV::Null,
        Doc::Bool(b) => DocV::Bool(b),
        Doc::Int(i) => DocV::Int(i as int),
        Doc::Num(s) => DocV::Num(s@),
        Doc::Str(s) => DocV::Str(s@),
        Doc::Arr(items) => DocV::Arr(docs_view(items@)),
        Doc::Obj(members) => DocV::Obj(members_view(members@)),
    }
}

pub open spec fn docs_view(items: Seq<Doc>) -> Seq<DocV>
    decreases items,
{
    if items.len() == 0 {
        Seq::empty()
    } else {
        seq![doc_view(items.first())] + docs_view(items.drop_first())
    }
}

pub open spec fn members_view(members: Seq<(String, Doc)>) -> Seq<(Seq<char>, DocV)>
    decreases members,
{
    if members.len() == 0 {
        Seq::empty()
    } else {
        seq![(members.first().0@, doc_view(members.first().1))] + members_view(
            members.drop_first(),
        )
    }
}

impl View for Doc {
    type V = DocV;

    open spec fn view(&self) -> DocV {
        doc_view(*self)
    }
}

pub proof fn lemma_docs_view_len(items: Seq<Doc>)
    ensures
        docs_view(items).len() == items.len(),
    decreases items.len(),
{
    if items.len() > 0 {
        lemma_docs_view_len(items.drop_first());
    }
}

pub proof fn lemma_docs_view_index(items: Seq<Doc>, i: int)
    requires
        0 <= i < items.len(),
    ensures
        docs_view(items).len() == items.len(),
        docs_view(items)[i] == doc_view(items[i]),
    decreases items.len(),
{
    lemma_docs_view_len(items);
    if i > 0 {
        lemma_docs_view_index(items.drop_first(), i - 1);
    }
}

pub proof fn lemma_members_view_len(members: Seq<(String, Doc)>)
    ensures
        members_view(members).len() == members.len(),
    decreases members.len(),
{
    if members.len() > 0 {
        lemma_members_view_len(members.drop_first());
    }
}

pub proof fn lemma_members_view_index(members: Seq<(String, Doc)>, i: int)
    requires
        0 <= i < members.len(),
    ensures
        members_view(members).len() == members.len(),
        members_view(members)[i].0 == members[i].0@,
        members_view(members)[i].1 == doc_view(members[i].1),
    decreases members.len(),
{
    lemma_members_view_len(members);
    if i > 0 {
        lemma_members_view_index(members.drop_first(), i - 1);
    }
}

/// Strict lexicographic order on keys, comparing character for character by
/// Unicode scalar value; a proper prefix sorts before its extensions.
pub open spec fn lex_lt(a: Seq<char>, b: Seq<char>) -> bool
    decreases a.len(),
{
    if b.len() == 0 {
        false
    } else if a.len() == 0 {
        true
    } else if a.first() != b.first() {
        (a.first() as u32) < (b.first() as u32)
    } else {
        lex_lt(a.drop_first(), b.drop_first())
    }
}

pub proof fn lemma_lex_lt_irrefl(a: Seq<char>)
    ensures
        !lex_lt(a, a),
    decreases a.len(),
{
    if a.len() > 0 {
        lemma_lex_lt_irrefl(a.drop_first());
    }
}

pub proof fn lemma_lex_lt_connected(a: Seq<char>, b: Seq<char>)
    requires
        !lex_lt(a, b),
        !lex_lt(b, a),
    ensures
        a == b,
    decreases a.len(),
{
    if a.len() == 0 || b.len() == 0 {
        assert(a =~= b);
    } else if a.first() != b.first() {
        let ua = a.first() as u32;
        let ub = b.first() as u32;
        if ua == ub {
            vstd::utf8::char_u32_cast(a.first(), ua);
            vstd::utf8::char_u32_cast(b.first(), ub);
            assert(false);
        }
        assert(false);
    } else {
        lemma_lex_lt_connected(a.drop_first(), b.drop_first());
        assert(a =~= seq![a.first()] + a.drop_first());
        assert(b =~= seq![b.first()] + b.drop_first());
        assert(a == b);
    }
}

pub proof fn lemma_lex_lt_asym(a: Seq<char>, b: Seq<char>)
    requires
        lex_lt(a, b),
    ensures
        !lex_lt(b, a),
        a != b,
    decreases a.len(),
{
    lemma_lex_lt_irrefl(a);
    if a.len() > 0 && b.len() > 0 && a.first() == b.first() {
        lemma_lex_lt_asym(a.drop_first(), b.drop_first());
    }
}

pub proof fn lemma_lex_lt_trans(a: Seq<char>, b: Seq<char>, c: Seq<char>)
    requires
        lex_lt(a, b),
        lex_lt(b, c),
    ensures
        lex_lt(a, c),
    decreases a.len(),
{
    if a.len() > 0 && b.len() > 0 && c.len() > 0 && a.first() == b.first() && b.first()
        == c.first() {
        lemma_lex_lt_trans(a.drop_first(), b.drop_first(), c.drop_first());
    }
}

/// Object members listed in strictly ascending key order (hence without
/// duplicate keys).
pub open spec fn members_sorted(ms: Seq<(Seq<char>, DocV)>) -> bool {
    forall|i: int, j: int| 0 <= i < j < ms.len() ==> lex_lt(ms[i].0, ms[j].0)
}

/// Well-formedness of a document: every object, at every depth, is in the
/// canonical sorted, duplicate-free shape, and every carried number is a
/// well-formed JSON number literal.
pub open spec fn docv_wf(d: DocV) -> bool
    decreases d,
{
    match d {
        DocV::Num(s) => num_lit(s),
        DocV::Arr(items) => docs_wf(items),
        DocV::Obj(ms) => members_sorted(ms) && member_values_wf(ms),
        _ => true,
    }
}

pub open spec fn docs_wf(items: Seq<DocV>) -> bool
    decreases items,
{
    items.len() == 0 || (docv_wf(items.first()) && docs_wf(items.drop_first()))
}

pub open spec fn member_values_wf(ms: Seq<(Seq<char>, DocV)>) -> bool
    decreases ms,
{
    ms.len() == 0 || (docv_wf(ms.first().1) && member_values_wf(ms.drop_first()))
}

/// The value at key `k`: the first member that carries it.
pub open spec fn lookup_members(ms: Seq<(Seq<char>, DocV)>, k: Seq<char>) -> Option<DocV>
    decreases ms.len(),
{
    if ms.len() == 0 {
        None
    } else if ms.first().0 == k {
        Some(ms.first().1)
    } else {
        lookup_members(ms.drop_first(), k)
    }
}

pub open spec fn has_member(ms: Seq<(Seq<char>, DocV)>, k: Seq<char>) -> bool {
    lookup_members(ms, k) is Some
}

pub proof fn lemma_has_member_exists(ms: Seq<(Seq<char>, DocV)>, k: Seq<char>)
    ensures
        has_member(ms, k) <==> exists|i: int| 0 <= i < ms.len() && #[trigger] ms[i].0 == k,
    decreases ms.len(),
{
    if ms.len() > 0 {
        lemma_has_member_exists(ms.drop_first(), k);
        if ms.first().0 == k {
            assert(ms[0].0 == k);
        } else if has_member(ms, k) {
            let i = choose|i: int|
                0 <= i < ms.drop_first().len() && #[trigger] ms.drop_first()[i].0 == k;
            assert(ms[i + 1].0 == k);
        } else {
            assert(forall|i: int|
                1 <= i < ms.len() ==> #[trigger] ms[i].0 == ms.drop_first()[i - 1].0);
        }
    }
}

/// Insertion into a member list, keeping ascending key order when the list
/// is sorted; an existing member with the same key is replaced.
pub open spec fn insert_member(
    ms: Seq<(Seq<char>, DocV)>,
    k: Seq<char>,
    v: DocV,
) -> Seq<(Seq<char>, DocV)>
    decreases ms.len(),
{
    if ms.len() == 0 {
        seq![(k, v)]
    } else if lex_lt(k, ms.first().0) {
        seq![(k, v)] + ms
    } else if k == ms.first().0 {
        seq![(k, v)] + ms.drop_first()
    } else {
        seq![ms.first()] + insert_member(ms.drop_first(), k, v)
    }
}

pub proof fn lemma_insert_member_sorted(ms: Seq<(Seq<char>, DocV)>, k: Seq<char>, v: DocV)
    requires
        members_sorted(ms),
    ensures
        members_sorted(insert_member(ms, k, v)),
        forall|k2: Seq<char>|
            #[trigger] lookup_members(insert_member(ms, k, v), k2) == (if k2 == k {
                Some(v)
            } else {
                lookup_members(ms, k2)
            }),
    decreases ms.len(),
{
    let r = insert_member(ms, k, v);
    if ms.len() == 0 {
        assert forall|k2: Seq<char>| #[trigger] lookup_members(r, k2) == (if k2 == k {
            Some(v)
        } else {
            lookup_members(ms, k2)
        }) by {
            reveal_with_fuel(lookup_members, 2);
            assert(r.drop_first() =~= Seq::<(Seq<char>, DocV)>::empty());
        }
    } else if lex_lt(k, ms.first().0) {
        assert forall|i: int, j: int| 0 <= i < j < r.len() implies lex_lt(r[i].0, r[j].0) by {
            if i == 0 {
                if j > 1 {
                    lemma_lex_lt_trans(k, ms[0].0, ms[j - 1].0);
                }
            }
        }
        assert forall|k2: Seq<char>| #[trigger] lookup_members(r, k2) == (if k2 == k {
            Some(v)
        } else {
            lookup_members(ms, k2)
        }) by {
            assert(r.drop_first() =~= ms);
            if k2 == k {
                lemma_lex_lt_asym(k, ms.first().0);
            } else {
            }
        }
    } else if k == ms.first().0 {
        lemma_lex_lt_irrefl(k);
        assert forall|i: int, j: int| 0 <= i < j < r.len() implies lex_lt(r[i].0, r[j].0) by {
            assert(r[j] == ms[j]);
        }
        assert forall|k2: Seq<char>| #[trigger] lookup_members(r, k2) == (if k2 == k {
            Some(v)
        } else {
            lookup_members(ms, k2)
        }) by {
            reveal_with_fuel(lookup_members, 2);
            assert(r.drop_first() =~= ms.drop_first());
        }
    } else {
        lemma_lex_lt_connected_total(k, ms.first().0);
        lemma_insert_member_sorted(ms.drop_first(), k, v);
        let tail = insert_member(ms.drop_first(), k, v);
        assert(r =~= seq![ms.first()] + tail);
        assert forall|i: int, j: int| 0 <= i < j < r.len() implies lex_lt(r[i].0, r[j].0) by {
            if i == 0 {
                // every key in `tail` is either `k` or a key of the tail of `ms`,
                // both of which sort after `ms.first().0`.
                lemma_insert_member_key_set(ms.drop_first(), k, v, j - 1);
            } else {
                assert(r[i] == tail[i - 1]);
                assert(r[j] == tail[j - 1]);
            }
        }
        assert forall|k2: Seq<char>| #[trigger] lookup_members(r, k2) == (if k2 == k {
            Some(v)
        } else {
            lookup_members(ms, k2)
        }) by {
            reveal_with_fuel(lookup_members, 2);
            assert(r.drop_first() =~= tail);
            assert(r.first() == ms.first());
            if k2 == k {
                lemma_lex_lt_asym(ms.first().0, k);
                assert(k2 != ms.first().0);
                assert(lookup_members(r, k2) == lookup_members(tail, k2));
                assert(lookup_members(tail, k2) == Some(v));
            } else if k2 == ms.first().0 {
                assert(lookup_members(r, k2) == Some(ms.first().1));
                assert(lookup_members(ms, k2) == Some(ms.first().1));
            } else {
                assert(lookup_members(r, k2) == lookup_members(tail, k2));
                assert(lookup_members(tail, k2) == lookup_members(ms.drop_first(), k2));
                assert(lookup_members(ms, k2) == lookup_members(ms.drop_first(), k2));
            }
        }
    }
}

/// Every member of an insertion result carries either the inserted key or a
/// key already present.
pub proof fn lemma_insert_member_key_set(
    ms: Seq<(Seq<char>, DocV)>,
    k: Seq<char>,
    v: DocV,
    i: int,
)
    requires
        0 <= i < insert_member(ms, k, v).len(),
    ensures
        insert_member(ms, k, v)[i].0 == k || exists|q: int|
            0 <= q < ms.len() && #[trigger] ms[q].0 == insert_member(ms, k, v)[i].0,
    decreases ms.len(),
{
    let r = insert_member(ms, k, v);
    if ms.len() == 0 {
    } else if lex_lt(k, ms.first().0) {
        if i > 0 {
            assert(r[i] == ms[i - 1]);
        }
    } else if k == ms.first().0 {
        if i > 0 {
            assert(r[i] == ms[i]);
        }
    } else {
        if i == 0 {
            assert(r[0] == ms[0]);
        } else {
            let tail = insert_member(ms.drop_first(), k, v);
            assert(r[i] == tail[i - 1]);
            lemma_insert_member_key_set(ms.drop_first(), k, v, i - 1);
            if tail[i - 1].0 != k {
                let q = choose|q: int|
                    0 <= q < ms.drop_first().len() && #[trigger] ms.drop_first()[q].0 == tail[i
                        - 1].0;
                assert(ms[q + 1].0 == tail[i - 1].0);
            }
        }
    }
}

/// Two keys that neither sorts before the other are the same key.
pub proof fn lemma_lex_lt_connected_total(a: Seq<char>, b: Seq<char>)
    ensures
        lex_lt(a, b) || lex_lt(b, a) || a == b,
{
    if !lex_lt(a, b) && !lex_lt(b, a) {
        lemma_lex_lt_connected(a, b);
    }
}

/// The deep merge of two documents: where both sides are objects the members
/// merge key by key, recursively; anywhere else the overlay replaces the base.
pub open spec fn merge_docv(base: DocV, overlay: DocV) -> DocV
    decreases overlay, 0nat,
{
    match (base, overlay) {
        (DocV::Obj(b), DocV::Obj(o)) => DocV::Obj(merge_members(b, o)),
        (_, o) => o,
    }
}

/// Merge of two member lists. On sorted lists this walks the two sides like a
/// merge sort pass, so the result is again sorted.
pub open spec fn merge_members(
    b: Seq<(Seq<char>, DocV)>,
    o: Seq<(Seq<char>, DocV)>,
) -> Seq<(Seq<char>, DocV)>
    decreases o, b.len(),
{
    if b.len() == 0 {
        o
    } else if o.len() == 0 {
        b
    } else if lex_lt(b.first().0, o.first().0) {
        seq![b.first()] + merge_members(b.drop_first(), o)
    } else if lex_lt(o.first().0, b.first().0) {
        seq![o.first()] + merge_members(b, o.drop_first())
    } else {
        seq![(o.first().0, merge_docv(b.first().1, o.first().1))] + merge_members(
            b.drop_first(),
            o.drop_first(),
        )
    }
}

pub proof fn lemma_lookup_below(ms: Seq<(Seq<char>, DocV)>, k: Seq<char>)
    requires
        forall|i: int| 0 <= i < ms.len() ==> lex_lt(k, #[trigger] ms[i].0),
    ensures
        lookup_members(ms, k) == None::<DocV>,
    decreases ms.len(),
{
    if ms.len() > 0 {
        lemma_lex_lt_asym(k, ms.first().0);
        assert(forall|i: int|
            0 <= i < ms.drop_first().len() ==> #[trigger] ms.drop_first()[i].0 == ms[i + 1].0);
        lemma_lookup_below(ms.drop_first(), k);
    }
}

/// Every member of a merge result carries a key present on one of the sides.
pub proof fn lemma_merge_members_key_set(
    b: Seq<(Seq<char>, DocV)>,
    o: Seq<(Seq<char>, DocV)>,
    i: int,
)
    requires
        0 <= i < merge_members(b, o).len(),
    ensures
        (exists|q: int| 0 <= q < b.len() && #[trigger] b[q].0 == merge_members(b, o)[i].0)
            || (exists|q: int|
            0 <= q < o.len() && #[trigger] o[q].0 == merge_members(b, o)[i].0),
    decreases b.len() + o.len(),
{
    let r = merge_members(b, o);
    if b.len() == 0 {
        assert(o[i].0 == r[i].0);
    } else if o.len() == 0 {
        assert(b[i].0 == r[i].0);
    } else if lex_lt(b.first().0, o.first().0) {
        if i == 0 {
            assert(b[0].0 == r[0].0);
        } else {
            let tail = merge_members(b.drop_first(), o);
            assert(r[i] == tail[i - 1]);
            lemma_merge_members_key_set(b.drop_first(), o, i - 1);
            if exists|q: int|
                0 <= q < b.drop_first().len() && #[trigger] b.drop_first()[q].0 == tail[i - 1].0 {
                let q = choose|q: int|
                    0 <= q < b.drop_first().len() && #[trigger] b.drop_first()[q].0 == tail[i
                        - 1].0;
                assert(b[q + 1].0 == r[i].0);
            }
        }
    } else if lex_lt(o.first().0, b.first().0) {
        if i == 0 {
            assert(o[0].0 == r[0].0);
        } else {
            let tail = merge_members(b, o.drop_first());
            assert(r[i] == tail[i - 1]);
            lemma_merge_members_key_set(b, o.drop_first(), i - 1);
            if exists|q: int|
                0 <= q < o.drop_first().len() && #[trigger] o.drop_first()[q].0 == tail[i - 1].0 {
                let q = choose|q: int|
                    0 <= q < o.drop_first().len() && #[trigger] o.drop_first()[q].0 == tail[i
                        - 1].0;
                assert(o[q + 1].0 == r[i].0);
            }
        }
    } else {
        if i == 0 {
            assert(o[0].0 == r[0].0);
        } else {
            let tail = merge_members(b.drop_first(), o.drop_first());
            assert(r[i] == tail[i - 1]);
            lemma_merge_members_key_set(b.drop_first(), o.drop_first(), i - 1);
            if exists|q: int|
                0 <= q < b.drop_first().len() && #[trigger] b.drop_first()[q].0 == tail[i - 1].0 {
                let q = choose|q: int|
                    0 <= q < b.drop_first().len() && #[trigger] b.drop_first()[q].0 == tail[i
                        - 1].0;
                assert(b[q + 1].0 == r[i].0);
            } else {
                let q = choose|q: int|
                    0 <= q < o.drop_first().len() && #[trigger] o.drop_first()[q].0 == tail[i
                        - 1].0;
                assert(o[q + 1].0 == r[i].0);
            }
        }
    }
}

pub proof fn lemma_merge_members_sorted(b: Seq<(Seq<char>, DocV)>, o: Seq<(Seq<char>, DocV)>)
    requires
        members_sorted(b),
        members_sorted(o),
    ensures
        members_sorted(merge_members(b, o)),
    decreases b.len() + o.len(),
{
    let r = merge_members(b, o);
    if b.len() == 0 || o.len() == 0 {
    } else {
        let b0 = b.first().0;
        let o0 = o.first().0;
        lemma_lex_lt_connected_total(b0, o0);
        // The head key of the result: the smaller of the two head keys.
        let h = if lex_lt(o0, b0) {
            o0
        } else {
            b0
        };
        let (bt, ot) = if lex_lt(b0, o0) {
            (b.drop_first(), o)
        } else if lex_lt(o0, b0) {
            (b, o.drop_first())
        } else {
            (b.drop_first(), o.drop_first())
        };
        assert(members_sorted(bt)) by {
            assert(forall|i: int, j: int|
                0 <= i < j < b.drop_first().len() ==> lex_lt(
                    #[trigger] b.drop_first()[i].0,
                    #[trigger] b.drop_first()[j].0,
                ));
        }
        assert(members_sorted(ot)) by {
            assert(forall|i: int, j: int|
                0 <= i < j < o.drop_first().len() ==> lex_lt(
                    #[trigger] o.drop_first()[i].0,
                    #[trigger] o.drop_first()[j].0,
                ));
        }
        lemma_merge_members_sorted(bt, ot);
        let tail = merge_members(bt, ot);
        // The head sorts before every key of both remainders.
        if lex_lt(b0, o0) {
            lemma_lex_lt_asym(b0, o0);
        }
        if lex_lt(o0, b0) {
            lemma_lex_lt_asym(o0, b0);
        }
        assert forall|q: int| 0 <= q < bt.len() implies lex_lt(h, #[trigger] bt[q].0) by {
            if lex_lt(b0, o0) {
                assert(bt[q].0 == b[q + 1].0);
                assert(lex_lt(b[0].0, b[q + 1].0));
            } else if lex_lt(o0, b0) {
                if q == 0 {
                } else {
                    assert(lex_lt(b[0].0, b[q].0));
                    lemma_lex_lt_trans(o0, b0, b[q].0);
                }
            } else {
                assert(bt[q].0 == b[q + 1].0);
                assert(lex_lt(b[0].0, b[q + 1].0));
            }
        }
        assert forall|q: int| 0 <= q < ot.len() implies lex_lt(h, #[trigger] ot[q].0) by {
            if lex_lt(b0, o0) {
                if q == 0 {
                } else {
                    assert(lex_lt(o[0].0, o[q].0));
                    lemma_lex_lt_trans(b0, o0, o[q].0);
                }
            } else if lex_lt(o0, b0) {
                assert(ot[q].0 == o[q + 1].0);
                assert(lex_lt(o[0].0, o[q + 1].0));
            } else {
                assert(ot[q].0 == o[q + 1].0);
                assert(lex_lt(o[0].0, o[q + 1].0));
            }
        }
        assert forall|i: int, j: int| 0 <= i < j < r.len() implies lex_lt(r[i].0, r[j].0) by {
            if i == 0 {
                assert(r[0].0 == h);
                assert(r[j] == tail[j - 1]);
                lemma_merge_members_key_set(bt, ot, j - 1);
                if exists|q: int| 0 <= q < bt.len() && #[trigger] bt[q].0 == tail[j - 1].0 {
                    let q = choose|q: int| 0 <= q < bt.len() && #[trigger] bt[q].0 == tail[j - 1].0;
                    assert(lex_lt(h, bt[q].0));
                } else {
                    let q = choose|q: int| 0 <= q < ot.len() && #[trigger] ot[q].0 == tail[j - 1].0;
                    assert(lex_lt(h, ot[q].0));
                }
            } else {
                assert(r[i] == tail[i - 1]);
                assert(r[j] == tail[j - 1]);
            }
        }
    }
}

pub proof fn lemma_sorted_tail(ms: Seq<(Seq<char>, DocV)>)
    requires
        members_sorted(ms),
        ms.len() > 0,
    ensures
        members_sorted(ms.drop_first()),
{
    assert forall|i: int, j: int| 0 <= i < j < ms.drop_first().len() implies lex_lt(
        ms.drop_first()[i].0,
        ms.drop_first()[j].0,
    ) by {
        assert(ms.drop_first()[i] == ms[i + 1]);
        assert(ms.drop_first()[j] == ms[j + 1]);
        assert(lex_lt(ms[i + 1].0, ms[j + 1].0));
    }
}

/// Law of the merge: at every key, the merge of two canonical objects holds
/// the overlay's value where only the overlay has the key, the base's value
/// where only the base has it, and the recursive merge of the two values
/// where both have it. A key of neither side is absent from the result.
pub proof fn lemma_merge_members_lookup(
    b: Seq<(Seq<char>, DocV)>,
    o: Seq<(Seq<char>, DocV)>,
    k: Seq<char>,
)
    requires
        members_sorted(b),
        members_sorted(o),
    ensures
        lookup_members(merge_members(b, o), k) == (match (
            lookup_members(b, k),
            lookup_members(o, k),
        ) {
            (Some(bv), Some(ov)) => Some(merge_docv(bv, ov)),
            (None, Some(ov)) => Some(ov),
            (Some(bv), None) => Some(bv),
            (None, None) => None::<DocV>,
        }),
    decreases b.len() + o.len(),
{
    reveal_with_fuel(lookup_members, 2);
    let r = merge_members(b, o);
    if b.len() == 0 || o.len() == 0 {
    } else {
        let b0 = b.first().0;
        let o0 = o.first().0;
        lemma_sorted_tail(b);
        lemma_sorted_tail(o);
        if lex_lt(b0, o0) {
            lemma_merge_members_lookup(b.drop_first(), o, k);
            assert(r.drop_first() =~= merge_members(b.drop_first(), o));
            if k == b0 {
                assert forall|q: int| 0 <= q < o.len() implies lex_lt(k, #[trigger] o[q].0) by {
                    if q > 0 {
                        assert(lex_lt(o[0].0, o[q].0));
                        lemma_lex_lt_trans(k, o0, o[q].0);
                    }
                }
                lemma_lookup_below(o, k);
                assert(lookup_members(r, k) == Some(b.first().1));
            } else {
                assert(lookup_members(r, k) == lookup_members(r.drop_first(), k));
                assert(lookup_members(b, k) == lookup_members(b.drop_first(), k));
            }
        } else if lex_lt(o0, b0) {
            lemma_merge_members_lookup(b, o.drop_first(), k);
            assert(r.drop_first() =~= merge_members(b, o.drop_first()));
            if k == o0 {
                assert forall|q: int| 0 <= q < b.len() implies lex_lt(k, #[trigger] b[q].0) by {
                    if q > 0 {
                        assert(lex_lt(b[0].0, b[q].0));
                        lemma_lex_lt_trans(k, b0, b[q].0);
                    }
                }
                lemma_lookup_below(b, k);
                assert(lookup_members(r, k) == Some(o.first().1));
            } else {
                assert(lookup_members(r, k) == lookup_members(r.drop_first(), k));
                assert(lookup_members(o, k) == lookup_members(o.drop_first(), k));
            }
        } else {
            lemma_lex_lt_connected(b0, o0);
            lemma_merge_members_lookup(b.drop_first(), o.drop_first(), k);
            assert(r.drop_first() =~= merge_members(b.drop_first(), o.drop_first()));
            if k == b0 {
                assert(lookup_members(r, k) == Some(merge_docv(b.first().1, o.first().1)));
            } else {
                assert(lookup_members(r, k) == lookup_members(r.drop_first(), k));
                assert(lookup_members(b, k) == lookup_members(b.drop_first(), k));
                assert(lookup_members(o, k) == lookup_members(o.drop_first(), k));
            }
        }
    }
}

/// Merging two well-formed documents yields a well-formed document.
pub proof fn lemma_merge_wf(base: DocV, overlay: DocV)
    requires
        docv_wf(base),
        docv_wf(overlay),
    ensures
        docv_wf(merge_docv(base, overlay)),
    decreases overlay, 0nat,
{
    match (base, overlay) {
        (DocV::Obj(bm), DocV::Obj(om)) => {
            lemma_merge_members_wf(bm, om);
        },
        _ => {},
    }
}

pub proof fn lemma_merge_members_wf(b: Seq<(Seq<char>, DocV)>, o: Seq<(Seq<char>, DocV)>)
    requires
        members_sorted(b),
        members_sorted(o),
        member_values_wf(b),
        member_values_wf(o),
    ensures
        members_sorted(merge_members(b, o)),
        member_values_wf(merge_members(b, o)),
    decreases o, b.len(),
{
    lemma_merge_members_sorted(b, o);
    let r = merge_members(b, o);
    if b.len() == 0 || o.len() == 0 {
    } else {
        lemma_sorted_tail(b);
        lemma_sorted_tail(o);
        let b0 = b.first().0;
        let o0 = o.first().0;
        if lex_lt(b0, o0) {
            lemma_merge_members_wf(b.drop_first(), o);
            let tail = merge_members(b.drop_first(), o);
            assert(r.drop_first() =~= tail);
            assert(r.first() == b.first());
        } else if lex_lt(o0, b0) {
            lemma_merge_members_wf(b, o.drop_first());
            let tail = merge_members(b, o.drop_first());
            assert(r.drop_first() =~= tail);
            assert(r.first() == o.first());
        } else {
            lemma_merge_members_wf(b.drop_first(), o.drop_first());
            let tail = merge_members(b.drop_first(), o.drop_first());
            lemma_merge_wf(b.first().1, o.first().1);
            assert(r.drop_first() =~= tail);
            assert(r.first().1 == merge_docv(b.first().1, o.first().1));
        }
    }
}

pub proof fn lemma_docs_view_snoc(items: Seq<Doc>, d: Doc)
    ensures
        docs_view(items.push(d)) == docs_view(items).push(doc_view(d)),
    decreases items.len(),
{
    let full = items.push(d);
    if items.len() == 0 {
        assert(full.drop_first() =~= items);
        assert(full.first() == d);
        assert(docs_view(full) =~= docs_view(items).push(doc_view(d)));
    } else {
        assert(full.first() == items.first());
        assert(full.drop_first() =~= items.drop_first().push(d));
        lemma_docs_view_snoc(items.drop_first(), d);
        assert(docs_view(full) =~= docs_view(items).push(doc_view(d)));
    }
}

pub proof fn lemma_members_view_snoc(members: Seq<(String, Doc)>, p: (String, Doc))
    ensures
        members_view(members.push(p)) == members_view(members).push((p.0@, doc_view(p.1))),
    decreases members.len(),
{
    let full = members.push(p);
    if members.len() == 0 {
        assert(full.drop_first() =~= members);
        assert(full.first() == p);
        assert(members_view(full) =~= members_view(members).push((p.0@, doc_view(p.1))));
    } else {
        assert(full.first() == members.first());
        assert(full.drop_first() =~= members.drop_first().push(p));
        lemma_members_view_snoc(members.drop_first(), p);
        assert(members_view(full) =~= members_view(members).push((p.0@, doc_view(p.1))));
    }
}

proof fn lemma_lex_lt_common_prefix(a: Seq<char>, b: Seq<char>, i: int)
    requires
        0 <= i,
        i <= a.len(),
        i <= b.len(),
        forall|q: int| 0 <= q < i ==> a[q] == b[q],
    ensures
        lex_lt(a, b) == lex_lt(a.skip(i), b.skip(i)),
    decreases i,
{
    if i == 0 {
        assert(a.skip(0) =~= a);
        assert(b.skip(0) =~= b);
    } else {
        assert(a.first() == b.first());
        assert(forall|q: int|
            0 <= q < i - 1 ==> #[trigger] a.drop_first()[q] == b.drop_first()[q]);
        lemma_lex_lt_common_prefix(a.drop_first(), b.drop_first(), i - 1);
        assert(a.drop_first().skip(i - 1) =~= a.skip(i));
        assert(b.drop_first().skip(i - 1) =~= b.skip(i));
    }
}

/// Decides the key order [`lex_lt`] on two strings.
pub fn str_lex_lt(a: &str, b: &str) -> (r: bool)
    ensures
        r == lex_lt(a@, b@),
{
    let a_len = a.unicode_len();
    let b_len = b.unicode_len();
    let mut i: usize = 0;
    loop
        invariant
            i <= a_len,
            i <= b_len,
            a_len == a@.len(),
            b_len == b@.len(),
            forall|q: int| 0 <= q < i ==> a@[q] == b@[q],
        decreases b_len - i,
    {
        proof {
            lemma_lex_lt_common_prefix(a@, b@, i as int);
        }
        if i >= b_len {
            return false;
        }
        if i >= a_len {
            return true;
        }
        let ca = a.get_char(i);
        let cb = b.get_char(i);
        if ca != cb {
            proof {
                assert(a@.skip(i as int).first() == a@[i as int]);
                assert(b@.skip(i as int).first() == b@[i as int]);
            }
            return (ca as u32) < (cb as u32);
        }
        i += 1;
    }
}

/// Decides view equality of two strings.
pub fn str_eq(a: &str, b: &str) -> (r: bool)
    ensures
        r == (a@ == b@),
{
    let a_len = a.unicode_len();
    let b_len = b.unicode_len();
    if a_len != b_len {
        return false;
    }
    let mut i: usize = 0;
    while i < a_len
        invariant
            i <= a_len,
            a_len == a@.len(),
            a_len == b@.len(),
            forall|q: int| 0 <= q < i ==> a@[q] == b@[q],
        decreases a_len - i,
    {
        let ca = a.get_char(i);
        let cb = b.get_char(i);
        if ca != cb {
            return false;
        }
        i += 1;
    }
    proof {
        assert(a@ =~= b@);
    }
    true
}

impl Doc {
    /// A structural copy; the copy's model is the original's.
    pub fn deep_clone(&self) -> (r: Doc)
        ensures
            r@ == self@,
        decreases *self,
    {
        match self {
            Doc::Null => Doc::Null,
            Doc::Bool(b) => Doc::Bool(*b),
            Doc::Int(i) => Doc::Int(*i),
            Doc::Num(s) => Doc::Num(s.clone()),
            Doc::Str(s) => Doc::Str(s.clone()),
            Doc::Arr(items) => {
                let n = items.len();
                let mut out: Vec<Doc> = Vec::new();
                let mut idx: usize = 0;
                while idx < n
                    invariant
                        idx <= n,
                        n == items@.len(),
                        out@.len() == idx,
                        self is Arr,
                        items@ == self->Arr_0@,
                        docs_view(out@) == docs_view(items@.take(idx as int)),
                    decreases n - idx,
                {
                    proof {
                        assert(decreases_to!(*self => self->Arr_0));
                        assert(decreases_to!(self->Arr_0 => self->Arr_0@));
                        assert(decreases_to!(self->Arr_0@ => self->Arr_0@[idx as int]));
                    }
                    let c = items[idx].deep_clone();
                    proof {
                        lemma_docs_view_snoc(items@.take(idx as int), items@[idx as int]);
                        lemma_docs_view_snoc(out@, c);
                        assert(items@.take(idx as int).push(items@[idx as int]) =~= items@.take(
                            idx as int + 1,
                        ));
                    }
                    out.push(c);
                    idx += 1;
                }
                proof {
                    assert(items@.take(n as int) =~= items@);
                }
                Doc::Arr(out)
            },
            Doc::Obj(members) => {
                let n = members.len();
                let mut out: Vec<(String, Doc)> = Vec::new();
                let mut idx: usize = 0;
                while idx < n
                    invariant
                        idx <= n,
                        n == members@.len(),
                        out@.len() == idx,
                        self is Obj,
                        members@ == self->Obj_0@,
                        members_view(out@) == members_view(members@.take(idx as int)),
                    decreases n - idx,
                {
                    proof {
                        assert(decreases_to!(*self => self->Obj_0));
                        assert(decreases_to!(self->Obj_0 => self->Obj_0@));
                        assert(decreases_to!(self->Obj_0@ => self->Obj_0@[idx as int]));
                        assert(decreases_to!(self->Obj_0@[idx as int] => self->Obj_0@[idx
                            as int].1));
                    }
                    let k = members[idx].0.clone();
                    let v = members[idx].1.deep_clone();
                    proof {
                        lemma_members_view_snoc(members@.take(idx as int), members@[idx as int]);
                        lemma_members_view_snoc(out@, (k, v));
                        assert(members@.take(idx as int).push(members@[idx as int])
                            =~= members@.take(idx as int + 1));
                    }
                    out.push((k, v));
                    idx += 1;
                }
                proof {
                    assert(members@.take(n as int) =~= members@);
                }
                Doc::Obj(out)
            },
        }
    }
}

proof fn lemma_insert_member_at(ms: Seq<(Seq<char>, DocV)>, k: Seq<char>, v: DocV, i: int)
    requires
        0 <= i <= ms.len(),
        forall|q: int| 0 <= q < i ==> lex_lt(#[trigger] ms[q].0, k),
        i < ms.len() ==> !lex_lt(ms[i].0, k),
    ensures
        insert_member(ms, k, v) == (if i < ms.len() && ms[i].0 == k {
            ms.take(i) + seq![(k, v)] + ms.skip(i + 1)
        } else {
            ms.take(i) + seq![(k, v)] + ms.skip(i)
        }),
    decreases i,
{
    if i == 0 {
        if ms.len() == 0 {
            assert(insert_member(ms, k, v) =~= ms.take(0) + seq![(k, v)] + ms.skip(0));
        } else if lex_lt(k, ms.first().0) {
            lemma_lex_lt_asym(k, ms.first().0);
            assert(insert_member(ms, k, v) =~= ms.take(0) + seq![(k, v)] + ms.skip(0));
        } else {
            lemma_lex_lt_connected(ms.first().0, k);
            assert(ms.first().0 == k);
            assert(ms.drop_first() =~= ms.skip(1));
            assert(insert_member(ms, k, v) =~= ms.take(0) + seq![(k, v)] + ms.skip(1));
        }
    } else {
        assert(lex_lt(ms[0].0, k));
        lemma_lex_lt_asym(ms[0].0, k);
        assert(forall|q: int|
            0 <= q < i - 1 ==> lex_lt(#[trigger] ms.drop_first()[q].0, k));
        lemma_insert_member_at(ms.drop_first(), k, v, i - 1);
        if i < ms.len() && ms[i].0 == k {
            assert(ms.drop_first()[i - 1].0 == k);
            assert(seq![ms.first()] + (ms.drop_first().take(i - 1) + seq![(k, v)]
                + ms.drop_first().skip(i)) =~= ms.take(i) + seq![(k, v)] + ms.skip(i + 1));
        } else {
            assert(i - 1 < ms.drop_first().len() ==> ms.drop_first()[i - 1].0 != k);
            assert(seq![ms.first()] + (ms.drop_first().take(i - 1) + seq![(k, v)]
                + ms.drop_first().skip(i - 1)) =~= ms.take(i) + seq![(k, v)] + ms.skip(i));
        }
    }
}

proof fn lemma_members_view_pointwise(a: Seq<(String, Doc)>, target: Seq<(Seq<char>, DocV)>)
    requires
        target.len() == a.len(),
        forall|q: int| 0 <= q < a.len() ==> #[trigger] target[q] == (a[q].0@, doc_view(a[q].1)),
    ensures
        members_view(a) == target,
{
    lemma_members_view_len(a);
    assert forall|q: int| 0 <= q < a.len() implies members_view(a)[q] == target[q] by {
        lemma_members_view_index(a, q);
    }
    assert(members_view(a) =~= target);
}

proof fn lemma_insert_wf(ms: Seq<(Seq<char>, DocV)>, k: Seq<char>, v: DocV)
    requires
        member_values_wf(ms),
        docv_wf(v),
    ensures
        member_values_wf(insert_member(ms, k, v)),
    decreases ms.len(),
{
    reveal_with_fuel(member_values_wf, 2);
    if ms.len() == 0 {
        assert(insert_member(ms, k, v).drop_first() =~= ms);
    } else if lex_lt(k, ms.first().0) {
        assert((seq![(k, v)] + ms).drop_first() =~= ms);
        assert((seq![(k, v)] + ms).first() == (k, v));
    } else if k == ms.first().0 {
        assert((seq![(k, v)] + ms.drop_first()).drop_first() =~= ms.drop_first());
        assert((seq![(k, v)] + ms.drop_first()).first() == (k, v));
    } else {
        lemma_insert_wf(ms.drop_first(), k, v);
        let tail = insert_member(ms.drop_first(), k, v);
        assert((seq![ms.first()] + tail).drop_first() =~= tail);
        assert((seq![ms.first()] + tail).first() == ms.first());
    }
}

impl Doc {
    /// An empty object document.
    pub fn empty_object() -> (r: Doc)
        ensures
            r@ == DocV::Obj(Seq::empty()),
            docv_wf(r@),
    {
        let v: Vec<(String, Doc)> = Vec::new();
        proof {
            assert(members_view(v@) =~= Seq::<(Seq<char>, DocV)>::empty());
        }
        Doc::Obj(v)
    }

    /// Insert the member `key: value` into an object, replacing an existing
    /// member with the same key, and keeping the canonical key order.
    pub fn set(self, key: &str, value: Doc) -> (r: Doc)
        requires
            self@ is Obj,
        ensures
            r@ == DocV::Obj(insert_member(self@->Obj_0, key@, value@)),
            members_sorted(self@->Obj_0) ==> members_sorted(r@->Obj_0),
            docv_wf(self@) && docv_wf(value@) ==> docv_wf(r@),
    {
        let ghost valv = value@;
        match self {
            Doc::Obj(mut members) => {
                let ghost orig = members@;
                let ghost mv = members_view(members@);
                proof {
                    lemma_members_view_len(members@);
                }
                let n = members.len();
                let mut pos: usize = 0;
                while pos < n && str_lex_lt(members[pos].0.as_str(), key)
                    invariant
                        pos <= n,
                        n == members@.len(),
                        members@ == orig,
                        mv == members_view(members@),
                        mv.len() == n,
                        forall|q: int| 0 <= q < pos ==> lex_lt(#[trigger] mv[q].0, key@),
                    decreases n - pos,
                {
                    proof {
                        lemma_members_view_index(members@, pos as int);
                    }
                    pos += 1;
                }
                proof {
                    if pos < n {
                        lemma_members_view_index(members@, pos as int);
                    }
                }
                let replace = pos < n && str_eq(members[pos].0.as_str(), key);
                proof {
                    lemma_insert_member_at(mv, key@, valv, pos as int);
                }
                let pair = (String::from_str(key), value);
                if replace {
                    let ghost tgt = mv.take(pos as int) + seq![(key@, valv)] + mv.skip(
                        pos as int + 1,
                    );
                    members.set(pos, pair);
                    proof {
                        assert forall|q: int| 0 <= q < members@.len() implies #[trigger] tgt[q] == (
                        members@[q].0@, doc_view(members@[q].1)) by {
                            lemma_members_view_index(orig, q);
                            if q != pos as int {
                                assert(members@[q] == orig[q]);
                            }
                        }
                        lemma_members_view_pointwise(members@, tgt);
                    }
                } else if pos < n {
                    let ghost tgt = mv.take(pos as int) + seq![(key@, valv)] + mv.skip(pos as int);
                    members.insert(pos, pair);
                    proof {
                        assert(members@ =~= orig.take(pos as int) + seq![pair] + orig.skip(
                            pos as int,
                        ));
                        assert forall|q: int| 0 <= q < members@.len() implies #[trigger] tgt[q] == (
                        members@[q].0@, doc_view(members@[q].1)) by {
                            if q < pos as int {
                                lemma_members_view_index(orig, q);
                                assert(members@[q] == orig[q]);
                            } else if q == pos as int {
                                assert(members@[q] == pair);
                            } else {
                                lemma_members_view_index(orig, q - 1);
                                assert(members@[q] == orig[q - 1]);
                                assert(tgt[q] == mv[q - 1]);
                            }
                        }
                        lemma_members_view_pointwise(members@, tgt);
                    }
                } else {
                    members.push(pair);
                    proof {
                        lemma_members_view_snoc(orig, pair);
                        assert(members_view(members@) =~= mv.take(pos as int) + seq![(key@, valv)]
                            + mv.skip(pos as int));
                    }
                }
                proof {
                    if members_sorted(mv) {
                        lemma_insert_member_sorted(mv, key@, valv);
                    }
                    if docv_wf(DocV::Obj(mv)) && docv_wf(valv) {
                        lemma_insert_member_sorted(mv, key@, valv);
                        lemma_insert_wf(mv, key@, valv);
                    }
                }
                Doc::Obj(members)
            },
            _ => {
                proof {
                    assert(false);
                }
                self
            },
        }
    }

    /// Whether the top level of an object document carries `key`.
    pub fn has_key(&self, key: &str) -> (r: bool)
        requires
            self@ is Obj,
        ensures
            r == has_member(self@->Obj_0, key@),
    {
        match self {
            Doc::Obj(members) => {
                let ghost mv = members_view(members@);
                proof {
                    assert(self@ == DocV::Obj(mv));
                    lemma_members_view_len(members@);
                    lemma_has_member_exists(mv, key@);
                }
                let n = members.len();
                let mut i: usize = 0;
                while i < n
                    invariant
                        i <= n,
                        n == members@.len(),
                        mv == members_view(members@),
                        mv.len() == n,
                        self@ == DocV::Obj(mv),
                        forall|q: int| 0 <= q < i ==> #[trigger] mv[q].0 != key@,
                    decreases n - i,
                {
                    proof {
                        lemma_members_view_index(members@, i as int);
                    }
                    if str_eq(members[i].0.as_str(), key) {
                        proof {
                            assert(mv[i as int].0 == key@);
                            lemma_has_member_exists(mv, key@);
                            assert(has_member(mv, key@));
                        }
                        return true;
                    }
                    i += 1;
                }
                proof {
                    assert(!has_member(mv, key@));
                }
                false
            },
            _ => {
                proof {
                    assert(false);
                }
                false
            },
        }
    }
}

/// The deep merge of two documents, overlay over base: where both sides are
/// objects their members merge key by key, recursively; anywhere else the
/// overlay's value replaces the base's. Canonical shape is preserved.
pub fn merge(base: &Doc, overlay: &Doc) -> (r: Doc)
    ensures
        r@ == merge_docv(base@, overlay@),
        docv_wf(base@) && docv_wf(overlay@) ==> docv_wf(r@),
    decreases *overlay,
{
    proof {
        if docv_wf(base@) && docv_wf(overlay@) {
            lemma_merge_wf(base@, overlay@);
        }
    }
    match (base, overlay) {
        (Doc::Obj(bm), Doc::Obj(om)) => {
            let ghost bv = members_view(bm@);
            let ghost ov = members_view(om@);
            proof {
                lemma_members_view_len(bm@);
                lemma_members_view_len(om@);
                assert(base@ == DocV::Obj(bv));
                assert(overlay@ == DocV::Obj(ov));
            }
            let bn = bm.len();
            let on = om.len();
            let mut out: Vec<(String, Doc)> = Vec::new();
            let mut i: usize = 0;
            let mut j: usize = 0;
            proof {
                assert(members_view(out@) =~= Seq::<(Seq<char>, DocV)>::empty());
                assert(bv.skip(0) =~= bv);
                assert(ov.skip(0) =~= ov);
                assert(members_view(out@) + merge_members(bv, ov) =~= merge_members(bv, ov));
            }
            while i < bn || j < on
                invariant
                    i <= bn,
                    j <= on,
                    bn == bm@.len(),
                    on == om@.len(),
                    base is Obj,
                    overlay is Obj,
                    bm@ == base->Obj_0@,
                    om@ == overlay->Obj_0@,
                    bv == members_view(bm@),
                    ov == members_view(om@),
                    bv.len() == bn,
                    ov.len() == on,
                    members_view(out@) + merge_members(bv.skip(i as int), ov.skip(j as int))
                        == merge_members(bv, ov),
                decreases bn - i + on - j,
            {
                let ghost bs = bv.skip(i as int);
                let ghost os = ov.skip(j as int);
                let ghost out0 = members_view(out@);
                proof {
                    if i < bn {
                        lemma_members_view_index(bm@, i as int);
                        assert(bs.first() == bv[i as int]);
                        assert(bs.drop_first() =~= bv.skip(i as int + 1));
                    }
                    if j < on {
                        lemma_members_view_index(om@, j as int);
                        assert(os.first() == ov[j as int]);
                        assert(os.drop_first() =~= ov.skip(j as int + 1));
                    }
                }
                if j >= on {
                    let bp = &bm[i];
                    let k = bp.0.clone();
                    let v = bp.1.deep_clone();
                    proof {
                        assert(os.len() == 0);
                        assert((k@, doc_view(v)) == bv[i as int]);
                        lemma_members_view_snoc(out@, (k, v));
                        assert(merge_members(bs, os) == bs);
                        assert(merge_members(bs.drop_first(), os) =~= bs.drop_first());
                        assert(out0.push(bv[i as int]) + bv.skip(i as int + 1) =~= out0 + bs);
                    }
                    out.push((k, v));
                    i += 1;
                } else if i >= bn {
                    let op = &om[j];
                    let k = op.0.clone();
                    let v = op.1.deep_clone();
                    proof {
                        assert(bs.len() == 0);
                        assert((k@, doc_view(v)) == ov[j as int]);
                        lemma_members_view_snoc(out@, (k, v));
                        assert(merge_members(bs, os) == os);
                        assert(merge_members(bs, os.drop_first()) =~= os.drop_first());
                        assert(out0.push(ov[j as int]) + ov.skip(j as int + 1) =~= out0 + os);
                    }
                    out.push((k, v));
                    j += 1;
                } else {
                    let b_first = str_lex_lt(bm[i].0.as_str(), om[j].0.as_str());
                    let o_first = if b_first {
                        false
                    } else {
                        str_lex_lt(om[j].0.as_str(), bm[i].0.as_str())
                    };
                    if b_first {
                        let bp = &bm[i];
                        let k = bp.0.clone();
                        let v = bp.1.deep_clone();
                        proof {
                            assert(lex_lt(bs.first().0, os.first().0));
                            assert((k@, doc_view(v)) == bv[i as int]);
                            lemma_members_view_snoc(out@, (k, v));
                            assert(merge_members(bs, os) == seq![bs.first()] + merge_members(
                                bs.drop_first(),
                                os,
                            ));
                            assert(out0.push(bv[i as int]) + merge_members(
                                bv.skip(i as int + 1),
                                os,
                            ) =~= out0 + merge_members(bs, os));
                        }
                        out.push((k, v));
                        i += 1;
                    } else if o_first {
                        let op = &om[j];
                        let k = op.0.clone();
                        let v = op.1.deep_clone();
                        proof {
                            assert(lex_lt(os.first().0, bs.first().0));
                            assert((k@, doc_view(v)) == ov[j as int]);
                            lemma_members_view_snoc(out@, (k, v));
                            assert(merge_members(bs, os) == seq![os.first()] + merge_members(
                                bs,
                                os.drop_first(),
                            ));
                            assert(out0.push(ov[j as int]) + merge_members(
                                bs,
                                ov.skip(j as int + 1),
                            ) =~= out0 + merge_members(bs, os));
                        }
                        out.push((k, v));
                        j += 1;
                    } else {
                        proof {
                            lemma_lex_lt_connected(bs.first().0, os.first().0);
                            assert(decreases_to!(*overlay => overlay->Obj_0));
                            assert(decreases_to!(overlay->Obj_0 => overlay->Obj_0@));
                            assert(decreases_to!(overlay->Obj_0@ => overlay->Obj_0@[j as int]));
                            assert(decreases_to!(overlay->Obj_0@[j as int] => overlay->Obj_0@[j
                                as int].1));
                        }
                        let v = merge(&bm[i].1, &om[j].1);
                        let op = &om[j];
                        let k = op.0.clone();
                        proof {
                            assert(doc_view(v) == merge_docv(bs.first().1, os.first().1));
                            assert((k@, doc_view(v)) == (os.first().0, merge_docv(
                                bs.first().1,
                                os.first().1,
                            )));
                            lemma_members_view_snoc(out@, (k, v));
                            assert(merge_members(bs, os) == seq![
                                (os.first().0, merge_docv(bs.first().1, os.first().1)),
                            ] + merge_members(bs.drop_first(), os.drop_first()));
                            assert(out0.push((os.first().0, merge_docv(bs.first().1, os.first().1)))
                                + merge_members(bv.skip(i as int + 1), ov.skip(j as int + 1)) =~= out0
                                + merge_members(bs, os));
                        }
                        out.push((k, v));
                        i += 1;
                        j += 1;
                    }
                }
            }
            proof {
                assert(bv.skip(bn as int) =~= Seq::<(Seq<char>, DocV)>::empty());
                assert(ov.skip(on as int) =~= Seq::<(Seq<char>, DocV)>::empty());
                assert(merge_members(bv.skip(bn as int), ov.skip(on as int)).len() == 0);
                assert(members_view(out@) =~= merge_members(bv, ov));
            }
            Doc::Obj(out)
        },
        _ => {
            let r = overlay.deep_clone();
            proof {
                assert(merge_docv(base@, overlay@) == overlay@);
            }
            r
        },
    }
}

/// Law of merge dominance: for canonical objects, the merge holds the
/// overlay's value at every key the overlay carries (recursively merged
/// where both sides carry objects), and preserves the base's value at every
/// key the overlay does not touch; a key of neither side is absent.
pub proof fn lemma_merge_dominance(base: DocV, overlay: DocV, k: Seq<char>)
    requires
        base is Obj,
        overlay is Obj,
        docv_wf(base),
        docv_wf(overlay),
    ensures
        lookup_members(merge_docv(base, overlay)->Obj_0, k) == (match (
            lookup_members(base->Obj_0, k),
            lookup_members(overlay->Obj_0, k),
        ) {
            (Some(bv), Some(ov)) => Some(merge_docv(bv, ov)),
            (None, Some(ov)) => Some(ov),
            (Some(bv), None) => Some(bv),
            (None, None) => None::<DocV>,
        }),
{
    lemma_merge_members_lookup(base->Obj_0, overlay->Obj_0, k);
}


pub open spec fn is_digit_char(c: char) -> bool {
    48 <= (c as u32) < 58
}

/// The index just past the run of digits starting at `i`.
pub open spec fn digits_end(s: Seq<char>, i: int) -> int
    decreases s.len() - i,
{
    if i < s.len() && is_digit_char(s[i]) {
        digits_end(s, i + 1)
    } else {
        i
    }
}

/// A well-formed JSON number literal: an optional minus sign, an integer
/// part without a leading zero, then an optional fraction and an optional
/// exponent.
pub open spec fn num_lit(s: Seq<char>) -> bool {
    let i = if s.len() > 0 && s[0] == '-' {
        1int
    } else {
        0int
    };
    if i < s.len() && is_digit_char(s[i]) {
        let ie = if s[i] == '0' {
            i + 1
        } else {
            digits_end(s, i)
        };
        let fe = if ie < s.len() && s[ie] == '.' {
            if ie + 1 < s.len() && is_digit_char(s[ie + 1]) {
                digits_end(s, ie + 1)
            } else {
                -1int
            }
        } else {
            ie
        };
        if fe >= 0 {
            let ee = if fe < s.len() && (s[fe] == 'e' || s[fe] == 'E') {
                let j = if fe + 1 < s.len() && (s[fe + 1] == '+' || s[fe + 1] == '-') {
                    fe + 2
                } else {
                    fe + 1
                };
                if j < s.len() && is_digit_char(s[j]) {
                    digits_end(s, j)
                } else {
                    -1int
                }
            } else {
                fe
            };
            ee == s.len()
        } else {
            false
        }
    } else {
        false
    }
}

proof fn lemma_digits_end_bounds(s: Seq<char>, i: int)
    requires
        0 <= i <= s.len(),
    ensures
        i <= digits_end(s, i) <= s.len(),
    decreases s.len() - i,
{
    if i < s.len() && is_digit_char(s[i]) {
        lemma_digits_end_bounds(s, i + 1);
    }
}

fn scan_digits(s: &str, from: usize) -> (r: usize)
    requires
        from <= s@.len(),
        s@.len() <= usize::MAX,
    ensures
        r as int == digits_end(s@, from as int),
        from <= r <= s@.len(),
{
    let n = s.unicode_len();
    let mut j = from;
    loop
        invariant
            from <= j <= n,
            n == s@.len(),
            digits_end(s@, from as int) == digits_end(s@, j as int),
        ensures
            from <= j <= n,
            digits_end(s@, from as int) == j as int,
        decreases n - j,
    {
        if j >= n {
            break ;
        }
        let c = s.get_char(j);
        let u = c as u32;
        if !(48 <= u && u < 58) {
            proof {
                assert(!is_digit_char(s@[j as int]));
            }
            break ;
        }
        j += 1;
    }
    j
}

/// Decides whether `s` is a well-formed JSON number literal.
pub fn is_number_literal(s: &str) -> (r: bool)
    ensures
        r == num_lit(s@),
{
    let n = s.unicode_len();
    let start: usize = if n > 0 && s.get_char(0) == '-' {
        1
    } else {
        0
    };
    if start >= n {
        return false;
    }
    let c0 = s.get_char(start);
    let u0 = c0 as u32;
    if !(48 <= u0 && u0 < 58) {
        return false;
    }
    let int_end: usize = if c0 == '0' {
        start + 1
    } else {
        scan_digits(s, start)
    };
    let mut pos = int_end;
    if pos < n && s.get_char(pos) == '.' {
        if pos + 1 >= n {
            return false;
        }
        let d = s.get_char(pos + 1) as u32;
        if !(48 <= d && d < 58) {
            return false;
        }
        pos = scan_digits(s, pos + 1);
    }
    if pos < n {
        let e = s.get_char(pos);
        if e == 'e' || e == 'E' {
            let mut j = pos + 1;
            if j < n {
                let sign = s.get_char(j);
                if sign == '+' || sign == '-' {
                    j += 1;
                }
            }
            if j >= n {
                return false;
            }
            let d = s.get_char(j) as u32;
            if !(48 <= d && d < 58) {
                return false;
            }
            pos = scan_digits(s, j);
        }
    }
    pos == n
}

impl Doc {
    /// A number document holding the number's decimal rendering verbatim;
    /// accepted exactly when the text is a well-formed JSON number literal.
    pub fn number(text: String) -> (r: Option<Doc>)
        ensures
            r matches Some(d) ==> d@ == DocV::Num(text@) && docv_wf(d@),
            r is Some <==> num_lit(text@),
    {
        if is_number_literal(text.as_str()) {
            Some(Doc::Num(text))
        } else {
            None
        }
    }
}

} // verus!
