use crate::document::{lemma_members_view_snoc, members_view, Doc, DocV};
use crate::timestamp::{rfc3339_of, rfc3339_short_plain, rfc3339_string, Timestamp};
use vstd::prelude::*;
use vstd::string::StringExecFns;

verus! {

/// Envelope objects are assembled member by member, in the envelope's fixed
/// field order; these helpers each append one field's members (none for an
/// absent optional field) and say exactly what they appended.
pub open spec fn opt_doc_view(o: Option<Doc>) -> Option<DocV> {
    match o {
        Some(d) => Some(d@),
        None => None,
    }
}

pub open spec fn str_member(k: Seq<char>, s: Seq<char>) -> Seq<(Seq<char>, DocV)> {
    seq![(k, DocV::Str(s))]
}

pub open spec fn opt_str_member(k: Seq<char>, v: Option<String>) -> Seq<(Seq<char>, DocV)> {
    match v {
        Some(s) => seq![(k, DocV::Str(s@))],
        None => Seq::empty(),
    }
}

pub open spec fn opt_doc_member(k: Seq<char>, v: Option<DocV>) -> Seq<(Seq<char>, DocV)> {
    match v {
        Some(d) => seq![(k, d)],
        None => Seq::empty(),
    }
}

/// A timestamp field that is always rendered: absent instants render null.
pub open spec fn time_member(k: Seq<char>, t: Option<Timestamp>) -> Seq<(Seq<char>, DocV)> {
    match t {
        Some(ts) => seq![(k, DocV::Str(rfc3339_of(ts.millis as int)))],
        None => seq![(k, DocV::Null)],
    }
}

/// A timestamp field that is omitted when absent.
pub open spec fn opt_time_member(k: Seq<char>, t: Option<Timestamp>) -> Seq<(Seq<char>, DocV)> {
    match t {
        Some(ts) => seq![(k, DocV::Str(rfc3339_of(ts.millis as int)))],
        None => Seq::empty(),
    }
}

pub fn push_str(v: &mut Vec<(String, Doc)>, k: &str, s: &String)
    ensures
        members_view(final(v)@) == members_view(old(v)@) + str_member(k@, s@),
{
    let pair = (String::from_str(k), Doc::Str(s.clone()));
    proof {
        lemma_members_view_snoc(v@, pair);
    }
    v.push(pair);
    proof {
        assert(members_view(v@) =~= members_view(old(v)@) + str_member(k@, s@));
    }
}

pub fn push_opt_str(v: &mut Vec<(String, Doc)>, k: &str, s: &Option<String>)
    ensures
        members_view(final(v)@) == members_view(old(v)@) + opt_str_member(k@, *s),
{
    match s {
        Some(st) => {
            let pair = (String::from_str(k), Doc::Str(st.clone()));
            proof {
                lemma_members_view_snoc(v@, pair);
            }
            v.push(pair);
            proof {
                assert(members_view(v@) =~= members_view(old(v)@) + opt_str_member(k@, *s));
            }
        },
        None => {
            proof {
                assert(members_view(v@) =~= members_view(old(v)@) + opt_str_member(k@, *s));
            }
        },
    }
}

pub fn push_doc(v: &mut Vec<(String, Doc)>, k: &str, d: Doc)
    ensures
        members_view(final(v)@) == members_view(old(v)@) + seq![(k@, d@)],
{
    let ghost dv = d@;
    let pair = (String::from_str(k), d);
    proof {
        lemma_members_view_snoc(v@, pair);
    }
    v.push(pair);
    proof {
        assert(members_view(v@) =~= members_view(old(v)@) + seq![(k@, dv)]);
    }
}

pub fn push_opt_doc(v: &mut Vec<(String, Doc)>, k: &str, d: &Option<Doc>)
    ensures
        members_view(final(v)@) == members_view(old(v)@) + opt_doc_member(k@, opt_doc_view(*d)),
{
    match d {
        Some(doc) => {
            let pair = (String::from_str(k), doc.deep_clone());
            proof {
                lemma_members_view_snoc(v@, pair);
            }
            v.push(pair);
            proof {
                assert(members_view(v@) =~= members_view(old(v)@) + opt_doc_member(
                    k@,
                    opt_doc_view(*d),
                ));
            }
        },
        None => {
            proof {
                assert(members_view(v@) =~= members_view(old(v)@) + opt_doc_member(
                    k@,
                    opt_doc_view(*d),
                ));
            }
        },
    }
}

pub fn push_time(v: &mut Vec<(String, Doc)>, k: &str, t: &Option<Timestamp>)
    requires
        t matches Some(ts) ==> ts.valid(),
    ensures
        members_view(final(v)@) == members_view(old(v)@) + time_member(k@, *t),
        t matches Some(ts) ==> rfc3339_short_plain(ts.millis as int),
{
    let value = match t {
        Some(ts) => Doc::Str(rfc3339_string(*ts)),
        None => Doc::Null,
    };
    let pair = (String::from_str(k), value);
    proof {
        lemma_members_view_snoc(v@, pair);
    }
    v.push(pair);
    proof {
        assert(members_view(v@) =~= members_view(old(v)@) + time_member(k@, *t));
    }
}

pub fn push_opt_time(v: &mut Vec<(String, Doc)>, k: &str, t: &Option<Timestamp>)
    requires
        t matches Some(ts) ==> ts.valid(),
    ensures
        members_view(final(v)@) == members_view(old(v)@) + opt_time_member(k@, *t),
        t matches Some(ts) ==> rfc3339_short_plain(ts.millis as int),
{
    match t {
        Some(ts) => {
            let pair = (String::from_str(k), Doc::Str(rfc3339_string(*ts)));
            proof {
                lemma_members_view_snoc(v@, pair);
            }
            v.push(pair);
            proof {
                assert(members_view(v@) =~= members_view(old(v)@) + opt_time_member(k@, *t));
            }
        },
        None => {
            proof {
                assert(members_view(v@) =~= members_view(old(v)@) + opt_time_member(k@, *t));
            }
        },
    }
}

} // verus!
