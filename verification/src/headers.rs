//! Hop-by-hop header stripping and header-map collection: lowercased
//! names, hop-by-hop names removed, later occurrences overwriting
//! earlier ones.

use vstd::prelude::*;
use crate::protocol::headers_view;
use crate::strutil::{str_eq, lower_chars, str_to_lower};
use vstd::pervasive::VecAdditionalExecFns;

verus! {

/// Whether a lowercased header name is hop-by-hop.
pub open spec fn is_hbh(s: Seq<char>) -> bool {
    ||| s == "connection"@
    ||| s == "keep-alive"@
    ||| s == "proxy-authenticate"@
    ||| s == "proxy-authorization"@
    ||| s == "te"@
    ||| s == "trailers"@
    ||| s == "transfer-encoding"@
    ||| s == "upgrade"@
}

/// Whether `name` is one of the hop-by-hop header names.
pub fn is_hop_by_hop(name: &str) -> (r: bool)
    ensures
        r == is_hbh(name@),
{
    str_eq(name, "connection") || str_eq(name, "keep-alive") || str_eq(name, "proxy-authenticate")
        || str_eq(name, "proxy-authorization") || str_eq(name, "te") || str_eq(name, "trailers")
        || str_eq(name, "transfer-encoding") || str_eq(name, "upgrade")
}

/// Binds `k` to `v` in a header list: the first entry holding `k` is
/// replaced, else the pair is appended.
pub open spec fn upsert(
    hs: Seq<(Seq<char>, Seq<char>)>,
    k: Seq<char>,
    v: Seq<char>,
) -> Seq<(Seq<char>, Seq<char>)>
    decreases hs.len(),
{
    if hs.len() == 0 {
        seq![(k, v)]
    } else if hs[0].0 == k {
        seq![(k, v)] + hs.drop_first()
    } else {
        seq![hs[0]] + upsert(hs.drop_first(), k, v)
    }
}

/// The header map collected from raw pairs, in order: names lowercased,
/// hop-by-hop names dropped, a repeated name overwriting its earlier
/// value.
pub open spec fn collect_fwd(hs: Seq<(Seq<char>, Seq<char>)>) -> Seq<(Seq<char>, Seq<char>)>
    decreases hs.len(),
{
    if hs.len() == 0 {
        Seq::empty()
    } else {
        let acc = collect_fwd(hs.drop_last());
        let p = hs.last();
        if is_hbh(lower_chars(p.0)) {
            acc
        } else {
            upsert(acc, lower_chars(p.0), p.1)
        }
    }
}

/// The header list with hop-by-hop names removed, order kept.
pub open spec fn drop_hbh(hs: Seq<(Seq<char>, Seq<char>)>) -> Seq<(Seq<char>, Seq<char>)>
    decreases hs.len(),
{
    if hs.len() == 0 {
        Seq::empty()
    } else {
        let r = drop_hbh(hs.drop_last());
        if is_hbh(hs.last().0) {
            r
        } else {
            r.push(hs.last())
        }
    }
}

/// An upsert at the first entry holding the key is an update in place.
proof fn lemma_upsert_at(hs: Seq<(Seq<char>, Seq<char>)>, i: int, k: Seq<char>, v: Seq<char>)
    requires
        0 <= i < hs.len(),
        hs[i].0 == k,
        forall|t: int| 0 <= t < i ==> hs[t].0 != k,
    ensures
        upsert(hs, k, v) == hs.update(i, (k, v)),
    decreases hs.len(),
{
    if i == 0 {
        assert(upsert(hs, k, v) =~= hs.update(0, (k, v)));
    } else {
        assert(hs.drop_first()[i - 1].0 == k);
        assert(forall|t: int| 0 <= t < i - 1 ==> hs.drop_first()[t].0 != k);
        lemma_upsert_at(hs.drop_first(), i - 1, k, v);
        assert(upsert(hs, k, v) =~= hs.update(i, (k, v)));
    }
}

/// An upsert of an absent key is an append.
proof fn lemma_upsert_absent(hs: Seq<(Seq<char>, Seq<char>)>, k: Seq<char>, v: Seq<char>)
    requires
        forall|t: int| 0 <= t < hs.len() ==> hs[t].0 != k,
    ensures
        upsert(hs, k, v) == hs.push((k, v)),
    decreases hs.len(),
{
    if hs.len() == 0 {
        assert(upsert(hs, k, v) =~= hs.push((k, v)));
    } else {
        assert(forall|t: int| 0 <= t < hs.drop_first().len() ==> hs.drop_first()[t].0 != k);
        lemma_upsert_absent(hs.drop_first(), k, v);
        assert(upsert(hs, k, v) =~= hs.push((k, v)));
    }
}

/// Replaces the first binding of `k` in `acc`, or appends it.
pub(crate) fn upsert_exec(acc: &mut Vec<(String, String)>, k: String, v: String)
    ensures
        headers_view(final(acc)@) == upsert(headers_view(old(acc)@), k@, v@),
{
    let mut i: usize = 0;
    while i < acc.len()
        invariant
            i <= acc@.len(),
            acc@ == old(acc)@,
            forall|t: int| 0 <= t < i ==> headers_view(old(acc)@)[t].0 != k@,
        decreases acc@.len() - i,
    {
        let ghost pre = headers_view(acc@);
        if str_eq(acc[i].0.as_str(), k.as_str()) {
            proof {
                assert(pre[i as int].0 == k@);
                lemma_upsert_at(pre, i as int, k@, v@);
            }
            acc.set(i, (k, v));
            proof {
                assert(headers_view(acc@) =~= pre.update(i as int, (k@, v@)));
            }
            return ;
        }
        proof {
            assert(headers_view(old(acc)@)[i as int].0 != k@);
        }
        i = i + 1;
    }
    let ghost pre = headers_view(acc@);
    proof {
        lemma_upsert_absent(pre, k@, v@);
    }
    acc.push((k, v));
    proof {
        assert(headers_view(acc@) =~= pre.push((k@, v@)));
    }
}

/// Collects raw header pairs into a forwarded header map: names
/// lowercased, hop-by-hop names dropped, later occurrences overwriting.
pub fn collect_headers(hs: &Vec<(String, String)>) -> (r: Vec<(String, String)>)
    ensures
        headers_view(r@) == collect_fwd(headers_view(hs@)),
{
    let ghost hv = headers_view(hs@);
    let mut acc: Vec<(String, String)> = Vec::new();
    let mut i: usize = 0;
    proof {
        assert(headers_view(acc@) =~= Seq::<(Seq<char>, Seq<char>)>::empty());
        assert(hv.take(0) =~= Seq::<(Seq<char>, Seq<char>)>::empty());
    }
    while i < hs.len()
        invariant
            i <= hs@.len(),
            hv == headers_view(hs@),
            headers_view(acc@) == collect_fwd(hv.take(i as int)),
        decreases hs@.len() - i,
    {
        let low = str_to_lower(hs[i].0.as_str());
        proof {
            assert(low@ == lower_chars(hv[i as int].0));
        }
        if !is_hop_by_hop(low.as_str()) {
            upsert_exec(&mut acc, low, hs[i].1.clone());
        }
        proof {
            assert(hv.take(i + 1).drop_last() =~= hv.take(i as int));
            assert(hv.take(i + 1).last() == hv[i as int]);
        }
        i = i + 1;
    }
    proof {
        assert(hv.take(hv.len() as int) =~= hv);
    }
    acc
}

/// Removes hop-by-hop names from a header list, keeping the order.
pub fn filter_hop_by_hop(hs: &Vec<(String, String)>) -> (r: Vec<(String, String)>)
    ensures
        headers_view(r@) == drop_hbh(headers_view(hs@)),
{
    let ghost hv = headers_view(hs@);
    let mut acc: Vec<(String, String)> = Vec::new();
    let mut i: usize = 0;
    proof {
        assert(headers_view(acc@) =~= Seq::<(Seq<char>, Seq<char>)>::empty());
        assert(hv.take(0) =~= Seq::<(Seq<char>, Seq<char>)>::empty());
    }
    while i < hs.len()
        invariant
            i <= hs@.len(),
            hv == headers_view(hs@),
            headers_view(acc@) == drop_hbh(hv.take(i as int)),
        decreases hs@.len() - i,
    {
        let ghost before = headers_view(acc@);
        if !is_hop_by_hop(hs[i].0.as_str()) {
            acc.push((hs[i].0.clone(), hs[i].1.clone()));
            proof {
                assert(headers_view(acc@) =~= before.push(hv[i as int]));
            }
        }
        proof {
            assert(hv.take(i + 1).drop_last() =~= hv.take(i as int));
            assert(hv.take(i + 1).last() == hv[i as int]);
        }
        i = i + 1;
    }
    proof {
        assert(hv.take(hv.len() as int) =~= hv);
    }
    acc
}

/// No entry of a collected header map is hop-by-hop.
pub open spec fn no_hbh(hs: Seq<(Seq<char>, Seq<char>)>) -> bool {
    forall|t: int| 0 <= t < hs.len() ==> !is_hbh(#[trigger] hs[t].0)
}

/// Upserting a clean key keeps a header list clean.
proof fn lemma_upsert_no_hbh(hs: Seq<(Seq<char>, Seq<char>)>, k: Seq<char>, v: Seq<char>)
    requires
        no_hbh(hs),
        !is_hbh(k),
    ensures
        no_hbh(upsert(hs, k, v)),
    decreases hs.len(),
{
    if hs.len() == 0 {
    } else if hs[0].0 == k {
        assert forall|t: int| 0 <= t < upsert(hs, k, v).len() implies !is_hbh(
            #[trigger] upsert(hs, k, v)[t].0,
        ) by {
            if t > 0 {
                assert(upsert(hs, k, v)[t] == hs[t]);
            }
        }
    } else {
        assert(no_hbh(hs.drop_first())) by {
            assert(forall|t: int|
                0 <= t < hs.drop_first().len() ==> hs.drop_first()[t] == hs[t + 1]);
        }
        lemma_upsert_no_hbh(hs.drop_first(), k, v);
        assert forall|t: int| 0 <= t < upsert(hs, k, v).len() implies !is_hbh(
            #[trigger] upsert(hs, k, v)[t].0,
        ) by {
            if t > 0 {
                assert(upsert(hs, k, v)[t] == upsert(hs.drop_first(), k, v)[t - 1]);
            }
        }
    }
}

/// A collected header map holds no hop-by-hop names.
proof fn lemma_collect_no_hbh(hs: Seq<(Seq<char>, Seq<char>)>)
    ensures
        no_hbh(collect_fwd(hs)),
    decreases hs.len(),
{
    if hs.len() > 0 {
        lemma_collect_no_hbh(hs.drop_last());
        let p = hs.last();
        if !is_hbh(lower_chars(p.0)) {
            lemma_upsert_no_hbh(collect_fwd(hs.drop_last()), lower_chars(p.0), p.1);
        }
    }
}

/// Stripping hop-by-hop names from a clean list changes nothing.
proof fn lemma_drop_hbh_clean(hs: Seq<(Seq<char>, Seq<char>)>)
    requires
        no_hbh(hs),
    ensures
        drop_hbh(hs) == hs,
    decreases hs.len(),
{
    if hs.len() > 0 {
        assert(no_hbh(hs.drop_last())) by {
            assert(forall|t: int|
                0 <= t < hs.drop_last().len() ==> hs.drop_last()[t] == hs[t]);
        }
        lemma_drop_hbh_clean(hs.drop_last());
        assert(!is_hbh(hs.last().0));
        assert(drop_hbh(hs) =~= hs);
    }
}

/// A response proxied through the tunnel reaches the ingress unchanged
/// but for hop-by-hop stripping: the client forwards the local server's
/// headers as `collect_fwd` of them, and the server-side strip of
/// hop-by-hop names then leaves that header map exactly as it is.
pub proof fn lemma_tunnel_headers_faithful(hs: Seq<(Seq<char>, Seq<char>)>)
    ensures
        drop_hbh(collect_fwd(hs)) == collect_fwd(hs),
{
    lemma_collect_no_hbh(hs);
    lemma_drop_hbh_clean(collect_fwd(hs));
}

} // verus!
