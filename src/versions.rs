//! Version vectors: maps from device identifier to a logical counter, held
//! as JSON objects, merged by pointwise maximum so that no entry is ever
//! reduced.
use vstd::prelude::*;
use crate::json::{
    fields_of, lemma_lookup_presence, lemma_lookup_push, lemma_lookup_update_first, lookup, Json,
    JsonValue,
};
use crate::text::str_eq;

verus! {

/// The merged entry of one device: the larger counter where both sides hold
/// an integer; otherwise the client's entry where it has one, else the
/// server's.
pub open spec fn merged_entry(server: Option<Json>, client: Option<Json>) -> Option<Json> {
    match (server, client) {
        (Some(Json::Int(a)), Some(Json::Int(b))) => Some(Json::Int(if a >= b { a } else { b })),
        (s, None) => s,
        (_, c) => c,
    }
}

/// `r` is the pointwise merge of the version vectors `server` and `client`.
pub open spec fn merges(r: Json, server: Json, client: Json) -> bool {
    &&& r is Object
    &&& forall|key: Seq<char>|
        #[trigger] lookup(fields_of(r), key) == merged_entry(
            lookup(fields_of(server), key),
            lookup(fields_of(client), key),
        )
}

/// Whether a value is a JSON object.
pub open spec fn is_object(v: Json) -> bool {
    v is Object
}

spec fn members_view(out: Seq<(String, JsonValue)>) -> Seq<(Seq<char>, Json)> {
    Seq::new(out.len(), |j: int| (out[j].0@, out[j].1@))
}

/// Merges a client's version vector into the server's. Where either is not
/// an object, the client's is taken as it is.
pub fn merge_versions(server: &JsonValue, client: &JsonValue) -> (r: JsonValue)
    ensures
        is_object(server@) && is_object(client@) ==> merges(r@, server@, client@),
        !(is_object(server@) && is_object(client@)) ==> r@ == client@,
{
    let (sf, cf) = match (server, client) {
        (JsonValue::Object(sf), JsonValue::Object(cf)) => (sf, cf),
        _ => return client.duplicate(),
    };
    let ghost sv = fields_of(server@);
    let ghost cv = fields_of(client@);
    let start = server.duplicate();
    let mut out: Vec<(String, JsonValue)> = match start {
        JsonValue::Object(f) => f,
        _ => Vec::new(),
    };
    assert(members_view(out@) =~= sv);
    assert(cv.take(0) =~= Seq::<(Seq<char>, Json)>::empty());
    let mut i: usize = 0;
    while i < cf.len()
        invariant
            *client == JsonValue::Object(*cf),
            *server == JsonValue::Object(*sf),
            sv == fields_of(server@),
            cv == fields_of(client@),
            cv.len() == cf.len(),
            forall|q: int| 0 <= q < cf.len() ==> #[trigger] cv[q] == (cf[q].0@, cf[q].1@),
            i <= cf.len(),
            forall|key: Seq<char>|
                #[trigger] lookup(members_view(out@), key) == if lookup(cv.take(i as int), key) is Some {
                    merged_entry(lookup(sv, key), lookup(cv.take(i as int), key))
                } else {
                    lookup(sv, key)
                },
        decreases cf.len() - i,
    {
        let key = cf[i].0.as_str();
        let ghost k = cv[i as int].0;
        assert(cv.take(i + 1) =~= cv.take(i as int).push(cv[i as int]));
        proof {
            assert forall|x: Seq<char>| #[trigger] lookup(cv.take(i + 1), x) == match lookup(cv.take(i as int), x) {
                Some(v) => Some(v),
                None => if cv[i as int].0 == x {
                    Some(cv[i as int].1)
                } else {
                    None
                },
            } by {
                lemma_lookup_push(cv.take(i as int), cv[i as int], x);
            }
            lemma_lookup_presence(cv.take(i as int), k);
        }
        // a key the client repeats counts once, at its first member
        let mut seen = false;
        let mut q: usize = 0;
        while q < i
            invariant
                q <= i,
                i < cf.len(),
                cv.len() == cf.len(),
                forall|p: int| 0 <= p < cf.len() ==> #[trigger] cv[p] == (cf[p].0@, cf[p].1@),
                key@ == cv[i as int].0,
                seen == exists|p: int| 0 <= p < q && (#[trigger] cv[p]).0 == key@,
            decreases i - q,
        {
            assert(cv[q as int].0 == cf[q as int].0@);
            if str_eq(cf[q].0.as_str(), key) {
                seen = true;
            }
            q = q + 1;
        }
        assert(seen == exists|p: int| 0 <= p < i && (#[trigger] cv.take(i as int)[p]).0 == k) by {
            if seen {
                let p = choose|p: int| 0 <= p < i && (#[trigger] cv[p]).0 == key@;
                assert(cv.take(i as int)[p] == cv[p]);
            }
            if exists|p: int| 0 <= p < i && (#[trigger] cv.take(i as int)[p]).0 == k {
                let p = choose|p: int| 0 <= p < i && (#[trigger] cv.take(i as int)[p]).0 == k;
                assert(cv[p] == cv.take(i as int)[p]);
            }
        }
        let ghost before = members_view(out@);
        if seen {
            assert forall|x: Seq<char>| #[trigger] lookup(members_view(out@), x) == if lookup(cv.take(i + 1), x) is Some {
                merged_entry(lookup(sv, x), lookup(cv.take(i + 1), x))
            } else {
                lookup(sv, x)
            } by {
                assert(lookup(cv.take(i + 1), x) == lookup(cv.take(i as int), x));
            }
        } else {
            let ghost ov = members_view(out@);
            let mut j: usize = 0;
            let mut found = false;
            while j < out.len()
                invariant
                    j <= out.len(),
                    ov == members_view(out@),
                    key@ == k,
                    !found ==> forall|p: int| 0 <= p < j ==> (#[trigger] ov[p]).0 != k,
                    found ==> j < out.len() && ov[j as int].0 == k && forall|p: int| 0 <= p < j ==> (#[trigger] ov[p]).0 != k,
                ensures
                    !found ==> j == out.len() && forall|p: int| 0 <= p < j ==> (#[trigger] ov[p]).0 != k,
                    found ==> j < out.len() && ov[j as int].0 == k && forall|p: int| 0 <= p < j ==> (#[trigger] ov[p]).0 != k,
                decreases out.len() - j + (if found { 0int } else { 1int }),
            {
                if str_eq(out[j].0.as_str(), key) {
                    found = true;
                    break;
                }
                j = j + 1;
            }
            proof {
                lemma_lookup_presence(ov, k);
            }
            let incoming = &cf[i].1;
            if found {
                let merged = match (&out[j].1, incoming) {
                    (JsonValue::Int(a), JsonValue::Int(b)) => JsonValue::Int(if *a >= *b { *a } else { *b }),
                    _ => incoming.duplicate(),
                };
                proof {
                    assert(lookup(ov, k) == Some(ov[j as int].1)) by {
                        lemma_lookup_update_first(ov, j as int, ov[j as int].1, k);
                        assert(ov.update(j as int, (ov[j as int].0, ov[j as int].1)) =~= ov);
                    }
                }
                let ghost mv = merged@;
                out[j] = (key.to_owned(), merged);
                proof {
                    assert(members_view(out@) =~= ov.update(j as int, (k, mv)));
                    assert forall|x: Seq<char>| #[trigger] lookup(members_view(out@), x) == if x == k {
                        Some(mv)
                    } else {
                        lookup(ov, x)
                    } by {
                        lemma_lookup_update_first(ov, j as int, mv, x);
                    }
                    assert(lookup(sv, k) == lookup(ov, k));
                    assert(cv[i as int].1 == incoming@);
                    assert(Some(mv) == merged_entry(lookup(sv, k), Some(cv[i as int].1)));
                    assert forall|x: Seq<char>| #[trigger] lookup(members_view(out@), x) == if lookup(cv.take(i + 1), x) is Some {
                        merged_entry(lookup(sv, x), lookup(cv.take(i + 1), x))
                    } else {
                        lookup(sv, x)
                    } by {
                        if x == k {
                            assert(lookup(cv.take(i + 1), x) == Some(cv[i as int].1));
                        } else {
                            assert(lookup(cv.take(i + 1), x) == lookup(cv.take(i as int), x));
                        }
                    }
                }
            } else {
                let d = incoming.duplicate();
                let ghost dv = d@;
                out.push((key.to_owned(), d));
                proof {
                    assert(members_view(out@) =~= ov.push((k, dv)));
                    assert forall|x: Seq<char>| #[trigger] lookup(members_view(out@), x) == match lookup(ov, x) {
                        Some(v) => Some(v),
                        None => if k == x {
                            Some(dv)
                        } else {
                            None
                        },
                    } by {
                        lemma_lookup_push(ov, (k, dv), x);
                    }
                    assert(lookup(ov, k) is None);
                    assert(lookup(sv, k) == lookup(ov, k));
                    assert(cv[i as int].1 == dv);
                    assert forall|x: Seq<char>| #[trigger] lookup(members_view(out@), x) == if lookup(cv.take(i + 1), x) is Some {
                        merged_entry(lookup(sv, x), lookup(cv.take(i + 1), x))
                    } else {
                        lookup(sv, x)
                    } by {
                        if x == k {
                            assert(lookup(cv.take(i + 1), x) == Some(cv[i as int].1));
                            assert(lookup(members_view(out@), x) == Some(dv));
                        } else {
                            assert(lookup(cv.take(i + 1), x) == lookup(cv.take(i as int), x));
                            assert(lookup(members_view(out@), x) == lookup(ov, x));
                        }
                    }
                }
            }
        }
        i = i + 1;
    }
    assert(cv.take(cf.len() as int) =~= cv);
    let r = JsonValue::Object(out);
    assert(fields_of(r@) =~= members_view(out@));
    r
}

} // verus!
