//! Structured payloads: the library's own JSON value, as carried by sync
//! changes and by invoice metadata, and its mathematical model.
use vstd::prelude::*;

verus! {

broadcast use vstd::std_specs::vec::axiom_vec_index_decreases;

/// The mathematical model of a JSON value.
pub enum Json {
    Null,
    Bool(bool),
    Int(int),
    Number(Seq<char>),
    Str(Seq<char>),
    Array(Seq<Json>),
    Object(Seq<(Seq<char>, Json)>),
}

/// A JSON value. Integers that fit an `i64` are held as such (version-vector
/// counters are); any other number is held as its decimal text.
#[derive(Debug)]
pub enum JsonValue {
    Null,
    Bool(bool),
    Int(i64),
    Number(String),
    Str(String),
    Array(Vec<JsonValue>),
    Object(Vec<(String, JsonValue)>),
}

impl JsonValue {
    pub open spec fn view(self) -> Json
        decreases self,
    {
        match self {
            JsonValue::Null => Json::Null,
            JsonValue::Bool(b) => Json::Bool(b),
            JsonValue::Int(n) => Json::Int(n as int),
            JsonValue::Number(t) => Json::Number(t@),
            JsonValue::Str(s) => Json::Str(s@),
            JsonValue::Array(items) => Json::Array(
                Seq::new(
                    items.len() as nat,
                    |i: int|
                        if 0 <= i < items.len() {
                            items[i].view()
                        } else {
                            Json::Null
                        },
                ),
            ),
            JsonValue::Object(fields) => Json::Object(
                Seq::new(
                    fields.len() as nat,
                    |i: int|
                        if 0 <= i < fields.len() {
                            (fields[i].0@, fields[i].1.view())
                        } else {
                            (Seq::empty(), Json::Null)
                        },
                ),
            ),
        }
    }
}

/// The elements of an array (empty for any other value).
pub open spec fn items_of(v: Json) -> Seq<Json> {
    match v {
        Json::Array(s) => s,
        _ => Seq::empty(),
    }
}

/// The members of an object (empty for any other value).
pub open spec fn fields_of(v: Json) -> Seq<(Seq<char>, Json)> {
    match v {
        Json::Object(s) => s,
        _ => Seq::empty(),
    }
}

/// The value stored under `key` among object members: the first member with
/// that key (an object holds each key once).
pub open spec fn lookup(fields: Seq<(Seq<char>, Json)>, key: Seq<char>) -> Option<Json>
    decreases fields.len(),
{
    if fields.len() == 0 {
        None
    } else if fields[0].0 == key {
        Some(fields[0].1)
    } else {
        lookup(fields.drop_first(), key)
    }
}

/// The member `key` of `v`, where `v` is an object that has one.
pub open spec fn member(v: Json, key: Seq<char>) -> Option<Json> {
    match v {
        Json::Object(fields) => lookup(fields, key),
        _ => None,
    }
}

/// The member `key` of `v`, where it is a string.
pub open spec fn member_str(v: Json, key: Seq<char>) -> Option<Seq<char>> {
    match member(v, key) {
        Some(Json::Str(s)) => Some(s),
        _ => None,
    }
}

/// The member `key` of `v`, where it is present and not null.
pub open spec fn member_value(v: Json, key: Seq<char>) -> Option<Json> {
    match member(v, key) {
        Some(Json::Null) => None,
        other => other,
    }
}

/// Looking up after appending a member: an earlier member with the key
/// still wins.
pub proof fn lemma_lookup_push(s: Seq<(Seq<char>, Json)>, m: (Seq<char>, Json), key: Seq<char>)
    ensures
        lookup(s.push(m), key) == match lookup(s, key) {
            Some(v) => Some(v),
            None => if m.0 == key {
                Some(m.1)
            } else {
                None
            },
        },
    decreases s.len(),
{
    if s.len() > 0 {
        assert(s.push(m).drop_first() =~= s.drop_first().push(m));
        lemma_lookup_push(s.drop_first(), m, key);
    } else {
        assert(s.push(m).drop_first() =~= s);
    }
}

/// A key that no member has is looked up as absent; one that a member has
/// is found.
pub proof fn lemma_lookup_presence(s: Seq<(Seq<char>, Json)>, key: Seq<char>)
    ensures
        lookup(s, key) is None <==> forall|q: int| 0 <= q < s.len() ==> (#[trigger] s[q]).0 != key,
    decreases s.len(),
{
    if s.len() > 0 {
        lemma_lookup_presence(s.drop_first(), key);
        if s[0].0 != key {
            assert forall|q: int| 1 <= q < s.len() && (#[trigger] s[q]).0 == key implies exists|p: int|
                0 <= p < s.drop_first().len() && s.drop_first()[p].0 == key by {
                assert(s.drop_first()[q - 1] == s[q]);
            }
            assert((forall|q: int| 0 <= q < s.drop_first().len() ==> (#[trigger] s.drop_first()[q]).0 != key)
                ==> (forall|q: int| 0 <= q < s.len() ==> (#[trigger] s[q]).0 != key)) by {
                if forall|q: int| 0 <= q < s.drop_first().len() ==> (#[trigger] s.drop_first()[q]).0 != key {
                    assert forall|q: int| 0 <= q < s.len() implies (#[trigger] s[q]).0 != key by {
                        if q > 0 {
                            assert(s.drop_first()[q - 1] == s[q]);
                        }
                    }
                }
            }
        }
    }
}

/// Looking up after replacing the value of the first member with key `k`.
pub proof fn lemma_lookup_update_first(s: Seq<(Seq<char>, Json)>, j: int, v: Json, key: Seq<char>)
    requires
        0 <= j < s.len(),
        forall|q: int| 0 <= q < j ==> (#[trigger] s[q]).0 != s[j].0,
    ensures
        lookup(s.update(j, (s[j].0, v)), key) == if key == s[j].0 {
            Some(v)
        } else {
            lookup(s, key)
        },
    decreases s.len(),
{
    let t = s.update(j, (s[j].0, v));
    if j > 0 {
        assert(t.drop_first() =~= s.drop_first().update(j - 1, (s[j].0, v)));
        assert forall|q: int| 0 <= q < j - 1 implies (#[trigger] s.drop_first()[q]).0 != s.drop_first()[j - 1].0 by {
            assert(s.drop_first()[q] == s[q + 1]);
        }
        lemma_lookup_update_first(s.drop_first(), j - 1, v, key);
    } else {
        assert(t.drop_first() =~= s.drop_first());
    }
}

/// Object members with every `key` member removed.
pub open spec fn without_key(fields: Seq<(Seq<char>, Json)>, key: Seq<char>) -> Seq<(Seq<char>, Json)>
    decreases fields.len(),
{
    if fields.len() == 0 {
        fields
    } else if fields.last().0 == key {
        without_key(fields.drop_last(), key)
    } else {
        without_key(fields.drop_last(), key).push(fields.last())
    }
}

/// `v` with member `key` set to `value` (replacing any it had); a value that
/// is not an object is left as it is.
pub open spec fn with_member(v: Json, key: Seq<char>, value: Json) -> Json {
    match v {
        Json::Object(fields) => Json::Object(without_key(fields, key).push((key, value))),
        _ => v,
    }
}

impl JsonValue {
    /// A deep copy of the value.
    pub fn duplicate(&self) -> (r: JsonValue)
        ensures
            r@ == self@,
        decreases self,
    {
        match self {
            JsonValue::Null => JsonValue::Null,
            JsonValue::Bool(b) => JsonValue::Bool(*b),
            JsonValue::Int(n) => JsonValue::Int(*n),
            JsonValue::Number(t) => JsonValue::Number(t.clone()),
            JsonValue::Str(s) => JsonValue::Str(s.clone()),
            JsonValue::Array(items) => {
                let ghost ma = self@;
                let mut out: Vec<JsonValue> = Vec::new();
                let mut i: usize = 0;
                while i < items.len()
                    invariant
                        *self == JsonValue::Array(*items),
                        ma == self@,
                        i <= items.len(),
                        out.len() == i,
                        forall|j: int| 0 <= j < i ==> (#[trigger] out[j])@ == items[j]@,
                    decreases items.len() - i,
                {
                    let d = items[i].duplicate();
                    out.push(d);
                    i = i + 1;
                }
                let r = JsonValue::Array(out);
                proof {
                    let a = items_of(r@);
                    let b = items_of(self@);
                    assert(a =~= b);
                }
                r
            },
            JsonValue::Object(fields) => {
                let ghost ma = self@;
                let mut out: Vec<(String, JsonValue)> = Vec::new();
                let mut i: usize = 0;
                while i < fields.len()
                    invariant
                        *self == JsonValue::Object(*fields),
                        ma == self@,
                        i <= fields.len(),
                        out.len() == i,
                        forall|j: int|
                            0 <= j < i ==> (#[trigger] out[j]).0@ == fields[j].0@ && out[j].1@
                                == fields[j].1@,
                    decreases fields.len() - i,
                {
                    let d = fields[i].1.duplicate();
                    out.push((fields[i].0.clone(), d));
                    i = i + 1;
                }
                let r = JsonValue::Object(out);
                proof {
                    let a = fields_of(r@);
                    let b = fields_of(self@);
                    assert(a =~= b);
                }
                r
            },
        }
    }

    /// Whether two values are the same JSON value (members compared in order).
    pub fn same_as(&self, other: &JsonValue) -> (r: bool)
        ensures
            r == (self@ == other@),
        decreases self,
    {
        match (self, other) {
            (JsonValue::Null, JsonValue::Null) => true,
            (JsonValue::Bool(a), JsonValue::Bool(b)) => *a == *b,
            (JsonValue::Int(a), JsonValue::Int(b)) => *a == *b,
            (JsonValue::Number(a), JsonValue::Number(b)) => crate::text::str_eq(a.as_str(), b.as_str()),
            (JsonValue::Str(a), JsonValue::Str(b)) => crate::text::str_eq(a.as_str(), b.as_str()),
            (JsonValue::Array(a), JsonValue::Array(b)) => {
                let ghost ma = self@;
                let ghost mb = other@;
                if a.len() != b.len() {
                    proof {
                        let sa = items_of(ma);
                        let sb = items_of(mb);
                        assert(sa.len() != sb.len());
                    }
                    return false;
                }
                let mut i: usize = 0;
                while i < a.len()
                    invariant
                        *self == JsonValue::Array(*a),
                        *other == JsonValue::Array(*b),
                        ma == self@,
                        mb == other@,
                        a.len() == b.len(),
                        i <= a.len(),
                        forall|j: int| 0 <= j < i ==> (#[trigger] a[j])@ == b[j]@,
                    decreases a.len() - i,
                {
                    if !a[i].same_as(&b[i]) {
                        proof {
                            let sa = items_of(ma);
                            let sb = items_of(mb);
                            assert(sa[i as int] != sb[i as int]);
                        }
                        return false;
                    }
                    i = i + 1;
                }
                proof {
                    let sa = items_of(ma);
                    let sb = items_of(mb);
                    assert(sa =~= sb);
                }
                true
            },
            (JsonValue::Object(a), JsonValue::Object(b)) => {
                let ghost ma = self@;
                let ghost mb = other@;
                if a.len() != b.len() {
                    proof {
                        let sa = fields_of(ma);
                        let sb = fields_of(mb);
                        assert(sa.len() != sb.len());
                    }
                    return false;
                }
                let mut i: usize = 0;
                while i < a.len()
                    invariant
                        *self == JsonValue::Object(*a),
                        *other == JsonValue::Object(*b),
                        ma == self@,
                        mb == other@,
                        a.len() == b.len(),
                        i <= a.len(),
                        forall|j: int|
                            0 <= j < i ==> (#[trigger] a[j]).0@ == b[j].0@ && a[j].1@ == b[j].1@,
                    decreases a.len() - i,
                {
                    if !crate::text::str_eq(a[i].0.as_str(), b[i].0.as_str()) || !a[i].1.same_as(&b[i].1) {
                        proof {
                            let sa = fields_of(ma);
                            let sb = fields_of(mb);
                            assert(sa[i as int] != sb[i as int]);
                        }
                        return false;
                    }
                    i = i + 1;
                }
                proof {
                    let sa = fields_of(ma);
                    let sb = fields_of(mb);
                    assert(sa =~= sb);
                }
                true
            },
            _ => false,
        }
    }

    /// The member `key` of this value, where it is an object that has one.
    pub fn get(&self, key: &str) -> (r: Option<&JsonValue>)
        ensures
            match r {
                Some(v) => member(self@, key@) == Some(v@),
                None => member(self@, key@).is_none(),
            },
    {
        match self {
            JsonValue::Object(fields) => {
                let ghost m = self@;
                let ghost ms = fields_of(m);
                let mut i: usize = 0;
                assert(ms.skip(0) =~= ms);
                while i < fields.len()
                    invariant
                        *self == JsonValue::Object(*fields),
                        i <= fields.len(),
                        m == self@,
                        ms == fields_of(m),
                        ms.len() == fields.len(),
                        forall|j: int| 0 <= j < fields.len() ==> #[trigger] ms[j] == (fields[j].0@, fields[j].1@),
                        lookup(ms, key@) == lookup(ms.skip(i as int), key@),
                    decreases fields.len() - i,
                {
                    assert(ms.skip(i as int).drop_first() =~= ms.skip(i + 1));
                    if crate::text::str_eq(fields[i].0.as_str(), key) {
                        assert(ms.skip(i as int)[0] == ms[i as int]);
                        return Some(&fields[i].1);
                    }
                    i = i + 1;
                }
                None
            },
            _ => None,
        }
    }

    /// The member `key` of this value, where it is a string.
    pub fn get_str(&self, key: &str) -> (r: Option<&String>)
        ensures
            match r {
                Some(s) => member_str(self@, key@) == Some(s@),
                None => member_str(self@, key@).is_none(),
            },
    {
        match self.get(key) {
            Some(JsonValue::Str(s)) => Some(s),
            _ => None,
        }
    }

    /// This value with member `key` set to `value`, where it is an object;
    /// a copy of it otherwise.
    pub fn put_member(&self, key: &str, value: JsonValue) -> (r: JsonValue)
        ensures
            r@ == with_member(self@, key@, value@),
    {
        match self {
            JsonValue::Object(fields) => {
                let ghost fv = fields_of(self@);
                let mut out: Vec<(String, JsonValue)> = Vec::new();
                let mut i: usize = 0;
                assert(fv.take(0) =~= Seq::<(Seq<char>, Json)>::empty());
                while i < fields.len()
                    invariant
                        *self == JsonValue::Object(*fields),
                        fv == fields_of(self@),
                        fv.len() == fields.len(),
                        i <= fields.len(),
                        forall|j: int| 0 <= j < fields.len() ==> #[trigger] fv[j] == (fields[j].0@, fields[j].1@),
                        Seq::new(out.len() as nat, |j: int| (out[j].0@, out[j].1@)) == without_key(
                            fv.take(i as int),
                            key@,
                        ),
                    decreases fields.len() - i,
                {
                    let ghost prev = Seq::new(out.len() as nat, |j: int| (out[j].0@, out[j].1@));
                    assert(fv.take(i + 1).drop_last() =~= fv.take(i as int));
                    assert(fv.take(i + 1).last() == fv[i as int]);
                    if !crate::text::str_eq(fields[i].0.as_str(), key) {
                        let d = fields[i].1.duplicate();
                        out.push((fields[i].0.clone(), d));
                        assert(Seq::new(out.len() as nat, |j: int| (out[j].0@, out[j].1@)) =~= prev.push(
                            fv[i as int],
                        ));
                    }
                    i = i + 1;
                }
                assert(fv.take(fields.len() as int) =~= fv);
                let ghost kept = Seq::new(out.len() as nat, |j: int| (out[j].0@, out[j].1@));
                let ghost before = out@;
                let k = key.to_owned();
                let ghost kv = (k, value);
                out.push((k, value));
                assert(out@[kept.len() as int] == kv);
                let r = JsonValue::Object(out);
                let ghost rf = fields_of(r@);
                assert(rf.len() == kept.len() + 1);
                assert forall|j: int| 0 <= j < kept.len() implies rf[j] == kept[j] by {
                    assert(out@[j] == before[j]);
                }
                assert(rf =~= kept.push((key@, value@)));
                r
            },
            _ => self.duplicate(),
        }
    }
}

} // verus!
