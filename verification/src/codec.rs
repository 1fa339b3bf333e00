//! Reading and writing object fields: lookup by key with typed
//! projections, and the building blocks every message codec shares.
use vstd::prelude::*;

use crate::dur::{spec_parse_dur, parse_dur, Dur};
use crate::json::{jview, jview_arr, jview_obj, GJson, Json};
use crate::text::{spec_parse_u64, spec_parse_i64, str_eq, string_of};

verus! {

broadcast use vstd::seq::group_seq_axioms;

/// The value under the first member named `key`, if any.
pub open spec fn glookup(fields: Seq<(Seq<char>, GJson)>, key: Seq<char>) -> Option<GJson>
    decreases fields.len(),
{
    if fields.len() == 0 {
        None
    } else if fields[0].0 == key {
        Some(fields[0].1)
    } else {
        glookup(fields.skip(1), key)
    }
}

pub proof fn lemma_glookup_skip(fields: Seq<(Seq<char>, GJson)>, key: Seq<char>, i: int)
    requires
        0 <= i <= fields.len(),
        forall|j: int| 0 <= j < i ==> (#[trigger] fields[j]).0 != key,
    ensures
        glookup(fields, key) == glookup(fields.skip(i), key),
    decreases i,
{
    if i > 0 {
        assert(fields[0].0 != key);
        assert(fields.len() >= 1);
        lemma_glookup_skip(fields.skip(1), key, i - 1);
        assert(fields.skip(1).skip(i - 1) =~= fields.skip(i));
    } else {
        assert(fields.skip(0) =~= fields);
    }
}

// ------------------------------------------------------------------
// Typed projections of a looked-up value.
// ------------------------------------------------------------------
pub open spec fn gj_str(o: Option<GJson>) -> Option<Seq<char>> {
    match o {
        Some(GJson::Str(s)) => Some(s),
        _ => None,
    }
}

pub open spec fn gj_u64(o: Option<GJson>) -> Option<u64> {
    match o {
        Some(GJson::Num(lx)) => spec_parse_u64(lx),
        _ => None,
    }
}

pub open spec fn gj_i64(o: Option<GJson>) -> Option<i64> {
    match o {
        Some(GJson::Num(lx)) => spec_parse_i64(lx),
        _ => None,
    }
}

pub open spec fn gj_u32(o: Option<GJson>) -> Option<u32> {
    match gj_u64(o) {
        Some(v) => if v <= u32::MAX {
            Some(v as u32)
        } else {
            None
        },
        None => None,
    }
}

pub open spec fn gj_i32(o: Option<GJson>) -> Option<i32> {
    match gj_i64(o) {
        Some(v) => if i32::MIN <= v <= i32::MAX {
            Some(v as i32)
        } else {
            None
        },
        None => None,
    }
}

pub open spec fn gj_bool(o: Option<GJson>) -> Option<bool> {
    match o {
        Some(GJson::Bool(b)) => Some(b),
        _ => None,
    }
}

/// Durations cross the wire as human-form strings.
pub open spec fn gj_dur(o: Option<GJson>) -> Option<Dur> {
    match o {
        Some(GJson::Str(s)) => spec_parse_dur(s),
        _ => None,
    }
}

pub open spec fn gj_arr(o: Option<GJson>) -> Option<Seq<GJson>> {
    match o {
        Some(GJson::Arr(elems)) => Some(elems),
        _ => None,
    }
}

pub open spec fn gj_obj(o: Option<GJson>) -> Option<Seq<(Seq<char>, GJson)>> {
    match o {
        Some(GJson::Obj(fields)) => Some(fields),
        _ => None,
    }
}

// ------------------------------------------------------------------
// Executable getters over a parsed object.
// ------------------------------------------------------------------
/// The member value under `key`, if the object has one.
pub fn get_val<'a>(obj: &'a Vec<(String, Json)>, key: &str) -> (r: Option<&'a Json>)
    ensures
        match r {
            Some(j) => glookup(jview_obj(*obj, 0), key@) == Some(jview(*j)),
            None => glookup(jview_obj(*obj, 0), key@) is None,
        },
{
    proof {
        crate::json::lemma_jview_obj(*obj, 0);
    }
    let ghost fields = jview_obj(*obj, 0);
    let mut i: usize = 0;
    while i < obj.len()
        invariant
            0 <= i <= obj@.len(),
            fields == jview_obj(*obj, 0),
            fields.len() == obj@.len(),
            forall|k: int| 0 <= k < fields.len() ==> #[trigger] fields[k] == (obj@[k].0@, jview(
                obj@[k].1,
            )),
            forall|j: int| 0 <= j < i ==> (#[trigger] fields[j]).0 != key@,
        decreases obj@.len() - i,
    {
        if str_eq(obj[i].0.as_str(), key) {
            proof {
                lemma_glookup_skip(fields, key@, i as int);
                assert(fields.skip(i as int)[0] == fields[i as int]);
                assert(fields.skip(i as int).len() > 0);
                assert(glookup(fields.skip(i as int), key@) == Some(fields[i as int].1));
            }
            return Some(&obj[i].1);
        }
        i = i + 1;
    }
    proof {
        lemma_glookup_skip(fields, key@, i as int);
        assert(fields.skip(i as int).len() == 0);
    }
    None
}

pub fn get_str(obj: &Vec<(String, Json)>, key: &str) -> (r: Option<String>)
    ensures
        match r {
            Some(s) => gj_str(glookup(jview_obj(*obj, 0), key@)) == Some(s@),
            None => gj_str(glookup(jview_obj(*obj, 0), key@)) is None,
        },
{
    match get_val(obj, key) {
        Some(Json::Str(s)) => Some(s.clone()),
        _ => None,
    }
}

pub fn get_u64(obj: &Vec<(String, Json)>, key: &str) -> (r: Option<u64>)
    ensures
        r == gj_u64(glookup(jview_obj(*obj, 0), key@)),
{
    match get_val(obj, key) {
        Some(Json::Num(lx)) => {
            let cs = crate::text::str_chars(lx.as_str());
            crate::text::parse_u64_chars(&cs)
        },
        _ => None,
    }
}

pub fn get_i64(obj: &Vec<(String, Json)>, key: &str) -> (r: Option<i64>)
    ensures
        r == gj_i64(glookup(jview_obj(*obj, 0), key@)),
{
    match get_val(obj, key) {
        Some(Json::Num(lx)) => {
            let cs = crate::text::str_chars(lx.as_str());
            crate::text::parse_i64_chars(&cs)
        },
        _ => None,
    }
}

pub fn get_u32(obj: &Vec<(String, Json)>, key: &str) -> (r: Option<u32>)
    ensures
        r == gj_u32(glookup(jview_obj(*obj, 0), key@)),
{
    match get_u64(obj, key) {
        Some(v) => if v <= u32::MAX as u64 {
            Some(v as u32)
        } else {
            None
        },
        None => None,
    }
}

pub fn get_i32(obj: &Vec<(String, Json)>, key: &str) -> (r: Option<i32>)
    ensures
        r == gj_i32(glookup(jview_obj(*obj, 0), key@)),
{
    match get_i64(obj, key) {
        Some(v) => if i32::MIN as i64 <= v && v <= i32::MAX as i64 {
            Some(v as i32)
        } else {
            None
        },
        None => None,
    }
}

pub fn get_bool(obj: &Vec<(String, Json)>, key: &str) -> (r: Option<bool>)
    ensures
        r == gj_bool(glookup(jview_obj(*obj, 0), key@)),
{
    match get_val(obj, key) {
        Some(Json::Bool(b)) => Some(*b),
        _ => None,
    }
}

pub fn get_dur(obj: &Vec<(String, Json)>, key: &str) -> (r: Option<Dur>)
    ensures
        r == gj_dur(glookup(jview_obj(*obj, 0), key@)),
{
    match get_val(obj, key) {
        Some(Json::Str(s)) => parse_dur(s.as_str()),
        _ => None,
    }
}

pub fn get_arr<'a>(obj: &'a Vec<(String, Json)>, key: &str) -> (r: Option<&'a Vec<Json>>)
    ensures
        match r {
            Some(v) => gj_arr(glookup(jview_obj(*obj, 0), key@)) == Some(jview_arr(*v, 0)),
            None => gj_arr(glookup(jview_obj(*obj, 0), key@)) is None,
        },
{
    match get_val(obj, key) {
        Some(Json::Arr(v)) => Some(v),
        _ => None,
    }
}

pub fn get_obj<'a>(obj: &'a Vec<(String, Json)>, key: &str) -> (r: Option<
    &'a Vec<(String, Json)>,
>)
    ensures
        match r {
            Some(v) => gj_obj(glookup(jview_obj(*obj, 0), key@)) == Some(jview_obj(*v, 0)),
            None => gj_obj(glookup(jview_obj(*obj, 0), key@)) is None,
        },
{
    match get_val(obj, key) {
        Some(Json::Obj(v)) => Some(v),
        _ => None,
    }
}

// ------------------------------------------------------------------
// Building an object.
// ------------------------------------------------------------------
pub proof fn lemma_jview_obj_push(
    v: Vec<(String, Json)>,
    w: Vec<(String, Json)>,
    kv: (String, Json),
)
    requires
        w@ == v@.push(kv),
    ensures
        jview_obj(w, 0) =~= jview_obj(v, 0).push((kv.0@, jview(kv.1))),
{
    crate::json::lemma_jview_obj(w, 0);
    crate::json::lemma_jview_obj(v, 0);
    let a = jview_obj(w, 0);
    let b = jview_obj(v, 0).push((kv.0@, jview(kv.1)));
    assert(a.len() == b.len());
    assert forall|k: int| 0 <= k < a.len() implies a[k] == b[k] by {
        if k < v@.len() {
            assert(w@[k] == v@[k]);
        } else {
            assert(w@[k] == kv);
        }
    }
}

pub proof fn lemma_jview_arr_push(v: Vec<Json>, w: Vec<Json>, j: Json)
    requires
        w@ == v@.push(j),
    ensures
        jview_arr(w, 0) =~= jview_arr(v, 0).push(jview(j)),
{
    crate::json::lemma_jview_arr(w, 0);
    crate::json::lemma_jview_arr(v, 0);
    let a = jview_arr(w, 0);
    let b = jview_arr(v, 0).push(jview(j));
    assert(a.len() == b.len());
    assert forall|k: int| 0 <= k < a.len() implies a[k] == b[k] by {
        if k < v@.len() {
            assert(w@[k] == v@[k]);
        } else {
            assert(w@[k] == j);
        }
    }
}

/// Append one member to an object under construction.
pub fn put(obj: &mut Vec<(String, Json)>, key: &str, val: Json)
    ensures
        jview_obj(*final(obj), 0) == jview_obj(*old(obj), 0).push((key@, val@)),
{
    let ghost v0 = *obj;
    let k = string_of(key);
    let ghost kg = k;
    let ghost vg = val;
    obj.push((k, val));
    proof {
        lemma_jview_obj_push(v0, *obj, (kg, vg));
    }
}

/// A string member value.
pub fn jstr(s: &str) -> (r: Json)
    ensures
        r@ == GJson::Str(s@),
{
    Json::Str(string_of(s))
}

/// An unsigned number member value.
pub fn jnum_u64(n: u64) -> (r: Json)
    ensures
        r@ == GJson::Num(crate::text::dec_digits(n as nat)),
{
    Json::Num(crate::text::u64_string(n))
}

/// A signed number member value.
pub fn jnum_i64(n: i64) -> (r: Json)
    ensures
        r@ == GJson::Num(crate::text::int_digits(n as int)),
{
    let mut out: Vec<char> = Vec::new();
    crate::text::push_i64(&mut out, n);
    Json::Num(crate::text::string_from_chars(&out))
}

/// A duration member value, in its human form.
pub fn jdur(d: Dur) -> (r: Json)
    ensures
        r@ == GJson::Str(crate::dur::spec_fmt_dur(d)),
{
    Json::Str(crate::dur::fmt_dur(d))
}


// ------------------------------------------------------------------
// Arrays of strings.
// ------------------------------------------------------------------
/// The character sequences of an all-string array.
pub open spec fn strs_of(elems: Seq<GJson>) -> Option<Seq<Seq<char>>>
    decreases elems.len(),
{
    if elems.len() == 0 {
        Some(Seq::empty())
    } else {
        match elems[0] {
            GJson::Str(s) => match strs_of(elems.skip(1)) {
                Some(t) => Some(seq![s] + t),
                None => None,
            },
            _ => None,
        }
    }
}

/// The views of a vector of strings.
pub open spec fn strs_view(v: Vec<String>) -> Seq<Seq<char>> {
    Seq::new(v@.len(), |i: int| v@[i]@)
}

pub open spec fn gj_strvec(o: Option<GJson>) -> Option<Seq<Seq<char>>> {
    match gj_arr(o) {
        Some(elems) => strs_of(elems),
        None => None,
    }
}

proof fn lemma_strs_of_skip(elems: Seq<GJson>, i: int)
    requires
        0 <= i <= elems.len(),
        forall|k: int| 0 <= k < elems.len() ==> #[trigger] elems[k] is Str,
    ensures
        strs_of(elems) matches Some(t) && t.len() == elems.len() && (forall|k: int|
            0 <= k < elems.len() ==> #[trigger] elems[k] == GJson::Str(
                strs_of(elems).unwrap()[k],
            )),
    decreases elems.len(),
{
    if elems.len() > 0 {
        lemma_strs_of_skip(elems.skip(1), 0);
        let t = strs_of(elems).unwrap();
        let t1 = strs_of(elems.skip(1)).unwrap();
        assert forall|k: int| 0 <= k < elems.len() implies #[trigger] elems[k] == GJson::Str(
            t[k],
        ) by {
            if k > 0 {
                assert(elems.skip(1)[k - 1] == elems[k]);
                assert(t[k] == t1[k - 1]);
            }
        }
    }
}

/// Read an all-string array; `None` if any element is not a string.
pub fn arr_to_strvec(arr: &Vec<Json>) -> (r: Option<Vec<String>>)
    ensures
        match r {
            Some(v) => strs_of(jview_arr(*arr, 0)) == Some(strs_view(v)),
            None => strs_of(jview_arr(*arr, 0)) is None,
        },
{
    proof {
        crate::json::lemma_jview_arr(*arr, 0);
    }
    let ghost elems = jview_arr(*arr, 0);
    let mut out: Vec<String> = Vec::new();
    let mut i: usize = 0;
    while i < arr.len()
        invariant
            0 <= i <= arr@.len(),
            elems == jview_arr(*arr, 0),
            elems.len() == arr@.len(),
            forall|k: int| 0 <= k < elems.len() ==> #[trigger] elems[k] == jview(arr@[k]),
            out@.len() == i,
            forall|k: int| 0 <= k < i ==> #[trigger] elems[k] == GJson::Str(out@[k]@),
        decreases arr@.len() - i,
    {
        match &arr[i] {
            Json::Str(s) => {
                out.push(s.clone());
            },
            _ => {
                proof {
                    lemma_strs_of_not_str(elems, i as int);
                }
                return None;
            },
        }
        i = i + 1;
    }
    proof {
        lemma_strs_of_all(elems, out);
    }
    Some(out)
}

proof fn lemma_strs_of_not_str(elems: Seq<GJson>, i: int)
    requires
        0 <= i < elems.len(),
        !(elems[i] is Str),
    ensures
        strs_of(elems) is None,
    decreases elems.len(),
{
    if elems.len() > 0 {
        if i == 0 {
        } else {
            match elems[0] {
                GJson::Str(_) => {
                    assert(elems.skip(1)[i - 1] == elems[i]);
                    lemma_strs_of_not_str(elems.skip(1), i - 1);
                },
                _ => {},
            }
        }
    }
}

proof fn lemma_strs_of_all(elems: Seq<GJson>, out: Vec<String>)
    requires
        elems.len() == out@.len(),
        forall|k: int| 0 <= k < elems.len() ==> #[trigger] elems[k] == GJson::Str(out@[k]@),
    ensures
        strs_of(elems) == Some(strs_view(out)),
    decreases elems.len(),
{
    if elems.len() == 0 {
        assert(strs_view(out) =~= Seq::<Seq<char>>::empty());
    } else {
        let tail = elems.skip(1);
        lemma_strs_of_all_sub(elems, out);
    }
}

proof fn lemma_strs_of_all_sub(elems: Seq<GJson>, out: Vec<String>)
    requires
        elems.len() == out@.len(),
        elems.len() >= 1,
        forall|k: int| 0 <= k < elems.len() ==> #[trigger] elems[k] == GJson::Str(out@[k]@),
    ensures
        strs_of(elems) == Some(strs_view(out)),
    decreases elems.len(),
{
    let tail = elems.skip(1);
    assert(elems[0] == GJson::Str(out@[0]@));
    if tail.len() == 0 {
        assert(strs_of(tail) == Some(Seq::<Seq<char>>::empty()));
        assert(strs_of(elems) == Some(seq![out@[0]@] + Seq::<Seq<char>>::empty()));
        assert(seq![out@[0]@] + Seq::<Seq<char>>::empty() =~= strs_view(out));
    } else {
        lemma_strs_of_elems_view(tail, out, 1);
        assert(strs_of(elems) == Some(seq![out@[0]@] + strs_of(tail).unwrap()));
        assert(seq![out@[0]@] + strs_of(tail).unwrap() =~= strs_view(out));
    }
}

proof fn lemma_strs_of_elems_view(elems: Seq<GJson>, out: Vec<String>, off: int)
    requires
        0 <= off,
        elems.len() + off == out@.len(),
        forall|k: int| 0 <= k < elems.len() ==> #[trigger] elems[k] == GJson::Str(
            out@[k + off]@,
        ),
    ensures
        strs_of(elems) matches Some(t) && t.len() == elems.len() && (forall|k: int|
            0 <= k < elems.len() ==> #[trigger] strs_of(elems).unwrap()[k] == out@[k + off]@),
    decreases elems.len(),
{
    if elems.len() > 0 {
        assert(elems[0] == GJson::Str(out@[off]@));
        let tail = elems.skip(1);
        assert(forall|k: int| 0 <= k < tail.len() ==> #[trigger] tail[k] == elems[k + 1]);
        assert forall|k: int| 0 <= k < tail.len() implies #[trigger] tail[k] == GJson::Str(
            out@[k + (off + 1)]@,
        ) by {
            assert(tail[k] == elems[k + 1]);
            assert(elems[k + 1] == GJson::Str(out@[(k + 1) + off]@));
        }
        lemma_strs_of_elems_view(tail, out, off + 1);
        let t = strs_of(elems).unwrap();
        let t1 = strs_of(tail).unwrap();
        assert forall|k: int| 0 <= k < elems.len() implies #[trigger] t[k] == out@[k + off]@ by {
            if k > 0 {
                assert(t[k] == t1[k - 1]);
                assert(t1[k - 1] == out@[(k - 1) + (off + 1)]@);
            }
        }
    }
}

/// The canonical array of a vector of strings.
pub open spec fn strvec_gj(v: Vec<String>) -> Seq<GJson> {
    Seq::new(v@.len(), |i: int| GJson::Str(v@[i]@))
}

/// Write a vector of strings as an array value.
pub fn strvec_to_arr(v: &Vec<String>) -> (r: Vec<Json>)
    ensures
        jview_arr(r, 0) =~= strvec_gj(*v),
{
    let mut out: Vec<Json> = Vec::new();
    let mut i: usize = 0;
    while i < v.len()
        invariant
            0 <= i <= v@.len(),
            jview_arr(out, 0) =~= strvec_gj(*v).take(i as int),
        decreases v@.len() - i,
    {
        let ghost out0 = out;
        let s = v[i].clone();
        let ghost sg = s;
        out.push(Json::Str(s));
        proof {
            lemma_jview_arr_push(out0, out, Json::Str(sg));
            assert(jview_arr(out, 0) =~= strvec_gj(*v).take(i + 1));
        }
        i = i + 1;
    }
    proof {
        assert(strvec_gj(*v).take(v@.len() as int) =~= strvec_gj(*v));
    }
    out
}

/// The canonical array of strings is all well formed and reads back as
/// the same strings.
pub proof fn lemma_strvec_round(v: Vec<String>)
    ensures
        strs_of(strvec_gj(v)) == Some(strs_view(v)),
        forall|k: int| 0 <= k < strvec_gj(v).len() ==> crate::json::wf(#[trigger] strvec_gj(v)[k]),
{
    let elems = strvec_gj(v);
    assert(forall|k: int| 0 <= k < elems.len() ==> #[trigger] elems[k] == GJson::Str(v@[k]@));
    lemma_strs_of_all_gen(elems, v);
}

proof fn lemma_strs_of_all_gen(elems: Seq<GJson>, out: Vec<String>)
    requires
        elems.len() == out@.len(),
        forall|k: int| 0 <= k < elems.len() ==> #[trigger] elems[k] == GJson::Str(out@[k]@),
    ensures
        strs_of(elems) == Some(strs_view(out)),
{
    if elems.len() == 0 {
        assert(strs_view(out) =~= Seq::<Seq<char>>::empty());
    } else {
        lemma_strs_of_all_sub(elems, out);
    }
}


// ------------------------------------------------------------------
// String-to-string maps (environment variables on the wire).
// ------------------------------------------------------------------
/// The pairs of an all-string object.
pub open spec fn env_of(fields: Seq<(Seq<char>, GJson)>) -> Option<Seq<(Seq<char>, Seq<char>)>>
    decreases fields.len(),
{
    if fields.len() == 0 {
        Some(Seq::empty())
    } else {
        match fields[0].1 {
            GJson::Str(v) => match env_of(fields.skip(1)) {
                Some(t) => Some(seq![(fields[0].0, v)] + t),
                None => None,
            },
            _ => None,
        }
    }
}

/// The views of a vector of name/value pairs.
pub open spec fn env_view(v: Vec<(String, String)>) -> Seq<(Seq<char>, Seq<char>)> {
    Seq::new(v@.len(), |i: int| (v@[i].0@, v@[i].1@))
}

/// The canonical object members of a vector of name/value pairs.
pub open spec fn env_gj(v: Vec<(String, String)>) -> Seq<(Seq<char>, GJson)> {
    Seq::new(v@.len(), |i: int| (v@[i].0@, GJson::Str(v@[i].1@)))
}

/// Read an all-string object as name/value pairs, in member order.
pub fn obj_to_env(obj: &Vec<(String, Json)>) -> (r: Option<Vec<(String, String)>>)
    ensures
        match r {
            Some(v) => env_of(jview_obj(*obj, 0)) == Some(env_view(v)),
            None => env_of(jview_obj(*obj, 0)) is None,
        },
{
    proof {
        crate::json::lemma_jview_obj(*obj, 0);
    }
    let ghost fields = jview_obj(*obj, 0);
    let mut out: Vec<(String, String)> = Vec::new();
    let mut i: usize = 0;
    while i < obj.len()
        invariant
            0 <= i <= obj@.len(),
            fields == jview_obj(*obj, 0),
            fields.len() == obj@.len(),
            forall|k: int| 0 <= k < fields.len() ==> #[trigger] fields[k] == (obj@[k].0@, jview(
                obj@[k].1,
            )),
            out@.len() == i,
            forall|k: int|
                0 <= k < i ==> (#[trigger] fields[k]).1 == GJson::Str(out@[k].1@) && fields[k].0
                    == out@[k].0@,
        decreases obj@.len() - i,
    {
        match &obj[i].1 {
            Json::Str(v) => {
                out.push((obj[i].0.clone(), v.clone()));
            },
            _ => {
                proof {
                    lemma_env_of_not_str(fields, i as int);
                }
                return None;
            },
        }
        i = i + 1;
    }
    proof {
        lemma_env_of_all(fields, out, 0);
        assert(env_of(fields) == Some(env_view(out)));
    }
    Some(out)
}

proof fn lemma_env_of_not_str(fields: Seq<(Seq<char>, GJson)>, i: int)
    requires
        0 <= i < fields.len(),
        !(fields[i].1 is Str),
    ensures
        env_of(fields) is None,
    decreases fields.len(),
{
    if i > 0 {
        match fields[0].1 {
            GJson::Str(_) => {
                assert(fields.skip(1)[i - 1] == fields[i]);
                lemma_env_of_not_str(fields.skip(1), i - 1);
            },
            _ => {},
        }
    }
}

proof fn lemma_env_of_all(fields: Seq<(Seq<char>, GJson)>, out: Vec<(String, String)>, off: int)
    requires
        0 <= off,
        fields.len() + off == out@.len(),
        forall|k: int|
            0 <= k < fields.len() ==> (#[trigger] fields[k]).1 == GJson::Str(out@[k + off].1@)
                && fields[k].0 == out@[k + off].0@,
    ensures
        env_of(fields) matches Some(t) && t.len() == fields.len() && (forall|k: int|
            0 <= k < fields.len() ==> #[trigger] env_of(fields).unwrap()[k] == (out@[k + off].0@,
            out@[k + off].1@)),
        off == 0 ==> env_of(fields) == Some(env_view(out)),
    decreases fields.len(),
{
    if fields.len() == 0 {
        if off == 0 {
            assert(env_view(out) =~= Seq::<(Seq<char>, Seq<char>)>::empty());
        }
    } else {
        let tail = fields.skip(1);
        assert forall|k: int|
            0 <= k < tail.len() implies (#[trigger] tail[k]).1 == GJson::Str(
            out@[k + (off + 1)].1@,
        ) && tail[k].0 == out@[k + (off + 1)].0@ by {
            assert(tail[k] == fields[k + 1]);
            assert(fields[k + 1].1 == GJson::Str(out@[(k + 1) + off].1@));
        }
        lemma_env_of_all(tail, out, off + 1);
        let t = env_of(fields).unwrap();
        let t1 = env_of(tail).unwrap();
        assert forall|k: int| 0 <= k < fields.len() implies #[trigger] t[k] == (out@[k + off].0@,
        out@[k + off].1@) by {
            if k > 0 {
                assert(t[k] == t1[k - 1]);
                assert(t1[k - 1] == (out@[(k - 1) + (off + 1)].0@, out@[(k - 1) + (off + 1)].1@));
            }
        }
        if off == 0 {
            assert(env_of(fields) == Some(env_view(out))) by {
                assert(t.len() == env_view(out).len());
                assert(forall|k: int| 0 <= k < t.len() ==> #[trigger] t[k] == env_view(out)[k]);
                assert(t =~= env_view(out));
            }
        }
    }
}

/// Write name/value pairs as an object value.
pub fn env_to_obj(v: &Vec<(String, String)>) -> (r: Vec<(String, Json)>)
    ensures
        jview_obj(r, 0) =~= env_gj(*v),
{
    let mut out: Vec<(String, Json)> = Vec::new();
    let mut i: usize = 0;
    while i < v.len()
        invariant
            0 <= i <= v@.len(),
            jview_obj(out, 0) =~= env_gj(*v).take(i as int),
        decreases v@.len() - i,
    {
        let ghost o0 = out;
        let key = v[i].0.clone();
        let val = Json::Str(v[i].1.clone());
        let ghost kg = key;
        let ghost vg = val;
        out.push((key, val));
        proof {
            lemma_jview_obj_push(o0, out, (kg, vg));
            assert(jview_obj(out, 0) =~= env_gj(*v).take(i + 1));
        }
        i = i + 1;
    }
    proof {
        assert(env_gj(*v).take(v@.len() as int) =~= env_gj(*v));
    }
    out
}

/// The canonical environment object reads back as the same pairs.
pub proof fn lemma_env_round(v: Vec<(String, String)>)
    ensures
        env_of(env_gj(v)) == Some(env_view(v)),
        forall|k: int| 0 <= k < env_gj(v).len() ==> crate::json::wf((#[trigger] env_gj(v)[k]).1),
{
    let fields = env_gj(v);
    assert(forall|k: int|
        0 <= k < fields.len() ==> (#[trigger] fields[k]).1 == GJson::Str(v@[k].1@) && fields[k].0
            == v@[k].0@);
    lemma_env_of_all_pairs(fields, v);
}

proof fn lemma_env_of_all_pairs(fields: Seq<(Seq<char>, GJson)>, v: Vec<(String, String)>)
    requires
        fields.len() == v@.len(),
        forall|k: int|
            0 <= k < fields.len() ==> (#[trigger] fields[k]).1 == GJson::Str(v@[k].1@)
                && fields[k].0 == v@[k].0@,
    ensures
        env_of(fields) == Some(env_view(v)),
{
    lemma_env_of_all(fields, v, 0);
}

} // verus!
