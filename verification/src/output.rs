use vstd::prelude::*;
use vstd::string::StrSliceExecFns;
use vstd::string::StringExecFns;
use crate::json::{Json, JsonV, json_view, elem_views, pair_views, lemma_elem_views, lemma_pair_views};
use crate::render::{compact_of, to_compact};
use crate::error::ClientError;
use crate::text::push_char;

verus! {

broadcast use vstd::std_specs::vec::group_vec_axioms;

/// A structurally equal copy of a JSON value.
pub fn clone_json(j: &Json) -> (r: Json)
    ensures
        r@ == j@,
    decreases j,
{
    match j {
        Json::Null => Json::Null,
        Json::Bool(b) => Json::Bool(*b),
        Json::Num(s) => Json::Num(s.clone()),
        Json::Str(s) => Json::Str(s.clone()),
        Json::Arr(v) => {
            proof {
                lemma_elem_views(v@);
            }
            let mut out: Vec<Json> = Vec::new();
            let mut i: usize = 0;
            while i < v.len()
                invariant
                    i <= v@.len(),
                    out@.len() == i,
                    forall|k: int| 0 <= k < i ==> json_view(#[trigger] out@[k]) == json_view(v@[k]),
                    *j == Json::Arr(*v),
                decreases v@.len() - i,
            {
                proof {
                    assert(decreases_to!(*j => (*j)->Arr_0));
                    assert(decreases_to!(*v => v@[i as int]));
                }
                let e = clone_json(&v[i]);
                out.push(e);
                i += 1;
            }
            proof {
                lemma_elem_views(out@);
                assert(elem_views(out@) =~= elem_views(v@));
            }
            Json::Arr(out)
        },
        Json::Obj(v) => {
            proof {
                lemma_pair_views(v@);
            }
            let mut out: Vec<(String, Json)> = Vec::new();
            let mut i: usize = 0;
            while i < v.len()
                invariant
                    i <= v@.len(),
                    out@.len() == i,
                    forall|k: int|
                        0 <= k < i ==> (#[trigger] out@[k]).0@ == v@[k].0@ && json_view(
                            out@[k].1,
                        ) == json_view(v@[k].1),
                    *j == Json::Obj(*v),
                decreases v@.len() - i,
            {
                proof {
                    assert(decreases_to!(*j => (*j)->Obj_0));
                    assert(decreases_to!(*v => v@[i as int]));
                    assert(decreases_to!(v@[i as int] => v@[i as int].1));
                }
                let pair = &v[i];
                let key = pair.0.clone();
                let val = clone_json(&pair.1);
                out.push((key, val));
                i += 1;
            }
            proof {
                lemma_pair_views(out@);
                assert(pair_views(out@) =~= pair_views(v@));
            }
            Json::Obj(out)
        },
    }
}

/// The value an object holds under a key: the first member with that key,
/// if there is one.
pub open spec fn obj_lookup(ps: Seq<(Seq<char>, JsonV)>, k: Seq<char>) -> Option<JsonV>
    decreases ps.len(),
{
    if ps.len() == 0 {
        None
    } else if ps[0].0 == k {
        Some(ps[0].1)
    } else {
        obj_lookup(ps.drop_first(), k)
    }
}

proof fn lemma_obj_lookup_at(ps: Seq<(Seq<char>, JsonV)>, k: Seq<char>, i: int)
    requires
        0 <= i < ps.len(),
        ps[i].0 == k,
        forall|m: int| 0 <= m < i ==> #[trigger] ps[m].0 != k,
    ensures
        obj_lookup(ps, k) == Some(ps[i].1),
    decreases i,
{
    if i > 0 {
        let rest = ps.drop_first();
        assert(forall|m: int| 0 <= m < i - 1 ==> #[trigger] rest[m].0 == ps[m + 1].0);
        lemma_obj_lookup_at(rest, k, i - 1);
    }
}

proof fn lemma_obj_lookup_none(ps: Seq<(Seq<char>, JsonV)>, k: Seq<char>)
    requires
        forall|m: int| 0 <= m < ps.len() ==> #[trigger] ps[m].0 != k,
    ensures
        obj_lookup(ps, k) is None,
    decreases ps.len(),
{
    if ps.len() > 0 {
        let rest = ps.drop_first();
        assert(forall|m: int| 0 <= m < rest.len() ==> #[trigger] rest[m].0 == ps[m + 1].0);
        lemma_obj_lookup_none(rest, k);
    }
}

/// Result extraction: an object that has a `result` member gives up that
/// member's value; anything else stays as it is.
pub open spec fn extracted(v: JsonV) -> JsonV {
    match v {
        JsonV::Obj(ps) => match obj_lookup(ps, "result"@) {
            Some(x) => x,
            None => v,
        },
        _ => v,
    }
}

/// Replaces an object by its `result` member when it has one; every other
/// value, objects without that member included, passes through unchanged.
pub fn extract_result(data: Json) -> (r: Json)
    ensures
        r@ == extracted(data@),
{
    proof {
        reveal_strlit("result");
    }
    let key = String::from_str("result");
    match data {
        Json::Obj(mut ps) => {
            proof {
                lemma_pair_views(ps@);
            }
            let ghost views = pair_views(ps@);
            let mut i: usize = 0;
            while i < ps.len()
                invariant
                    i <= ps@.len(),
                    key@ == "result"@,
                    views == pair_views(ps@),
                    views.len() == ps@.len(),
                    forall|k: int|
                        0 <= k < ps@.len() ==> #[trigger] views[k] == (
                        ps@[k].0@,
                        json_view(ps@[k].1),
                        ),
                    forall|m: int| 0 <= m < i ==> (#[trigger] views[m]).0 != "result"@,
                    data == Json::Obj(ps),
                decreases ps@.len() - i,
            {
                if ps[i].0 == key {
                    proof {
                        lemma_obj_lookup_at(views, "result"@, i as int);
                    }
                    let pair = ps.remove(i);
                    return pair.1;
                }
                i += 1;
            }
            proof {
                lemma_obj_lookup_none(views, "result"@);
            }
            Json::Obj(ps)
        },
        other => {
            proof {
                assert(!(json_view(other) is Obj));
            }
            other
        },
    }
}

/// Whether one text holds another as a contiguous run of characters.
pub open spec fn text_contains(s: Seq<char>, n: Seq<char>) -> bool {
    exists|i: int| 0 <= i && i + n.len() <= s.len() && #[trigger] s.subrange(i, i + n.len() as int)
        == n
}

/// The lower-case form of a text, as Unicode case mapping gives it.
pub uninterp spec fn lower_of(s: Seq<char>) -> Seq<char>;

/// Relies on str::to_lowercase: the result depends on the characters alone.
#[verifier::external_body]
fn to_lowercase(s: &str) -> (r: String)
    ensures
        r@ == lower_of(s@),
{
    s.to_lowercase()
}

/// Relies on str::contains: true exactly when the needle occurs as a
/// contiguous substring.
#[verifier::external_body]
fn contains_sub(s: &str, needle: &str) -> (r: bool)
    ensures
        r == text_contains(s@, needle@),
{
    s.contains(needle)
}

/// Whether the substring filter keeps an element: only strings whose
/// lower-case form holds the lower-case needle stay.
pub open spec fn keeps(e: JsonV, needle: Seq<char>) -> bool {
    e matches JsonV::Str(s) && text_contains(lower_of(s), lower_of(needle))
}

/// The filter on one needle, as a predicate value.
pub open spec fn keep_pred(needle: Seq<char>) -> spec_fn(JsonV) -> bool {
    |e: JsonV| keeps(e, needle)
}

/// The case-insensitive substring filter: an array keeps, in order, the
/// string elements that contain the needle; anything that is not an array
/// passes through unchanged.
pub open spec fn filtered(v: JsonV, needle: Seq<char>) -> JsonV {
    match v {
        JsonV::Arr(es) => JsonV::Arr(es.filter(keep_pred(needle))),
        _ => v,
    }
}

/// Keeps the string elements of an array that contain the needle,
/// case-insensitively and in order; non-string elements are dropped. A
/// value that is not an array comes back unchanged.
pub fn filter_values(data: Json, filter: &str) -> (r: Json)
    ensures
        r@ == filtered(data@, filter@),
{
    match data {
        Json::Arr(items) => {
            proof {
                lemma_elem_views(items@);
            }
            let low = to_lowercase(filter);
            let mut out: Vec<Json> = Vec::new();
            let ghost views = elem_views(items@);
            let mut i: usize = 0;
            while i < items.len()
                invariant
                    i <= items@.len(),
                    low@ == lower_of(filter@),
                    views == elem_views(items@),
                    views.len() == items@.len(),
                    forall|k: int| 0 <= k < items@.len() ==> #[trigger] views[k] == json_view(
                        items@[k],
                    ),
                    elem_views(out@) == views.take(i as int).filter(keep_pred(filter@)),
                decreases items@.len() - i,
            {
                let keep: bool = match &items[i] {
                    Json::Str(s) => {
                        let ls = to_lowercase(s.as_str());
                        contains_sub(ls.as_str(), low.as_str())
                    },
                    _ => false,
                };
                proof {
                    assert(keep == keep_pred(filter@)(views[i as int]));
                }
                let ghost out_before = out@;
                if keep {
                    let e = clone_json(&items[i]);
                    out.push(e);
                }
                proof {
                    lemma_elem_views(out_before);
                    lemma_elem_views(out@);
                    views.take(i as int).lemma_filter_push(views[i as int], keep_pred(filter@));
                    assert(views.take(i + 1) =~= views.take(i as int).push(views[i as int]));
                    if keep {
                        assert(elem_views(out@) =~= elem_views(out_before).push(
                            views[i as int],
                        ));
                    }
                    assert(elem_views(out@) =~= views.take(i + 1).filter(keep_pred(filter@)));
                }
                i += 1;
            }
            proof {
                assert(views.take(items@.len() as int) =~= views);
            }
            Json::Arr(out)
        },
        other => {
            proof {
                assert(!(json_view(other) is Arr));
            }
            other
        },
    }
}

/// The text a value stands as on its own line: a string verbatim, any
/// other value as its compact JSON text.
pub open spec fn line_of(e: JsonV) -> Seq<char> {
    match e {
        JsonV::Str(s) => s,
        _ => compact_of(e),
    }
}

/// The line-per-element text of an array: each element's line followed by
/// a newline, in order.
pub open spec fn lines_text(es: Seq<JsonV>) -> Seq<char>
    decreases es,
{
    if es.len() == 0 {
        Seq::empty()
    } else {
        lines_text(es.drop_last()) + line_of(es.last()) + seq!['\n']
    }
}

/// Renders an array one element per line: strings verbatim and unquoted,
/// everything else as compact JSON. A value that is not an array is
/// refused rather than partially printed.
pub fn render_lines(data: &Json) -> (r: Result<String, ClientError>)
    ensures
        data@ matches JsonV::Arr(es) ==> r matches Ok(t) && t@ == lines_text(es),
        !(data@ is Arr) ==> (r matches Err(e) && e matches ClientError::NotAnArray),
{
    match data {
        Json::Arr(v) => {
            proof {
                lemma_elem_views(v@);
            }
            let ghost views = elem_views(v@);
            let mut out = String::new();
            let mut i: usize = 0;
            while i < v.len()
                invariant
                    i <= v@.len(),
                    views == elem_views(v@),
                    views.len() == v@.len(),
                    forall|k: int| 0 <= k < v@.len() ==> #[trigger] views[k] == json_view(v@[k]),
                    out@ == lines_text(views.take(i as int)),
                decreases v@.len() - i,
            {
                match &v[i] {
                    Json::Str(s) => {
                        out.append(s.as_str());
                    },
                    other => {
                        let c = to_compact(other);
                        out.append(c.as_str());
                    },
                }
                push_char(&mut out, '\n');
                proof {
                    assert(views.take(i + 1).drop_last() =~= views.take(i as int));
                    assert(views.take(i + 1).last() == views[i as int]);
                    assert(out@ =~= lines_text(views.take(i + 1)));
                }
                i += 1;
            }
            proof {
                assert(views.take(v@.len() as int) =~= views);
            }
            Ok(out)
        },
        _ => Err(ClientError::NotAnArray),
    }
}

} // verus!
