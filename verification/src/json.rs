use vstd::prelude::*;

verus! {

broadcast use vstd::std_specs::vec::group_vec_axioms;

/// The mathematical shape of a JSON document. Numbers are carried as their
/// decimal text, so no floating point enters the library; objects keep their
/// key/value pairs in order.
pub enum JsonV {
    Null,
    Bool(bool),
    Num(Seq<char>),
    Str(Seq<char>),
    Arr(Seq<JsonV>),
    Obj(Seq<(Seq<char>, JsonV)>),
}

/// A JSON value as the library holds it at runtime. Mirrors `JsonV`:
/// numbers are kept as the text the parser rendered them with.
#[derive(Debug)]
pub enum Json {
    Null,
    Bool(bool),
    Num(String),
    Str(String),
    Arr(Vec<Json>),
    Obj(Vec<(String, Json)>),
}

pub open spec fn json_view(j: Json) -> JsonV
    decreases j,
{
    match j {
        Json::Null => JsonV::Null,
        Json::Bool(b) => JsonV::Bool(b),
        Json::Num(s) => JsonV::Num(s@),
        Json::Str(s) => JsonV::Str(s@),
        Json::Arr(v) => JsonV::Arr(elem_views(v@)),
        Json::Obj(v) => JsonV::Obj(pair_views(v@)),
    }
}

pub open spec fn elem_views(s: Seq<Json>) -> Seq<JsonV>
    decreases s,
{
    if s.len() == 0 {
        Seq::empty()
    } else {
        seq![json_view(s[0])] + elem_views(s.drop_first())
    }
}

pub open spec fn pair_views(s: Seq<(String, Json)>) -> Seq<(Seq<char>, JsonV)>
    decreases s,
{
    if s.len() == 0 {
        Seq::empty()
    } else {
        seq![(s[0].0@, json_view(s[0].1))] + pair_views(s.drop_first())
    }
}

/// The view of a sequence of values is the sequence of their views, index
/// by index.
pub proof fn lemma_elem_views(s: Seq<Json>)
    ensures
        elem_views(s).len() == s.len(),
        forall|i: int| 0 <= i < s.len() ==> #[trigger] elem_views(s)[i] == json_view(s[i]),
    decreases s.len(),
{
    if s.len() > 0 {
        lemma_elem_views(s.drop_first());
    }
}

/// The view of a sequence of key/value pairs is the sequence of pair views,
/// index by index.
pub proof fn lemma_pair_views(s: Seq<(String, Json)>)
    ensures
        pair_views(s).len() == s.len(),
        forall|i: int| 0 <= i < s.len() ==> #[trigger] pair_views(s)[i] == (s[i].0@, json_view(
            s[i].1,
        )),
    decreases s.len(),
{
    if s.len() > 0 {
        lemma_pair_views(s.drop_first());
    }
}

impl View for Json {
    type V = JsonV;

    open spec fn view(&self) -> JsonV {
        json_view(*self)
    }
}

} // verus!
