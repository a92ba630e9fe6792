use vstd::prelude::*;
use vstd::string::StringExecFns;
use crate::auth::AuthMode;
use crate::error::ClientError;
use crate::endpoint::{url_text, url_joined, resolve_endpoint};
use crate::envelope::texts_of;

verus! {

/// How a request travels: a GET with query-string parameters, or a POST
/// whose parameters go form-encoded in the body.
#[derive(Clone, Copy, Debug, PartialEq, Eq, Structural)]
pub enum Method {
    Get,
    PostForm,
}

/// One logical API operation, with everything the request builder needs
/// to form the request: the PromQL texts, timestamps and matchers pass
/// through as opaque strings.
#[derive(Debug)]
pub enum Operation {
    /// An instant query at one evaluation time.
    Query { query: String, time: Option<String>, timeout: Option<String> },
    /// A range query over an interval at a fixed step; the step falls back
    /// to `60s` when not supplied.
    Range {
        query: String,
        start: String,
        end: String,
        step: Option<String>,
        timeout: Option<String>,
    },
    /// The values of one label, optionally filtered by matchers.
    Labels { label: String, matches: Vec<String> },
    /// The values of the `job` label.
    Jobs,
    /// The metric names; any substring filter is applied client-side after
    /// the response arrives, never sent to the server.
    Metrics,
    /// The series matching at least one matcher.
    Series { matches: Vec<String>, start: Option<String>, end: Option<String> },
}

/// A fully formed request, short of the wire: endpoint URL, method,
/// parameters in wire order, and the authentication to apply.
#[derive(Debug)]
pub struct RequestDescriptor {
    pub method: Method,
    pub url: String,
    pub params: Vec<(String, String)>,
    pub auth: AuthMode,
}

/// The texts of a parameter list, name/value pair by pair.
pub open spec fn params_text(ps: Seq<(String, String)>) -> Seq<(Seq<char>, Seq<char>)> {
    ps.map_values(|p: (String, String)| (p.0@, p.1@))
}

/// One optional parameter: a present value is one pair, an absent one is
/// nothing.
pub open spec fn opt_param(name: Seq<char>, value: Option<String>) -> Seq<(Seq<char>, Seq<char>)> {
    match value {
        Some(v) => seq![(name, v@)],
        None => Seq::empty(),
    }
}

/// The repeated matcher parameters: the `match[]` key once per matcher,
/// in the order supplied.
pub open spec fn match_params(matches: Seq<String>) -> Seq<(Seq<char>, Seq<char>)> {
    matches.map_values(|m: String| ("match[]"@, m@))
}

/// The relative endpoint path of an operation.
pub open spec fn op_path(op: Operation) -> Seq<char> {
    match op {
        Operation::Query { .. } => "api/v1/query"@,
        Operation::Range { .. } => "api/v1/query_range"@,
        Operation::Labels { label, .. } => "api/v1/label/"@ + label@ + "/values"@,
        Operation::Jobs => "api/v1/label/job/values"@,
        Operation::Metrics => "api/v1/label/__name__/values"@,
        Operation::Series { .. } => "api/v1/series"@,
    }
}

/// The HTTP method of an operation: the two queries go as form-encoded
/// POSTs, every listing as a GET.
pub open spec fn op_method(op: Operation) -> Method {
    match op {
        Operation::Query { .. } => Method::PostForm,
        Operation::Range { .. } => Method::PostForm,
        _ => Method::Get,
    }
}

/// The parameters of an operation, in wire order.
pub open spec fn op_params(op: Operation) -> Seq<(Seq<char>, Seq<char>)> {
    match op {
        Operation::Query { query, time, timeout } => seq![("query"@, query@)] + opt_param(
            "time"@,
            time,
        ) + opt_param("timeout"@, timeout),
        Operation::Range { query, start, end, step, timeout } => seq![
            ("query"@, query@),
            ("start"@, start@),
            ("end"@, end@),
            (
                "step"@,
                match step {
                    Some(s) => s@,
                    None => "60s"@,
                },
            ),
        ] + opt_param("timeout"@, timeout),
        Operation::Labels { matches, .. } => match_params(matches@),
        Operation::Jobs => Seq::empty(),
        Operation::Metrics => Seq::empty(),
        Operation::Series { matches, start, end } => match_params(matches@) + opt_param(
            "start"@,
            start,
        ) + opt_param("end"@, end),
    }
}

/// A series operation that names no matcher at all: the one client-side
/// validation failure of the request builder.
pub open spec fn missing_matcher(op: Operation) -> bool {
    op matches Operation::Series { matches, .. } && matches@.len() == 0
}

fn clone_strings(v: &Vec<String>) -> (r: Vec<String>)
    ensures
        texts_of(r@) == texts_of(v@),
{
    let mut out: Vec<String> = Vec::new();
    let mut i: usize = 0;
    while i < v.len()
        invariant
            i <= v@.len(),
            out@.len() == i,
            forall|k: int| 0 <= k < i ==> (#[trigger] out@[k])@ == v@[k]@,
        decreases v@.len() - i,
    {
        let s = v[i].clone();
        out.push(s);
        i += 1;
    }
    proof {
        assert(texts_of(out@) =~~= texts_of(v@));
    }
    out
}

fn clone_opt_string(v: &Option<String>) -> (r: Option<String>)
    ensures
        match r {
            Some(s) => v matches Some(t) && s@ == t@,
            None => v is None,
        },
{
    match v {
        Some(s) => Some(s.clone()),
        None => None,
    }
}

/// Encodes the repeated matchers, then the optional range bounds, as the
/// series and label listings carry them: the `match[]` key repeated once
/// per matcher in the order supplied, then `start` and `end` when
/// present.
pub fn build_match_params(matches: Vec<String>, start: Option<String>, end: Option<String>) -> (r:
    Vec<(String, String)>)
    ensures
        params_text(r@) == match_params(matches@) + opt_param("start"@, start) + opt_param(
            "end"@,
            end,
        ),
{
    proof {
        reveal_strlit("match[]");
        reveal_strlit("start");
        reveal_strlit("end");
    }
    let mut params: Vec<(String, String)> = Vec::new();
    proof {
        assert(params_text(params@) =~~= match_params(matches@.take(0)));
    }
    let mut i: usize = 0;
    while i < matches.len()
        invariant
            i <= matches@.len(),
            params@.len() == i,
            params_text(params@) == match_params(matches@.take(i as int)),
        decreases matches@.len() - i,
    {
        let m = matches[i].clone();
        let key = String::from_str("match[]");
        let ghost before = params@;
        params.push((key, m));
        proof {
            assert(params@ == before.push((key, m)));
            assert(params@.len() == i + 1);
            assert(params@[i as int].0@ == "match[]"@);
            assert(params@[i as int].1@ == matches@[i as int]@);
            assert(params_text(params@)[i as int] == ("match[]"@, matches@[i as int]@));
            assert(match_params(matches@.take(i + 1))[i as int] == (
                "match[]"@,
                matches@[i as int]@,
            ));
            assert forall|k: int| 0 <= k < i implies params_text(params@)[k] == match_params(
                matches@.take(i + 1),
            )[k] by {
                assert(params@[k] == before[k]);
                assert(params_text(before)[k] == match_params(matches@.take(i as int))[k]);
                assert(matches@.take(i + 1)[k] == matches@.take(i as int)[k]);
            }
            assert(params_text(params@) =~~= match_params(matches@.take(i + 1)));
        }
        i += 1;
    }
    proof {
        assert(matches@.take(matches@.len() as int) =~= matches@);
    }
    if let Some(s) = start {
        params.push((String::from_str("start"), s));
    }
    if let Some(e) = end {
        params.push((String::from_str("end"), e));
    }
    proof {
        assert(params_text(params@) =~~= match_params(matches@) + opt_param("start"@, start)
            + opt_param("end"@, end));
    }
    params
}

/// The relative endpoint path of an operation, as text.
pub fn op_path_text(op: &Operation) -> (r: String)
    ensures
        r@ == op_path(*op),
{
    match op {
        Operation::Query { .. } => {
            proof {
                reveal_strlit("api/v1/query");
            }
            String::from_str("api/v1/query")
        },
        Operation::Range { .. } => {
            proof {
                reveal_strlit("api/v1/query_range");
            }
            String::from_str("api/v1/query_range")
        },
        Operation::Labels { label, .. } => {
            proof {
                reveal_strlit("api/v1/label/");
                reveal_strlit("/values");
            }
            let mut out = String::from_str("api/v1/label/");
            out.append(label.as_str());
            out.append("/values");
            out
        },
        Operation::Jobs => {
            proof {
                reveal_strlit("api/v1/label/job/values");
            }
            String::from_str("api/v1/label/job/values")
        },
        Operation::Metrics => {
            proof {
                reveal_strlit("api/v1/label/__name__/values");
            }
            String::from_str("api/v1/label/__name__/values")
        },
        Operation::Series { .. } => {
            proof {
                reveal_strlit("api/v1/series");
            }
            String::from_str("api/v1/series")
        },
    }
}

fn build_params(op: &Operation) -> (r: Vec<(String, String)>)
    ensures
        params_text(r@) == op_params(*op),
{
    match op {
        Operation::Query { query, time, timeout } => {
            proof {
                reveal_strlit("query");
                reveal_strlit("time");
                reveal_strlit("timeout");
            }
            let mut params: Vec<(String, String)> = Vec::new();
            params.push((String::from_str("query"), query.clone()));
            if let Some(t) = time {
                params.push((String::from_str("time"), t.clone()));
            }
            if let Some(t) = timeout {
                params.push((String::from_str("timeout"), t.clone()));
            }
            proof {
                assert(params_text(params@) =~~= op_params(*op));
            }
            params
        },
        Operation::Range { query, start, end, step, timeout } => {
            proof {
                reveal_strlit("query");
                reveal_strlit("start");
                reveal_strlit("end");
                reveal_strlit("step");
                reveal_strlit("timeout");
                reveal_strlit("60s");
            }
            let mut params: Vec<(String, String)> = Vec::new();
            params.push((String::from_str("query"), query.clone()));
            params.push((String::from_str("start"), start.clone()));
            params.push((String::from_str("end"), end.clone()));
            let step_value = match step {
                Some(s) => s.clone(),
                None => String::from_str("60s"),
            };
            params.push((String::from_str("step"), step_value));
            if let Some(t) = timeout {
                params.push((String::from_str("timeout"), t.clone()));
            }
            proof {
                assert(params_text(params@) =~~= op_params(*op));
            }
            params
        },
        Operation::Labels { matches, .. } => {
            let copies = clone_strings(matches);
            let r = build_match_params(copies, None, None);
            proof {
                assert(texts_of(copies@).len() == copies@.len());
                assert(texts_of(matches@).len() == matches@.len());
                assert forall|k: int| 0 <= k < matches@.len() implies copies@[k]@
                    == matches@[k]@ by {
                    assert(texts_of(copies@)[k] == copies@[k]@);
                    assert(texts_of(matches@)[k] == matches@[k]@);
                }
                assert(params_text(r@) =~~= op_params(*op));
            }
            r
        },
        Operation::Jobs => {
            let params: Vec<(String, String)> = Vec::new();
            proof {
                assert(params_text(params@) =~~= op_params(*op));
            }
            params
        },
        Operation::Metrics => {
            let params: Vec<(String, String)> = Vec::new();
            proof {
                assert(params_text(params@) =~~= op_params(*op));
            }
            params
        },
        Operation::Series { matches, start, end } => {
            let copies = clone_strings(matches);
            let start2 = clone_opt_string(start);
            let end2 = clone_opt_string(end);
            let r = build_match_params(copies, start2, end2);
            proof {
                assert(texts_of(copies@).len() == copies@.len());
                assert(texts_of(matches@).len() == matches@.len());
                assert forall|k: int| 0 <= k < matches@.len() implies copies@[k]@
                    == matches@[k]@ by {
                    assert(texts_of(copies@)[k] == copies@[k]@);
                    assert(texts_of(matches@)[k] == matches@[k]@);
                }
                assert(params_text(r@) =~~= op_params(*op));
            }
            r
        },
    }
}

/// Builds the full request for an operation against a parsed base URL:
/// resolves the endpoint, encodes the parameters in wire order, and
/// attaches the chosen authentication. A series operation without a
/// matcher fails before anything is built; a failed join is an invalid
/// URL.
pub fn build_request(base: &url::Url, op: &Operation, auth: AuthMode) -> (r: Result<
    RequestDescriptor,
    ClientError,
>)
    ensures
        missing_matcher(*op) ==> (r matches Err(e) && e matches ClientError::MissingMatcher),
        !missing_matcher(*op) ==> match url_joined(url_text(*base), op_path(*op)) {
            Some(t) => r matches Ok(d) && d.method == op_method(*op) && d.url@ == t && params_text(
                d.params@,
            ) == op_params(*op) && d.auth@ == auth@,
            None => r matches Err(e) && e matches ClientError::InvalidUrl,
        },
{
    if let Operation::Series { matches, .. } = op {
        if matches.len() == 0 {
            return Err(ClientError::MissingMatcher);
        }
    }
    let path = op_path_text(op);
    let url = match resolve_endpoint(base, path.as_str()) {
        Ok(u) => u,
        Err(e) => {
            return Err(e);
        },
    };
    let params = build_params(op);
    let method = match op {
        Operation::Query { .. } => Method::PostForm,
        Operation::Range { .. } => Method::PostForm,
        _ => Method::Get,
    };
    Ok(RequestDescriptor { method, url, params, auth })
}

} // verus!
