use vstd::prelude::*;
use vstd::string::StrSliceExecFns;
use vstd::string::StringExecFns;
use crate::json::{Json, JsonV, json_view, elem_views, pair_views, lemma_elem_views, lemma_pair_views};
use crate::text::push_char;

verus! {

broadcast use vstd::std_specs::vec::group_vec_axioms;

/// The character for one hexadecimal digit, lower case.
pub open spec fn hex_digit(n: nat) -> char
    recommends
        n < 16,
{
    if n == 0 {
        '0'
    } else if n == 1 {
        '1'
    } else if n == 2 {
        '2'
    } else if n == 3 {
        '3'
    } else if n == 4 {
        '4'
    } else if n == 5 {
        '5'
    } else if n == 6 {
        '6'
    } else if n == 7 {
        '7'
    } else if n == 8 {
        '8'
    } else if n == 9 {
        '9'
    } else if n == 10 {
        'a'
    } else if n == 11 {
        'b'
    } else if n == 12 {
        'c'
    } else if n == 13 {
        'd'
    } else if n == 14 {
        'e'
    } else {
        'f'
    }
}

/// How one character appears inside a JSON string literal: quote and
/// backslash are escaped, the named control characters take their short
/// escapes, the remaining control characters take the `\u00..` form, and
/// every other character stands as itself.
pub open spec fn escaped_char(c: char) -> Seq<char> {
    if c == '"' {
        seq!['\\', '"']
    } else if c == '\\' {
        seq!['\\', '\\']
    } else if c == '\n' {
        seq!['\\', 'n']
    } else if c == '\t' {
        seq!['\\', 't']
    } else if c == '\r' {
        seq!['\\', 'r']
    } else if c == '\u{0008}' {
        seq!['\\', 'b']
    } else if c == '\u{000c}' {
        seq!['\\', 'f']
    } else if (c as u32) < 0x20 {
        seq!['\\', 'u', '0', '0', hex_digit((c as u32 / 16) as nat), hex_digit((c as u32 % 16) as nat)]
    } else {
        seq![c]
    }
}

/// A whole text, escaped character by character.
pub open spec fn escaped_text(s: Seq<char>) -> Seq<char>
    decreases s.len(),
{
    if s.len() == 0 {
        Seq::empty()
    } else {
        escaped_text(s.drop_last()) + escaped_char(s.last())
    }
}

/// A JSON string literal: the escaped text between double quotes.
pub open spec fn quoted(s: Seq<char>) -> Seq<char> {
    seq!['"'] + escaped_text(s) + seq!['"']
}

/// The compact (single-line) JSON text of a value: no whitespace anywhere,
/// elements and members separated by single commas.
pub open spec fn compact_of(v: JsonV) -> Seq<char>
    decreases v,
{
    match v {
        JsonV::Null => "null"@,
        JsonV::Bool(b) => if b {
            "true"@
        } else {
            "false"@
        },
        JsonV::Num(s) => s,
        JsonV::Str(s) => quoted(s),
        JsonV::Arr(es) => seq!['['] + compact_items(es) + seq![']'],
        JsonV::Obj(ps) => seq!['{'] + compact_pairs(ps) + seq!['}'],
    }
}

/// Array elements in compact form, comma-separated.
pub open spec fn compact_items(es: Seq<JsonV>) -> Seq<char>
    decreases es,
{
    if es.len() == 0 {
        Seq::empty()
    } else if es.len() == 1 {
        compact_of(es[0])
    } else {
        compact_items(es.drop_last()) + seq![','] + compact_of(es.last())
    }
}

/// Object members in compact form: quoted key, colon, value.
pub open spec fn compact_pairs(ps: Seq<(Seq<char>, JsonV)>) -> Seq<char>
    decreases ps,
{
    if ps.len() == 0 {
        Seq::empty()
    } else if ps.len() == 1 {
        quoted(ps[0].0) + seq![':'] + compact_of(ps[0].1)
    } else {
        compact_pairs(ps.drop_last()) + seq![','] + quoted(ps.last().0) + seq![':'] + compact_of(
            ps.last().1,
        )
    }
}

fn hex_char(n: u32) -> (r: char)
    requires
        n < 16,
    ensures
        r == hex_digit(n as nat),
{
    match n {
        0 => '0',
        1 => '1',
        2 => '2',
        3 => '3',
        4 => '4',
        5 => '5',
        6 => '6',
        7 => '7',
        8 => '8',
        9 => '9',
        10 => 'a',
        11 => 'b',
        12 => 'c',
        13 => 'd',
        14 => 'e',
        _ => 'f',
    }
}

fn write_escaped_char(out: &mut String, c: char)
    ensures
        final(out)@ == old(out)@ + escaped_char(c),
{
    if c == '"' {
        push_char(out, '\\');
        push_char(out, '"');
    } else if c == '\\' {
        push_char(out, '\\');
        push_char(out, '\\');
    } else if c == '\n' {
        push_char(out, '\\');
        push_char(out, 'n');
    } else if c == '\t' {
        push_char(out, '\\');
        push_char(out, 't');
    } else if c == '\r' {
        push_char(out, '\\');
        push_char(out, 'r');
    } else if c == '\u{0008}' {
        push_char(out, '\\');
        push_char(out, 'b');
    } else if c == '\u{000c}' {
        push_char(out, '\\');
        push_char(out, 'f');
    } else if (c as u32) < 0x20 {
        let n = c as u32;
        push_char(out, '\\');
        push_char(out, 'u');
        push_char(out, '0');
        push_char(out, '0');
        push_char(out, hex_char(n / 16));
        push_char(out, hex_char(n % 16));
    } else {
        push_char(out, c);
    }
    proof {
        assert(final(out)@ =~= old(out)@ + escaped_char(c));
    }
}

fn write_quoted(out: &mut String, s: &str)
    ensures
        final(out)@ == old(out)@ + quoted(s@),
{
    push_char(out, '"');
    let len = s.unicode_len();
    let mut i: usize = 0;
    while i < len
        invariant
            i <= len,
            len == s@.len(),
            out@ == old(out)@ + seq!['"'] + escaped_text(s@.take(i as int)),
        decreases len - i,
    {
        let c = s.get_char(i);
        write_escaped_char(out, c);
        proof {
            assert(s@.take(i + 1).drop_last() =~= s@.take(i as int));
            assert(s@.take(i + 1).last() == c);
            assert(out@ =~= old(out)@ + seq!['"'] + escaped_text(s@.take(i + 1)));
        }
        i += 1;
    }
    push_char(out, '"');
    proof {
        assert(s@.take(len as int) =~= s@);
        assert(out@ =~= old(out)@ + quoted(s@));
    }
}

/// Appends the compact JSON text of a value.
fn write_compact(out: &mut String, j: &Json)
    ensures
        final(out)@ == old(out)@ + compact_of(j@),
    decreases j,
{
    match j {
        Json::Null => {
            proof {
                reveal_strlit("null");
            }
            out.append("null");
        },
        Json::Bool(b) => {
            if *b {
                proof {
                    reveal_strlit("true");
                }
                out.append("true");
            } else {
                proof {
                    reveal_strlit("false");
                }
                out.append("false");
            }
        },
        Json::Num(s) => {
            out.append(s.as_str());
        },
        Json::Str(s) => {
            write_quoted(out, s.as_str());
        },
        Json::Arr(v) => {
            proof {
                lemma_elem_views(v@);
            }
            push_char(out, '[');
            let ghost views = elem_views(v@);
            let mut i: usize = 0;
            while i < v.len()
                invariant
                    i <= v.len(),
                    views == elem_views(v@),
                    views.len() == v@.len(),
                    forall|k: int| 0 <= k < v@.len() ==> #[trigger] views[k] == json_view(v@[k]),
                    out@ == old(out)@ + seq!['['] + compact_items(views.take(i as int)),
                    *j == Json::Arr(*v),
                decreases v.len() - i,
            {
                if i > 0 {
                    push_char(out, ',');
                }
                proof {
                    assert(decreases_to!(*j => (*j)->Arr_0));
                    assert(decreases_to!(*v => v@[i as int]));
                }
                write_compact(out, &v[i]);
                proof {
                    assert(views.take(i + 1).drop_last() =~= views.take(i as int));
                    assert(views.take(i + 1).last() == views[i as int]);
                    assert(out@ =~= old(out)@ + seq!['['] + compact_items(views.take(i + 1)));
                }
                i += 1;
            }
            push_char(out, ']');
            proof {
                assert(views.take(v@.len() as int) =~= views);
                assert(out@ =~= old(out)@ + compact_of(j@));
            }
        },
        Json::Obj(v) => {
            proof {
                lemma_pair_views(v@);
            }
            push_char(out, '{');
            let ghost views = pair_views(v@);
            let mut i: usize = 0;
            while i < v.len()
                invariant
                    i <= v.len(),
                    views == pair_views(v@),
                    views.len() == v@.len(),
                    forall|k: int|
                        0 <= k < v@.len() ==> #[trigger] views[k] == (
                        v@[k].0@,
                        json_view(v@[k].1),
                        ),
                    out@ == old(out)@ + seq!['{'] + compact_pairs(views.take(i as int)),
                    *j == Json::Obj(*v),
                decreases v.len() - i,
            {
                if i > 0 {
                    push_char(out, ',');
                }
                let pair = &v[i];
                write_quoted(out, pair.0.as_str());
                push_char(out, ':');
                proof {
                    assert(decreases_to!(*j => (*j)->Obj_0));
                    assert(decreases_to!(*v => v@[i as int]));
                    assert(decreases_to!(v@[i as int] => v@[i as int].1));
                }
                write_compact(out, &pair.1);
                proof {
                    assert(views.take(i + 1).drop_last() =~= views.take(i as int));
                    assert(views.take(i + 1).last() == views[i as int]);
                    assert(out@ =~= old(out)@ + seq!['{'] + compact_pairs(views.take(i + 1)));
                }
                i += 1;
            }
            push_char(out, '}');
            proof {
                assert(views.take(v@.len() as int) =~= views);
                assert(out@ =~= old(out)@ + compact_of(j@));
            }
        },
    }
}

/// The whitespace that opens a line `depth` nesting levels deep: two spaces
/// per level.
pub open spec fn indent(depth: nat) -> Seq<char>
    decreases depth,
{
    if depth == 0 {
        Seq::empty()
    } else {
        indent((depth - 1) as nat) + seq![' ', ' ']
    }
}

/// The pretty-printed JSON text of a value standing at nesting level
/// `depth`: scalars as in compact form; a non-empty array or object opens
/// its bracket, puts each element on a line of its own one level deeper,
/// and closes the bracket on a line at the old level; an empty array or
/// object stays on one line.
pub open spec fn pretty_of(v: JsonV, depth: nat) -> Seq<char>
    decreases v,
{
    match v {
        JsonV::Null => "null"@,
        JsonV::Bool(b) => if b {
            "true"@
        } else {
            "false"@
        },
        JsonV::Num(s) => s,
        JsonV::Str(s) => quoted(s),
        JsonV::Arr(es) => if es.len() == 0 {
            "[]"@
        } else {
            seq!['[', '\n'] + pretty_items(es, depth + 1) + seq!['\n'] + indent(depth) + seq![']']
        },
        JsonV::Obj(ps) => if ps.len() == 0 {
            "{}"@
        } else {
            seq!['{', '\n'] + pretty_pairs(ps, depth + 1) + seq!['\n'] + indent(depth) + seq!['}']
        },
    }
}

/// Array elements in pretty form, one per line, comma-separated.
pub open spec fn pretty_items(es: Seq<JsonV>, depth: nat) -> Seq<char>
    decreases es,
{
    if es.len() == 0 {
        Seq::empty()
    } else if es.len() == 1 {
        indent(depth) + pretty_of(es[0], depth)
    } else {
        pretty_items(es.drop_last(), depth) + seq![',', '\n'] + indent(depth) + pretty_of(
            es.last(),
            depth,
        )
    }
}

/// Object members in pretty form: quoted key, colon, one space, value.
pub open spec fn pretty_pairs(ps: Seq<(Seq<char>, JsonV)>, depth: nat) -> Seq<char>
    decreases ps,
{
    if ps.len() == 0 {
        Seq::empty()
    } else if ps.len() == 1 {
        indent(depth) + quoted(ps[0].0) + seq![':', ' '] + pretty_of(ps[0].1, depth)
    } else {
        pretty_pairs(ps.drop_last(), depth) + seq![',', '\n'] + indent(depth) + quoted(
            ps.last().0,
        ) + seq![':', ' '] + pretty_of(ps.last().1, depth)
    }
}

/// Appends the pretty JSON text of a value; `ind` is the whitespace of the
/// current nesting level.
fn write_pretty(out: &mut String, j: &Json, ind: &str, Ghost(depth): Ghost<nat>)
    requires
        ind@ == indent(depth),
    ensures
        final(out)@ == old(out)@ + pretty_of(j@, depth),
    decreases j,
{
    match j {
        Json::Null => {
            proof {
                reveal_strlit("null");
            }
            out.append("null");
        },
        Json::Bool(b) => {
            if *b {
                proof {
                    reveal_strlit("true");
                }
                out.append("true");
            } else {
                proof {
                    reveal_strlit("false");
                }
                out.append("false");
            }
        },
        Json::Num(s) => {
            out.append(s.as_str());
        },
        Json::Str(s) => {
            write_quoted(out, s.as_str());
        },
        Json::Arr(v) => {
            proof {
                lemma_elem_views(v@);
            }
            if v.len() == 0 {
                proof {
                    reveal_strlit("[]");
                }
                out.append("[]");
                proof {
                    assert(out@ =~= old(out)@ + pretty_of(j@, depth));
                }
                return ;
            }
            push_char(out, '[');
            push_char(out, '\n');
            let mut ind2 = String::from_str(ind);
            proof {
                reveal_strlit("  ");
            }
            ind2.append("  ");
            proof {
                assert(ind2@ =~= indent(depth + 1));
            }
            let ghost views = elem_views(v@);
            let mut i: usize = 0;
            while i < v.len()
                invariant
                    1 <= v.len(),
                    i <= v.len(),
                    views == elem_views(v@),
                    views.len() == v@.len(),
                    forall|k: int| 0 <= k < v@.len() ==> #[trigger] views[k] == json_view(v@[k]),
                    ind2@ == indent(depth + 1),
                    out@ == old(out)@ + seq!['[', '\n'] + pretty_items(
                        views.take(i as int),
                        depth + 1,
                    ),
                    *j == Json::Arr(*v),
                decreases v.len() - i,
            {
                if i > 0 {
                    push_char(out, ',');
                    push_char(out, '\n');
                }
                out.append(ind2.as_str());
                proof {
                    assert(decreases_to!(*j => (*j)->Arr_0));
                    assert(decreases_to!(*v => v@[i as int]));
                }
                write_pretty(out, &v[i], ind2.as_str(), Ghost(depth + 1));
                proof {
                    assert(views.take(i + 1).drop_last() =~= views.take(i as int));
                    assert(views.take(i + 1).last() == views[i as int]);
                    assert(out@ =~= old(out)@ + seq!['[', '\n'] + pretty_items(
                        views.take(i + 1),
                        depth + 1,
                    ));
                }
                i += 1;
            }
            push_char(out, '\n');
            out.append(ind);
            push_char(out, ']');
            proof {
                assert(views.take(v@.len() as int) =~= views);
                assert(out@ =~= old(out)@ + pretty_of(j@, depth));
            }
        },
        Json::Obj(v) => {
            proof {
                lemma_pair_views(v@);
            }
            if v.len() == 0 {
                proof {
                    reveal_strlit("{}");
                }
                out.append("{}");
                proof {
                    assert(out@ =~= old(out)@ + pretty_of(j@, depth));
                }
                return ;
            }
            push_char(out, '{');
            push_char(out, '\n');
            let mut ind2 = String::from_str(ind);
            proof {
                reveal_strlit("  ");
            }
            ind2.append("  ");
            proof {
                assert(ind2@ =~= indent(depth + 1));
            }
            let ghost views = pair_views(v@);
            let mut i: usize = 0;
            while i < v.len()
                invariant
                    1 <= v.len(),
                    i <= v.len(),
                    views == pair_views(v@),
                    views.len() == v@.len(),
                    forall|k: int|
                        0 <= k < v@.len() ==> #[trigger] views[k] == (
                        v@[k].0@,
                        json_view(v@[k].1),
                        ),
                    ind2@ == indent(depth + 1),
                    out@ == old(out)@ + seq!['{', '\n'] + pretty_pairs(
                        views.take(i as int),
                        depth + 1,
                    ),
                    *j == Json::Obj(*v),
                decreases v.len() - i,
            {
                if i > 0 {
                    push_char(out, ',');
                    push_char(out, '\n');
                }
                out.append(ind2.as_str());
                let pair = &v[i];
                write_quoted(out, pair.0.as_str());
                push_char(out, ':');
                push_char(out, ' ');
                proof {
                    assert(decreases_to!(*j => (*j)->Obj_0));
                    assert(decreases_to!(*v => v@[i as int]));
                    assert(decreases_to!(v@[i as int] => v@[i as int].1));
                }
                write_pretty(out, &pair.1, ind2.as_str(), Ghost(depth + 1));
                proof {
                    assert(views.take(i + 1).drop_last() =~= views.take(i as int));
                    assert(views.take(i + 1).last() == views[i as int]);
                    assert(out@ =~= old(out)@ + seq!['{', '\n'] + pretty_pairs(
                        views.take(i + 1),
                        depth + 1,
                    ));
                }
                i += 1;
            }
            push_char(out, '\n');
            out.append(ind);
            push_char(out, '}');
            proof {
                assert(views.take(v@.len() as int) =~= views);
                assert(out@ =~= old(out)@ + pretty_of(j@, depth));
            }
        },
    }
}

/// The pretty-printed JSON text of a value.
pub fn to_pretty(j: &Json) -> (r: String)
    ensures
        r@ == pretty_of(j@, 0),
{
    let mut out = String::new();
    proof {
        reveal_strlit("");
        assert(""@ =~= indent(0));
    }
    write_pretty(&mut out, j, "", Ghost(0nat));
    proof {
        assert(Seq::<char>::empty() + pretty_of(j@, 0) =~= pretty_of(j@, 0));
    }
    out
}

/// The JSON text of a value: pretty-printed with indentation when asked
/// for, compact otherwise.
pub fn render_json(j: &Json, pretty: bool) -> (r: String)
    ensures
        pretty ==> r@ == pretty_of(j@, 0),
        !pretty ==> r@ == compact_of(j@),
{
    if pretty {
        to_pretty(j)
    } else {
        to_compact(j)
    }
}

/// The compact JSON text of a value.
pub fn to_compact(j: &Json) -> (r: String)
    ensures
        r@ == compact_of(j@),
{
    let mut out = String::new();
    write_compact(&mut out, j);
    proof {
        assert(Seq::<char>::empty() + compact_of(j@) =~= compact_of(j@));
    }
    out
}

} // verus!
