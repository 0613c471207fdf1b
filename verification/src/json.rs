//! The JSON fragment spoken by the pipeline's protocols.
//!
//! Both model prompts demand bare JSON answers, and the retailer's
//! search endpoint replies with JSON; this module gives those
//! protocols an exact grammar. Values are null, booleans, integers,
//! strings (with the usual single-character escapes; `\u` sequences
//! are not part of the fragment), arrays and objects. The renderer
//! emits the compact form; the parser tolerates blanks between
//! tokens, as the prompts cannot keep a model from pretty-printing.

use vstd::prelude::*;

use crate::text::{is_space, is_space_char, spec_dec, spec_digit_char};

verus! {

#[derive(Debug)]
pub enum Json {
    Null,
    Bool(bool),
    Int(i64),
    Text(String),
    Arr(Vec<Json>),
    Obj(Vec<(String, Json)>),
}

/// Mathematical model of a [`Json`] tree.
pub enum JsonV {
    Null,
    Bool(bool),
    Int(int),
    Text(Seq<char>),
    Arr(Seq<JsonV>),
    Obj(Seq<(Seq<char>, JsonV)>),
}

pub open spec fn json_view(j: Json) -> JsonV
    decreases j, 1int,
{
    match j {
        Json::Null => JsonV::Null,
        Json::Bool(b) => JsonV::Bool(b),
        Json::Int(n) => JsonV::Int(n as int),
        Json::Text(s) => JsonV::Text(s@),
        Json::Arr(v) => JsonV::Arr(jsons_view(v@)),
        Json::Obj(v) => JsonV::Obj(members_view(v@)),
    }
}

pub open spec fn jsons_view(s: Seq<Json>) -> Seq<JsonV>
    decreases s, 0int,
{
    if s.len() == 0 {
        Seq::empty()
    } else {
        seq![json_view(s[0])] + jsons_view(s.drop_first())
    }
}

pub open spec fn members_view(s: Seq<(String, Json)>) -> Seq<(Seq<char>, JsonV)>
    decreases s, 0int,
{
    if s.len() == 0 {
        Seq::empty()
    } else {
        seq![(s[0].0@, json_view(s[0].1))] + members_view(s.drop_first())
    }
}

/// An element view is the view of the element.
pub proof fn lemma_jsons_view(s: Seq<Json>)
    ensures
        jsons_view(s).len() == s.len(),
        forall|i: int| 0 <= i < s.len() ==> jsons_view(s)[i] == json_view(#[trigger] s[i]),
    decreases s.len(),
{
    if s.len() > 0 {
        let rest = s.drop_first();
        lemma_jsons_view(rest);
        assert(forall|i: int| 0 <= i < rest.len() ==> rest[i] == s[i + 1]);
        assert forall|i: int| 0 <= i < s.len() implies jsons_view(s)[i] == json_view(
            #[trigger] s[i],
        ) by {
            if i > 0 {
                assert(jsons_view(s)[i] == jsons_view(rest)[i - 1]);
                assert(jsons_view(rest)[i - 1] == json_view(rest[i - 1]));
            }
        }
    }
}

/// A member view pairs the key's characters with the value's view.
pub proof fn lemma_members_view(s: Seq<(String, Json)>)
    ensures
        members_view(s).len() == s.len(),
        forall|i: int| 0 <= i < s.len() ==> members_view(s)[i] == (
            (#[trigger] s[i]).0@,
            json_view(s[i].1),
        ),
    decreases s.len(),
{
    if s.len() > 0 {
        let rest = s.drop_first();
        lemma_members_view(rest);
        assert(forall|i: int| 0 <= i < rest.len() ==> rest[i] == s[i + 1]);
        assert forall|i: int| 0 <= i < s.len() implies members_view(s)[i] == (
            (#[trigger] s[i]).0@,
            json_view(s[i].1),
        ) by {
            if i > 0 {
                assert(members_view(s)[i] == members_view(rest)[i - 1]);
                assert(members_view(rest)[i - 1] == (rest[i - 1].0@, json_view(rest[i - 1].1)));
            }
        }
    }
}

impl View for Json {
    type V = JsonV;

    open spec fn view(&self) -> JsonV {
        json_view(*self)
    }
}

/// A character a string value may hold: anything printable, plus the
/// five control characters the fragment can escape.
pub open spec fn str_char_wf(c: char) -> bool {
    (c as int) >= 32 || c == '\n' || c == '\t' || c == '\r' || c == '\u{8}' || c == '\u{c}'
}

pub open spec fn str_wf(s: Seq<char>) -> bool {
    forall|i: int| 0 <= i < s.len() ==> str_char_wf(#[trigger] s[i])
}

/// A tree the renderer can emit and the parser can read back:
/// integers fit the machine type and strings hold no unescapable
/// control characters.
pub open spec fn json_wf(v: JsonV) -> bool
    decreases v,
{
    match v {
        JsonV::Null => true,
        JsonV::Bool(_) => true,
        JsonV::Int(n) => i64::MIN <= n <= i64::MAX,
        JsonV::Text(s) => str_wf(s),
        JsonV::Arr(elems) => forall|i: int| 0 <= i < elems.len() ==> json_wf(#[trigger] elems[i]),
        JsonV::Obj(members) => forall|i: int| 0 <= i < members.len() ==> str_wf(
            #[trigger] members[i].0,
        ) && json_wf(members[i].1),
    }
}

/// The escape sequence or literal rendering of one string character.
pub open spec fn spec_escape_char(c: char) -> Seq<char> {
    if c == '"' {
        seq!['\\', '"']
    } else if c == '\\' {
        seq!['\\', '\\']
    } else if c == '\n' {
        seq!['\\', 'n']
    } else if c == '\t' {
        seq!['\\', 't']
    } else if c == '\r' {
        seq!['\\', 'r']
    } else if c == '\u{8}' {
        seq!['\\', 'b']
    } else if c == '\u{c}' {
        seq!['\\', 'f']
    } else {
        seq![c]
    }
}

/// The body of a rendered string: every character escaped as needed.
pub open spec fn spec_escape(s: Seq<char>) -> Seq<char>
    decreases s.len(),
{
    if s.len() == 0 {
        Seq::empty()
    } else {
        spec_escape_char(s[0]) + spec_escape(s.drop_first())
    }
}

/// Decimal rendering of a (possibly negative) integer.
pub open spec fn spec_render_int(n: int) -> Seq<char> {
    if n < 0 {
        seq!['-'] + spec_dec(-n)
    } else {
        spec_dec(n)
    }
}

/// The compact textual form of a tree: no blanks between tokens.
pub open spec fn spec_render(v: JsonV) -> Seq<char>
    decreases v, 1int,
{
    match v {
        JsonV::Null => "null"@,
        JsonV::Bool(b) => if b {
            "true"@
        } else {
            "false"@
        },
        JsonV::Int(n) => spec_render_int(n),
        JsonV::Text(s) => seq!['"'] + spec_escape(s) + seq!['"'],
        JsonV::Arr(elems) => seq!['['] + spec_render_elems(elems) + seq![']'],
        JsonV::Obj(members) => seq!['{'] + spec_render_members(members) + seq!['}'],
    }
}

/// Comma-joined renderings of array elements.
pub open spec fn spec_render_elems(elems: Seq<JsonV>) -> Seq<char>
    decreases elems, 0int,
{
    if elems.len() == 0 {
        Seq::empty()
    } else if elems.len() == 1 {
        spec_render(elems[0])
    } else {
        spec_render(elems[0]) + seq![','] + spec_render_elems(elems.drop_first())
    }
}

/// Comma-joined renderings of object members, each a quoted key, a
/// colon and a value.
pub open spec fn spec_render_members(members: Seq<(Seq<char>, JsonV)>) -> Seq<char>
    decreases members, 0int,
{
    if members.len() == 0 {
        Seq::empty()
    } else if members.len() == 1 {
        seq!['"'] + spec_escape(members[0].0) + seq!['"', ':'] + spec_render(members[0].1)
    } else {
        seq!['"'] + spec_escape(members[0].0) + seq!['"', ':'] + spec_render(members[0].1)
            + seq![','] + spec_render_members(members.drop_first())
    }
}

pub open spec fn is_digit(c: char) -> bool {
    '0' <= c && c <= '9'
}

pub open spec fn digit_val(c: char) -> int {
    c as int - 48
}

/// Number of blanks running from position `i`.
pub open spec fn spec_ws(s: Seq<char>, i: int) -> nat
    decreases s.len() - i,
{
    if 0 <= i < s.len() && is_space_char(s[i]) {
        1 + spec_ws(s, i + 1)
    } else {
        0
    }
}

/// Number of decimal digits running from position `i`.
pub open spec fn spec_digit_run(s: Seq<char>, i: int) -> nat
    decreases s.len() - i,
{
    if 0 <= i < s.len() && is_digit(s[i]) {
        1 + spec_digit_run(s, i + 1)
    } else {
        0
    }
}

/// Value of the `d` digits starting at position `i`.
pub open spec fn spec_digits_val(s: Seq<char>, i: int, d: int) -> int
    decreases d,
{
    if d <= 0 {
        0
    } else {
        spec_digits_val(s, i, d - 1) * 10 + digit_val(s[i + d - 1])
    }
}

/// Whether the characters of `lit` stand at position `i` of `s`.
pub open spec fn match_lit(s: Seq<char>, i: int, lit: Seq<char>) -> bool {
    &&& 0 <= i
    &&& i + lit.len() <= s.len()
    &&& forall|k: int| 0 <= k < lit.len() ==> s[i + k] == #[trigger] lit[k]
}

/// The character denoted by an escape sequence `\c`; `\u` sequences
/// are outside the fragment.
pub open spec fn spec_unescape_char(c: char) -> Option<char> {
    if c == '"' {
        Some('"')
    } else if c == '\\' {
        Some('\\')
    } else if c == '/' {
        Some('/')
    } else if c == 'n' {
        Some('\n')
    } else if c == 't' {
        Some('\t')
    } else if c == 'r' {
        Some('\r')
    } else if c == 'b' {
        Some('\u{8}')
    } else if c == 'f' {
        Some('\u{c}')
    } else {
        None
    }
}

/// Parses a string body from just after the opening quote up to and
/// including the closing quote; yields the denoted characters and the
/// position after the closing quote. Raw control characters and
/// unknown escapes are refused.
pub open spec fn spec_parse_string_body(s: Seq<char>, i: int) -> Option<(Seq<char>, int)>
    decreases s.len() - i,
{
    if i < 0 || i >= s.len() {
        None
    } else if s[i] == '"' {
        Some((Seq::empty(), i + 1))
    } else if s[i] == '\\' {
        if i + 1 < s.len() {
            match spec_unescape_char(s[i + 1]) {
                Some(c) => match spec_parse_string_body(s, i + 2) {
                    Some((rest, k)) => Some((seq![c] + rest, k)),
                    None => None,
                },
                None => None,
            }
        } else {
            None
        }
    } else if (s[i] as int) < 32 {
        None
    } else {
        match spec_parse_string_body(s, i + 1) {
            Some((rest, k)) => Some((seq![s[i]] + rest, k)),
            None => None,
        }
    }
}

/// Parses an integer at position `i`: an optional minus sign and a
/// digit run without leading zeros, up to 19 digits, within the
/// machine range.
pub open spec fn spec_parse_int(s: Seq<char>, i: int) -> Option<(int, int)> {
    if 0 <= i < s.len() && s[i] == '-' {
        let d = spec_digit_run(s, i + 1);
        if d == 0 || d > 19 {
            None
        } else if s[i + 1] == '0' && d > 1 {
            None
        } else {
            let v = -spec_digits_val(s, i + 1, d as int);
            if i64::MIN <= v {
                Some((v, i + 1 + d))
            } else {
                None
            }
        }
    } else if 0 <= i < s.len() && is_digit(s[i]) {
        let d = spec_digit_run(s, i);
        if d > 19 {
            None
        } else if s[i] == '0' && d > 1 {
            None
        } else {
            let v = spec_digits_val(s, i, d as int);
            if v <= i64::MAX {
                Some((v, i + d))
            } else {
                None
            }
        }
    } else {
        None
    }
}

/// Parses one value at position `i`, blanks before it allowed; yields
/// the position directly after the value.
pub open spec fn spec_parse_value(s: Seq<char>, i: int) -> Option<(JsonV, int)>
    decreases s.len() - i, 0int,
{
    if i < 0 {
        None
    } else {
        let j = i + spec_ws(s, i);
        if j >= s.len() {
            None
        } else {
            let c = s[j];
            if c == 'n' {
                if match_lit(s, j, "null"@) {
                    Some((JsonV::Null, j + 4))
                } else {
                    None
                }
            } else if c == 't' {
                if match_lit(s, j, "true"@) {
                    Some((JsonV::Bool(true), j + 4))
                } else {
                    None
                }
            } else if c == 'f' {
                if match_lit(s, j, "false"@) {
                    Some((JsonV::Bool(false), j + 5))
                } else {
                    None
                }
            } else if c == '"' {
                match spec_parse_string_body(s, j + 1) {
                    Some((t, k)) => Some((JsonV::Text(t), k)),
                    None => None,
                }
            } else if c == '-' || is_digit(c) {
                match spec_parse_int(s, j) {
                    Some((n, k)) => Some((JsonV::Int(n), k)),
                    None => None,
                }
            } else if c == '[' {
                match spec_parse_elems(s, j + 1) {
                    Some((elems, k)) => Some((JsonV::Arr(elems), k)),
                    None => None,
                }
            } else if c == '{' {
                match spec_parse_members(s, j + 1) {
                    Some((ms, k)) => Some((JsonV::Obj(ms), k)),
                    None => None,
                }
            } else {
                None
            }
        }
    }
}

/// Parses the elements of an array from just after the opening
/// bracket up to and including the closing bracket.
pub open spec fn spec_parse_elems(s: Seq<char>, i: int) -> Option<(Seq<JsonV>, int)>
    decreases s.len() - i, 1int,
{
    if i < 0 {
        None
    } else {
        let j = i + spec_ws(s, i);
        if j >= s.len() {
            None
        } else if s[j] == ']' {
            Some((Seq::empty(), j + 1))
        } else {
            match spec_parse_value(s, i) {
                None => None,
                Some((v, k)) => {
                    if k <= j {
                        None
                    } else {
                        let m = k + spec_ws(s, k);
                        if m >= s.len() {
                            None
                        } else if s[m] == ',' {
                            match spec_parse_elems(s, m + 1) {
                                None => None,
                                Some((rest, end)) => if rest.len() == 0 {
                                    None
                                } else {
                                    Some((seq![v] + rest, end))
                                },
                            }
                        } else if s[m] == ']' {
                            Some((seq![v], m + 1))
                        } else {
                            None
                        }
                    }
                },
            }
        }
    }
}

/// Parses the members of an object from just after the opening brace
/// up to and including the closing brace.
pub open spec fn spec_parse_members(s: Seq<char>, i: int) -> Option<
    (Seq<(Seq<char>, JsonV)>, int),
>
    decreases s.len() - i, 1int,
{
    if i < 0 {
        None
    } else {
        let j = i + spec_ws(s, i);
        if j >= s.len() {
            None
        } else if s[j] == '}' {
            Some((Seq::empty(), j + 1))
        } else if s[j] == '"' {
            match spec_parse_string_body(s, j + 1) {
                None => None,
                Some((key, k2)) => {
                    if k2 <= j + 1 {
                        None
                    } else {
                        let m2 = k2 + spec_ws(s, k2);
                        if m2 >= s.len() || s[m2] != ':' {
                            None
                        } else {
                            match spec_parse_value(s, m2 + 1) {
                                None => None,
                                Some((v, k3)) => {
                                    if k3 <= m2 {
                                        None
                                    } else {
                                        let m3 = k3 + spec_ws(s, k3);
                                        if m3 >= s.len() {
                                            None
                                        } else if s[m3] == ',' {
                                            match spec_parse_members(s, m3 + 1) {
                                                None => None,
                                                Some((rest, end)) => if rest.len() == 0 {
                                                    None
                                                } else {
                                                    Some((seq![(key, v)] + rest, end))
                                                },
                                            }
                                        } else if s[m3] == '}' {
                                            Some((seq![(key, v)], m3 + 1))
                                        } else {
                                            None
                                        }
                                    }
                                },
                            }
                        }
                    }
                },
            }
        } else {
            None
        }
    }
}

/// One complete value with nothing but blanks around it.
pub open spec fn spec_parse_json(s: Seq<char>) -> Option<JsonV> {
    match spec_parse_value(s, 0) {
        Some((v, k)) => if k + spec_ws(s, k) == s.len() {
            Some(v)
        } else {
            None
        },
        None => None,
    }
}

/// Escaping a concatenation escapes the parts.
pub proof fn lemma_escape_append(a: Seq<char>, b: Seq<char>)
    ensures
        spec_escape(a + b) == spec_escape(a) + spec_escape(b),
    decreases a.len(),
{
    if a.len() == 0 {
        assert(a + b =~= b);
        assert(spec_escape(a) + spec_escape(b) =~= spec_escape(b));
    } else {
        lemma_escape_append(a.drop_first(), b);
        assert((a + b).drop_first() =~= a.drop_first() + b);
        assert(spec_escape_char((a + b)[0]) == spec_escape_char(a[0]));
        assert(spec_escape_char(a[0]) + (spec_escape(a.drop_first()) + spec_escape(b))
            =~= spec_escape_char(a[0]) + spec_escape(a.drop_first()) + spec_escape(b));
    }
}

/// Appends the escaped body of `s` to `out`.
fn push_escaped(out: &mut Vec<char>, s: &String)
    ensures
        final(out)@ == old(out)@ + spec_escape(s@),
{
    let cv = crate::text::to_chars(s.as_str());
    let mut k: usize = 0;
    while k < cv.len()
        invariant
            cv@ == s@,
            k <= cv@.len(),
            out@ == old(out)@ + spec_escape(s@.subrange(0, k as int)),
        decreases cv@.len() - k,
    {
        let c = cv[k];
        if c == '"' {
            out.push('\\');
            out.push('"');
        } else if c == '\\' {
            out.push('\\');
            out.push('\\');
        } else if c == '\n' {
            out.push('\\');
            out.push('n');
        } else if c == '\t' {
            out.push('\\');
            out.push('t');
        } else if c == '\r' {
            out.push('\\');
            out.push('r');
        } else if c == '\u{8}' {
            out.push('\\');
            out.push('b');
        } else if c == '\u{c}' {
            out.push('\\');
            out.push('f');
        } else {
            out.push(c);
        }
        proof {
            let pre = s@.subrange(0, k as int);
            lemma_escape_append(pre, seq![c]);
            assert(spec_escape(seq![c]) =~= spec_escape_char(c) + spec_escape(
                seq![c].drop_first(),
            ));
            assert(seq![c].drop_first() =~= Seq::<char>::empty());
            assert(spec_escape_char(c) + spec_escape(Seq::<char>::empty()) =~= spec_escape_char(c));
            assert(pre + seq![c] =~= s@.subrange(0, k + 1));
            assert(out@ =~= old(out)@ + spec_escape(s@.subrange(0, k + 1)));
        }
        k = k + 1;
    }
    proof {
        assert(s@.subrange(0, s@.len() as int) =~= s@);
    }
}

/// Appends the rendering of a (possibly negative) machine integer.
fn push_int(out: &mut Vec<char>, n: i64)
    ensures
        final(out)@ == old(out)@ + spec_render_int(n as int),
{
    if n < 0 {
        out.push('-');
        let mag: u128 = (-(n as i128)) as u128;
        crate::text::push_dec(mag, out);
        proof {
            assert(out@ =~= old(out)@ + spec_render_int(n as int));
        }
    } else {
        crate::text::push_dec(n as u128, out);
    }
}

/// Appends the compact rendering of `j` to `out`.
pub fn push_render(j: &Json, out: &mut Vec<char>)
    ensures
        final(out)@ == old(out)@ + spec_render(j@),
    decreases *j, 0int,
{
    match j {
        Json::Null => {
            crate::text::push_str_chars(out, "null");
        },
        Json::Bool(b) => {
            if *b {
                crate::text::push_str_chars(out, "true");
            } else {
                crate::text::push_str_chars(out, "false");
            }
        },
        Json::Int(n) => {
            push_int(out, *n);
        },
        Json::Text(s) => {
            out.push('"');
            push_escaped(out, s);
            out.push('"');
            proof {
                assert(out@ =~= old(out)@ + spec_render(j@));
            }
        },
        Json::Arr(v) => {
            out.push('[');
            render_elems(v, 0, out);
            out.push(']');
            proof {
                lemma_jsons_view(v@);
                assert(v@.subrange(0, v@.len() as int) =~= v@);
                assert(jsons_view(v@.subrange(0, v@.len() as int)) == jsons_view(v@));
                assert(out@ =~= old(out)@ + spec_render(j@));
            }
        },
        Json::Obj(v) => {
            out.push('{');
            render_members(v, 0, out);
            out.push('}');
            proof {
                assert(v@.subrange(0, v@.len() as int) =~= v@);
                assert(members_view(v@.subrange(0, v@.len() as int)) == members_view(v@));
                assert(out@ =~= old(out)@ + spec_render(j@));
            }
        },
    }
}

/// Appends the comma-joined renderings of the elements from `k` on.
fn render_elems(v: &Vec<Json>, k: usize, out: &mut Vec<char>)
    requires
        k <= v@.len(),
    ensures
        final(out)@ == old(out)@ + spec_render_elems(jsons_view(
            v@.subrange(k as int, v@.len() as int),
        )),
    decreases v@, v@.len() - k,
{
    if k < v.len() {
        push_render(&v[k], out);
        let ghost tail = v@.subrange(k as int, v@.len() as int);
        if k + 1 < v.len() {
            out.push(',');
            render_elems(v, k + 1, out);
        }
        proof {
            let tail1 = v@.subrange(k + 1, v@.len() as int);
            assert(jsons_view(tail).len() == tail.len()) by {
                lemma_jsons_view(tail);
            }
            assert(jsons_view(tail)[0] == json_view(v@[k as int])) by {
                lemma_jsons_view(tail);
            }
            assert(jsons_view(tail).drop_first() =~= jsons_view(tail1)) by {
                lemma_jsons_view(tail);
                lemma_jsons_view(tail1);
                assert(forall|i: int| 0 <= i < tail1.len() ==> tail1[i] == tail[i + 1]);
                assert forall|i: int| 0 <= i < tail1.len() implies jsons_view(tail).drop_first()[i]
                    == jsons_view(tail1)[i] by {
                    assert(jsons_view(tail).drop_first()[i] == jsons_view(tail)[i + 1]);
                    assert(jsons_view(tail)[i + 1] == json_view(tail[i + 1]));
                    assert(jsons_view(tail1)[i] == json_view(tail1[i]));
                }
            }
            if k + 1 < v@.len() {
                assert(out@ =~= old(out)@ + spec_render_elems(jsons_view(tail)));
            } else {
                assert(tail.len() == 1);
                assert(out@ =~= old(out)@ + spec_render_elems(jsons_view(tail)));
            }
        }
    } else {
        proof {
            assert(v@.subrange(k as int, v@.len() as int).len() == 0);
            assert(out@ =~= old(out)@ + spec_render_elems(jsons_view(
                v@.subrange(k as int, v@.len() as int),
            )));
        }
    }
}

/// Appends the comma-joined renderings of the members from `k` on.
fn render_members(v: &Vec<(String, Json)>, k: usize, out: &mut Vec<char>)
    requires
        k <= v@.len(),
    ensures
        final(out)@ == old(out)@ + spec_render_members(members_view(
            v@.subrange(k as int, v@.len() as int),
        )),
    decreases v@, v@.len() - k,
{
    if k < v.len() {
        out.push('"');
        push_escaped(out, &v[k].0);
        out.push('"');
        out.push(':');
        push_render(&v[k].1, out);
        let ghost tail = v@.subrange(k as int, v@.len() as int);
        if k + 1 < v.len() {
            out.push(',');
            render_members(v, k + 1, out);
        }
        proof {
            let tail1 = v@.subrange(k + 1, v@.len() as int);
            lemma_members_view(tail);
            lemma_members_view(tail1);
            assert(members_view(tail).drop_first() =~= members_view(tail1)) by {
                assert(forall|i: int| 0 <= i < tail1.len() ==> tail1[i] == tail[i + 1]);
                assert forall|i: int| 0 <= i < tail1.len() implies members_view(
                    tail,
                ).drop_first()[i] == members_view(tail1)[i] by {
                    assert(members_view(tail).drop_first()[i] == members_view(tail)[i + 1]);
                    assert(members_view(tail)[i + 1] == (tail[i + 1].0@, json_view(tail[i + 1].1)));
                    assert(members_view(tail1)[i] == (tail1[i].0@, json_view(tail1[i].1)));
                }
            }
            if k + 1 < v@.len() {
                assert(out@ =~= old(out)@ + spec_render_members(members_view(tail)));
            } else {
                assert(tail.len() == 1);
                assert(out@ =~= old(out)@ + spec_render_members(members_view(tail)));
            }
        }
    } else {
        proof {
            assert(v@.subrange(k as int, v@.len() as int).len() == 0);
            assert(out@ =~= old(out)@ + spec_render_members(members_view(
                v@.subrange(k as int, v@.len() as int),
            )));
        }
    }
}

pub fn digit(c: char) -> (r: bool)
    ensures
        r == is_digit(c),
{
    '0' <= c && c <= '9'
}

fn unescape(c: char) -> (r: Option<char>)
    ensures
        r == spec_unescape_char(c),
{
    if c == '"' {
        Some('"')
    } else if c == '\\' {
        Some('\\')
    } else if c == '/' {
        Some('/')
    } else if c == 'n' {
        Some('\n')
    } else if c == 't' {
        Some('\t')
    } else if c == 'r' {
        Some('\r')
    } else if c == 'b' {
        Some('\u{8}')
    } else if c == 'f' {
        Some('\u{c}')
    } else {
        None
    }
}

/// Position of the first non-blank character at or after `i`.
fn ws_end(s: &Vec<char>, i: usize) -> (r: usize)
    requires
        i <= s@.len(),
    ensures
        r as int == i + spec_ws(s@, i as int),
        i <= r <= s@.len(),
{
    let mut cur: usize = i;
    while cur < s.len() && is_space(s[cur])
        invariant
            i <= cur <= s@.len(),
            spec_ws(s@, i as int) == (cur - i) + spec_ws(s@, cur as int),
        decreases s@.len() - cur,
    {
        cur = cur + 1;
    }
    cur
}

/// Position after the digit run starting at `i`.
fn digit_run_end(s: &Vec<char>, i: usize) -> (r: usize)
    requires
        i <= s@.len(),
    ensures
        r as int == i + spec_digit_run(s@, i as int),
        i <= r <= s@.len(),
{
    let mut cur: usize = i;
    while cur < s.len() && digit(s[cur])
        invariant
            i <= cur <= s@.len(),
            spec_digit_run(s@, i as int) == (cur - i) + spec_digit_run(s@, cur as int),
        decreases s@.len() - cur,
    {
        cur = cur + 1;
    }
    cur
}

/// Every character inside a digit run is a digit.
proof fn lemma_digit_run_digits(s: Seq<char>, i: int)
    requires
        0 <= i,
    ensures
        forall|k: int| i <= k < i + spec_digit_run(s, i) ==> is_digit(#[trigger] s[k]),
    decreases s.len() - i,
{
    if 0 <= i < s.len() && is_digit(s[i]) {
        lemma_digit_run_digits(s, i + 1);
    }
}

pub open spec fn spec_pow10(d: nat) -> int
    decreases d,
{
    if d == 0 {
        1
    } else {
        10 * spec_pow10((d - 1) as nat)
    }
}

/// The value of a digit run is bounded by the power of ten of its
/// width.
proof fn lemma_digits_val_bound(s: Seq<char>, i: int, d: int)
    requires
        0 <= d,
        forall|k: int| i <= k < i + d ==> is_digit(#[trigger] s[k]),
    ensures
        0 <= spec_digits_val(s, i, d) < spec_pow10(d as nat),
    decreases d,
{
    if d > 0 {
        lemma_digits_val_bound(s, i, d - 1);
    }
}

proof fn lemma_pow10_19()
    ensures
        spec_pow10(19) == 10_000_000_000_000_000_000,
{
    reveal_with_fuel(spec_pow10, 21);
}

/// Parses an integer at `i`, as [`spec_parse_int`] describes.
fn parse_int_at(s: &Vec<char>, i: usize) -> (r: Option<(i64, usize)>)
    ensures
        match r {
            Some(p) => {
                &&& spec_parse_int(s@, i as int) == Some((p.0 as int, p.1 as int))
                &&& i < p.1 <= s@.len()
            },
            None => spec_parse_int(s@, i as int) is None,
        },
{
    if i >= s.len() {
        return None;
    }
    let neg = s[i] == '-';
    let start: usize = if neg {
        i + 1
    } else {
        i
    };
    if !neg && !digit(s[i]) {
        return None;
    }
    let end = digit_run_end(s, start);
    let d = end - start;
    if d == 0 || d > 19 {
        return None;
    }
    proof {
        assert(spec_digit_run(s@, start as int) >= 1);
        assert(is_digit(s@[start as int])) by {
            lemma_digit_run_digits(s@, start as int);
        }
        assert(start < s@.len());
    }
    if s[start] == '0' && d > 1 {
        return None;
    }
    let mut val: i128 = 0;
    let mut t: usize = 0;
    let le = s.len();
    proof {
        lemma_digit_run_digits(s@, start as int);
        lemma_pow10_19();
    }
    while t < d
        invariant
            t <= d <= 19,
            le == s@.len(),
            start + d <= le,
            forall|k: int| start <= k < start + d ==> is_digit(#[trigger] s@[k]),
            val == spec_digits_val(s@, start as int, t as int),
            0 <= val < spec_pow10(t as nat),
            spec_pow10(19) == 10_000_000_000_000_000_000,
        decreases d - t,
    {
        proof {
            lemma_pow10_mono(t as nat, 18);
        }
        let c = s[start + t];
        let dv: i128 = ((c as u32) - 48) as i128;
        val = val * 10 + dv;
        t = t + 1;
    }
    if neg {
        let v: i128 = -val;
        if v >= -0x8000_0000_0000_0000i128 {
            Some(((v as i64), end))
        } else {
            None
        }
    } else {
        if val <= 0x7fff_ffff_ffff_ffffi128 {
            Some(((val as i64), end))
        } else {
            None
        }
    }
}

/// Powers of ten grow with the exponent.
proof fn lemma_pow10_mono(a: nat, b: nat)
    requires
        a <= b,
    ensures
        spec_pow10(a) <= spec_pow10(b),
        spec_pow10(a) >= 1,
    decreases b,
{
    if a < b {
        lemma_pow10_mono(a, (b - 1) as nat);
    } else if a > 0 {
        lemma_pow10_mono((a - 1) as nat, (b - 1) as nat);
    }
}

/// Parses a string body at `i` (just after the opening quote), as
/// [`spec_parse_string_body`] describes.
fn parse_string_at(s: &Vec<char>, i: usize) -> (r: Option<(Vec<char>, usize)>)
    ensures
        match r {
            Some(p) => {
                &&& spec_parse_string_body(s@, i as int) == Some((p.0@, p.1 as int))
                &&& i < p.1 <= s@.len()
            },
            None => spec_parse_string_body(s@, i as int) is None,
        },
    decreases s@.len() - i,
{
    if i >= s.len() {
        return None;
    }
    let c = s[i];
    if c == '"' {
        let out: Vec<char> = Vec::new();
        proof {
            assert(out@ =~= Seq::<char>::empty());
        }
        Some((out, i + 1))
    } else if c == '\\' {
        if s.len() - i < 2 {
            return None;
        }
        match unescape(s[i + 1]) {
            None => None,
            Some(u) => match parse_string_at(s, i + 2) {
                None => None,
                Some((rest, k)) => {
                    let ghost restv = rest@;
                    let mut out = rest;
                    out.insert(0, u);
                    proof {
                        assert(out@ =~= seq![u] + restv);
                    }
                    Some((out, k))
                },
            },
        }
    } else {
        let space: char = ' ';
        if c < space {
            return None;
        }
        match parse_string_at(s, i + 1) {
            None => None,
            Some((rest, k)) => {
                let ghost restv = rest@;
                let mut out = rest;
                out.insert(0, c);
                proof {
                    assert(out@ =~= seq![c] + restv);
                }
                Some((out, k))
            },
        }
    }
}

/// Parses one value at `i`, as [`spec_parse_value`] describes.
pub fn parse_value_at(s: &Vec<char>, i: usize) -> (r: Option<(Json, usize)>)
    requires
        i <= s@.len(),
    ensures
        match r {
            Some(p) => {
                &&& spec_parse_value(s@, i as int) == Some((p.0@, p.1 as int))
                &&& i <= p.1 <= s@.len()
            },
            None => spec_parse_value(s@, i as int) is None,
        },
    decreases s@.len() - i, 0int,
{
    let j = ws_end(s, i);
    if j >= s.len() {
        return None;
    }
    let c = s[j];
    if c == 'n' {
        if s.len() - j >= 4 && s[j + 1] == 'u' && s[j + 2] == 'l' && s[j + 3] == 'l' {
            proof {
                lemma_lit_null(s@, j as int);
            }
            Some((Json::Null, j + 4))
        } else {
            proof {
                reveal_strlit("null");
                assert("null"@.len() == 4);
                if match_lit(s@, j as int, "null"@) {
                    assert(s@[j as int + 1] == "null"@[1]);
                    assert(s@[j as int + 2] == "null"@[2]);
                    assert(s@[j as int + 3] == "null"@[3]);
                    assert(false);
                }
            }
            None
        }
    } else if c == 't' {
        if s.len() - j >= 4 && s[j + 1] == 'r' && s[j + 2] == 'u' && s[j + 3] == 'e' {
            proof {
                lemma_lit_true(s@, j as int);
            }
            Some((Json::Bool(true), j + 4))
        } else {
            proof {
                reveal_strlit("true");
                assert("true"@.len() == 4);
                if match_lit(s@, j as int, "true"@) {
                    assert(s@[j as int + 1] == "true"@[1]);
                    assert(s@[j as int + 2] == "true"@[2]);
                    assert(s@[j as int + 3] == "true"@[3]);
                    assert(false);
                }
            }
            None
        }
    } else if c == 'f' {
        if s.len() - j >= 5 && s[j + 1] == 'a' && s[j + 2] == 'l' && s[j + 3] == 's' && s[j + 4]
            == 'e' {
            proof {
                lemma_lit_false(s@, j as int);
            }
            Some((Json::Bool(false), j + 5))
        } else {
            proof {
                reveal_strlit("false");
                assert("false"@.len() == 5);
                if match_lit(s@, j as int, "false"@) {
                    assert(s@[j as int + 1] == "false"@[1]);
                    assert(s@[j as int + 2] == "false"@[2]);
                    assert(s@[j as int + 3] == "false"@[3]);
                    assert(s@[j as int + 4] == "false"@[4]);
                    assert(false);
                }
            }
            None
        }
    } else if c == '"' {
        match parse_string_at(s, j + 1) {
            Some((t, k)) => Some((Json::Text(crate::text::from_chars(&t)), k)),
            None => None,
        }
    } else if c == '-' || digit(c) {
        match parse_int_at(s, j) {
            Some((n, k)) => Some((Json::Int(n), k)),
            None => None,
        }
    } else if c == '[' {
        match parse_elems_at(s, j + 1) {
            Some((es, k)) => Some((Json::Arr(es), k)),
            None => None,
        }
    } else if c == '{' {
        match parse_members_at(s, j + 1) {
            Some((ms, k)) => Some((Json::Obj(ms), k)),
            None => None,
        }
    } else {
        None
    }
}

proof fn lemma_lit_null(s: Seq<char>, j: int)
    requires
        0 <= j,
        j + 4 <= s.len(),
        s[j] == 'n',
        s[j + 1] == 'u',
        s[j + 2] == 'l',
        s[j + 3] == 'l',
    ensures
        match_lit(s, j, "null"@),
{
    reveal_strlit("null");
    assert forall|k: int| 0 <= k < "null"@.len() implies s[j + k] == "null"@[k] by {
        if k == 0 {
        } else if k == 1 {
        } else if k == 2 {
        } else {
            assert(k == 3);
        }
    }
}

proof fn lemma_lit_true(s: Seq<char>, j: int)
    requires
        0 <= j,
        j + 4 <= s.len(),
        s[j] == 't',
        s[j + 1] == 'r',
        s[j + 2] == 'u',
        s[j + 3] == 'e',
    ensures
        match_lit(s, j, "true"@),
{
    reveal_strlit("true");
    assert forall|k: int| 0 <= k < "true"@.len() implies s[j + k] == "true"@[k] by {
        if k == 0 {
        } else if k == 1 {
        } else if k == 2 {
        } else {
            assert(k == 3);
        }
    }
}

proof fn lemma_lit_false(s: Seq<char>, j: int)
    requires
        0 <= j,
        j + 5 <= s.len(),
        s[j] == 'f',
        s[j + 1] == 'a',
        s[j + 2] == 'l',
        s[j + 3] == 's',
        s[j + 4] == 'e',
    ensures
        match_lit(s, j, "false"@),
{
    reveal_strlit("false");
    assert forall|k: int| 0 <= k < "false"@.len() implies s[j + k] == "false"@[k] by {
        if k == 0 {
        } else if k == 1 {
        } else if k == 2 {
        } else if k == 3 {
        } else {
            assert(k == 4);
        }
    }
}

/// The view of a list with one element put in front.
proof fn lemma_jsons_view_cons(v: Json, rest: Seq<Json>)
    ensures
        jsons_view(rest.insert(0, v)) == seq![json_view(v)] + jsons_view(rest),
{
    let all = rest.insert(0, v);
    lemma_jsons_view(all);
    lemma_jsons_view(rest);
    assert(all[0] == v);
    assert(forall|i: int| 0 <= i < rest.len() ==> all[i + 1] == rest[i]);
    assert forall|i: int| 0 <= i < all.len() implies jsons_view(all)[i] == (seq![json_view(v)]
        + jsons_view(rest))[i] by {
        if i > 0 {
            assert(all[i] == rest[i - 1]);
        }
    }
    assert(jsons_view(all) =~= seq![json_view(v)] + jsons_view(rest));
}

proof fn lemma_members_view_cons(key: String, v: Json, rest: Seq<(String, Json)>)
    ensures
        members_view(rest.insert(0, (key, v))) == seq![(key@, json_view(v))] + members_view(rest),
{
    let all = rest.insert(0, (key, v));
    lemma_members_view(all);
    lemma_members_view(rest);
    assert(all[0] == (key, v));
    assert(forall|i: int| 0 <= i < rest.len() ==> all[i + 1] == rest[i]);
    assert forall|i: int| 0 <= i < all.len() implies members_view(all)[i] == (seq![
        (key@, json_view(v)),
    ] + members_view(rest))[i] by {
        if i > 0 {
            assert(all[i] == rest[i - 1]);
        }
    }
    assert(members_view(all) =~= seq![(key@, json_view(v))] + members_view(rest));
}

/// Parses array elements at `i`, as [`spec_parse_elems`] describes.
fn parse_elems_at(s: &Vec<char>, i: usize) -> (r: Option<(Vec<Json>, usize)>)
    requires
        i <= s@.len(),
    ensures
        match r {
            Some(p) => {
                &&& spec_parse_elems(s@, i as int) == Some((jsons_view(p.0@), p.1 as int))
                &&& i <= p.1 <= s@.len()
            },
            None => spec_parse_elems(s@, i as int) is None,
        },
    decreases s@.len() - i, 1int,
{
    let j = ws_end(s, i);
    if j >= s.len() {
        return None;
    }
    if s[j] == ']' {
        let out: Vec<Json> = Vec::new();
        proof {
            lemma_jsons_view(out@);
            assert(jsons_view(out@) =~= Seq::<JsonV>::empty());
        }
        return Some((out, j + 1));
    }
    match parse_value_at(s, i) {
        None => None,
        Some((v, k)) => {
            if k <= j {
                return None;
            }
            let m = ws_end(s, k);
            if m >= s.len() {
                return None;
            }
            if s[m] == ',' {
                match parse_elems_at(s, m + 1) {
                    None => None,
                    Some((rest, end)) => {
                        if rest.len() == 0 {
                            proof {
                                lemma_jsons_view(rest@);
                            }
                            return None;
                        }
                        proof {
                            lemma_jsons_view(rest@);
                            lemma_jsons_view_cons(v, rest@);
                        }
                        let mut out = rest;
                        out.insert(0, v);
                        Some((out, end))
                    },
                }
            } else if s[m] == ']' {
                let mut out: Vec<Json> = Vec::new();
                out.push(v);
                proof {
                    lemma_jsons_view(out@);
                    assert(jsons_view(out@) =~= seq![json_view(v)]);
                }
                Some((out, m + 1))
            } else {
                None
            }
        },
    }
}

/// Parses object members at `i`, as [`spec_parse_members`] describes.
fn parse_members_at(s: &Vec<char>, i: usize) -> (r: Option<(Vec<(String, Json)>, usize)>)
    requires
        i <= s@.len(),
    ensures
        match r {
            Some(p) => {
                &&& spec_parse_members(s@, i as int) == Some((members_view(p.0@), p.1 as int))
                &&& i <= p.1 <= s@.len()
            },
            None => spec_parse_members(s@, i as int) is None,
        },
    decreases s@.len() - i, 1int,
{
    let j = ws_end(s, i);
    if j >= s.len() {
        return None;
    }
    if s[j] == '}' {
        let out: Vec<(String, Json)> = Vec::new();
        proof {
            lemma_members_view(out@);
            assert(members_view(out@) =~= Seq::<(Seq<char>, JsonV)>::empty());
        }
        return Some((out, j + 1));
    }
    if s[j] != '"' {
        return None;
    }
    match parse_string_at(s, j + 1) {
        None => None,
        Some((keychars, k2)) => {
            if k2 <= j + 1 {
                return None;
            }
            let key = crate::text::from_chars(&keychars);
            let m2 = ws_end(s, k2);
            if m2 >= s.len() {
                return None;
            }
            if s[m2] != ':' {
                return None;
            }
            match parse_value_at(s, m2 + 1) {
                None => None,
                Some((v, k3)) => {
                    if k3 <= m2 {
                        return None;
                    }
                    let m3 = ws_end(s, k3);
                    if m3 >= s.len() {
                        return None;
                    }
                    if s[m3] == ',' {
                        match parse_members_at(s, m3 + 1) {
                            None => None,
                            Some((rest, end)) => {
                                if rest.len() == 0 {
                                    proof {
                                        lemma_members_view(rest@);
                                    }
                                    return None;
                                }
                                proof {
                                    lemma_members_view(rest@);
                                    lemma_members_view_cons(key, v, rest@);
                                }
                                let mut out = rest;
                                out.insert(0, (key, v));
                                Some((out, end))
                            },
                        }
                    } else if s[m3] == '}' {
                        let mut out: Vec<(String, Json)> = Vec::new();
                        out.push((key, v));
                        proof {
                            lemma_members_view(out@);
                            assert(members_view(out@) =~= seq![(key@, json_view(v))]);
                        }
                        Some((out, m3 + 1))
                    } else {
                        None
                    }
                },
            }
        },
    }
}

/// Parses one complete value with nothing but blanks around it, as
/// [`spec_parse_json`] describes.
pub fn parse_json(s: &str) -> (r: Option<Json>)
    ensures
        match r {
            Some(j) => spec_parse_json(s@) == Some(j@),
            None => spec_parse_json(s@) is None,
        },
{
    let cv = crate::text::to_chars(s);
    match parse_value_at(&cv, 0) {
        None => None,
        Some((j, k)) => {
            let e = ws_end(&cv, k);
            if e == cv.len() {
                Some(j)
            } else {
                None
            }
        },
    }
}

/// The compact textual form of a tree.
pub fn render_json(j: &Json) -> (r: String)
    ensures
        r@ == spec_render(j@),
{
    let mut out: Vec<char> = Vec::new();
    push_render(j, &mut out);
    crate::text::from_chars(&out)
}

/// Every character of a decimal rendering is a digit.
proof fn lemma_dec_digits(n: int)
    requires
        0 <= n,
    ensures
        spec_dec(n).len() >= 1,
        forall|k: int| 0 <= k < spec_dec(n).len() ==> is_digit(#[trigger] spec_dec(n)[k]),
    decreases n,
{
    if n >= 10 {
        lemma_dec_digits(n / 10);
    }
}

/// A positive number's rendering has no leading zero, and width
/// beyond one digit means the number reaches ten.
proof fn lemma_dec_shape(n: int)
    requires
        0 <= n,
    ensures
        n >= 1 ==> spec_dec(n)[0] != '0',
        spec_dec(n).len() > 1 ==> n >= 10,
        n < 10 ==> spec_dec(n).len() == 1,
    decreases n,
{
    if n >= 10 {
        lemma_dec_shape(n / 10);
        vstd::arithmetic::div_mod::lemma_fundamental_div_mod(n, 10);
    }
}

/// A number below a power of ten renders in at most that many digits.
proof fn lemma_dec_len(n: int, d: nat)
    requires
        0 <= n < spec_pow10(d),
        d >= 1,
    ensures
        spec_dec(n).len() <= d,
    decreases d,
{
    if n >= 10 {
        vstd::arithmetic::div_mod::lemma_fundamental_div_mod(n, 10);
        lemma_dec_len(n / 10, (d - 1) as nat);
    }
}

/// A digit run surrounded by non-digits is measured exactly.
proof fn lemma_digit_run_exact(s: Seq<char>, p: int, d: int)
    requires
        0 <= p,
        0 <= d,
        p + d <= s.len(),
        forall|k: int| p <= k < p + d ==> is_digit(#[trigger] s[k]),
        p + d == s.len() || !is_digit(s[p + d]),
    ensures
        spec_digit_run(s, p) == d,
    decreases d,
{
    if d > 0 {
        lemma_digit_run_exact(s, p + 1, d - 1);
    }
}

/// Reading back the digits of a rendering yields the number.
proof fn lemma_digits_val_of_dec(s: Seq<char>, p: int, n: int)
    requires
        0 <= p,
        0 <= n,
        p + spec_dec(n).len() <= s.len(),
        forall|k: int| 0 <= k < spec_dec(n).len() ==> s[p + k] == #[trigger] spec_dec(n)[k],
    ensures
        spec_digits_val(s, p, spec_dec(n).len() as int) == n,
    decreases n,
{
    let d = spec_dec(n).len() as int;
    if n < 10 {
        assert(s[p] == spec_dec(n)[0]);
        assert(spec_digits_val(s, p, 0) == 0);
        assert(spec_digits_val(s, p, 1) == digit_val(s[p]));
    } else {
        let m = n / 10;
        let pre = spec_dec(m);
        assert(spec_dec(n) == pre.push(spec_digit_char(n % 10)));
        assert(forall|k: int| 0 <= k < pre.len() ==> #[trigger] pre[k] == spec_dec(n)[k]);
        lemma_digits_val_of_dec(s, p, m);
        assert(s[p + d - 1] == spec_dec(n)[d - 1]);
        assert(spec_dec(n)[d - 1] == spec_digit_char(n % 10));
        vstd::arithmetic::div_mod::lemma_fundamental_div_mod(n, 10);
        assert(digit_val(spec_digit_char(n % 10)) == n % 10);
    }
}

/// The first character of a rendering identifies the variant and is
/// never a blank or a closing token.
proof fn lemma_render_first(v: JsonV)
    ensures
        spec_render(v).len() >= 1,
        !is_space_char(spec_render(v)[0]),
        spec_render(v)[0] != ']',
        spec_render(v)[0] != '}',
        spec_render(v)[0] != ',',
        spec_render(v)[0] != ':',
        match v {
            JsonV::Null => spec_render(v)[0] == 'n',
            JsonV::Bool(b) => spec_render(v)[0] == (if b { 't' } else { 'f' }),
            JsonV::Int(n) => if n < 0 { spec_render(v)[0] == '-' } else { is_digit(spec_render(v)[0]) },
            JsonV::Text(_) => spec_render(v)[0] == '"',
            JsonV::Arr(_) => spec_render(v)[0] == '[',
            JsonV::Obj(_) => spec_render(v)[0] == '{',
        },
{
    reveal_strlit("null");
    reveal_strlit("true");
    reveal_strlit("false");
    match v {
        JsonV::Int(n) => {
            if n < 0 {
                lemma_dec_digits(-n);
            } else {
                lemma_dec_digits(n);
                assert(is_digit(spec_render(v)[0]));
            }
        },
        _ => (),
    }
}

/// Parsing the rendering of an integer back, when the next character
/// cannot extend the digit run, recovers the integer.
proof fn lemma_parse_int_of_render(s: Seq<char>, i: int, n: int)
    requires
        0 <= i,
        i64::MIN <= n <= i64::MAX,
        i + spec_render_int(n).len() <= s.len(),
        forall|k: int| 0 <= k < spec_render_int(n).len() ==> s[i + k] == #[trigger] spec_render_int(
            n,
        )[k],
        i + spec_render_int(n).len() == s.len() || !is_digit(s[i + spec_render_int(n).len()]),
    ensures
        spec_parse_int(s, i) == Some((n, i + spec_render_int(n).len())),
{
    let r = spec_render_int(n);
    let m = if n < 0 { -n } else { n };
    let dec = spec_dec(m);
    let start = if n < 0 { i + 1 } else { i };
    lemma_dec_digits(m);
    lemma_dec_shape(m);
    lemma_pow10_19();
    assert(m < spec_pow10(19));
    lemma_dec_len(m, 19);
    if n < 0 {
        assert(r == seq!['-'] + dec);
        assert(s[i] == r[0]);
        assert(r[0] == '-');
        assert(forall|k: int| 0 <= k < dec.len() ==> #[trigger] dec[k] == r[k + 1]);
        assert(forall|k: int| 0 <= k < dec.len() ==> s[start + k] == #[trigger] dec[k]);
    } else {
        assert(r == dec);
        assert(forall|k: int| 0 <= k < dec.len() ==> s[start + k] == #[trigger] dec[k]);
        assert(s[i + 0] == dec[0]);
        assert(is_digit(dec[0]));
        assert(is_digit(s[i]));
        assert(s[i] != '-');
    }
    assert forall|k: int| start <= k < start + dec.len() implies is_digit(#[trigger] s[k]) by {
        assert(s[start + (k - start)] == dec[k - start]);
        assert(is_digit(dec[k - start]));
    }
    lemma_digit_run_exact(s, start, dec.len() as int);
    lemma_digits_val_of_dec(s, start, m);
    if dec.len() > 1 {
        assert(m >= 1);
        assert(s[start] == dec[0]);
        assert(dec[0] != '0');
    }
}

/// Parsing an escaped body followed by a closing quote recovers the
/// characters.
proof fn lemma_parse_string_of_escape(s: Seq<char>, p: int, t: Seq<char>)
    requires
        0 <= p,
        str_wf(t),
        p + spec_escape(t).len() + 1 <= s.len(),
        forall|k: int| 0 <= k < spec_escape(t).len() ==> s[p + k] == #[trigger] spec_escape(t)[k],
        s[p + spec_escape(t).len()] == '"',
    ensures
        spec_parse_string_body(s, p) == Some((t, p + spec_escape(t).len() + 1)),
    decreases t.len(),
{
    let e = spec_escape(t);
    if t.len() == 0 {
        assert(s[p] == '"');
    } else {
        let c = t[0];
        let ec = spec_escape_char(c);
        let rest = t.drop_first();
        let erest = spec_escape(rest);
        assert(e == ec + erest);
        assert(str_char_wf(c));
        assert(forall|k: int| 0 <= k < rest.len() ==> str_char_wf(#[trigger] rest[k])) by {
            assert(forall|k: int| 0 <= k < rest.len() ==> rest[k] == t[k + 1]);
        }
        assert forall|k: int| 0 <= k < ec.len() implies s[p + k] == #[trigger] ec[k] by {
            assert(s[p + k] == e[k]);
            assert(e[k] == ec[k]);
        }
        assert forall|k: int| 0 <= k < erest.len() implies s[p + ec.len() + k] == #[trigger] erest[k]
            by {
            assert(s[p + (ec.len() + k)] == e[ec.len() + k]);
            assert(e[ec.len() + k] == erest[k]);
        }
        lemma_parse_string_of_escape(s, p + ec.len(), rest);
        if c == '"' || c == '\\' || c == '\n' || c == '\t' || c == '\r' || c == '\u{8}' || c
            == '\u{c}' {
            assert(s[p] == '\\');
            assert(spec_unescape_char(s[p + 1]) == Some(c));
            assert(seq![c] + rest =~= t);
        } else {
            assert(ec == seq![c]);
            assert(s[p + 0] == e[0]);
            assert(e[0] == ec[0]);
            assert(s[p] == c);
            assert((c as int) >= 32);
            assert(seq![c] + rest =~= t);
        }
    }
}


/// One blank-free token at `i` makes the blank skip a no-op.
proof fn lemma_ws_zero(s: Seq<char>, i: int)
    requires
        0 <= i < s.len(),
        !is_space_char(s[i]),
    ensures
        spec_ws(s, i) == 0,
{
}

/// Parsing the rendering of a well-formed tree from position `i`
/// recovers the tree, whenever the character following the rendering
/// cannot extend a digit run.
proof fn lemma_parse_render_value(s: Seq<char>, i: int, v: JsonV)
    requires
        json_wf(v),
        0 <= i,
        i + spec_render(v).len() <= s.len(),
        forall|k: int| 0 <= k < spec_render(v).len() ==> s[i + k] == #[trigger] spec_render(v)[k],
        i + spec_render(v).len() == s.len() || !is_digit(s[i + spec_render(v).len()]),
    ensures
        spec_parse_value(s, i) == Some((v, i + spec_render(v).len())),
    decreases v, 0int,
{
    let r = spec_render(v);
    lemma_render_first(v);
    assert(s[i + 0] == r[0]);
    lemma_ws_zero(s, i);
    match v {
        JsonV::Null => {
            reveal_strlit("null");
            assert(r == "null"@);
            assert(s[i] == 'n');
            assert(match_lit(s, i, "null"@)) by {
                assert forall|k: int| 0 <= k < "null"@.len() implies s[i + k] == "null"@[k] by {
                    assert(s[i + k] == r[k]);
                }
            }
        },
        JsonV::Bool(b) => {
            reveal_strlit("true");
            reveal_strlit("false");
            if b {
                assert(s[i] == 't');
                assert(match_lit(s, i, "true"@)) by {
                    assert forall|k: int| 0 <= k < "true"@.len() implies s[i + k] == "true"@[k] by {
                        assert(s[i + k] == r[k]);
                    }
                }
            } else {
                assert(s[i] == 'f');
                assert(match_lit(s, i, "false"@)) by {
                    assert forall|k: int| 0 <= k < "false"@.len() implies s[i + k]
                        == "false"@[k] by {
                        assert(s[i + k] == r[k]);
                    }
                }
            }
        },
        JsonV::Int(n) => {
            assert(r == spec_render_int(n));
            lemma_parse_int_of_render(s, i, n);
            if n < 0 {
                assert(s[i] == '-');
            } else {
                assert(is_digit(s[i]));
                assert(s[i] != 'n' && s[i] != 't' && s[i] != 'f' && s[i] != '"');
            }
        },
        JsonV::Text(t) => {
            let e = spec_escape(t);
            assert(r == seq!['"'] + e + seq!['"']);
            assert(s[i] == '"');
            assert forall|k: int| 0 <= k < e.len() implies s[i + 1 + k] == #[trigger] e[k] by {
                assert(s[i + (1 + k)] == r[1 + k]);
                assert(r[1 + k] == e[k]);
            }
            assert(s[i + (1 + e.len() as int)] == r[1 + e.len() as int]);
            assert(r[1 + e.len() as int] == '"');
            lemma_parse_string_of_escape(s, i + 1, t);
        },
        JsonV::Arr(elems) => {
            let inner = spec_render_elems(elems);
            assert(r == seq!['['] + inner + seq![']']);
            assert(s[i] == '[');
            assert forall|k: int| 0 <= k < inner.len() implies s[i + 1 + k] == #[trigger] inner[k]
                by {
                assert(s[i + (1 + k)] == r[1 + k]);
                assert(r[1 + k] == inner[k]);
            }
            assert(s[i + (1 + inner.len() as int)] == r[1 + inner.len() as int]);
            assert(r[1 + inner.len() as int] == ']');
            assert(forall|k: int| 0 <= k < elems.len() ==> json_wf(#[trigger] elems[k]));
            lemma_parse_render_elems(s, i + 1, elems);
        },
        JsonV::Obj(members) => {
            let inner = spec_render_members(members);
            assert(r == seq!['{'] + inner + seq!['}']);
            assert(s[i] == '{');
            assert forall|k: int| 0 <= k < inner.len() implies s[i + 1 + k] == #[trigger] inner[k]
                by {
                assert(s[i + (1 + k)] == r[1 + k]);
                assert(r[1 + k] == inner[k]);
            }
            assert(s[i + (1 + inner.len() as int)] == r[1 + inner.len() as int]);
            assert(r[1 + inner.len() as int] == '}');
            lemma_parse_render_members(s, i + 1, members);
        },
    }
}

/// Parsing the rendering of well-formed array elements followed by a
/// closing bracket recovers the elements.
proof fn lemma_parse_render_elems(s: Seq<char>, p: int, elems: Seq<JsonV>)
    requires
        forall|k: int| 0 <= k < elems.len() ==> json_wf(#[trigger] elems[k]),
        0 <= p,
        p + spec_render_elems(elems).len() + 1 <= s.len(),
        forall|k: int| 0 <= k < spec_render_elems(elems).len() ==> s[p + k]
            == #[trigger] spec_render_elems(elems)[k],
        s[p + spec_render_elems(elems).len()] == ']',
    ensures
        spec_parse_elems(s, p) == Some((elems, p + spec_render_elems(elems).len() + 1)),
    decreases elems, 1int,
{
    let r = spec_render_elems(elems);
    if elems.len() == 0 {
        assert(s[p] == ']');
        lemma_ws_zero(s, p);
        assert(spec_parse_elems(s, p) == Some((Seq::<JsonV>::empty(), p + 1)));
        assert(elems =~= Seq::<JsonV>::empty());
    } else {
        let v0 = elems[0];
        let r0 = spec_render(v0);
        lemma_render_first(v0);
        if elems.len() == 1 {
            assert(r == r0);
            assert(s[p + 0] == r[0]);
            lemma_ws_zero(s, p);
            assert(s[p] != ']');
            lemma_parse_render_value(s, p, v0);
            let k = p + r0.len() as int;
            assert(s[k] == ']');
            lemma_ws_zero(s, k);
            assert(spec_parse_elems(s, p) == Some((seq![v0], k + 1)));
            assert(elems =~= seq![v0]);
        } else {
            let rest = elems.drop_first();
            let rr = spec_render_elems(rest);
            assert(r == r0 + seq![','] + rr);
            assert(s[p + 0] == r[0]);
            assert(r[0] == r0[0]);
            lemma_ws_zero(s, p);
            assert(s[p] != ']');
            assert forall|k: int| 0 <= k < r0.len() implies s[p + k] == #[trigger] r0[k] by {
                assert(s[p + k] == r[k]);
                assert(r[k] == r0[k]);
            }
            let k = p + r0.len() as int;
            assert(s[k] == ',') by {
                assert(s[p + r0.len() as int] == r[r0.len() as int]);
            }
            lemma_parse_render_value(s, p, v0);
            lemma_ws_zero(s, k);
            assert forall|t: int| 0 <= t < rr.len() implies s[k + 1 + t] == #[trigger] rr[t] by {
                assert(s[p + (r0.len() as int + 1 + t)] == r[r0.len() as int + 1 + t]);
                assert(r[r0.len() as int + 1 + t] == rr[t]);
            }
            assert(s[k + 1 + rr.len() as int] == ']') by {
                assert(s[p + r.len() as int] == s[k + 1 + rr.len() as int]);
            }
            assert(forall|t: int| 0 <= t < rest.len() ==> json_wf(#[trigger] rest[t])) by {
                assert(forall|t: int| 0 <= t < rest.len() ==> rest[t] == elems[t + 1]);
            }
            lemma_parse_render_elems(s, k + 1, rest);
            assert(rest.len() > 0);
            assert(seq![v0] + rest =~= elems);
        }
    }
}

/// Parsing the rendering of well-formed object members followed by a
/// closing brace recovers the members.
proof fn lemma_parse_render_members(s: Seq<char>, p: int, members: Seq<(Seq<char>, JsonV)>)
    requires
        forall|k: int| 0 <= k < members.len() ==> str_wf((#[trigger] members[k]).0) && json_wf(
            members[k].1,
        ),
        0 <= p,
        p + spec_render_members(members).len() + 1 <= s.len(),
        forall|k: int| 0 <= k < spec_render_members(members).len() ==> s[p + k]
            == #[trigger] spec_render_members(members)[k],
        s[p + spec_render_members(members).len()] == '}',
    ensures
        spec_parse_members(s, p) == Some((members, p + spec_render_members(members).len() + 1)),
    decreases members, 1int,
{
    let r = spec_render_members(members);
    if members.len() == 0 {
        assert(s[p] == '}');
        lemma_ws_zero(s, p);
        assert(members =~= Seq::<(Seq<char>, JsonV)>::empty());
    } else {
        let key = members[0].0;
        let v0 = members[0].1;
        let e = spec_escape(key);
        let r0 = seq!['"'] + e + seq!['"', ':'] + spec_render(v0);
        let rv = spec_render(v0);
        lemma_render_first(v0);
        if members.len() == 1 {
            assert(r == r0);
        } else {
            assert(r == r0 + seq![','] + spec_render_members(members.drop_first()));
        }
        assert forall|k: int| 0 <= k < r0.len() implies s[p + k] == #[trigger] r0[k] by {
            assert(s[p + k] == r[k]);
            assert(r[k] == r0[k]);
        }
        assert(s[p + 0] == r0[0]);
        assert(r0[0] == '"');
        lemma_ws_zero(s, p);
        assert forall|k: int| 0 <= k < e.len() implies s[p + 1 + k] == #[trigger] e[k] by {
            assert(s[p + (1 + k)] == r0[1 + k]);
            assert(r0[1 + k] == e[k]);
        }
        assert(s[p + (1 + e.len() as int)] == r0[1 + e.len() as int]);
        assert(r0[1 + e.len() as int] == '"');
        lemma_parse_string_of_escape(s, p + 1, key);
        let k2 = p + 1 + e.len() as int + 1;
        assert(s[k2] == ':') by {
            assert(s[p + (1 + e.len() as int + 1)] == r0[1 + e.len() as int + 1]);
            assert(r0[1 + e.len() as int + 1] == ':');
        }
        lemma_ws_zero(s, k2);
        assert forall|k: int| 0 <= k < rv.len() implies s[k2 + 1 + k] == #[trigger] rv[k] by {
            assert(s[p + (1 + e.len() as int + 2 + k)] == r0[1 + e.len() as int + 2 + k]);
            assert(r0[1 + e.len() as int + 2 + k] == rv[k]);
        }
        let k3 = k2 + 1 + rv.len() as int;
        assert(k3 == p + r0.len() as int);
        if members.len() == 1 {
            assert(s[k3] == '}');
            lemma_parse_render_value(s, k2 + 1, v0);
            lemma_ws_zero(s, k3);
            assert(members =~= seq![(key, v0)]);
        } else {
            let rest = members.drop_first();
            let rr = spec_render_members(rest);
            assert(s[k3] == ',') by {
                assert(s[p + r0.len() as int] == r[r0.len() as int]);
                assert(r[r0.len() as int] == ',');
            }
            lemma_parse_render_value(s, k2 + 1, v0);
            lemma_ws_zero(s, k3);
            assert forall|t: int| 0 <= t < rr.len() implies s[k3 + 1 + t] == #[trigger] rr[t] by {
                assert(s[p + (r0.len() as int + 1 + t)] == r[r0.len() as int + 1 + t]);
                assert(r[r0.len() as int + 1 + t] == rr[t]);
            }
            assert(s[k3 + 1 + rr.len() as int] == '}') by {
                assert(s[p + r.len() as int] == s[k3 + 1 + rr.len() as int]);
            }
            assert(forall|t: int| 0 <= t < rest.len() ==> str_wf((#[trigger] rest[t]).0) && json_wf(
                rest[t].1,
            )) by {
                assert(forall|t: int| 0 <= t < rest.len() ==> rest[t] == members[t + 1]);
            }
            lemma_parse_render_members(s, k3 + 1, rest);
            assert(rest.len() > 0);
            assert(seq![(key, v0)] + rest =~= members);
        }
    }
}

/// Round trip: the parser reads the renderer's output back to the
/// same tree, for every well-formed tree.
pub proof fn lemma_json_round_trip(v: JsonV)
    requires
        json_wf(v),
    ensures
        spec_parse_json(spec_render(v)) == Some(v),
{
    let s = spec_render(v);
    lemma_parse_render_value(s, 0, v);
    assert(spec_ws(s, s.len() as int) == 0);
}

} // verus!
