use vstd::prelude::*;

verus! {

use crate::storefile::{parse_lit, parse_str_body, parse_string, parse_string_at};
use vstd::string::StrSliceExecFns;

// Responses arrive as structured text. The shapes this program reads are
// flat: an object of scalar fields (a nested array or object is kept as its
// raw text), or an array of such objects. Strings use the same escapes as the
// profile file; numbers are kept as their written text and never interpreted.

/// Whitespace between tokens.
pub open spec fn is_ws(c: char) -> bool {
    c == ' ' || c == '\n' || c == '\t' || c == '\r'
}

/// The remainder after leading whitespace.
pub open spec fn skip_ws(s: Seq<char>) -> Seq<char>
    decreases s.len(),
{
    if s.len() > 0 && is_ws(s[0]) {
        skip_ws(s.drop_first())
    } else {
        s
    }
}

/// Nothing but whitespace remains.
pub open spec fn ws_only(s: Seq<char>) -> bool {
    skip_ws(s).len() == 0
}

/// A character that can appear in a written number.
pub open spec fn is_num_char(c: char) -> bool {
    ('0' <= c && c <= '9') || c == '-' || c == '+' || c == '.' || c == 'e' || c == 'E'
}

/// The longest prefix of number characters, and the remainder.
pub open spec fn parse_num(s: Seq<char>) -> (Seq<char>, Seq<char>)
    decreases s.len(),
{
    if s.len() > 0 && is_num_char(s[0]) {
        let t = parse_num(s.drop_first());
        (seq![s[0]] + t.0, t.1)
    } else {
        (Seq::empty(), s)
    }
}

/// Consumes the rest of a balanced bracketed construct whose opener was
/// already consumed, yielding the consumed text (closer included) and the
/// remainder.
pub open spec fn parse_raw_from(s: Seq<char>, depth: nat, in_str: bool, esc: bool) -> Option<
    (Seq<char>, Seq<char>),
>
    decreases s.len(),
{
    if s.len() == 0 {
        None
    } else {
        let c = s[0];
        let r = s.drop_first();
        if in_str {
            let t = if esc {
                parse_raw_from(r, depth, true, false)
            } else if c == '\\' {
                parse_raw_from(r, depth, true, true)
            } else if c == '"' {
                parse_raw_from(r, depth, false, false)
            } else {
                parse_raw_from(r, depth, true, false)
            };
            match t {
                Some(p) => Some((seq![c] + p.0, p.1)),
                None => None,
            }
        } else if c == ']' || c == '}' {
            if depth == 1 {
                Some((seq![c], r))
            } else {
                match parse_raw_from(r, (depth - 1) as nat, false, false) {
                    Some(p) => Some((seq![c] + p.0, p.1)),
                    None => None,
                }
            }
        } else if c == '[' || c == '{' {
            match parse_raw_from(r, depth + 1, false, false) {
                Some(p) => Some((seq![c] + p.0, p.1)),
                None => None,
            }
        } else if c == '"' {
            match parse_raw_from(r, depth, true, false) {
                Some(p) => Some((seq![c] + p.0, p.1)),
                None => None,
            }
        } else {
            match parse_raw_from(r, depth, false, false) {
                Some(p) => Some((seq![c] + p.0, p.1)),
                None => None,
            }
        }
    }
}

/// One field value as this program reads it.
pub enum FieldVal {
    Null,
    Bool(bool),
    /// A number, kept as its written text.
    Num(Vec<char>),
    /// A string, unescaped.
    Str(Vec<char>),
    /// A nested array or object, kept as its raw written text.
    Raw(Vec<char>),
}

/// The mathematical value of a field value.
pub ghost enum FieldValV {
    Null,
    Bool(bool),
    Num(Seq<char>),
    Str(Seq<char>),
    Raw(Seq<char>),
}

impl View for FieldVal {
    type V = FieldValV;

    open spec fn view(&self) -> FieldValV {
        match self {
            FieldVal::Null => FieldValV::Null,
            FieldVal::Bool(b) => FieldValV::Bool(*b),
            FieldVal::Num(v) => FieldValV::Num(v@),
            FieldVal::Str(v) => FieldValV::Str(v@),
            FieldVal::Raw(v) => FieldValV::Raw(v@),
        }
    }
}

/// Consumes one value: a string, a bracketed construct kept raw, a literal
/// word, or a number.
pub open spec fn parse_value(s: Seq<char>) -> Option<(FieldValV, Seq<char>)> {
    if s.len() == 0 {
        None
    } else if s[0] == '"' {
        match parse_str_body(s.drop_first()) {
            Some(t) => Some((FieldValV::Str(t.0), t.1)),
            None => None,
        }
    } else if s[0] == '{' || s[0] == '[' {
        match parse_raw_from(s.drop_first(), 1, false, false) {
            Some(t) => Some((FieldValV::Raw(seq![s[0]] + t.0), t.1)),
            None => None,
        }
    } else {
        match parse_lit(s, "true"@) {
            Some(u) => Some((FieldValV::Bool(true), u)),
            None => match parse_lit(s, "false"@) {
                Some(u) => Some((FieldValV::Bool(false), u)),
                None => match parse_lit(s, "null"@) {
                    Some(u) => Some((FieldValV::Null, u)),
                    None => {
                        let t = parse_num(s);
                        if t.0.len() > 0 {
                            Some((FieldValV::Num(t.0), t.1))
                        } else {
                            None
                        }
                    },
                },
            },
        }
    }
}

/// One named field of an object.
pub struct JsonMember {
    pub key: Vec<char>,
    pub val: FieldVal,
}

/// The mathematical value of one field.
pub ghost struct MemberV {
    pub key: Seq<char>,
    pub val: FieldValV,
}

impl View for JsonMember {
    type V = MemberV;

    open spec fn view(&self) -> MemberV {
        MemberV { key: self.key@, val: self.val@ }
    }
}

/// The field values held by a member list, in order.
pub open spec fn members_view(v: Seq<JsonMember>) -> Seq<MemberV> {
    Seq::new(v.len(), |i: int| v[i]@)
}

/// The member lists held by a list of objects, in order.
pub open spec fn objects_view(v: Seq<Vec<JsonMember>>) -> Seq<Seq<MemberV>> {
    Seq::new(v.len(), |i: int| members_view(v[i]@))
}

/// The values held by a list of field values, in order.
pub open spec fn values_view(v: Seq<FieldVal>) -> Seq<FieldValV> {
    Seq::new(v.len(), |i: int| v[i]@)
}

/// The character sequences held by a list of output lines, in order.
pub open spec fn lines_view(v: Seq<String>) -> Seq<Seq<char>> {
    Seq::new(v.len(), |i: int| v[i]@)
}

/// Consumes the members of an object, positioned at the first key, up to and
/// including the closing brace.
pub open spec fn parse_members(s: Seq<char>, fuel: nat) -> Option<(Seq<MemberV>, Seq<char>)>
    decreases fuel,
{
    if fuel == 0 {
        None
    } else {
        match parse_string(s) {
            Some((key, s1)) => {
                let s2 = skip_ws(s1);
                if s2.len() > 0 && s2[0] == ':' {
                    let s3 = skip_ws(s2.drop_first());
                    match parse_value(s3) {
                        Some((v, s4)) => {
                            let s5 = skip_ws(s4);
                            if s5.len() > 0 && s5[0] == ',' {
                                match parse_members(
                                    skip_ws(s5.drop_first()),
                                    (fuel - 1) as nat,
                                ) {
                                    Some((ms, u)) => Some(
                                        (seq![MemberV { key, val: v }] + ms, u),
                                    ),
                                    None => None,
                                }
                            } else if s5.len() > 0 && s5[0] == '}' {
                                Some((seq![MemberV { key, val: v }], s5.drop_first()))
                            } else {
                                None
                            }
                        },
                        None => None,
                    }
                } else {
                    None
                }
            },
            None => None,
        }
    }
}

/// Consumes one object, leading whitespace allowed.
pub open spec fn parse_object(s: Seq<char>) -> Option<(Seq<MemberV>, Seq<char>)> {
    let s0 = skip_ws(s);
    if s0.len() > 0 && s0[0] == '{' {
        let s1 = skip_ws(s0.drop_first());
        if s1.len() > 0 && s1[0] == '}' {
            Some((Seq::empty(), s1.drop_first()))
        } else {
            parse_members(s1, s1.len() as nat)
        }
    } else {
        None
    }
}

/// Consumes the comma-separated objects of an array, positioned at the first
/// object, up to and including the closing bracket.
pub open spec fn parse_objects(s: Seq<char>, fuel: nat) -> Option<(Seq<Seq<MemberV>>, Seq<char>)>
    decreases fuel,
{
    if fuel == 0 {
        None
    } else {
        match parse_object(s) {
            Some((ms, u)) => {
                let u1 = skip_ws(u);
                if u1.len() > 0 && u1[0] == ',' {
                    match parse_objects(u1.drop_first(), (fuel - 1) as nat) {
                        Some((os, v)) => Some((seq![ms] + os, v)),
                        None => None,
                    }
                } else if u1.len() > 0 && u1[0] == ']' {
                    Some((seq![ms], u1.drop_first()))
                } else {
                    None
                }
            },
            None => None,
        }
    }
}

/// Consumes the comma-separated values of an array, positioned at the first
/// value, up to and including the closing bracket.
pub open spec fn parse_elems(s: Seq<char>, fuel: nat) -> Option<(Seq<FieldValV>, Seq<char>)>
    decreases fuel,
{
    if fuel == 0 {
        None
    } else {
        match parse_value(s) {
            Some((v, u)) => {
                let u1 = skip_ws(u);
                if u1.len() > 0 && u1[0] == ',' {
                    match parse_elems(skip_ws(u1.drop_first()), (fuel - 1) as nat) {
                        Some((vs, w)) => Some((seq![v] + vs, w)),
                        None => None,
                    }
                } else if u1.len() > 0 && u1[0] == ']' {
                    Some((seq![v], u1.drop_first()))
                } else {
                    None
                }
            },
            None => None,
        }
    }
}

/// A whole body holding exactly one object.
pub open spec fn body_object(s: Seq<char>) -> Option<Seq<MemberV>> {
    match parse_object(s) {
        Some((ms, u)) => if ws_only(u) {
            Some(ms)
        } else {
            None
        },
        None => None,
    }
}

/// A whole body holding exactly one array of objects.
pub open spec fn body_objects(s: Seq<char>) -> Option<Seq<Seq<MemberV>>> {
    let s0 = skip_ws(s);
    if s0.len() > 0 && s0[0] == '[' {
        let s1 = skip_ws(s0.drop_first());
        if s1.len() > 0 && s1[0] == ']' {
            if ws_only(s1.drop_first()) {
                Some(Seq::empty())
            } else {
                None
            }
        } else {
            match parse_objects(s1, s1.len() as nat) {
                Some((os, u)) => if ws_only(u) {
                    Some(os)
                } else {
                    None
                },
                None => None,
            }
        }
    } else {
        None
    }
}

/// A whole body holding exactly one value.
pub open spec fn body_value(s: Seq<char>) -> Option<FieldValV> {
    let s0 = skip_ws(s);
    match parse_value(s0) {
        Some((v, u)) => if ws_only(u) {
            Some(v)
        } else {
            None
        },
        None => None,
    }
}

/// The values of a whole array kept as raw text.
pub open spec fn array_values(s: Seq<char>) -> Option<Seq<FieldValV>> {
    if s.len() > 0 && s[0] == '[' {
        let s1 = skip_ws(s.drop_first());
        if s1.len() > 0 && s1[0] == ']' {
            if ws_only(s1.drop_first()) {
                Some(Seq::empty())
            } else {
                None
            }
        } else {
            match parse_elems(s1, s1.len() as nat) {
                Some((vs, u)) => if ws_only(u) {
                    Some(vs)
                } else {
                    None
                },
                None => None,
            }
        }
    } else {
        None
    }
}

/// The first field with this key, when any.
pub open spec fn find_field(ms: Seq<MemberV>, key: Seq<char>) -> Option<FieldValV>
    decreases ms.len(),
{
    if ms.len() == 0 {
        None
    } else if ms[0].key == key {
        Some(ms[0].val)
    } else {
        find_field(ms.drop_first(), key)
    }
}

// ---------------------------------------------------------------------------
// Executable reader, each function exactly mirroring its written form above.
// ---------------------------------------------------------------------------

/// The position after leading whitespace.
#[verifier::loop_isolation(false)]
pub(crate) fn skip_ws_at(s: &Vec<char>, i: usize) -> (j: usize)
    requires
        i <= s@.len(),
    ensures
        i <= j <= s@.len(),
        skip_ws(s@.skip(i as int)) == s@.skip(j as int),
{
    let mut j = i;
    while j < s.len() && (s[j] == ' ' || s[j] == '\n' || s[j] == '\t' || s[j] == '\r')
        invariant
            i <= j <= s@.len(),
            skip_ws(s@.skip(i as int)) == skip_ws(s@.skip(j as int)),
        decreases s@.len() - j,
    {
        proof {
            let u = s@.skip(j as int);
            assert(u[0] == s@[j as int]);
            assert(u.drop_first() =~= s@.skip(j + 1 as int));
        }
        j = j + 1;
    }
    proof {
        let u = s@.skip(j as int);
        if j < s.len() {
            assert(u[0] == s@[j as int]);
        }
    }
    j
}

fn num_char(c: char) -> (r: bool)
    ensures
        r == is_num_char(c),
{
    ('0' <= c && c <= '9') || c == '-' || c == '+' || c == '.' || c == 'e' || c == 'E'
}

/// Consumes the longest run of number characters.
#[verifier::loop_isolation(false)]
fn parse_num_at(s: &Vec<char>, i: usize) -> (r: (Vec<char>, usize))
    requires
        i <= s@.len(),
    ensures
        i <= r.1 <= s@.len(),
        parse_num(s@.skip(i as int)) == (r.0@, s@.skip(r.1 as int)),
{
    let mut out: Vec<char> = Vec::new();
    let mut j = i;
    while j < s.len() && num_char(s[j])
        invariant
            i <= j <= s@.len(),
            out@ == s@.subrange(i as int, j as int),
            parse_num(s@.skip(i as int)) == (
                s@.subrange(i as int, j as int) + parse_num(s@.skip(j as int)).0,
                parse_num(s@.skip(j as int)).1,
            ),
        decreases s@.len() - j,
    {
        proof {
            let u = s@.skip(j as int);
            assert(u[0] == s@[j as int]);
            assert(u.drop_first() =~= s@.skip(j + 1 as int));
            assert(s@.subrange(i as int, j as int) + seq![s@[j as int]] =~= s@.subrange(
                i as int,
                j + 1 as int,
            ));
            assert(s@.subrange(i as int, j as int) + (seq![u[0]] + parse_num(
                s@.skip(j + 1 as int),
            ).0) =~= s@.subrange(i as int, j + 1 as int) + parse_num(s@.skip(j + 1 as int)).0);
        }
        out.push(s[j]);
        j = j + 1;
    }
    proof {
        let u = s@.skip(j as int);
        if j < s.len() {
            assert(u[0] == s@[j as int]);
        }
        assert(parse_num(u) == (Seq::<char>::empty(), u));
        assert(s@.subrange(i as int, j as int) + Seq::<char>::empty() =~= s@.subrange(
            i as int,
            j as int,
        ));
    }
    (out, j)
}

/// Consumes the rest of a balanced bracketed construct.
fn parse_raw_at(s: &Vec<char>, i: usize, depth: usize, in_str: bool, esc: bool) -> (r: Option<
    (Vec<char>, usize),
>)
    requires
        i <= s@.len(),
        1 <= depth <= i,
    ensures
        match r {
            Some(t) => t.1 <= s@.len() && parse_raw_from(
                s@.skip(i as int),
                depth as nat,
                in_str,
                esc,
            ) == Some((t.0@, s@.skip(t.1 as int))),
            None => parse_raw_from(s@.skip(i as int), depth as nat, in_str, esc) is None,
        },
    decreases s@.len() - i,
{
    if i == s.len() {
        return None;
    }
    let c = s[i];
    proof {
        assert(s@.skip(i as int)[0] == c);
        assert(s@.skip(i as int).drop_first() =~= s@.skip(i + 1 as int));
    }
    let sub: Option<(Vec<char>, usize)> = if in_str {
        if esc {
            parse_raw_at(s, i + 1, depth, true, false)
        } else if c == '\\' {
            parse_raw_at(s, i + 1, depth, true, true)
        } else if c == '"' {
            parse_raw_at(s, i + 1, depth, false, false)
        } else {
            parse_raw_at(s, i + 1, depth, true, false)
        }
    } else if c == ']' || c == '}' {
        if depth == 1 {
            let mut t: Vec<char> = Vec::new();
            t.push(c);
            proof {
                assert(t@ =~= seq![c]);
            }
            return Some((t, i + 1));
        } else {
            parse_raw_at(s, i + 1, depth - 1, false, false)
        }
    } else if c == '[' || c == '{' {
        parse_raw_at(s, i + 1, depth + 1, false, false)
    } else if c == '"' {
        parse_raw_at(s, i + 1, depth, true, false)
    } else {
        parse_raw_at(s, i + 1, depth, false, false)
    };
    match sub {
        Some((t, j)) => {
            let mut t2 = t;
            let ghost tv = t2@;
            t2.insert(0, c);
            proof {
                assert(t2@ =~= seq![c] + tv);
            }
            Some((t2, j))
        },
        None => None,
    }
}

/// Consumes one value.
fn parse_value_at(s: &Vec<char>, i: usize) -> (r: Option<(FieldVal, usize)>)
    requires
        i <= s@.len(),
    ensures
        match r {
            Some(t) => t.1 <= s@.len() && parse_value(s@.skip(i as int)) == Some(
                (t.0@, s@.skip(t.1 as int)),
            ),
            None => parse_value(s@.skip(i as int)) is None,
        },
{
    if i == s.len() {
        return None;
    }
    let c = s[i];
    proof {
        assert(s@.skip(i as int)[0] == c);
        assert(s@.skip(i as int).drop_first() =~= s@.skip(i + 1 as int));
    }
    if c == '"' {
        match parse_string_at(s, i) {
            Some((t, j)) => Some((FieldVal::Str(t), j)),
            None => None,
        }
    } else if c == '{' || c == '[' {
        match parse_raw_at(s, i + 1, 1, false, false) {
            Some((t, j)) => {
                let mut t2 = t;
                let ghost tv = t2@;
                t2.insert(0, c);
                proof {
                    assert(t2@ =~= seq![c] + tv);
                }
                Some((FieldVal::Raw(t2), j))
            },
            None => None,
        }
    } else {
        match crate::storefile::expect_lit_at(s, i, "true") {
            Some(j) => {
                return Some((FieldVal::Bool(true), j));
            },
            None => {},
        }
        match crate::storefile::expect_lit_at(s, i, "false") {
            Some(j) => {
                return Some((FieldVal::Bool(false), j));
            },
            None => {},
        }
        match crate::storefile::expect_lit_at(s, i, "null") {
            Some(j) => {
                return Some((FieldVal::Null, j));
            },
            None => {},
        }
        let (raw, j) = parse_num_at(s, i);
        if raw.len() > 0 {
            Some((FieldVal::Num(raw), j))
        } else {
            None
        }
    }
}

/// Consumes the members of an object up to its closing brace.
fn parse_members_at(s: &Vec<char>, i: usize, fuel: usize) -> (r: Option<(Vec<JsonMember>, usize)>)
    requires
        i <= s@.len(),
    ensures
        match r {
            Some(t) => t.1 <= s@.len() && parse_members(s@.skip(i as int), fuel as nat) == Some(
                (members_view(t.0@), s@.skip(t.1 as int)),
            ),
            None => parse_members(s@.skip(i as int), fuel as nat) is None,
        },
    decreases fuel,
{
    if fuel == 0 {
        return None;
    }
    let (key, j1) = match parse_string_at(s, i) {
        Some(t) => t,
        None => {
            return None;
        },
    };
    let j2 = skip_ws_at(s, j1);
    if j2 == s.len() {
        return None;
    }
    let c2 = s[j2];
    proof {
        assert(s@.skip(j2 as int)[0] == c2);
        assert(s@.skip(j2 as int).drop_first() =~= s@.skip(j2 + 1 as int));
    }
    if c2 != ':' {
        return None;
    }
    let j3 = skip_ws_at(s, j2 + 1);
    let (v, j4) = match parse_value_at(s, j3) {
        Some(t) => t,
        None => {
            return None;
        },
    };
    let j5 = skip_ws_at(s, j4);
    if j5 == s.len() {
        return None;
    }
    let c5 = s[j5];
    proof {
        assert(s@.skip(j5 as int)[0] == c5);
        assert(s@.skip(j5 as int).drop_first() =~= s@.skip(j5 + 1 as int));
    }
    if c5 == ',' {
        let j6 = skip_ws_at(s, j5 + 1);
        match parse_members_at(s, j6, fuel - 1) {
            Some((ms, u)) => {
                let mut ms2 = ms;
                let ghost mv = ms2@;
                ms2.insert(0, JsonMember { key, val: v });
                proof {
                    assert(members_view(ms2@) =~= seq![ms2@[0]@] + members_view(mv));
                }
                Some((ms2, u))
            },
            None => None,
        }
    } else if c5 == '}' {
        let mut ms: Vec<JsonMember> = Vec::new();
        ms.push(JsonMember { key, val: v });
        proof {
            assert(members_view(ms@) =~= seq![ms@[0]@]);
        }
        Some((ms, j5 + 1))
    } else {
        None
    }
}

/// Consumes one object, leading whitespace allowed.
fn parse_object_at(s: &Vec<char>, i: usize) -> (r: Option<(Vec<JsonMember>, usize)>)
    requires
        i <= s@.len(),
    ensures
        match r {
            Some(t) => t.1 <= s@.len() && parse_object(s@.skip(i as int)) == Some(
                (members_view(t.0@), s@.skip(t.1 as int)),
            ),
            None => parse_object(s@.skip(i as int)) is None,
        },
{
    let i0 = skip_ws_at(s, i);
    if i0 == s.len() {
        return None;
    }
    let c = s[i0];
    proof {
        assert(s@.skip(i0 as int)[0] == c);
        assert(s@.skip(i0 as int).drop_first() =~= s@.skip(i0 + 1 as int));
    }
    if c != '{' {
        return None;
    }
    let i1 = skip_ws_at(s, i0 + 1);
    if i1 == s.len() {
        proof {
            assert(s@.skip(i1 as int).len() == 0);
        }
        return None;
    }
    let c1 = s[i1];
    proof {
        assert(s@.skip(i1 as int)[0] == c1);
        assert(s@.skip(i1 as int).drop_first() =~= s@.skip(i1 + 1 as int));
    }
    if c1 == '}' {
        let ms: Vec<JsonMember> = Vec::new();
        proof {
            assert(members_view(ms@) =~= Seq::<MemberV>::empty());
        }
        return Some((ms, i1 + 1));
    }
    proof {
        assert(s@.skip(i1 as int).len() == s@.len() - i1);
    }
    parse_members_at(s, i1, s.len() - i1)
}

/// Consumes the objects of an array up to its closing bracket.
fn parse_objects_at(s: &Vec<char>, i: usize, fuel: usize) -> (r: Option<
    (Vec<Vec<JsonMember>>, usize),
>)
    requires
        i <= s@.len(),
    ensures
        match r {
            Some(t) => t.1 <= s@.len() && parse_objects(s@.skip(i as int), fuel as nat) == Some(
                (objects_view(t.0@), s@.skip(t.1 as int)),
            ),
            None => parse_objects(s@.skip(i as int), fuel as nat) is None,
        },
    decreases fuel,
{
    if fuel == 0 {
        return None;
    }
    let (ms, j) = match parse_object_at(s, i) {
        Some(t) => t,
        None => {
            return None;
        },
    };
    let j1 = skip_ws_at(s, j);
    if j1 == s.len() {
        return None;
    }
    let c = s[j1];
    proof {
        assert(s@.skip(j1 as int)[0] == c);
        assert(s@.skip(j1 as int).drop_first() =~= s@.skip(j1 + 1 as int));
    }
    if c == ',' {
        match parse_objects_at(s, j1 + 1, fuel - 1) {
            Some((os, u)) => {
                let mut os2 = os;
                let ghost ov = os2@;
                os2.insert(0, ms);
                proof {
                    assert(objects_view(os2@) =~= seq![members_view(os2@[0]@)] + objects_view(ov));
                }
                Some((os2, u))
            },
            None => None,
        }
    } else if c == ']' {
        let mut os: Vec<Vec<JsonMember>> = Vec::new();
        os.push(ms);
        proof {
            assert(objects_view(os@) =~= seq![members_view(os@[0]@)]);
        }
        Some((os, j1 + 1))
    } else {
        None
    }
}

/// Consumes the values of an array up to its closing bracket.
fn parse_elems_at(s: &Vec<char>, i: usize, fuel: usize) -> (r: Option<(Vec<FieldVal>, usize)>)
    requires
        i <= s@.len(),
    ensures
        match r {
            Some(t) => t.1 <= s@.len() && parse_elems(s@.skip(i as int), fuel as nat) == Some(
                (values_view(t.0@), s@.skip(t.1 as int)),
            ),
            None => parse_elems(s@.skip(i as int), fuel as nat) is None,
        },
    decreases fuel,
{
    if fuel == 0 {
        return None;
    }
    let (v, j) = match parse_value_at(s, i) {
        Some(t) => t,
        None => {
            return None;
        },
    };
    let j1 = skip_ws_at(s, j);
    if j1 == s.len() {
        return None;
    }
    let c = s[j1];
    proof {
        assert(s@.skip(j1 as int)[0] == c);
        assert(s@.skip(j1 as int).drop_first() =~= s@.skip(j1 + 1 as int));
    }
    if c == ',' {
        let j2 = skip_ws_at(s, j1 + 1);
        match parse_elems_at(s, j2, fuel - 1) {
            Some((vs, u)) => {
                let mut vs2 = vs;
                let ghost vv = vs2@;
                vs2.insert(0, v);
                proof {
                    assert(values_view(vs2@) =~= seq![vs2@[0]@] + values_view(vv));
                }
                Some((vs2, u))
            },
            None => None,
        }
    } else if c == ']' {
        let mut vs: Vec<FieldVal> = Vec::new();
        vs.push(v);
        proof {
            assert(values_view(vs@) =~= seq![vs@[0]@]);
        }
        Some((vs, j1 + 1))
    } else {
        None
    }
}

/// A whole body holding exactly one object.
pub fn parse_body_object(body: &str) -> (r: Option<Vec<JsonMember>>)
    ensures
        match r {
            Some(v) => body_object(body@) == Some(members_view(v@)),
            None => body_object(body@) is None,
        },
{
    let s = crate::text::str_to_chars(body);
    proof {
        assert(s@.skip(0) =~= s@);
    }
    match parse_object_at(&s, 0) {
        Some((ms, j)) => {
            let j2 = skip_ws_at(&s, j);
            if j2 == s.len() {
                Some(ms)
            } else {
                None
            }
        },
        None => None,
    }
}

/// A whole body holding exactly one array of objects.
pub fn parse_body_objects(body: &str) -> (r: Option<Vec<Vec<JsonMember>>>)
    ensures
        match r {
            Some(v) => body_objects(body@) == Some(objects_view(v@)),
            None => body_objects(body@) is None,
        },
{
    let s = crate::text::str_to_chars(body);
    proof {
        assert(s@.skip(0) =~= s@);
    }
    let i0 = skip_ws_at(&s, 0);
    if i0 == s.len() {
        return None;
    }
    let c = s[i0];
    proof {
        assert(s@.skip(i0 as int)[0] == c);
        assert(s@.skip(i0 as int).drop_first() =~= s@.skip(i0 + 1 as int));
    }
    if c != '[' {
        return None;
    }
    let i1 = skip_ws_at(&s, i0 + 1);
    if i1 == s.len() {
        proof {
            assert(s@.skip(i1 as int).len() == 0);
        }
        return None;
    }
    let c1 = s[i1];
    proof {
        assert(s@.skip(i1 as int)[0] == c1);
        assert(s@.skip(i1 as int).drop_first() =~= s@.skip(i1 + 1 as int));
    }
    if c1 == ']' {
        let j2 = skip_ws_at(&s, i1 + 1);
        if j2 == s.len() {
            let os: Vec<Vec<JsonMember>> = Vec::new();
            proof {
                assert(objects_view(os@) =~= Seq::<Seq<MemberV>>::empty());
            }
            return Some(os);
        }
        return None;
    }
    proof {
        assert(s@.skip(i1 as int).len() == s@.len() - i1);
    }
    match parse_objects_at(&s, i1, s.len() - i1) {
        Some((os, j)) => {
            let j2 = skip_ws_at(&s, j);
            if j2 == s.len() {
                Some(os)
            } else {
                None
            }
        },
        None => None,
    }
}

/// A whole body holding exactly one value.
pub fn parse_body_value(body: &str) -> (r: Option<FieldVal>)
    ensures
        match r {
            Some(v) => body_value(body@) == Some(v@),
            None => body_value(body@) is None,
        },
{
    let s = crate::text::str_to_chars(body);
    proof {
        assert(s@.skip(0) =~= s@);
    }
    let i0 = skip_ws_at(&s, 0);
    match parse_value_at(&s, i0) {
        Some((v, j)) => {
            let j2 = skip_ws_at(&s, j);
            if j2 == s.len() {
                Some(v)
            } else {
                None
            }
        },
        None => None,
    }
}

/// The values of an array kept as raw text.
pub fn parse_array_values(v: &Vec<char>) -> (r: Option<Vec<FieldVal>>)
    ensures
        match r {
            Some(vs) => array_values(v@) == Some(values_view(vs@)),
            None => array_values(v@) is None,
        },
{
    if v.len() == 0 {
        return None;
    }
    let c = v[0];
    if c != '[' {
        return None;
    }
    proof {
        assert(v@.drop_first() =~= v@.skip(1));
    }
    let i1 = skip_ws_at(v, 1);
    if i1 == v.len() {
        proof {
            assert(v@.skip(i1 as int).len() == 0);
        }
        return None;
    }
    let c1 = v[i1];
    proof {
        assert(v@.skip(i1 as int)[0] == c1);
        assert(v@.skip(i1 as int).drop_first() =~= v@.skip(i1 + 1 as int));
    }
    if c1 == ']' {
        let j2 = skip_ws_at(v, i1 + 1);
        if j2 == v.len() {
            let vs: Vec<FieldVal> = Vec::new();
            proof {
                assert(values_view(vs@) =~= Seq::<FieldValV>::empty());
            }
            return Some(vs);
        }
        return None;
    }
    proof {
        assert(v@.skip(i1 as int).len() == v@.len() - i1);
    }
    match parse_elems_at(v, i1, v.len() - i1) {
        Some((vs, j)) => {
            let j2 = skip_ws_at(v, j);
            if j2 == v.len() {
                Some(vs)
            } else {
                None
            }
        },
        None => None,
    }
}

/// Whether the characters equal the string slice.
fn chars_eq_str(v: &Vec<char>, s: &str) -> (r: bool)
    ensures
        r == (v@ == s@),
{
    let n = s.unicode_len();
    if v.len() != n {
        return false;
    }
    let mut i: usize = 0;
    while i < n
        invariant
            i <= n,
            n == s@.len(),
            n == v@.len(),
            forall|j: int| 0 <= j < i ==> v@[j] == s@[j],
        decreases n - i,
    {
        if v[i] != s.get_char(i) {
            return false;
        }
        i = i + 1;
    }
    proof {
        assert(v@ =~= s@);
    }
    true
}

/// `find_field` yields the first matching position's value.
proof fn lemma_find_field_at(ms: Seq<MemberV>, key: Seq<char>, i: int)
    requires
        0 <= i < ms.len(),
        ms[i].key == key,
        forall|j: int| 0 <= j < i ==> ms[j].key != key,
    ensures
        find_field(ms, key) == Some(ms[i].val),
    decreases i,
{
    if i == 0 {
    } else {
        assert(ms[0].key != key);
        assert(forall|j: int| 0 <= j < ms.drop_first().len() ==> ms.drop_first()[j] == ms[j + 1]);
        lemma_find_field_at(ms.drop_first(), key, i - 1);
    }
}

/// `find_field` yields nothing when no position matches.
proof fn lemma_find_field_none(ms: Seq<MemberV>, key: Seq<char>)
    requires
        forall|j: int| 0 <= j < ms.len() ==> ms[j].key != key,
    ensures
        find_field(ms, key) is None,
    decreases ms.len(),
{
    if ms.len() == 0 {
    } else {
        assert(forall|j: int| 0 <= j < ms.drop_first().len() ==> ms.drop_first()[j] == ms[j + 1]);
        lemma_find_field_none(ms.drop_first(), key);
    }
}

/// The first field carrying this key, when any.
pub fn get_field<'a>(ms: &'a Vec<JsonMember>, key: &str) -> (r: Option<&'a FieldVal>)
    ensures
        match r {
            Some(v) => find_field(members_view(ms@), key@) == Some(v@),
            None => find_field(members_view(ms@), key@) is None,
        },
{
    let n = ms.len();
    let mut i: usize = 0;
    while i < n
        invariant
            i <= n,
            n == ms@.len(),
            forall|j: int| 0 <= j < i ==> members_view(ms@)[j].key != key@,
        decreases n - i,
    {
        if chars_eq_str(&ms[i].key, key) {
            proof {
                assert(members_view(ms@)[i as int].key == key@);
                lemma_find_field_at(members_view(ms@), key@, i as int);
            }
            return Some(&ms[i].val);
        }
        i = i + 1;
    }
    proof {
        lemma_find_field_none(members_view(ms@), key@);
    }
    None
}

} // verus!
