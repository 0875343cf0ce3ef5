use vstd::prelude::*;

verus! {

use crate::errors::CliError;
use crate::profile::{profiles_view, CliConfig, Profile, ProfileV};
use crate::text::{chars_to_string, push_str_chars, str_to_chars};
use vstd::string::StrSliceExecFns;

// The profile store is persisted as one structured text file of this exact
// shape, profiles in store order, every string written with `"` and `\`
// escaped:
//
//   {"profiles":[{"name":"...","base_url":"...","api_key":"..."},...]}

/// How one character is written inside a quoted string.
pub open spec fn esc_char(c: char) -> Seq<char> {
    if c == '"' || c == '\\' {
        seq!['\\', c]
    } else {
        seq![c]
    }
}

/// How a whole text is written inside a quoted string.
pub open spec fn escape(t: Seq<char>) -> Seq<char>
    decreases t.len(),
{
    if t.len() == 0 {
        Seq::empty()
    } else {
        esc_char(t[0]) + escape(t.drop_first())
    }
}

/// What a character after a backslash denotes, or nothing when the escape is
/// unknown.
pub open spec fn unesc_char(c: char) -> Option<char> {
    if c == '"' {
        Some('"')
    } else if c == '\\' {
        Some('\\')
    } else if c == '/' {
        Some('/')
    } else if c == 'n' {
        Some('\n')
    } else if c == 't' {
        Some('\t')
    } else if c == 'r' {
        Some('\r')
    } else {
        None
    }
}

/// A quoted string token: opening quote, escaped text, closing quote.
pub open spec fn ser_string(t: Seq<char>) -> Seq<char> {
    seq!['"'] + escape(t) + seq!['"']
}

pub open spec fn lit_name() -> Seq<char> {
    "{\"name\":"@
}

pub open spec fn lit_base_url() -> Seq<char> {
    ",\"base_url\":"@
}

pub open spec fn lit_api_key() -> Seq<char> {
    ",\"api_key\":"@
}

pub open spec fn lit_head() -> Seq<char> {
    "{\"profiles\":["@
}

/// How one profile is written.
pub open spec fn ser_profile(p: ProfileV) -> Seq<char> {
    lit_name() + ser_string(p.name) + lit_base_url() + ser_string(p.base_url) + lit_api_key()
        + ser_string(p.api_key) + seq!['}']
}

/// How the profile list is written: comma-separated, no trailing comma.
pub open spec fn ser_profiles(ps: Seq<ProfileV>) -> Seq<char>
    decreases ps.len(),
{
    if ps.len() == 0 {
        Seq::empty()
    } else if ps.len() == 1 {
        ser_profile(ps[0])
    } else {
        ser_profile(ps[0]) + seq![','] + ser_profiles(ps.drop_first())
    }
}

/// How the whole store is written.
pub open spec fn ser_store(ps: Seq<ProfileV>) -> Seq<char> {
    lit_head() + ser_profiles(ps) + seq![']'] + seq!['}']
}

/// Consumes an exact literal prefix, yielding the remainder.
pub open spec fn parse_lit(s: Seq<char>, lit: Seq<char>) -> Option<Seq<char>> {
    if lit.len() <= s.len() && s.subrange(0, lit.len() as int) == lit {
        Some(s.skip(lit.len() as int))
    } else {
        None
    }
}

/// Consumes the text of a string up to and including its closing quote,
/// yielding the unescaped content and the remainder.
pub open spec fn parse_str_body(s: Seq<char>) -> Option<(Seq<char>, Seq<char>)>
    decreases s.len(),
{
    if s.len() == 0 {
        None
    } else if s[0] == '"' {
        Some((Seq::empty(), s.drop_first()))
    } else if s[0] == '\\' {
        if s.len() >= 2 {
            match unesc_char(s[1]) {
                Some(c) => match parse_str_body(s.skip(2)) {
                    Some(t) => Some((seq![c] + t.0, t.1)),
                    None => None,
                },
                None => None,
            }
        } else {
            None
        }
    } else {
        match parse_str_body(s.drop_first()) {
            Some(t) => Some((seq![s[0]] + t.0, t.1)),
            None => None,
        }
    }
}

/// Consumes a quoted string token.
pub open spec fn parse_string(s: Seq<char>) -> Option<(Seq<char>, Seq<char>)> {
    if s.len() > 0 && s[0] == '"' {
        parse_str_body(s.drop_first())
    } else {
        None
    }
}

/// Consumes one written profile.
pub open spec fn parse_profile(s: Seq<char>) -> Option<(ProfileV, Seq<char>)> {
    match parse_lit(s, lit_name()) {
        Some(s1) => match parse_string(s1) {
            Some((name, s2)) => match parse_lit(s2, lit_base_url()) {
                Some(s3) => match parse_string(s3) {
                    Some((base_url, s4)) => match parse_lit(s4, lit_api_key()) {
                        Some(s5) => match parse_string(s5) {
                            Some((api_key, s6)) => if s6.len() > 0 && s6[0] == '}' {
                                Some((ProfileV { name, base_url, api_key }, s6.drop_first()))
                            } else {
                                None
                            },
                            None => None,
                        },
                        None => None,
                    },
                    None => None,
                },
                None => None,
            },
            None => None,
        },
        None => None,
    }
}

/// Consumes one or more comma-separated profiles followed by the closing
/// bracket. The fuel bounds the recursion; any fuel at least the number of
/// profiles suffices.
pub open spec fn parse_profiles(s: Seq<char>, fuel: nat) -> Option<(Seq<ProfileV>, Seq<char>)>
    decreases fuel,
{
    if fuel == 0 {
        None
    } else {
        match parse_profile(s) {
            Some((p, u)) => if u.len() > 0 && u[0] == ',' {
                match parse_profiles(u.drop_first(), (fuel - 1) as nat) {
                    Some((ps, v)) => Some((seq![p] + ps, v)),
                    None => None,
                }
            } else if u.len() > 0 && u[0] == ']' {
                Some((seq![p], u.drop_first()))
            } else {
                None
            },
            None => None,
        }
    }
}

/// What loading accepts: exactly the text that `ser_store` writes for some
/// store, yielding that store.
pub open spec fn parse_store(s: Seq<char>) -> Option<Seq<ProfileV>> {
    match parse_lit(s, lit_head()) {
        Some(u) => if u.len() > 0 && u[0] == ']' {
            if u.len() == 2 && u[1] == '}' {
                Some(Seq::empty())
            } else {
                None
            }
        } else {
            match parse_profiles(u, u.len() as nat) {
                Some((ps, v)) => if v.len() == 1 && v[0] == '}' {
                    Some(ps)
                } else {
                    None
                },
                None => None,
            }
        },
        None => None,
    }
}

// ---------------------------------------------------------------------------
// Round trip: parsing what was written yields the original store.
// ---------------------------------------------------------------------------

/// A literal consumes itself and leaves the rest.
proof fn lemma_parse_lit_prefix(lit: Seq<char>, v: Seq<char>)
    ensures
        parse_lit(lit + v, lit) == Some(v),
{
    let s = lit + v;
    assert(s.subrange(0, lit.len() as int) =~= lit);
    assert(s.skip(lit.len() as int) =~= v);
}

/// An escaped text followed by a closing quote parses back to the text.
proof fn lemma_parse_str_body_escape(t: Seq<char>, rest: Seq<char>)
    ensures
        parse_str_body(escape(t) + seq!['"'] + rest) == Some((t, rest)),
    decreases t.len(),
{
    let s = escape(t) + seq!['"'] + rest;
    if t.len() == 0 {
        assert(escape(t) == Seq::<char>::empty());
        assert(s[0] == '"');
        assert(s.drop_first() =~= rest);
    } else {
        let c = t[0];
        let t1 = t.drop_first();
        assert(escape(t) == esc_char(c) + escape(t1));
        let s1 = escape(t1) + seq!['"'] + rest;
        lemma_parse_str_body_escape(t1, rest);
        if c == '"' || c == '\\' {
            assert(s[0] == '\\');
            assert(s[1] == c);
            assert(unesc_char(c) == Some(c));
            assert(s.skip(2) =~= s1);
            assert(parse_str_body(s.skip(2)) == Some((t1, rest)));
            assert(seq![c] + t1 =~= t);
        } else {
            assert(s[0] == c);
            assert(s.drop_first() =~= s1);
            assert(parse_str_body(s.drop_first()) == Some((t1, rest)));
            assert(seq![s[0]] + t1 =~= t);
        }
    }
}

/// A written string token parses back to its content.
proof fn lemma_parse_string_ser(t: Seq<char>, rest: Seq<char>)
    ensures
        parse_string(ser_string(t) + rest) == Some((t, rest)),
{
    let s = ser_string(t) + rest;
    assert(s[0] == '"');
    assert(s.drop_first() =~= escape(t) + seq!['"'] + rest);
    lemma_parse_str_body_escape(t, rest);
}

/// A written profile parses back to itself.
#[verifier::rlimit(100)]
proof fn lemma_parse_profile_ser(p: ProfileV, rest: Seq<char>)
    ensures
        parse_profile(ser_profile(p) + rest) == Some((p, rest)),
{
    let s = ser_profile(p) + rest;
    let v1 = ser_string(p.name) + lit_base_url() + ser_string(p.base_url) + lit_api_key()
        + ser_string(p.api_key) + seq!['}'] + rest;
    assert(s =~= lit_name() + v1);
    lemma_parse_lit_prefix(lit_name(), v1);
    let v2 = lit_base_url() + ser_string(p.base_url) + lit_api_key() + ser_string(p.api_key)
        + seq!['}'] + rest;
    assert(v1 =~= ser_string(p.name) + v2);
    lemma_parse_string_ser(p.name, v2);
    let v3 = ser_string(p.base_url) + lit_api_key() + ser_string(p.api_key) + seq!['}'] + rest;
    assert(v2 =~= lit_base_url() + v3);
    lemma_parse_lit_prefix(lit_base_url(), v3);
    let v4 = lit_api_key() + ser_string(p.api_key) + seq!['}'] + rest;
    assert(v3 =~= ser_string(p.base_url) + v4);
    lemma_parse_string_ser(p.base_url, v4);
    let v5 = ser_string(p.api_key) + seq!['}'] + rest;
    assert(v4 =~= lit_api_key() + v5);
    lemma_parse_lit_prefix(lit_api_key(), v5);
    let v6 = seq!['}'] + rest;
    assert(v5 =~= ser_string(p.api_key) + v6);
    lemma_parse_string_ser(p.api_key, v6);
    assert(v6[0] == '}');
    assert(v6.drop_first() =~= rest);
}

/// A written profile is never empty text.
proof fn lemma_ser_profile_len(p: ProfileV)
    ensures
        ser_profile(p).len() >= 1,
        ser_profile(p)[0] == '{',
{
    reveal_strlit("{\"name\":");
    assert(ser_profile(p)[0] == lit_name()[0]);
}

/// The written profile list is at least as long as the list.
proof fn lemma_ser_profiles_len(ps: Seq<ProfileV>)
    ensures
        ser_profiles(ps).len() >= ps.len(),
    decreases ps.len(),
{
    if ps.len() == 0 {
    } else if ps.len() == 1 {
        lemma_ser_profile_len(ps[0]);
    } else {
        lemma_ser_profile_len(ps[0]);
        lemma_ser_profiles_len(ps.drop_first());
    }
}

/// A written non-empty profile list, followed by the closing bracket, parses
/// back to the list when given enough fuel.
#[verifier::rlimit(100)]
proof fn lemma_parse_profiles_ser(ps: Seq<ProfileV>, rest: Seq<char>, fuel: nat)
    requires
        ps.len() >= 1,
        fuel >= ps.len(),
    ensures
        parse_profiles(ser_profiles(ps) + seq![']'] + rest, fuel) == Some((ps, rest)),
    decreases ps.len(),
{
    let s = ser_profiles(ps) + seq![']'] + rest;
    if ps.len() == 1 {
        let u = seq![']'] + rest;
        assert(s =~= ser_profile(ps[0]) + u);
        lemma_parse_profile_ser(ps[0], u);
        assert(u[0] == ']');
        assert(u.drop_first() =~= rest);
        assert(seq![ps[0]] =~= ps);
    } else {
        let tail = ps.drop_first();
        let u = seq![','] + (ser_profiles(tail) + seq![']'] + rest);
        assert(s =~= ser_profile(ps[0]) + u);
        lemma_parse_profile_ser(ps[0], u);
        assert(u[0] == ',');
        assert(u.drop_first() =~= ser_profiles(tail) + seq![']'] + rest);
        lemma_parse_profiles_ser(tail, rest, (fuel - 1) as nat);
        assert(seq![ps[0]] + tail =~= ps);
    }
}

/// Loading what was saved yields the saved store: the codec round-trips for
/// every store, whatever its profiles hold.
pub proof fn lemma_store_round_trip(ps: Seq<ProfileV>)
    ensures
        parse_store(ser_store(ps)) == Some(ps),
{
    let s = ser_store(ps);
    let u = ser_profiles(ps) + seq![']'] + seq!['}'];
    assert(s =~= lit_head() + u);
    lemma_parse_lit_prefix(lit_head(), u);
    if ps.len() == 0 {
        assert(ser_profiles(ps) == Seq::<char>::empty());
        assert(u[0] == ']');
        assert(u.len() == 2);
        assert(u[1] == '}');
    } else {
        lemma_ser_profile_len(ps[0]);
        assert(u[0] == ser_profile(ps[0])[0]);
        assert(u[0] == '{');
        assert(u[0] != ']');
        lemma_ser_profiles_len(ps);
        assert(u.len() >= ps.len());
        lemma_parse_profiles_ser(ps, seq!['}'], u.len() as nat);
        assert(u =~= ser_profiles(ps) + seq![']'] + seq!['}']);
        let v = seq!['}'];
        assert(v.len() == 1 && v[0] == '}');
    }
}

// ---------------------------------------------------------------------------
// Executable writer.
// ---------------------------------------------------------------------------

/// The written list grows by a comma (except first) and one written profile
/// per appended profile.
proof fn lemma_ser_profiles_snoc(ps: Seq<ProfileV>, p: ProfileV)
    ensures
        ps.len() == 0 ==> ser_profiles(ps.push(p)) == ser_profile(p),
        ps.len() >= 1 ==> ser_profiles(ps.push(p)) == ser_profiles(ps) + seq![','] + ser_profile(
            p,
        ),
    decreases ps.len(),
{
    let q = ps.push(p);
    if ps.len() == 0 {
        assert(q.len() == 1);
        assert(q[0] == p);
    } else {
        assert(q.len() >= 2);
        assert(q[0] == ps[0]);
        assert(q.drop_first() =~= ps.drop_first().push(p));
        lemma_ser_profiles_snoc(ps.drop_first(), p);
        if ps.len() == 1 {
            assert(ser_profiles(q) == ser_profile(ps[0]) + seq![','] + ser_profiles(
                q.drop_first(),
            ));
            assert(ser_profiles(ps) == ser_profile(ps[0]));
            assert(ser_profiles(q) =~= ser_profiles(ps) + seq![','] + ser_profile(p));
        } else {
            assert(ser_profiles(q) =~= ser_profiles(ps) + seq![','] + ser_profile(p));
        }
    }
}

/// Appending one character keeps the escaped form aligned.
proof fn lemma_escape_snoc(t: Seq<char>, c: char)
    ensures
        escape(t.push(c)) == escape(t) + esc_char(c),
    decreases t.len(),
{
    let q = t.push(c);
    if t.len() == 0 {
        assert(q[0] == c);
        assert(q.drop_first() =~= Seq::<char>::empty());
        assert(escape(Seq::<char>::empty()) == Seq::<char>::empty());
        assert(escape(q) =~= esc_char(c));
        assert(escape(t) + esc_char(c) =~= esc_char(c));
    } else {
        assert(q[0] == t[0]);
        assert(q.drop_first() =~= t.drop_first().push(c));
        lemma_escape_snoc(t.drop_first(), c);
        assert(escape(q) =~= escape(t) + esc_char(c));
    }
}

/// Appends the escaped form of the text.
#[verifier::loop_isolation(false)]
fn append_escaped(out: &mut Vec<char>, s: &str)
    ensures
        final(out)@ == old(out)@ + escape(s@),
{
    let n = s.unicode_len();
    let mut i: usize = 0;
    proof {
        assert(out@ =~= old(out)@ + escape(s@.subrange(0, 0)));
    }
    while i < n
        invariant
            i <= n,
            n == s@.len(),
            out@ == old(out)@ + escape(s@.subrange(0, i as int)),
        decreases n - i,
    {
        let c = s.get_char(i);
        if c == '"' || c == '\\' {
            out.push('\\');
            out.push(c);
        } else {
            out.push(c);
        }
        proof {
            lemma_escape_snoc(s@.subrange(0, i as int), c);
            assert(s@.subrange(0, i + 1 as int) =~= s@.subrange(0, i as int).push(c));
            assert(out@ =~= old(out)@ + escape(s@.subrange(0, i + 1 as int)));
        }
        i = i + 1;
    }
    proof {
        assert(s@.subrange(0, n as int) =~= s@);
    }
}

/// Appends one written string token.
pub(crate) fn append_string(out: &mut Vec<char>, s: &str)
    ensures
        final(out)@ == old(out)@ + ser_string(s@),
{
    out.push('"');
    append_escaped(out, s);
    out.push('"');
    proof {
        assert(out@ =~= old(out)@ + ser_string(s@));
    }
}

/// Appends one written profile.
fn append_profile(out: &mut Vec<char>, p: &Profile)
    ensures
        final(out)@ == old(out)@ + ser_profile(p@),
{
    push_str_chars(out, "{\"name\":");
    append_string(out, p.name.as_str());
    push_str_chars(out, ",\"base_url\":");
    append_string(out, p.base_url.as_str());
    push_str_chars(out, ",\"api_key\":");
    append_string(out, p.api_key.as_str());
    out.push('}');
    proof {
        assert(out@ =~= old(out)@ + ser_profile(p@));
    }
}

// ---------------------------------------------------------------------------
// Executable reader.
// ---------------------------------------------------------------------------

fn unesc(c: char) -> (r: Option<char>)
    ensures
        r == unesc_char(c),
{
    if c == '"' {
        Some('"')
    } else if c == '\\' {
        Some('\\')
    } else if c == '/' {
        Some('/')
    } else if c == 'n' {
        Some('\n')
    } else if c == 't' {
        Some('\t')
    } else if c == 'r' {
        Some('\r')
    } else {
        None
    }
}

/// Consumes the exact literal at position i, yielding the next position.
#[verifier::loop_isolation(false)]
pub(crate) fn expect_lit_at(s: &Vec<char>, i: usize, lit: &str) -> (r: Option<usize>)
    requires
        i <= s@.len(),
    ensures
        match r {
            Some(j) => i <= j <= s@.len() && parse_lit(s@.skip(i as int), lit@) == Some(
                s@.skip(j as int),
            ),
            None => parse_lit(s@.skip(i as int), lit@) is None,
        },
{
    let n = lit.unicode_len();
    if n > s.len() - i {
        return None;
    }
    let mut k: usize = 0;
    while k < n
        invariant
            k <= n,
            i + n <= s@.len(),
            n == lit@.len(),
            forall|m: int| 0 <= m < k ==> s@[i + m] == lit@[m],
        decreases n - k,
    {
        if s[i + k] != lit.get_char(k) {
            proof {
                let u = s@.skip(i as int);
                if parse_lit(u, lit@) is Some {
                    assert(u.subrange(0, n as int) == lit@);
                    assert(u.subrange(0, n as int)[k as int] == u[k as int]);
                    assert(u[k as int] == s@[i + k]);
                    assert(false);
                }
            }
            return None;
        }
        k = k + 1;
    }
    proof {
        let u = s@.skip(i as int);
        assert(u.subrange(0, n as int) =~= lit@);
        assert(u.skip(n as int) =~= s@.skip((i + n) as int));
    }
    Some(i + n)
}

/// Consumes a string body (after the opening quote) at position i.
fn parse_string_body_at(s: &Vec<char>, i: usize) -> (r: Option<(Vec<char>, usize)>)
    requires
        i <= s@.len(),
    ensures
        match r {
            Some(t) => t.1 <= s@.len() && parse_str_body(s@.skip(i as int)) == Some(
                (t.0@, s@.skip(t.1 as int)),
            ),
            None => parse_str_body(s@.skip(i as int)) is None,
        },
    decreases s@.len() - i,
{
    let ghost u = s@.skip(i as int);
    if i == s.len() {
        return None;
    }
    let c = s[i];
    proof {
        assert(u[0] == c);
    }
    if c == '"' {
        proof {
            assert(u.drop_first() =~= s@.skip(i + 1 as int));
        }
        return Some((Vec::new(), i + 1));
    }
    if c == '\\' {
        if i + 1 < s.len() {
            proof {
                assert(u.len() >= 2);
                assert(u[1] == s@[i + 1]);
            }
            match unesc(s[i + 1]) {
                Some(e) => {
                    proof {
                        assert(u.skip(2) =~= s@.skip(i + 2 as int));
                    }
                    match parse_string_body_at(s, i + 2) {
                        Some((t, j)) => {
                            let mut t2 = t;
                            let ghost tv = t2@;
                            t2.insert(0, e);
                            proof {
                                assert(t2@ =~= seq![e] + tv);
                            }
                            Some((t2, j))
                        },
                        None => None,
                    }
                },
                None => None,
            }
        } else {
            proof {
                assert(u.len() < 2);
            }
            None
        }
    } else {
        proof {
            assert(u.drop_first() =~= s@.skip(i + 1 as int));
        }
        match parse_string_body_at(s, i + 1) {
            Some((t, j)) => {
                let mut t2 = t;
                let ghost tv = t2@;
                t2.insert(0, c);
                proof {
                    assert(t2@ =~= seq![c] + tv);
                }
                Some((t2, j))
            },
            None => None,
        }
    }
}

/// Consumes a quoted string token at position i.
pub(crate) fn parse_string_at(s: &Vec<char>, i: usize) -> (r: Option<(Vec<char>, usize)>)
    requires
        i <= s@.len(),
    ensures
        match r {
            Some(t) => t.1 <= s@.len() && parse_string(s@.skip(i as int)) == Some(
                (t.0@, s@.skip(t.1 as int)),
            ),
            None => parse_string(s@.skip(i as int)) is None,
        },
{
    if i == s.len() {
        return None;
    }
    let c = s[i];
    proof {
        assert(s@.skip(i as int)[0] == c);
    }
    if c != '"' {
        return None;
    }
    proof {
        assert(s@.skip(i as int).drop_first() =~= s@.skip(i + 1 as int));
    }
    parse_string_body_at(s, i + 1)
}

/// Consumes one written profile at position i.
fn parse_profile_at(s: &Vec<char>, i: usize) -> (r: Option<(Profile, usize)>)
    requires
        i <= s@.len(),
    ensures
        match r {
            Some(t) => t.1 <= s@.len() && parse_profile(s@.skip(i as int)) == Some(
                (t.0@, s@.skip(t.1 as int)),
            ),
            None => parse_profile(s@.skip(i as int)) is None,
        },
{
    let j1 = match expect_lit_at(s, i, "{\"name\":") {
        Some(j) => j,
        None => {
            return None;
        },
    };
    let (name, j2) = match parse_string_at(s, j1) {
        Some(t) => t,
        None => {
            return None;
        },
    };
    let j3 = match expect_lit_at(s, j2, ",\"base_url\":") {
        Some(j) => j,
        None => {
            return None;
        },
    };
    let (base_url, j4) = match parse_string_at(s, j3) {
        Some(t) => t,
        None => {
            return None;
        },
    };
    let j5 = match expect_lit_at(s, j4, ",\"api_key\":") {
        Some(j) => j,
        None => {
            return None;
        },
    };
    let (api_key, j6) = match parse_string_at(s, j5) {
        Some(t) => t,
        None => {
            return None;
        },
    };
    if j6 == s.len() {
        return None;
    }
    let cb = s[j6];
    proof {
        assert(s@.skip(j6 as int)[0] == cb);
        assert(s@.skip(j6 as int).drop_first() =~= s@.skip(j6 + 1 as int));
    }
    if cb != '}' {
        return None;
    }
    let p = Profile {
        name: chars_to_string(&name),
        base_url: chars_to_string(&base_url),
        api_key: chars_to_string(&api_key),
    };
    Some((p, j6 + 1))
}

/// Consumes the comma-separated profiles and the closing bracket at position
/// i.
fn parse_profiles_at(s: &Vec<char>, i: usize, fuel: usize) -> (r: Option<(Vec<Profile>, usize)>)
    requires
        i <= s@.len(),
    ensures
        match r {
            Some(t) => t.1 <= s@.len() && parse_profiles(s@.skip(i as int), fuel as nat) == Some(
                (profiles_view(t.0@), s@.skip(t.1 as int)),
            ),
            None => parse_profiles(s@.skip(i as int), fuel as nat) is None,
        },
    decreases fuel,
{
    if fuel == 0 {
        return None;
    }
    let (p, j) = match parse_profile_at(s, i) {
        Some(t) => t,
        None => {
            return None;
        },
    };
    if j == s.len() {
        return None;
    }
    let c = s[j];
    proof {
        assert(s@.skip(j as int)[0] == c);
        assert(s@.skip(j as int).drop_first() =~= s@.skip(j + 1 as int));
    }
    if c == ',' {
        match parse_profiles_at(s, j + 1, fuel - 1) {
            Some((ps, k)) => {
                let mut ps2 = ps;
                let ghost pv = ps2@;
                ps2.insert(0, p);
                proof {
                    assert(profiles_view(ps2@) =~= seq![p@] + profiles_view(pv));
                }
                Some((ps2, k))
            },
            None => None,
        }
    } else if c == ']' {
        let mut ps: Vec<Profile> = Vec::new();
        ps.push(p);
        proof {
            assert(profiles_view(ps@) =~= seq![p@]);
        }
        Some((ps, j + 1))
    } else {
        None
    }
}

fn invalid_file_error() -> (r: CliError)
    ensures
        r is Storage,
{
    let mut out: Vec<char> = Vec::new();
    push_str_chars(&mut out, "the profile file is not valid profile data");
    CliError::Storage(chars_to_string(&out))
}

impl CliConfig {
    /// The store read back from the persisted text. An absent file is a
    /// normal first run and yields the empty store; text that is not exactly
    /// a written store is a storage failure.
    pub fn load(text: Option<&str>) -> (r: Result<CliConfig, CliError>)
        ensures
            match text {
                None => r matches Ok(c) && c@ == Seq::<ProfileV>::empty(),
                Some(t) => match parse_store(t@) {
                    Some(ps) => r matches Ok(c) && c@ == ps,
                    None => r matches Err(e) && e is Storage,
                },
            },
    {
        let t = match text {
            None => {
                return Ok(CliConfig::empty());
            },
            Some(t) => t,
        };
        let s = str_to_chars(t);
        proof {
            assert(s@.skip(0) =~= s@);
        }
        let j0 = match expect_lit_at(&s, 0, "{\"profiles\":[") {
            Some(j) => j,
            None => {
                return Err(invalid_file_error());
            },
        };
        if j0 == s.len() {
            return Err(invalid_file_error());
        }
        let c = s[j0];
        proof {
            assert(s@.skip(j0 as int)[0] == c);
        }
        if c == ']' {
            if s.len() - j0 == 2 {
                let c1 = s[j0 + 1];
                proof {
                    assert(s@.skip(j0 as int)[1] == c1);
                }
                if c1 == '}' {
                    return Ok(CliConfig::empty());
                }
            } else {
                proof {
                    assert(s@.skip(j0 as int).len() != 2);
                }
            }
            return Err(invalid_file_error());
        }
        proof {
            assert(s@.skip(j0 as int).len() == s@.len() - j0);
        }
        match parse_profiles_at(&s, j0, s.len() - j0) {
            Some((ps, k)) => {
                if s.len() - k == 1 {
                    let ck = s[k];
                    proof {
                        assert(s@.skip(k as int)[0] == ck);
                        assert(s@.skip(k as int).len() == 1);
                    }
                    if ck == '}' {
                        let cfg = CliConfig { profiles: ps };
                        return Ok(cfg);
                    }
                }
                proof {
                    assert(s@.skip(k as int).len() == s@.len() - k);
                }
                Err(invalid_file_error())
            },
            None => Err(invalid_file_error()),
        }
    }

    /// The exact text persisted for this store.
    #[verifier::loop_isolation(false)]
    pub fn save(&self) -> (r: String)
        ensures
            r@ == ser_store(self@),
    {
        let mut out: Vec<char> = Vec::new();
        push_str_chars(&mut out, "{\"profiles\":[");
        let n = self.profiles.len();
        let mut i: usize = 0;
        proof {
            assert(self@.subrange(0, 0) =~= Seq::<ProfileV>::empty());
            assert(out@ =~= lit_head() + ser_profiles(self@.subrange(0, 0)));
        }
        while i < n
            invariant
                i <= n,
                n == self.profiles@.len(),
                out@ == lit_head() + ser_profiles(self@.subrange(0, i as int)),
            decreases n - i,
        {
            if i > 0 {
                out.push(',');
            }
            append_profile(&mut out, &self.profiles[i]);
            proof {
                lemma_ser_profiles_snoc(self@.subrange(0, i as int), self@[i as int]);
                assert(self@.subrange(0, i + 1 as int) =~= self@.subrange(0, i as int).push(
                    self@[i as int],
                ));
                assert(out@ =~= lit_head() + ser_profiles(self@.subrange(0, i + 1 as int)));
            }
            i = i + 1;
        }
        out.push(']');
        out.push('}');
        proof {
            assert(self@.subrange(0, n as int) =~= self@);
            assert(out@ =~= ser_store(self@));
        }
        chars_to_string(&out)
    }
}

} // verus!
