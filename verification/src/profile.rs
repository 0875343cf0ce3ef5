use vstd::prelude::*;

verus! {

use crate::errors::CliError;
use crate::text::{chars_to_string, push_str_chars, str_eq};

/// A named connection profile: which service to talk to and with which key.
#[derive(Debug, Clone, PartialEq, Eq)]
pub struct Profile {
    pub name: String,
    pub base_url: String,
    pub api_key: String,
}

/// The mathematical value of a profile: its three fields as character
/// sequences.
pub ghost struct ProfileV {
    pub name: Seq<char>,
    pub base_url: Seq<char>,
    pub api_key: Seq<char>,
}

impl View for Profile {
    type V = ProfileV;

    open spec fn view(&self) -> ProfileV {
        ProfileV { name: self.name@, base_url: self.base_url@, api_key: self.api_key@ }
    }
}

/// The stored collection of profiles, in order. Lookup is by exact name;
/// names are meant to be unique (see `unique_names`).
#[derive(Debug, Clone, PartialEq, Eq)]
pub struct CliConfig {
    pub profiles: Vec<Profile>,
}

/// The profile values held by a sequence of profiles, in order.
pub open spec fn profiles_view(v: Seq<Profile>) -> Seq<ProfileV> {
    Seq::new(v.len(), |i: int| v[i]@)
}

impl View for CliConfig {
    type V = Seq<ProfileV>;

    open spec fn view(&self) -> Seq<ProfileV> {
        profiles_view(self.profiles@)
    }
}

/// Whether some stored profile carries this name.
pub open spec fn has_name(ps: Seq<ProfileV>, name: Seq<char>) -> bool {
    exists|i: int| 0 <= i < ps.len() && ps[i].name == name
}

/// The first position holding this name, or -1 when no profile has it.
pub open spec fn index_of_name(ps: Seq<ProfileV>, name: Seq<char>) -> int
    decreases ps.len(),
{
    if ps.len() == 0 {
        -1
    } else if ps[0].name == name {
        0
    } else {
        let r = index_of_name(ps.drop_first(), name);
        if r < 0 {
            -1
        } else {
            r + 1
        }
    }
}

/// No two stored profiles share a name.
pub open spec fn unique_names(ps: Seq<ProfileV>) -> bool {
    forall|i: int, j: int| 0 <= i < j < ps.len() ==> ps[i].name != ps[j].name
}

/// What upserting does: replace the first profile of the same name in place,
/// or append when the name is new.
pub open spec fn upsert(ps: Seq<ProfileV>, p: ProfileV) -> Seq<ProfileV> {
    let i = index_of_name(ps, p.name);
    if i >= 0 {
        ps.update(i, p)
    } else {
        ps.push(p)
    }
}

/// `index_of_name` finds exactly the first position with the name, and is -1
/// exactly when the name is absent.
pub proof fn lemma_index_of_name(ps: Seq<ProfileV>, name: Seq<char>)
    ensures
        has_name(ps, name) <==> 0 <= index_of_name(ps, name) < ps.len(),
        !has_name(ps, name) <==> index_of_name(ps, name) == -1,
        0 <= index_of_name(ps, name) ==> ps[index_of_name(ps, name)].name == name,
        forall|j: int|
            0 <= j < index_of_name(ps, name) ==> ps[j].name != name,
    decreases ps.len(),
{
    if ps.len() == 0 {
        assert(!has_name(ps, name));
    } else if ps[0].name == name {
        assert(has_name(ps, name));
    } else {
        let tail = ps.drop_first();
        lemma_index_of_name(tail, name);
        assert(forall|j: int| 0 <= j < tail.len() ==> tail[j] == ps[j + 1]);
        if has_name(tail, name) {
            let w = choose|i: int| 0 <= i < tail.len() && tail[i].name == name;
            assert(ps[w + 1].name == name);
            assert(has_name(ps, name));
        }
        if has_name(ps, name) {
            let w = choose|i: int| 0 <= i < ps.len() && ps[i].name == name;
            assert(w != 0);
            assert(tail[w - 1].name == name);
            assert(has_name(tail, name));
        }
        assert forall|j: int| 0 <= j < index_of_name(ps, name) implies ps[j].name != name by {
            if j > 0 {
                assert(tail[j - 1].name != name);
            }
        }
    }
}

/// A position that matches the name, with no earlier match, is the position
/// that `index_of_name` finds.
pub proof fn lemma_index_of_name_unique(ps: Seq<ProfileV>, name: Seq<char>, i: int)
    requires
        0 <= i < ps.len(),
        ps[i].name == name,
        forall|j: int| 0 <= j < i ==> ps[j].name != name,
    ensures
        index_of_name(ps, name) == i,
{
    lemma_index_of_name(ps, name);
    assert(has_name(ps, name));
    let k = index_of_name(ps, name);
    if k < i {
        assert(ps[k].name == name);
        assert(false);
    }
    if k > i {
        assert(ps[i].name != name);
        assert(false);
    }
}

/// The text of the error shown when a named profile is missing.
pub open spec fn profile_not_found_msg(name: Seq<char>) -> Seq<char> {
    "Profile '"@ + name + "' not found. Run devkit login."@
}

impl CliConfig {
    /// A store with no profiles.
    pub fn empty() -> (r: CliConfig)
        ensures
            r@ == Seq::<ProfileV>::empty(),
    {
        let r = CliConfig { profiles: Vec::new() };
        proof {
            assert(r@ =~= Seq::<ProfileV>::empty());
        }
        r
    }

    /// Replaces the first profile of the same name in place, or appends the
    /// profile when its name is new.
    #[verifier::loop_isolation(false)]
    pub fn upsert_profile(&mut self, profile: Profile)
        ensures
            final(self)@ == upsert(old(self)@, profile@),
    {
        let ghost ips = old(self)@;
        let n = self.profiles.len();
        let mut i: usize = 0;
        while i < n
            invariant
                i <= n,
                n == self.profiles@.len(),
                self@ == ips,
                forall|j: int| 0 <= j < i ==> ips[j].name != profile@.name,
            decreases n - i,
        {
            if str_eq(self.profiles[i].name.as_str(), profile.name.as_str()) {
                proof {
                    assert(ips[i as int].name == profile@.name);
                    lemma_index_of_name_unique(ips, profile@.name, i as int);
                }
                self.profiles[i] = profile;
                proof {
                    assert(index_of_name(ips, profile@.name) == i as int);
                    assert(self@ =~= ips.update(i as int, profile@));
                    assert(self@ == upsert(ips, profile@));
                }
                return ;
            }
            i = i + 1;
        }
        proof {
            lemma_index_of_name(ips, profile@.name);
            if has_name(ips, profile@.name) {
                let w = choose|k: int| 0 <= k < ips.len() && ips[k].name == profile@.name;
                assert(ips[w].name != profile@.name);
                assert(false);
            }
        }
        self.profiles.push(profile);
        proof {
            assert(self@ =~= ips.push(profile@));
        }
    }

    /// The first profile with exactly this name, or absent when none has it.
    pub fn get_profile(&self, name: &str) -> (r: Option<&Profile>)
        ensures
            match r {
                Some(p) => has_name(self@, name@) && p@ == self@[index_of_name(self@, name@)],
                None => !has_name(self@, name@),
            },
    {
        let n = self.profiles.len();
        let mut i: usize = 0;
        while i < n
            invariant
                i <= n,
                n == self.profiles@.len(),
                forall|j: int| 0 <= j < i ==> self@[j].name != name@,
            decreases n - i,
        {
            if str_eq(self.profiles[i].name.as_str(), name) {
                proof {
                    assert(self@[i as int].name == name@);
                    lemma_index_of_name_unique(self@, name@, i as int);
                }
                return Some(&self.profiles[i]);
            }
            i = i + 1;
        }
        proof {
            if has_name(self@, name@) {
                let w = choose|k: int| 0 <= k < self@.len() && self@[k].name == name@;
                assert(self@[w].name != name@);
                assert(false);
            }
        }
        None
    }
}

/// The named profile, or the configuration error telling the user to
/// authenticate first. Succeeds exactly when the store holds the name.
pub fn load_profile(config: &CliConfig, name: &str) -> (r: Result<Profile, CliError>)
    ensures
        match r {
            Ok(p) => has_name(config@, name@) && p@ == config@[index_of_name(config@, name@)],
            Err(e) => !has_name(config@, name@) && (match e {
                CliError::Configuration(m) => m@ == profile_not_found_msg(name@),
                _ => false,
            }),
        },
{
    match config.get_profile(name) {
        Some(p) => Ok(p.clone_profile()),
        None => {
            let mut out: Vec<char> = Vec::new();
            push_str_chars(&mut out, "Profile '");
            push_str_chars(&mut out, name);
            push_str_chars(&mut out, "' not found. Run devkit login.");
            let m = chars_to_string(&out);
            Err(CliError::Configuration(m))
        },
    }
}

impl Profile {
    /// A copy with exactly the same three fields.
    pub fn clone_profile(&self) -> (r: Profile)
        ensures
            r@ == self@,
    {
        Profile {
            name: self.name.clone(),
            base_url: self.base_url.clone(),
            api_key: self.api_key.clone(),
        }
    }
}

/// Repeating an upsert of the identical profile changes nothing beyond the
/// first application.
pub proof fn lemma_upsert_idempotent(ps: Seq<ProfileV>, p: ProfileV)
    ensures
        upsert(upsert(ps, p), p) == upsert(ps, p),
{
    lemma_index_of_name(ps, p.name);
    let i = index_of_name(ps, p.name);
    if i >= 0 {
        let t = ps.update(i, p);
        lemma_index_of_name_unique(t, p.name, i);
        assert(t.update(i, p) =~= t);
    } else {
        let t = ps.push(p);
        assert(t[ps.len() as int].name == p.name);
        lemma_index_of_name_unique(t, p.name, ps.len() as int);
        assert(t.update(ps.len() as int, p) =~= t);
    }
}

/// Upserting a name the store already holds replaces that one entry in place:
/// same length, updated fields at the original position, all other entries
/// untouched.
pub proof fn lemma_upsert_replaces(ps: Seq<ProfileV>, p: ProfileV)
    requires
        has_name(ps, p.name),
    ensures
        upsert(ps, p).len() == ps.len(),
        upsert(ps, p)[index_of_name(ps, p.name)] == p,
        forall|j: int|
            0 <= j < ps.len() && j != index_of_name(ps, p.name) ==> upsert(ps, p)[j] == ps[j],
{
    lemma_index_of_name(ps, p.name);
}

/// Upserting keeps names unique, and afterwards exactly one entry carries the
/// upserted name: the replaced position when the name was present, the new
/// last position otherwise.
pub proof fn lemma_upsert_unique(ps: Seq<ProfileV>, p: ProfileV)
    requires
        unique_names(ps),
    ensures
        unique_names(upsert(ps, p)),
        forall|j: int|
            0 <= j < upsert(ps, p).len() ==> (upsert(ps, p)[j].name == p.name <==> j == (
            if has_name(ps, p.name) {
                index_of_name(ps, p.name)
            } else {
                ps.len() as int
            })),
{
    lemma_index_of_name(ps, p.name);
    let i = index_of_name(ps, p.name);
    if i >= 0 {
        let t = ps.update(i, p);
        assert forall|j: int| 0 <= j < t.len() && j != i implies t[j].name != p.name by {
            if t[j].name == p.name {
                assert(ps[j].name == ps[i].name);
            }
        }
    } else {
        let t = ps.push(p);
        assert forall|j: int| 0 <= j < t.len() && j != ps.len() implies t[j].name != p.name by {
            if t[j].name == p.name {
                assert(has_name(ps, p.name));
            }
        }
    }
}

} // verus!
