//! Team configuration: which repositories each team owns, and the set of
//! repositories the whole run has to look at.
use vstd::prelude::*;

use crate::text::{chars_of, string_from_chars};

verus! {

/// A team: its name, the organisation its repositories live in, and their
/// names without the organisation prefix.
#[derive(Clone, Debug)]
pub struct Team {
    pub name: String,
    pub organization: String,
    pub repositories: Vec<String>,
}

/// Every team of the run.
#[derive(Clone, Debug)]
pub struct TeamsConfig {
    pub teams: Vec<Team>,
}

/// `{organization}/{repository}`.
pub open spec fn full_name(organization: Seq<char>, repository: Seq<char>) -> Seq<char> {
    organization + seq!['/'] + repository
}

/// The team declares a repository of this name.
pub open spec fn declares(team: Team, repository: Seq<char>) -> bool {
    exists|j: int| 0 <= j < team.repositories@.len() && team.repositories@[j]@ == repository
}

/// A repository counts towards a team when its full name is the team's
/// organisation followed by its name, and the team declares that name.
pub open spec fn team_includes(team: Team, repository: Seq<char>, full: Seq<char>) -> bool {
    full == full_name(team.organization@, repository) && declares(team, repository)
}

/// `s` is the full name of a repository that some team declares.
pub open spec fn is_target(teams: Seq<Team>, s: Seq<char>) -> bool {
    exists|t: int, j: int|
        0 <= t < teams.len() && 0 <= j < teams[t].repositories@.len() && s == full_name(
            teams[t].organization@,
            #[trigger] teams[t].repositories@[j]@,
        )
}

/// `s` is the full name of one of the first `n` repositories of `repos`.
pub open spec fn among(organization: Seq<char>, repos: Seq<String>, n: int, s: Seq<char>) -> bool {
    exists|k: int| 0 <= k < n && s == full_name(organization, #[trigger] repos[k]@)
}

/// `s` holds exactly one `/`, at position `i`.
pub open spec fn only_slash_at(s: Seq<char>, i: int) -> bool {
    0 <= i < s.len() && s[i] == '/' && forall|j: int| 0 <= j < s.len() && j != i ==> s[j] != '/'
}

/// The views of a list of strings.
pub open spec fn string_views(v: Seq<String>) -> Seq<Seq<char>> {
    v.map_values(|s: String| s@)
}

/// `{organization}/{repository}`.
pub fn make_full_name(organization: &str, repository: &str) -> (r: String)
    ensures
        r@ == full_name(organization@, repository@),
{
    let mut v = chars_of(organization);
    v.push('/');
    let rest = chars_of(repository);
    let mut i: usize = 0;
    let ghost start = v@;
    while i < rest.len()
        invariant
            i <= rest.len(),
            v@ == start + rest@.take(i as int),
        decreases rest.len() - i,
    {
        v.push(rest[i]);
        i = i + 1;
        proof {
            assert(v@ =~= start + rest@.take(i as int));
        }
    }
    proof {
        assert(rest@.take(i as int) =~= rest@);
        assert(v@ =~= full_name(organization@, repository@));
    }
    string_from_chars(&v)
}

/// Splits `owner/name` at its one `/`; `None` where the text holds no `/`
/// or more than one.
pub fn split_full_name(full: &str) -> (r: Option<(String, String)>)
    ensures
        match r {
            Some((owner, name)) => exists|i: int|
                only_slash_at(full@, i) && owner@ == full@.take(i) && name@ == full@.skip(i + 1),
            None => forall|i: int| !only_slash_at(full@, i),
        },
{
    let v = chars_of(full);
    let mut first: usize = 0;
    let mut count: usize = 0;
    let mut i: usize = 0;
    while i < v.len()
        invariant
            v@ == full@,
            i <= v.len(),
            count <= i,
            count == 0 ==> forall|j: int| 0 <= j < i ==> v@[j] != '/',
            count >= 1 ==> first < i && v@[first as int] == '/' && forall|j: int|
                0 <= j < first ==> v@[j] != '/',
            count == 1 ==> forall|j: int| 0 <= j < i && j != first ==> v@[j] != '/',
            count >= 2 ==> exists|j: int| 0 <= j < i && j != first && v@[j] == '/',
        decreases v.len() - i,
    {
        if v[i] == '/' {
            if count == 0 {
                first = i;
            }
            count = count + 1;
        }
        i = i + 1;
    }
    if count != 1 {
        proof {
            assert forall|k: int| !only_slash_at(full@, k) by {
                if only_slash_at(full@, k) {
                    if count >= 2 {
                        let j = choose|j: int| 0 <= j < i && j != first && v@[j] == '/';
                        assert(k == first);
                    }
                }
            }
        }
        return None;
    }
    let mut owner: Vec<char> = Vec::new();
    let mut name: Vec<char> = Vec::new();
    let mut k: usize = 0;
    while k < v.len()
        invariant
            v@ == full@,
            first < v.len(),
            k <= v.len(),
            k <= first ==> owner@ == v@.take(k as int) && name@.len() == 0,
            k > first ==> owner@ == v@.take(first as int) && name@ == v@.subrange(
                first + 1,
                k as int,
            ),
        decreases v.len() - k,
    {
        if k < first {
            owner.push(v[k]);
        } else if k > first {
            name.push(v[k]);
        }
        k = k + 1;
        proof {
            if k <= first {
                assert(owner@ =~= v@.take(k as int));
            } else if k == first + 1 {
                assert(name@ =~= v@.subrange(first + 1, k as int));
            } else {
                assert(name@ =~= v@.subrange(first + 1, k as int));
            }
        }
    }
    proof {
        assert(only_slash_at(full@, first as int));
        assert(name@ =~= full@.skip(first + 1));
    }
    Some((string_from_chars(&owner), string_from_chars(&name)))
}

/// Whether `v` holds a string equal to `s`.
fn holds_string(v: &Vec<String>, s: &String) -> (r: bool)
    ensures
        r == string_views(v@).contains(s@),
{
    let mut i: usize = 0;
    while i < v.len()
        invariant
            forall|j: int| 0 <= j < i ==> v@[j]@ != s@,
        decreases v.len() - i,
    {
        if v[i] == *s {
            proof {
                assert(string_views(v@)[i as int] == s@);
            }
            return true;
        }
        i = i + 1;
    }
    proof {
        if string_views(v@).contains(s@) {
            let j = choose|j: int| 0 <= j < v@.len() && string_views(v@)[j] == s@;
            assert(v@[j]@ == s@);
        }
    }
    false
}

/// Whether the repository `repository`, whose full name is `full`, counts
/// towards `team`.
pub fn team_includes_repository(team: &Team, repository: &String, full: &String) -> (r: bool)
    ensures
        r == team_includes(*team, repository@, full@),
{
    let expected = make_full_name(team.organization.as_str(), repository.as_str());
    if *full != expected {
        return false;
    }
    let found = holds_string(&team.repositories, repository);
    proof {
        if found {
            let j = choose|j: int|
                0 <= j < team.repositories@.len() && string_views(team.repositories@)[j]
                    == repository@;
            assert(team.repositories@[j]@ == repository@);
        }
        if declares(*team, repository@) {
            let j = choose|j: int|
                0 <= j < team.repositories@.len() && team.repositories@[j]@ == repository@;
            assert(string_views(team.repositories@)[j] == repository@);
        }
    }
    found
}

/// The full names of every repository that some team declares, each once,
/// in the order the teams declare them.
pub fn target_repositories(config: &TeamsConfig) -> (r: Vec<String>)
    ensures
        string_views(r@).no_duplicates(),
        forall|s: Seq<char>| string_views(r@).contains(s) <==> is_target(config.teams@, s),
{
    let mut out: Vec<String> = Vec::new();
    let mut t: usize = 0;
    while t < config.teams.len()
        invariant
            t <= config.teams.len(),
            string_views(out@).no_duplicates(),
            forall|s: Seq<char>|
                string_views(out@).contains(s) <==> is_target(config.teams@.take(t as int), s),
        decreases config.teams.len() - t,
    {
        let team = &config.teams[t];
        let mut j: usize = 0;
        while j < team.repositories.len()
            invariant
                t < config.teams.len(),
                team == config.teams@[t as int],
                j <= team.repositories.len(),
                string_views(out@).no_duplicates(),
                forall|s: Seq<char>|
                    string_views(out@).contains(s) <==> (is_target(
                        config.teams@.take(t as int),
                        s,
                    ) || among(team.organization@, team.repositories@, j as int, s)),
            decreases team.repositories.len() - j,
        {
            let name = make_full_name(team.organization.as_str(), team.repositories[j].as_str());
            let ghost before = out@;
            let ghost nv = name@;
            let found = holds_string(&out, &name);
            if !found {
                out.push(name);
                proof {
                    assert(string_views(out@) =~= string_views(before).push(nv));
                }
            }
            proof {
                if !found {
                    assert(string_views(out@)[before.len() as int] == nv);
                    assert forall|a: int, b: int|
                        0 <= a < string_views(out@).len() && 0 <= b < string_views(out@).len()
                            && a != b implies string_views(out@)[a] != string_views(out@)[b] by {
                        if a < before.len() && b < before.len() {
                            assert(string_views(out@)[a] == string_views(before)[a]);
                            assert(string_views(out@)[b] == string_views(before)[b]);
                        } else if a < before.len() {
                            assert(string_views(out@)[a] == string_views(before)[a]);
                        } else if b < before.len() {
                            assert(string_views(out@)[b] == string_views(before)[b]);
                        }
                    }
                } else {
                    assert(out@ == before);
                }
                assert forall|s: Seq<char>|
                    string_views(out@).contains(s) <==> (string_views(before).contains(s) || s
                        == nv) by {
                    if string_views(out@).contains(s) && s != nv {
                        let i = choose|i: int|
                            0 <= i < string_views(out@).len() && string_views(out@)[i] == s;
                        assert(i < before.len());
                        assert(string_views(before)[i] == s);
                    }
                    if string_views(before).contains(s) {
                        let i = choose|i: int|
                            0 <= i < string_views(before).len() && string_views(before)[i] == s;
                        assert(string_views(out@)[i] == s);
                    }
                }
                assert forall|s: Seq<char>|
                    #[trigger] among(team.organization@, team.repositories@, j + 1, s) <==> (among(
                        team.organization@,
                        team.repositories@,
                        j as int,
                        s,
                    ) || s == nv) by {
                    if s == nv {
                        assert(s == full_name(team.organization@, team.repositories@[j as int]@));
                    }
                }
            }
            proof {
                assert forall|s: Seq<char>|
                    string_views(out@).contains(s) <==> (is_target(
                        config.teams@.take(t as int),
                        s,
                    ) || among(team.organization@, team.repositories@, j + 1, s)) by {
                    assert(string_views(out@).contains(s) <==> (string_views(before).contains(s)
                        || s == nv));
                    assert(among(team.organization@, team.repositories@, j + 1, s) <==> (among(
                        team.organization@,
                        team.repositories@,
                        j as int,
                        s,
                    ) || s == nv));
                }
            }
            j = j + 1;
        }
        proof {
            let ts = config.teams@;
            assert forall|s: Seq<char>|
                is_target(ts.take(t + 1), s) <==> (is_target(ts.take(t as int), s) || among(
                    team.organization@,
                    team.repositories@,
                    team.repositories@.len() as int,
                    s,
                )) by {
                if is_target(ts.take(t + 1), s) {
                    let (a, b) = choose|a: int, b: int|
                        0 <= a < ts.take(t + 1).len() && 0 <= b < ts.take(
                            t + 1,
                        )[a].repositories@.len() && s == full_name(
                            ts.take(t + 1)[a].organization@,
                            #[trigger] ts.take(t + 1)[a].repositories@[b]@,
                        );
                    if a < t {
                        assert(ts.take(t as int)[a] == ts.take(t + 1)[a]);
                    }
                }
                if is_target(ts.take(t as int), s) {
                    let (a, b) = choose|a: int, b: int|
                        0 <= a < ts.take(t as int).len() && 0 <= b < ts.take(
                            t as int,
                        )[a].repositories@.len() && s == full_name(
                            ts.take(t as int)[a].organization@,
                            #[trigger] ts.take(t as int)[a].repositories@[b]@,
                        );
                    assert(ts.take(t + 1)[a] == ts.take(t as int)[a]);
                }
                if among(team.organization@, team.repositories@, team.repositories@.len() as int, s) {
                    let k = choose|k: int|
                        0 <= k < team.repositories@.len() && s == full_name(
                            team.organization@,
                            #[trigger] team.repositories@[k]@,
                        );
                    assert(ts.take(t + 1)[t as int] == *team);
                }
            }
        }
        t = t + 1;
    }
    proof {
        assert(config.teams@.take(t as int) =~= config.teams@);
    }
    out
}

} // verus!
