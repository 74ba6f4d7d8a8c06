//! Per-language statistics and their roll-up into repository, team and
//! organisation totals.
use vstd::prelude::*;

use crate::table::KeyedTable;
use crate::teams::{team_includes, team_includes_repository, Team, TeamsConfig};

verus! {

/// Line counts of one language in one repository, or summed over several.
/// Only code lines are split between production and test.
#[derive(Clone, Copy, Debug, PartialEq, Eq, Structural)]
pub struct CodeStats {
    pub production_lines: u64,
    pub test_lines: u64,
    pub comment_lines: u64,
    pub empty_lines: u64,
    pub string_lines: u64,
}

/// All counts zero.
pub open spec fn no_stats() -> CodeStats {
    CodeStats {
        production_lines: 0,
        test_lines: 0,
        comment_lines: 0,
        empty_lines: 0,
        string_lines: 0,
    }
}

/// Every field of `a + b` fits in a `u64`.
pub open spec fn sum_fits(a: CodeStats, b: CodeStats) -> bool {
    &&& a.production_lines + b.production_lines <= u64::MAX
    &&& a.test_lines + b.test_lines <= u64::MAX
    &&& a.comment_lines + b.comment_lines <= u64::MAX
    &&& a.empty_lines + b.empty_lines <= u64::MAX
    &&& a.string_lines + b.string_lines <= u64::MAX
}

/// The field-wise sum of `a` and `b`.
pub open spec fn sum(a: CodeStats, b: CodeStats) -> CodeStats {
    CodeStats {
        production_lines: (a.production_lines + b.production_lines) as u64,
        test_lines: (a.test_lines + b.test_lines) as u64,
        comment_lines: (a.comment_lines + b.comment_lines) as u64,
        empty_lines: (a.empty_lines + b.empty_lines) as u64,
        string_lines: (a.string_lines + b.string_lines) as u64,
    }
}

impl CodeStats {
    /// All counts zero.
    pub fn zero() -> (r: CodeStats)
        ensures
            r == no_stats(),
    {
        CodeStats {
            production_lines: 0,
            test_lines: 0,
            comment_lines: 0,
            empty_lines: 0,
            string_lines: 0,
        }
    }

    /// The field-wise sum, or `None` where a field would not fit in a `u64`.
    pub fn checked_add(&self, other: &CodeStats) -> (r: Option<CodeStats>)
        ensures
            r == if sum_fits(*self, *other) {
                Some(sum(*self, *other))
            } else {
                None
            },
    {
        let p = self.production_lines.checked_add(other.production_lines);
        let t = self.test_lines.checked_add(other.test_lines);
        let c = self.comment_lines.checked_add(other.comment_lines);
        let e = self.empty_lines.checked_add(other.empty_lines);
        let s = self.string_lines.checked_add(other.string_lines);
        match (p, t, c, e, s) {
            (Some(p), Some(t), Some(c), Some(e), Some(s)) => Some(
                CodeStats {
                    production_lines: p,
                    test_lines: t,
                    comment_lines: c,
                    empty_lines: e,
                    string_lines: s,
                },
            ),
            _ => None,
        }
    }
}

/// Per-language statistics of one repository, team or organisation.
pub type StatsTable = KeyedTable<CodeStats>;

/// What `m` holds under `k`, or zero.
pub open spec fn stats_or_zero(m: Map<Seq<char>, CodeStats>, k: Seq<char>) -> CodeStats {
    if m.contains_key(k) {
        m[k]
    } else {
        no_stats()
    }
}

/// `s` added to what `m` holds under `k`, with a flag that is false, and `m`
/// left as it was, where the sum would not fit.
pub open spec fn add_or_keep(m: Map<Seq<char>, CodeStats>, k: Seq<char>, s: CodeStats) -> (Map<
    Seq<char>,
    CodeStats,
>, bool) {
    if sum_fits(stats_or_zero(m, k), s) {
        (m.insert(k, sum(stats_or_zero(m, k), s)), true)
    } else {
        (m, false)
    }
}

/// Adds `s` to the statistics under `key`, starting from zero where there
/// are none. Returns false, and changes nothing, where a sum would not fit
/// in a `u64`.
pub fn add_stats(table: &mut StatsTable, key: &String, s: &CodeStats) -> (r: bool)
    requires
        old(table).wf(),
    ensures
        final(table).wf(),
        (final(table)@, r) == add_or_keep(old(table)@, key@, *s),
{
    let ghost before = table@;
    let prev = table.take(key);
    let base = match prev {
        Some(v) => v,
        None => CodeStats::zero(),
    };
    match base.checked_add(s) {
        Some(total) => {
            table.put(key.clone(), total);
            proof {
                assert(table@ =~= before.insert(key@, total));
            }
            true
        },
        None => {
            match prev {
                Some(v) => {
                    table.put(key.clone(), v);
                    proof {
                        assert(table@ =~= before);
                    }
                },
                None => {
                    proof {
                        assert(table@ =~= before);
                    }
                },
            }
            false
        },
    }
}

/// The statistics of a table of tables, as a map of maps.
pub open spec fn nested_view(t: KeyedTable<StatsTable>) -> Map<Seq<char>, Map<Seq<char>, CodeStats>> {
    t@.map_values(|inner: StatsTable| inner@)
}

/// The outer table and every inner table are well formed.
pub open spec fn nested_wf(t: KeyedTable<StatsTable>) -> bool {
    t.wf() && forall|k: Seq<char>| #[trigger] t@.contains_key(k) ==> t@[k].wf()
}

/// What `m` holds under `k`, or an empty map.
pub open spec fn map_or_empty(
    m: Map<Seq<char>, Map<Seq<char>, CodeStats>>,
    k: Seq<char>,
) -> Map<Seq<char>, CodeStats> {
    if m.contains_key(k) {
        m[k]
    } else {
        Map::empty()
    }
}

/// The team statistics after the repository `repository` (full name `full`)
/// contributed `s` for `language`, team by team in order: each team that
/// includes the repository gets `s` added under the language. The flag is
/// false where some sum did not fit; that team's entry is then left as it was.
pub open spec fn team_rollup(
    tm: Map<Seq<char>, Map<Seq<char>, CodeStats>>,
    teams: Seq<Team>,
    repository: Seq<char>,
    full: Seq<char>,
    language: Seq<char>,
    s: CodeStats,
) -> (Map<Seq<char>, Map<Seq<char>, CodeStats>>, bool)
    decreases teams.len(),
{
    if teams.len() == 0 {
        (tm, true)
    } else {
        let (m, ok) = team_rollup(tm, teams.drop_last(), repository, full, language, s);
        let t = teams.last();
        if team_includes(t, repository, full) {
            let (inner, fits) = add_or_keep(map_or_empty(m, t.name@), language, s);
            (m.insert(t.name@, inner), ok && fits)
        } else {
            (m, ok)
        }
    }
}

/// The mathematical content of a [`Rollup`].
pub ghost struct RollupModel {
    pub repositories: Map<Seq<char>, Map<Seq<char>, CodeStats>>,
    pub teams: Map<Seq<char>, Map<Seq<char>, CodeStats>>,
    pub organization: Map<Seq<char>, CodeStats>,
}

/// Statistics per repository (by full name), per team and for the whole
/// organisation, each per language. Totals are only ever added to.
pub struct Rollup {
    repositories: KeyedTable<StatsTable>,
    teams: KeyedTable<StatsTable>,
    organization: StatsTable,
}

impl View for Rollup {
    type V = RollupModel;

    closed spec fn view(&self) -> RollupModel {
        RollupModel {
            repositories: nested_view(self.repositories),
            teams: nested_view(self.teams),
            organization: self.organization@,
        }
    }
}

/// Adds `s` under `language` to the inner table `group` of `t`.
fn add_to_group(
    t: &mut KeyedTable<StatsTable>,
    group: &String,
    language: &String,
    s: &CodeStats,
) -> (r: bool)
    requires
        nested_wf(*old(t)),
    ensures
        nested_wf(*final(t)),
        ({
            let (inner, fits) = add_or_keep(
                map_or_empty(nested_view(*old(t)), group@),
                language@,
                *s,
            );
            nested_view(*final(t)) == nested_view(*old(t)).insert(group@, inner) && r == fits
        }),
{
    let ghost before = *t;
    let mut inner = match t.take(group) {
        Some(v) => v,
        None => KeyedTable::new(),
    };
    proof {
        assert(inner@ == map_or_empty(nested_view(before), group@));
    }
    let fits = add_stats(&mut inner, language, s);
    let ghost iv = inner@;
    t.put(group.clone(), inner);
    proof {
        assert(nested_view(*t) =~= nested_view(before).insert(group@, iv));
    }
    fits
}

/// Sets the statistics under `language` of the inner table `group` of `t`.
fn set_in_group(t: &mut KeyedTable<StatsTable>, group: &String, language: &String, s: &CodeStats)
    requires
        nested_wf(*old(t)),
    ensures
        nested_wf(*final(t)),
        nested_view(*final(t)) == nested_view(*old(t)).insert(
            group@,
            map_or_empty(nested_view(*old(t)), group@).insert(language@, *s),
        ),
{
    let ghost before = *t;
    let mut inner = match t.take(group) {
        Some(v) => v,
        None => KeyedTable::new(),
    };
    let _ = inner.take(language);
    inner.put(language.clone(), *s);
    let ghost iv = inner@;
    proof {
        assert(iv =~= map_or_empty(nested_view(before), group@).insert(language@, *s));
    }
    t.put(group.clone(), inner);
    proof {
        assert(nested_view(*t) =~= nested_view(before).insert(group@, iv));
    }
}

impl Rollup {
    /// Every table well formed.
    pub closed spec fn wf(&self) -> bool {
        nested_wf(self.repositories) && nested_wf(self.teams) && self.organization.wf()
    }

    /// No statistics yet.
    pub fn new() -> (r: Rollup)
        ensures
            r.wf(),
            r@.repositories == Map::<Seq<char>, Map<Seq<char>, CodeStats>>::empty(),
            r@.teams == Map::<Seq<char>, Map<Seq<char>, CodeStats>>::empty(),
            r@.organization == Map::<Seq<char>, CodeStats>::empty(),
    {
        let r = Rollup {
            repositories: KeyedTable::new(),
            teams: KeyedTable::new(),
            organization: KeyedTable::new(),
        };
        proof {
            assert(nested_view(r.repositories) =~= Map::empty());
            assert(nested_view(r.teams) =~= Map::empty());
        }
        r
    }

    /// Folds the statistics `s` of `language` in the repository `repository`,
    /// whose full name is `full`, into the roll-up: the repository's entry is
    /// set, the organisation total is added to, and so is the total of every
    /// team that includes the repository, once per such team. Returns false
    /// where some sum did not fit in a `u64`; that total is then left as it was.
    pub fn record(
        &mut self,
        config: &TeamsConfig,
        repository: &String,
        full: &String,
        language: &String,
        s: &CodeStats,
    ) -> (r: bool)
        requires
            old(self).wf(),
        ensures
            final(self).wf(),
            ({
                let (om, org_ok) = add_or_keep(old(self)@.organization, language@, *s);
                let (tm, teams_ok) = team_rollup(
                    old(self)@.teams,
                    config.teams@,
                    repository@,
                    full@,
                    language@,
                    *s,
                );
                &&& final(self)@.repositories == old(self)@.repositories.insert(
                    full@,
                    map_or_empty(old(self)@.repositories, full@).insert(language@, *s),
                )
                &&& final(self)@.organization == om
                &&& final(self)@.teams == tm
                &&& r == (org_ok && teams_ok)
            }),
    {
        set_in_group(&mut self.repositories, full, language, s);
        let org_ok = add_stats(&mut self.organization, language, s);
        let ghost teams0 = nested_view(self.teams);
        let ghost repos1 = nested_view(self.repositories);
        let ghost org1 = self.organization@;
        let mut ok = true;
        let mut i: usize = 0;
        while i < config.teams.len()
            invariant
                i <= config.teams.len(),
                nested_wf(self.teams),
                nested_wf(self.repositories),
                self.organization.wf(),
                nested_view(self.repositories) == repos1,
                self.organization@ == org1,
                (nested_view(self.teams), ok) == team_rollup(
                    teams0,
                    config.teams@.take(i as int),
                    repository@,
                    full@,
                    language@,
                    *s,
                ),
            decreases config.teams.len() - i,
        {
            proof {
                assert(config.teams@.take(i + 1).drop_last() =~= config.teams@.take(i as int));
            }
            let team = &config.teams[i];
            if team_includes_repository(team, repository, full) {
                let fits = add_to_group(&mut self.teams, &team.name, language, s);
                ok = ok && fits;
            }
            i = i + 1;
        }
        proof {
            assert(config.teams@.take(i as int) =~= config.teams@);
        }
        org_ok && ok
    }

    /// Statistics per repository full name, then per language.
    pub fn repositories(&self) -> (r: &KeyedTable<StatsTable>)
        ensures
            nested_view(*r) == self@.repositories,
            self.wf() ==> nested_wf(*r),
    {
        &self.repositories
    }

    /// Statistics per team name, then per language.
    pub fn teams(&self) -> (r: &KeyedTable<StatsTable>)
        ensures
            nested_view(*r) == self@.teams,
            self.wf() ==> nested_wf(*r),
    {
        &self.teams
    }

    /// Statistics of the whole organisation per language.
    pub fn organization(&self) -> (r: &StatsTable)
        ensures
            r@ == self@.organization,
            self.wf() ==> r.wf(),
    {
        &self.organization
    }
}

} // verus!
