use ghcount::stats::{add_stats, CodeStats, Rollup, StatsTable};
use ghcount::teams::{make_full_name, split_full_name, target_repositories, team_includes_repository, Team, TeamsConfig};

fn cs(p: u64, t: u64, c: u64, e: u64, s: u64) -> CodeStats {
    CodeStats { production_lines: p, test_lines: t, comment_lines: c, empty_lines: e, string_lines: s }
}

fn team(name: &str, org: &str, repos: &[&str]) -> Team {
    Team {
        name: name.to_string(),
        organization: org.to_string(),
        repositories: repos.iter().map(|r| r.to_string()).collect(),
    }
}

#[test]
fn zero_teams_give_no_targets_and_empty_report() {
    let config = TeamsConfig { teams: vec![] };
    assert!(target_repositories(&config).is_empty());
    let rollup = Rollup::new();
    assert_eq!(rollup.repositories().len(), 0);
    assert_eq!(rollup.teams().len(), 0);
    assert_eq!(rollup.organization().len(), 0);
}

#[test]
fn targets_are_distinct_full_names() {
    let config = TeamsConfig {
        teams: vec![
            team("backend", "myorg", &["api", "database"]),
            team("frontend", "myorg", &["web", "api"]),
            team("ops", "other", &["api"]),
        ],
    };
    assert_eq!(
        target_repositories(&config),
        vec!["myorg/api", "myorg/database", "myorg/web", "other/api"]
    );
}

#[test]
fn full_names() {
    assert_eq!(make_full_name("myorg", "api"), "myorg/api");
    assert_eq!(make_full_name("", ""), "/");
    assert_eq!(split_full_name("myorg/api"), Some(("myorg".to_string(), "api".to_string())));
    assert_eq!(split_full_name("/x"), Some((String::new(), "x".to_string())));
    assert_eq!(split_full_name("a/b/c"), None);
    assert_eq!(split_full_name("abc"), None);
}

#[test]
fn team_membership_needs_org_and_declared_name() {
    let t = team("backend", "myorg", &["api"]);
    assert!(team_includes_repository(&t, &"api".to_string(), &"myorg/api".to_string()));
    assert!(!team_includes_repository(&t, &"api".to_string(), &"other/api".to_string()));
    assert!(!team_includes_repository(&t, &"web".to_string(), &"myorg/web".to_string()));
}

#[test]
fn add_stats_sums_fieldwise() {
    let mut table = StatsTable::new();
    let key = "Rust".to_string();
    assert!(add_stats(&mut table, &key, &cs(1, 2, 3, 4, 5)));
    assert!(add_stats(&mut table, &key, &cs(10, 20, 30, 40, 50)));
    assert_eq!(table.get(&key), Some(&cs(11, 22, 33, 44, 55)));
    assert_eq!(table.len(), 1);
    assert!(!add_stats(&mut table, &key, &cs(u64::MAX, 0, 0, 0, 0)));
    assert_eq!(table.get(&key), Some(&cs(11, 22, 33, 44, 55)));
    assert_eq!(table.get(&"Go".to_string()), None);
}

#[test]
fn checked_add_reports_overflow() {
    assert_eq!(cs(1, 1, 1, 1, 1).checked_add(&cs(2, 2, 2, 2, 2)), Some(cs(3, 3, 3, 3, 3)));
    assert_eq!(cs(0, 0, 0, 0, u64::MAX).checked_add(&cs(0, 0, 0, 0, 1)), None);
    assert_eq!(CodeStats::zero(), cs(0, 0, 0, 0, 0));
}

#[test]
fn record_folds_into_repository_team_and_organization() {
    let config = TeamsConfig {
        teams: vec![
            team("backend", "myorg", &["api"]),
            team("frontend", "myorg", &["web"]),
            team("platform", "myorg", &["api", "web"]),
        ],
    };
    let mut rollup = Rollup::new();
    let java = "Java".to_string();
    assert!(rollup.record(&config, &"api".to_string(), &"myorg/api".to_string(), &java, &cs(100, 50, 0, 0, 0)));
    assert!(rollup.record(&config, &"web".to_string(), &"myorg/web".to_string(), &java, &cs(10, 5, 0, 0, 0)));

    let repos = rollup.repositories();
    assert_eq!(repos.len(), 2);
    assert_eq!(repos.get(&"myorg/api".to_string()).unwrap().get(&java), Some(&cs(100, 50, 0, 0, 0)));

    let teams = rollup.teams();
    assert_eq!(teams.len(), 3);
    assert_eq!(teams.get(&"backend".to_string()).unwrap().get(&java), Some(&cs(100, 50, 0, 0, 0)));
    assert_eq!(teams.get(&"frontend".to_string()).unwrap().get(&java), Some(&cs(10, 5, 0, 0, 0)));
    assert_eq!(teams.get(&"platform".to_string()).unwrap().get(&java), Some(&cs(110, 55, 0, 0, 0)));

    assert_eq!(rollup.organization().get(&java), Some(&cs(110, 55, 0, 0, 0)));
}

#[test]
fn record_counts_a_repository_once_per_declaring_team() {
    let config = TeamsConfig {
        teams: vec![team("a", "org", &["x"]), team("b", "org", &["x"]), team("c", "elsewhere", &["x"])],
    };
    let mut rollup = Rollup::new();
    let go = "Go".to_string();
    assert!(rollup.record(&config, &"x".to_string(), &"org/x".to_string(), &go, &cs(7, 3, 1, 1, 1)));
    assert_eq!(rollup.teams().len(), 2);
    assert_eq!(rollup.teams().get(&"a".to_string()).unwrap().get(&go), Some(&cs(7, 3, 1, 1, 1)));
    assert_eq!(rollup.teams().get(&"b".to_string()).unwrap().get(&go), Some(&cs(7, 3, 1, 1, 1)));
    assert!(rollup.teams().get(&"c".to_string()).is_none());
}

#[test]
fn record_replaces_repository_entry_and_reports_overflow() {
    let config = TeamsConfig { teams: vec![] };
    let mut rollup = Rollup::new();
    let rust = "Rust".to_string();
    let name = "r".to_string();
    let full = "o/r".to_string();
    assert!(rollup.record(&config, &name, &full, &rust, &cs(u64::MAX, 0, 0, 0, 0)));
    assert!(!rollup.record(&config, &name, &full, &rust, &cs(1, 0, 0, 0, 0)));
    assert_eq!(rollup.repositories().get(&full).unwrap().get(&rust), Some(&cs(1, 0, 0, 0, 0)));
    assert_eq!(rollup.organization().get(&rust), Some(&cs(u64::MAX, 0, 0, 0, 0)));
}
