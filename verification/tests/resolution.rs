use lunash::resolve::candidate_paths;
use lunash::resolve::join_path_exec;
use lunash::resolve::resolve_decided;
use lunash::resolve::script_filename_for;
use lunash::resolve::Resolution;
use lunash::resolve::Resolver;

#[test]
fn canonical_filename_embeds_launcher_id() {
    assert_eq!(script_filename_for("foo"), "foo.lunash.lua".to_string());
}

#[test]
fn join_path_inserts_single_separator() {
    assert_eq!(join_path_exec("a", "b"), "a/b".to_string());
    assert_eq!(join_path_exec("a/", "b"), "a/b".to_string());
    assert_eq!(join_path_exec("", "b"), "b".to_string());
    assert_eq!(join_path_exec("a", "/b"), "/b".to_string());
}

#[test]
fn candidates_come_in_tier_order() {
    let cands = candidate_paths("foo", Some("/home/u/.local/share/lunash"), Some("/opt/s:/usr/s"));
    assert_eq!(
        cands,
        vec![
            "foo.lunash.lua".to_string(),
            "/home/u/.local/share/lunash/scripts/foo.lunash.lua".to_string(),
            "/opt/s/foo.lunash.lua".to_string(),
            "/usr/s/foo.lunash.lua".to_string(),
        ]
    );
}

#[test]
fn candidates_without_optional_tiers() {
    let cands = candidate_paths("foo", None, None);
    assert_eq!(cands, vec!["foo.lunash.lua".to_string()]);
}

#[test]
fn tier1_wins_even_when_later_tiers_match() {
    let cands = candidate_paths("foo", Some("/data"), Some("/opt/s"));
    let present = vec![true, true, true];
    match resolve_decided(&cands, &present) {
        Resolution::Found(p) => assert_eq!(p, "foo.lunash.lua".to_string()),
        Resolution::NotFound => panic!("tier-1 hit must resolve"),
    }
}

#[test]
fn absent_everywhere_is_not_found() {
    let cands = candidate_paths("foo", Some("/data"), Some("/opt/s"));
    let present = vec![false, false, false];
    match resolve_decided(&cands, &present) {
        Resolution::Found(_) => panic!("nothing is present"),
        Resolution::NotFound => {}
    }
}

#[test]
fn environment_tier_resolves_when_earlier_tiers_miss() {
    let cands = candidate_paths("foo", Some("/data"), Some("/env/scripts"));
    let present = vec![false, false, true];
    match resolve_decided(&cands, &present) {
        Resolution::Found(p) => assert_eq!(p, "/env/scripts/foo.lunash.lua".to_string()),
        Resolution::NotFound => panic!("the environment tier holds the script"),
    }
}

#[test]
fn resolver_stops_at_first_hit() {
    let mut r = Resolver::new("foo", Some("/data"), Some("/env/scripts"));
    let first = r.next_candidate().expect("tier 1 must be offered");
    assert_eq!(first, "foo.lunash.lua".to_string());
    match r.step(true) {
        Some(Resolution::Found(p)) => assert_eq!(p, "foo.lunash.lua".to_string()),
        _ => panic!("a present candidate resolves immediately"),
    }
}

#[test]
fn resolver_walks_all_tiers_before_giving_up() {
    let mut r = Resolver::new("foo", Some("/data"), None);
    assert_eq!(r.next_candidate(), Some("foo.lunash.lua".to_string()));
    assert!(r.step(false).is_none());
    assert_eq!(
        r.next_candidate(),
        Some("/data/scripts/foo.lunash.lua".to_string())
    );
    match r.step(false) {
        Some(Resolution::NotFound) => {}
        _ => panic!("after the last candidate the resolver reports NotFound"),
    }
}
