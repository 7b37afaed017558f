use oryxis::decode::{Action, ActionKind};
use oryxis::dispatch::{
    filter_skills, outcome_of_code, outcome_of_command, outcome_of_delete, outcome_of_get,
    outcome_of_listing, outcome_of_search, outcome_of_unknown, skill_matches, skill_matches_folded,
    Skill,
};
use oryxis::event::{handle_fast_execute, plan_dispatch, Request};

fn skill(name: &str, description: &str) -> Skill {
    Skill { name: name.to_string(), description: description.to_string(), code: "task()".to_string() }
}

fn store() -> Vec<Skill> {
    vec![
        skill("open_spotify", "Starts the music player"),
        skill("list_files", "Lists a directory"),
        skill("app_runner", "Generic LAUNCHER for desktop apps"),
        skill("OpenBrowser", "web"),
    ]
}

#[test]
fn check_skills_search_splits_keywords() {
    match handle_fast_execute("CHECKSKILLS-> open, launcher") {
        Request::FindSkills(k) => assert_eq!(k, vec!["open".to_string(), "launcher".to_string()]),
        _ => panic!("expected a search"),
    }
    match handle_fast_execute("_event_CHECKSKILLS->music") {
        Request::FindSkills(k) => assert_eq!(k, vec!["music".to_string()]),
        _ => panic!("expected a search"),
    }
}

#[test]
fn other_events() {
    assert!(matches!(handle_fast_execute("CHECKSKILLS"), Request::ListSkills));
    assert!(matches!(handle_fast_execute("_event_CHECKSKILLS_"), Request::ListSkills));
    match handle_fast_execute("GETSKILL-> open_spotify ") {
        Request::GetSkill(n) => assert_eq!(n, "open_spotify"),
        _ => panic!("expected a fetch"),
    }
    match handle_fast_execute("_event_DELETESKILL->old") {
        Request::DeleteSkill(n) => assert_eq!(n, "old"),
        _ => panic!("expected a deletion"),
    }
    match handle_fast_execute("cmdlib.run_command('ls', ['-l'])") {
        Request::RunCommand(c) => assert_eq!(c, "cmdlib.run_command('ls', ['-l'])"),
        _ => panic!("expected a command"),
    }
    match handle_fast_execute("DANCE") {
        Request::Unknown(e) => assert_eq!(e, "DANCE"),
        _ => panic!("expected an unknown event"),
    }
}

#[test]
fn plan_for_code_and_events() {
    let a = Action { kind: ActionKind::Execute, payload: "1+1".to_string() };
    match plan_dispatch(&a) {
        Request::RunCode(c) => assert_eq!(c, "1+1"),
        _ => panic!("expected code"),
    }
    let f = Action { kind: ActionKind::FastExecute, payload: "CHECKSKILLS".to_string() };
    assert!(matches!(plan_dispatch(&f), Request::ListSkills));
}

#[test]
fn search_matches_any_keyword_in_name_or_description() {
    let kws = vec!["open".to_string(), "launcher".to_string()];
    let found = filter_skills(&store(), &kws);
    let names: Vec<&str> = found.iter().map(|s| s.name.as_str()).collect();
    assert_eq!(names, vec!["open_spotify", "app_runner", "OpenBrowser"]);
}

#[test]
fn search_ignores_case_of_keywords() {
    let kws = vec!["MUSIC".to_string()];
    let found = filter_skills(&store(), &kws);
    assert_eq!(found.len(), 1);
    assert_eq!(found[0].name, "open_spotify");
    assert!(skill_matches(&skill("X", "Lists A Directory"), &vec!["lists a".to_string()]));
    assert!(!skill_matches(&skill("X", "y"), &vec!["z".to_string()]));
    assert!(filter_skills(&store(), &vec![]).is_empty());
}

#[test]
fn folded_matching_is_exact() {
    assert!(skill_matches_folded("open_app", "", &vec!["app".to_string()]));
    assert!(!skill_matches_folded("open_app", "", &vec!["APP".to_string()]));
    assert!(skill_matches_folded("a", "launcher", &vec!["x".to_string(), "laun".to_string()]));
}

#[test]
fn code_outcomes() {
    let ok = outcome_of_code(Ok("42".to_string()));
    assert!(ok.success);
    assert_eq!(ok.text, "42");
    let bad = outcome_of_code(Ok("Python Error: NameError".to_string()));
    assert!(!bad.success);
    let err = outcome_of_code(Err("engine down".to_string()));
    assert!(!err.success);
    assert_eq!(err.text, "engine down");
    assert!(!outcome_of_command(Ok("ERROR: no such file".to_string())).success);
    assert!(outcome_of_command(Ok("file.txt".to_string())).success);
}

#[test]
fn skill_store_outcomes() {
    let listing = outcome_of_listing(Ok(vec![skill("a", "b")]));
    assert!(listing.success);
    assert_eq!(listing.text, "status: success\ncount: 1\n- name: a\n  description: b\n  code:\ntask()\n");
    let search = outcome_of_search(Ok(store()), &vec!["directory".to_string()]);
    assert!(search.text.starts_with("status: success\ncount: 1\n- name: list_files"));
    let many: Vec<Skill> = (0..12).map(|i| skill(&format!("s{}", i), "d")).collect();
    assert!(outcome_of_listing(Ok(many)).text.starts_with("status: success\ncount: 12\n"));
    let missing = outcome_of_get("ghost", Ok(None));
    assert!(!missing.success);
    assert_eq!(missing.text, "Skill not found: ghost");
    let found = outcome_of_get("a", Ok(Some(skill("a", "b"))));
    assert!(found.success);
    assert_eq!(found.text, "status: success\n- name: a\n  description: b\n  code:\ntask()\n");
    let deleted = outcome_of_delete("gone", Ok(()));
    assert!(deleted.success);
    assert_eq!(deleted.text, "status: success\ndeleted: gone");
    assert!(!outcome_of_delete("x", Err("db locked".to_string())).success);
    let unknown = outcome_of_unknown("DANCE");
    assert!(!unknown.success);
    assert_eq!(
        unknown.text,
        "{\"status\": \"error\", \"message\": \"Unknown fast_execute event: DANCE\"}"
    );
}
