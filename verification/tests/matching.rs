use cucumber_core::CompiledPattern;
use cucumber_core::RunSummary;
use cucumber_core::Scenario;
use cucumber_core::Step;
use cucumber_core::StepType;
use cucumber_core::Steps;
use cucumber_core::TestCaseType;
use cucumber_core::interpolate_outline_variables;
use cucumber_core::scenario_passes_filters;
use cucumber_core::tag_rule_applies;

fn step(ty: StepType, text: &str) -> Step {
    Step { ty, value: text.to_string(), table: None, docstring: None }
}

fn scenario(name: &str, tags: Option<Vec<String>>) -> Scenario {
    Scenario { name: name.to_string(), tags, steps: Vec::new(), examples: None }
}

#[test]
fn exact_entry_beats_pattern_entry() {
    let mut steps: Steps<u32, u32> = Steps::new();
    steps.add_normal(StepType::Given, "a thing", 1);
    steps.add_regex(StepType::Given, "a (.*)", 2).unwrap();
    match steps.test_type(&step(StepType::Given, "a thing")) {
        Some(TestCaseType::Normal(h)) => assert_eq!(h, 1),
        _ => panic!("expected the exact entry to win"),
    }
}

#[test]
fn pattern_capture_zero_is_the_overall_match() {
    let mut steps: Steps<u32, u32> = Steps::new();
    steps.add_regex(StepType::When, r"(\d+) apples", 9).unwrap();
    match steps.test_type(&step(StepType::When, "I eat 12 apples today")) {
        Some(TestCaseType::Regex(h, caps)) => {
            assert_eq!(h, 9);
            assert_eq!(caps[0], "12 apples");
            assert_eq!(caps[1], "12");
        },
        _ => panic!("expected a pattern match"),
    }
}

#[test]
fn nonparticipating_group_yields_empty_string() {
    let mut steps: Steps<u32, u32> = Steps::new();
    steps.add_regex(StepType::Then, r"a(x)?b(c)", 3).unwrap();
    match steps.test_type(&step(StepType::Then, "abc")) {
        Some(TestCaseType::Regex(_, caps)) => {
            assert_eq!(caps[0], "abc");
            assert_eq!(caps[1], "");
            assert_eq!(caps[2], "c");
        },
        _ => panic!("expected a pattern match"),
    }
}

#[test]
fn first_registered_matching_pattern_wins() {
    let mut steps: Steps<u32, u32> = Steps::new();
    steps.add_regex(StepType::Given, "thing (.*)", 1).unwrap();
    steps.add_regex(StepType::Given, "thing called (.*)", 2).unwrap();
    match steps.test_type(&step(StepType::Given, "thing called x")) {
        Some(TestCaseType::Regex(h, _)) => assert_eq!(h, 1),
        _ => panic!("expected a pattern match"),
    }
}

#[test]
fn no_entry_resolves_to_none() {
    let steps: Steps<u32, u32> = Steps::new();
    assert!(steps.test_type(&step(StepType::Given, "anything")).is_none());
}

#[test]
fn roles_are_kept_apart() {
    let mut steps: Steps<u32, u32> = Steps::new();
    steps.add_normal(StepType::Given, "a thing", 1);
    assert!(steps.test_type(&step(StepType::When, "a thing")).is_none());
}

#[test]
fn combine_prefers_the_later_registry() {
    let mut first: Steps<u32, u32> = Steps::new();
    first.add_normal(StepType::When, "shared", 1);
    first.add_normal(StepType::When, "only first", 10);
    first.add_regex(StepType::When, "pat (.*)", 100).unwrap();
    let mut second: Steps<u32, u32> = Steps::new();
    second.add_normal(StepType::When, "shared", 2);
    second.add_regex(StepType::When, "pat (.*)", 200).unwrap();
    let combined = Steps::combine(vec![first, second]);
    match combined.test_type(&step(StepType::When, "shared")) {
        Some(TestCaseType::Normal(h)) => assert_eq!(h, 2),
        _ => panic!("expected the later registry's handler"),
    }
    match combined.test_type(&step(StepType::When, "only first")) {
        Some(TestCaseType::Normal(h)) => assert_eq!(h, 10),
        _ => panic!("expected the earlier registry's handler to survive"),
    }
    match combined.test_type(&step(StepType::When, "pat x")) {
        Some(TestCaseType::Regex(h, _)) => assert_eq!(h, 200),
        _ => panic!("expected the later pattern handler"),
    }
}

#[test]
fn invalid_pattern_is_a_config_error() {
    let mut steps: Steps<u32, u32> = Steps::new();
    let err = steps.add_regex(StepType::Given, "([", 1).unwrap_err();
    assert_eq!(err.pattern, "([");
    assert!(steps.test_type(&step(StepType::Given, "([")).is_none());
}

#[test]
fn interpolation_replaces_every_part() {
    let s = Step {
        ty: StepType::Given,
        value: "I eat <count> of <what>".to_string(),
        table: Some(vec![vec!["<count>".to_string(), "rows of <what>".to_string()]]),
        docstring: Some("all <count>".to_string()),
    };
    let header = vec!["count".to_string(), "what".to_string()];
    let row = vec!["5".to_string(), "pears".to_string()];
    let r = interpolate_outline_variables(&s, &header, &row);
    assert_eq!(r.value, "I eat 5 of pears");
    assert_eq!(r.table.unwrap()[0], vec!["5".to_string(), "rows of pears".to_string()]);
    assert_eq!(r.docstring.unwrap(), "all 5");
}

#[test]
fn interpolation_without_tokens_is_identity() {
    let s = Step {
        ty: StepType::Then,
        value: "plain text".to_string(),
        table: Some(vec![vec!["cell".to_string()]]),
        docstring: Some("block".to_string()),
    };
    let header = vec!["name".to_string()];
    let row = vec!["value".to_string()];
    let r = interpolate_outline_variables(&s, &header, &row);
    assert_eq!(r.value, s.value);
    assert_eq!(r.table, s.table);
    assert_eq!(r.docstring, s.docstring);
    assert_eq!(r.ty, s.ty);
}

#[test]
fn interpolation_applies_in_header_order() {
    let header = vec!["a".to_string(), "b".to_string()];
    let forward = interpolate_outline_variables(
        &step(StepType::Given, "<a>"),
        &header,
        &vec!["<b>".to_string(), "1".to_string()],
    );
    assert_eq!(forward.value, "1");
    let backward = interpolate_outline_variables(
        &step(StepType::Given, "<b>"),
        &header,
        &vec!["2".to_string(), "<a>".to_string()],
    );
    assert_eq!(backward.value, "<a>");
}

#[test]
fn tag_rule_ignores_connectives_and_needs_every_token() {
    let sc = scenario("s", Some(vec!["fast".to_string(), "db".to_string()]));
    assert!(tag_rule_applies(&sc, "fast and db"));
    assert!(tag_rule_applies(&sc, "fast or db"));
    assert!(!tag_rule_applies(&sc, "fast and slow"));
    assert!(!tag_rule_applies(&sc, "slow"));
}

#[test]
fn tag_rule_with_no_tag_set_always_applies() {
    let sc = scenario("s", None);
    assert!(tag_rule_applies(&sc, "whatever"));
    assert!(tag_rule_applies(&sc, ""));
}

#[test]
fn empty_rule_token_must_still_be_present() {
    let sc = scenario("s", Some(vec!["fast".to_string()]));
    assert!(!tag_rule_applies(&sc, ""));
}

#[test]
fn tag_filter_excludes_untagged_request_only() {
    let tagged = scenario("s", Some(vec!["smoke".to_string()]));
    let untagged = scenario("s", None);
    let want = "smoke".to_string();
    let other = "slow".to_string();
    assert!(scenario_passes_filters(&tagged, Some(&want), None));
    assert!(!scenario_passes_filters(&tagged, Some(&other), None));
    assert!(scenario_passes_filters(&untagged, Some(&want), None));
    assert!(scenario_passes_filters(&tagged, None, None));
}

#[test]
fn name_filter_uses_search_semantics() {
    let sc = scenario("Login works", None);
    let hit = CompiledPattern::compile("works").unwrap();
    let miss = CompiledPattern::compile("^works").unwrap();
    assert!(scenario_passes_filters(&sc, None, Some(&hit)));
    assert!(!scenario_passes_filters(&sc, None, Some(&miss)));
}

#[test]
fn parse_error_marks_the_run_failed_for_good() {
    let mut summary = RunSummary::new();
    assert!(summary.is_success());
    summary.record_scenario(true);
    summary.record_parse_error();
    summary.record_scenario(true);
    assert!(!summary.is_success());
}
