use cucumber_core::Examples;
use cucumber_core::Feature;
use cucumber_core::OutcomeKind;
use cucumber_core::PanicDetails;
use cucumber_core::RunSummary;
use cucumber_core::Scenario;
use cucumber_core::ScenarioExecution;
use cucumber_core::Step;
use cucumber_core::StepAction;
use cucumber_core::StepType;
use cucumber_core::Steps;
use cucumber_core::TestResult;
use cucumber_core::TrapOutcome;
use cucumber_core::and_all;
use cucumber_core::classify_trap;
use cucumber_core::run_count;
use cucumber_core::steps_for_scenario;

#[derive(Default)]
struct ThingWorld {
    thing: Option<String>,
    calls: usize,
}

type ExactFn = fn(&mut ThingWorld, &Step) -> Result<(), String>;
type PatFn = fn(&mut ThingWorld, &[String], &Step) -> Result<(), String>;

fn step(ty: StepType, text: &str) -> Step {
    Step { ty, value: text.to_string(), table: None, docstring: None }
}

fn plain_scenario(steps: Vec<Step>) -> Scenario {
    Scenario { name: "s".to_string(), tags: None, steps, examples: None }
}

fn plain_feature(scenario: Scenario) -> Feature {
    Feature {
        name: "f".to_string(),
        background: None,
        scenarios: vec![scenario],
        rules: Vec::new(),
    }
}

fn ok_trap() -> TrapOutcome {
    TrapOutcome { result: Ok(()), stdout: Vec::new(), stderr: Vec::new() }
}

fn failed_trap(payload: &str, stdout: &[u8], stderr: &[u8]) -> TrapOutcome {
    TrapOutcome {
        result: Err(PanicDetails {
            payload: payload.to_string(),
            location: "handler.rs:1".to_string(),
        }),
        stdout: stdout.to_vec(),
        stderr: stderr.to_vec(),
    }
}

/// Drive one execution to the end, standing in for the isolation
/// boundary: a handler's Err return plays the part of an abrupt failure.
fn drive(
    registry: &Steps<ExactFn, PatFn>,
    world: &mut ThingWorld,
    steps: Vec<Step>,
) -> (ScenarioExecution, Vec<TestResult>) {
    let mut exec = ScenarioExecution::new(steps);
    let mut reported = Vec::new();
    loop {
        match exec.poll(registry) {
            StepAction::Finished => break,
            StepAction::Reported(_) => {},
            StepAction::Invoke(h, s) => {
                let trap = match h(world, &s) {
                    Ok(()) => ok_trap(),
                    Err(message) => failed_trap(&message, b"", b""),
                };
                reported.push(exec.complete(trap));
            },
            StepAction::InvokeRegex(h, caps, s) => {
                let trap = match h(world, &caps, &s) {
                    Ok(()) => ok_trap(),
                    Err(message) => failed_trap(&message, b"", b""),
                };
                reported.push(exec.complete(trap));
            },
        }
    }
    (exec, reported)
}

fn sample_registry() -> Steps<ExactFn, PatFn> {
    let mut steps: Steps<ExactFn, PatFn> = Steps::new();
    steps.add_normal(StepType::Given, "a thing", |world, _step| {
        world.calls += 1;
        world.thing = Some(String::new());
        Ok(())
    });
    steps
        .add_regex(StepType::Given, r"a thing is (.*)", |world, caps, _step| {
            world.calls += 1;
            world.thing = Some(caps[1].clone());
            Ok(())
        })
        .unwrap();
    steps
        .add_regex(StepType::Then, r"it's reverse is (.*)", |world, caps, _step| {
            world.calls += 1;
            let reversed: String = world.thing.as_ref().unwrap().chars().rev().collect();
            if reversed == caps[1] {
                Ok(())
            } else {
                Err(format!("expected {} but got {}", caps[1], reversed))
            }
        })
        .unwrap();
    steps.add_normal(StepType::When, "it breaks", |world, _step| {
        world.calls += 1;
        Err("broken".to_string())
    });
    steps.add_normal(StepType::Then, "nothing happened", |world, _step| {
        world.calls += 1;
        Ok(())
    });
    steps
}

#[test]
fn three_passing_steps_succeed() {
    let registry = sample_registry();
    let mut world = ThingWorld::default();
    let steps = vec![
        step(StepType::Given, "a thing"),
        step(StepType::Given, "a thing is foo"),
        step(StepType::Then, "it's reverse is oof"),
    ];
    let (exec, reported) = drive(&registry, &mut world, steps);
    assert_eq!(exec.kinds, vec![OutcomeKind::Pass, OutcomeKind::Pass, OutcomeKind::Pass]);
    assert!(exec.success);
    assert_eq!(world.calls, 3);
    assert!(reported.iter().all(|r| matches!(r, TestResult::Pass)));
}

#[test]
fn failing_when_skips_the_then() {
    let registry = sample_registry();
    let mut world = ThingWorld::default();
    let steps = vec![
        step(StepType::When, "it breaks"),
        step(StepType::Then, "nothing happened"),
    ];
    let (exec, reported) = drive(&registry, &mut world, steps);
    assert_eq!(exec.kinds, vec![OutcomeKind::Fail, OutcomeKind::Skipped]);
    assert!(!exec.success);
    assert_eq!(world.calls, 1, "the skipped step's handler must not run");
    assert_eq!(reported.len(), 1);
    match &reported[0] {
        TestResult::Fail(details, _, _) => assert_eq!(details.payload, "broken"),
        _ => panic!("expected a failure"),
    }
}

#[test]
fn unimplemented_first_step_skips_the_rest_without_failing() {
    let registry = sample_registry();
    let mut world = ThingWorld::default();
    let steps = vec![
        step(StepType::Given, "something nobody registered"),
        step(StepType::Given, "a thing"),
        step(StepType::Then, "nothing happened"),
    ];
    let (exec, _) = drive(&registry, &mut world, steps);
    assert_eq!(
        exec.kinds,
        vec![OutcomeKind::Unimplemented, OutcomeKind::Skipped, OutcomeKind::Skipped]
    );
    assert!(exec.success, "an unimplemented step does not fail the scenario");
    assert_eq!(world.calls, 0);
    let mut summary = RunSummary::new();
    summary.record_scenario(exec.success);
    assert!(summary.is_success());
}

#[test]
fn explicit_skip_sentinel_skips_without_failing() {
    let registry = sample_registry();
    let world = ThingWorld::default();
    let mut exec = ScenarioExecution::new(vec![
        step(StepType::Given, "a thing"),
        step(StepType::Then, "nothing happened"),
    ]);
    match exec.poll(&registry) {
        StepAction::Invoke(_, _) => {
            let r = exec.complete(failed_trap("cucumber test skipped", b"", b""));
            assert!(matches!(r, TestResult::Skipped));
        },
        _ => panic!("expected a handler for the first step"),
    }
    match exec.poll(&registry) {
        StepAction::Reported(k) => assert_eq!(k, OutcomeKind::Skipped),
        _ => panic!("the cascade must not hand out another handler"),
    }
    assert!(matches!(exec.poll(&registry), StepAction::Finished));
    assert!(exec.success);
    assert_eq!(world.calls, 0);
}

#[test]
fn failure_keeps_captured_output() {
    let trap = failed_trap("boom", b"printed out", b"printed err");
    match classify_trap(trap) {
        TestResult::Fail(details, stdout, stderr) => {
            assert_eq!(details.payload, "boom");
            assert_eq!(details.location, "handler.rs:1");
            assert_eq!(stdout, b"printed out".to_vec());
            assert_eq!(stderr, b"printed err".to_vec());
        },
        _ => panic!("expected a failure"),
    }
}

#[test]
fn trap_success_is_pass() {
    assert!(matches!(classify_trap(ok_trap()), TestResult::Pass));
}

#[test]
fn background_steps_come_first() {
    let scenario = plain_scenario(vec![step(StepType::When, "own step")]);
    let feature = Feature {
        name: "f".to_string(),
        background: Some(vec![step(StepType::Given, "from background")]),
        scenarios: Vec::new(),
        rules: Vec::new(),
    };
    let steps = steps_for_scenario(&feature, &scenario, None);
    assert_eq!(steps.len(), 2);
    assert_eq!(steps[0].value, "from background");
    assert_eq!(steps[1].value, "own step");
}

#[test]
fn outline_rows_run_independently_and_success_is_their_conjunction() {
    let registry = sample_registry();
    let scenario = Scenario {
        name: "outline".to_string(),
        tags: None,
        steps: vec![
            step(StepType::Given, "a thing is <word>"),
            step(StepType::Then, "it's reverse is <drow>"),
        ],
        examples: Some(Examples {
            header: vec!["word".to_string(), "drow".to_string()],
            rows: vec![
                vec!["foo".to_string(), "oof".to_string()],
                vec!["bar".to_string(), "wrong".to_string()],
            ],
        }),
    };
    let feature = plain_feature(Scenario {
        name: scenario.name.clone(),
        tags: None,
        steps: Vec::new(),
        examples: None,
    });
    assert_eq!(run_count(&scenario), 2);
    let mut row_results = Vec::new();
    let mut worlds_seen = Vec::new();
    let rows = scenario.examples.as_ref().unwrap().rows.clone();
    for row in &rows {
        let mut world = ThingWorld::default();
        assert!(world.thing.is_none(), "each row starts from a fresh state");
        let steps = steps_for_scenario(&feature, &scenario, Some(row));
        let (exec, _) = drive(&registry, &mut world, steps);
        row_results.push(exec.success);
        worlds_seen.push(world.calls);
    }
    assert_eq!(row_results, vec![true, false]);
    assert_eq!(worlds_seen, vec![2, 2]);
    assert!(!and_all(&row_results));
    assert!(and_all(&vec![true, true]));
}

#[test]
fn single_scenario_runs_once() {
    let scenario = plain_scenario(vec![step(StepType::Given, "a thing")]);
    assert_eq!(run_count(&scenario), 1);
}
