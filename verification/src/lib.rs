//! A small behaviour-driven test core: a step registry with exact and
//! pattern matchers, outline-variable interpolation, tag and name filters,
//! and a scenario executor with skip-cascade semantics.

mod executor;
mod feature;
mod filter;
mod interpolate;
mod outcome;
mod pattern;
mod registry;
mod runner;
mod textops;

pub use executor::ScenarioExecution;
pub use executor::StepAction;
pub use executor::World;
pub use executor::run_count;
pub use executor::steps_for_scenario;
pub use feature::Examples;
pub use feature::Feature;
pub use feature::Rule;
pub use feature::Scenario;
pub use feature::Step;
pub use feature::StepType;
pub use filter::tag_rule_applies;
pub use interpolate::interpolate_outline_variables;
pub use outcome::OutcomeKind;
pub use outcome::PanicDetails;
pub use outcome::TestResult;
pub use outcome::TrapOutcome;
pub use outcome::classify_trap;
pub use pattern::CompiledPattern;
pub use registry::ConfigError;
pub use registry::Steps;
pub use registry::TestCaseType;
pub use runner::RunSummary;
pub use runner::and_all;
pub use runner::scenario_passes_filters;
