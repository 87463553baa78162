use project_memory::budget::EffectiveBudget;
use project_memory::deadline::{left_of, time_is_up, whole_ms, Deadline, TimeLimit};
use project_memory::content::ensure_content_read_deadline;
use project_memory::diagnostics::MemoryDiagnosticCode;
use project_memory::query::{MemoryQueryBudget, MemoryQueryError, MemoryTruncationReason};
use project_memory::repository::QueryLimitsConfig;
use project_memory::traversal::{context_candidate_limit_reached, MAX_CONTEXT_CANDIDATES};
use project_memory::value::{NonZeroU32, NonZeroU64};

struct After {
    asked: u64,
    last: u64,
}

impl Deadline for After {
    fn remaining_ms(&mut self) -> u64 {
        self.asked += 1;
        u64::from(self.asked <= self.last)
    }
}

#[test]
fn diagnostic_code_rejects_free_form_text() {
    assert!(MemoryDiagnosticCode::new("source.timeout").is_ok());
    assert!(MemoryDiagnosticCode::new("Source failed: /private/path").is_err());
}

#[test]
fn effective_budget_clamps_every_caller_value() {
    let requested = MemoryQueryBudget {
        max_results: NonZeroU32::new(1_000).unwrap(),
        max_bytes: NonZeroU64::new(1_000_000).unwrap(),
        max_snippet_bytes: NonZeroU64::new(1_000_000).unwrap(),
        max_depth: NonZeroU32::new(100).unwrap(),
        max_duration_ms: NonZeroU64::new(100_000).unwrap(),
        max_diagnostics: NonZeroU32::new(1_000).unwrap(),
    };
    let limits = QueryLimitsConfig::default();
    let effective = EffectiveBudget::new(&requested, &limits);
    assert_eq!(effective.max_results, limits.max_results);
    assert_eq!(effective.max_bytes, limits.max_bytes);
    assert_eq!(effective.max_snippet_bytes, limits.max_snippet_bytes);
    assert_eq!(effective.max_depth, limits.max_depth);
    assert_eq!(effective.max_duration_ms, limits.max_duration_ms);
    assert_eq!(effective.max_diagnostics, limits.max_diagnostics);
}

#[test]
fn context_candidate_cap_allows_edges_between_selected_entities() {
    assert!(!context_candidate_limit_reached(MAX_CONTEXT_CANDIDATES, true));
    assert!(context_candidate_limit_reached(MAX_CONTEXT_CANDIDATES, false));
}

#[test]
fn content_read_deadline_rejects_an_expired_budget() {
    let error = ensure_content_read_deadline(&mut TimeLimit::after_ms(0)).unwrap_err();
    assert_eq!(
        error,
        MemoryQueryError::BudgetExceeded(MemoryTruncationReason::Duration)
    );
    let mut deadline = After { asked: 0, last: 1 };
    assert!(ensure_content_read_deadline(&mut deadline).is_ok());
    assert!(ensure_content_read_deadline(&mut deadline).is_err());
}

#[test]
fn time_is_counted_in_whole_milliseconds() {
    assert!(time_is_up(0, 0));
    assert!(!time_is_up(1_999_999, 2));
    assert!(time_is_up(2_000_000, 2));
    assert!(!time_is_up(u128::from(u64::MAX), u64::MAX));
    assert_eq!(whole_ms(0), 0);
    assert_eq!(whole_ms(1_999_999), 1);
    assert_eq!(whole_ms(2_000_000), 2);
    assert_eq!(whole_ms(u128::MAX), u64::MAX);
    assert_eq!(left_of(5, 3), 2);
    assert_eq!(left_of(5, 5), 0);
    assert_eq!(left_of(5, 9), 0);
}

#[test]
fn time_limits_come() {
    let mut never = TimeLimit::after_ms(u64::MAX);
    assert!(!never.expired());
    assert!(never.remaining_ms() > u64::MAX - 1_000_000);
    let before = never.elapsed_ms();
    let mut soon = TimeLimit::after_ms(2);
    assert!(soon.remaining_ms() <= 2);
    while !soon.expired() {}
    assert_eq!(soon.remaining_ms(), 0);
    assert!(soon.elapsed_ms() >= 2);
    assert!(never.elapsed_ms() >= before + 2);
}

#[test]
fn budgets_shrink_with_the_time_that_is_left() {
    let limits = QueryLimitsConfig::default();
    let budget = EffectiveBudget::new(
        &MemoryQueryBudget {
            max_results: NonZeroU32::new(1).unwrap(),
            max_bytes: NonZeroU64::new(1).unwrap(),
            max_snippet_bytes: NonZeroU64::new(1).unwrap(),
            max_depth: NonZeroU32::new(1).unwrap(),
            max_duration_ms: NonZeroU64::new(50).unwrap(),
            max_diagnostics: NonZeroU32::new(1).unwrap(),
        },
        &limits,
    );
    assert_eq!(budget.max_duration_ms, 50);
    assert_eq!(budget.remaining(20).unwrap().max_duration_ms, 20);
    assert_eq!(budget.remaining(70).unwrap().max_duration_ms, 50);
    assert_eq!(
        budget.remaining(0).unwrap_err(),
        MemoryQueryError::BudgetExceeded(MemoryTruncationReason::Duration)
    );
}
