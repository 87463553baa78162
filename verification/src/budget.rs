//! What a query may use once the caller's wishes meet the configured limits.
use vstd::prelude::*;
use crate::deadline::{is_up, shorter};
use crate::diagnostics::{diagnostic_code, is_diagnostic_code};
use crate::query::{
    MemoryQueryBudget, MemoryQueryBudgetView, MemoryQueryError, MemoryQueryErrorView,
};
use crate::repository::{QueryBudget, QueryBudgetView, QueryLimitsConfig, QueryLimitsConfigView};
use crate::value::{NonZeroU32, NonZeroU64};

verus! {

/// The lesser of two numbers.
pub open spec fn least(left: int, right: int) -> int {
    if left <= right {
        left
    } else {
        right
    }
}

/// The sum, or the greatest number where the sum is greater.
pub open spec fn saturated(left: u64, right: u64) -> u64 {
    least(left + right, u64::MAX as int) as u64
}

/// The sum, or the greatest number where the sum is greater.
pub fn saturating_sum(left: u64, right: u64) -> (sum: u64)
    ensures
        sum == saturated(left, right),
{
    if left > u64::MAX - right {
        u64::MAX
    } else {
        left + right
    }
}

fn least_u32(left: u32, right: u32) -> (result: u32)
    ensures
        result == least(left as int, right as int),
{
    if left <= right {
        left
    } else {
        right
    }
}

fn least_u64(left: u64, right: u64) -> (result: u64)
    ensures
        result == least(left as int, right as int),
{
    if left <= right {
        left
    } else {
        right
    }
}

/// The failure that carries a code.
pub open spec fn backend(code: Seq<char>) -> MemoryQueryErrorView {
    MemoryQueryErrorView::Backend(code)
}

/// The failure that carries a code.
pub fn backend_error(code: &str) -> (error: MemoryQueryError)
    requires
        is_diagnostic_code(code@),
    ensures
        error.deep_view() == backend(code@),
{
    MemoryQueryError::Backend(diagnostic_code(code))
}

/// What the limits leave of a query's budget when the caller asks for all of it: the code of the
/// first limit that is zero, or none.
pub open spec fn zero_limit(limits: QueryLimitsConfigView) -> Option<Seq<char>> {
    if limits.max_results == 0 {
        Some("query.maxresults"@)
    } else if limits.max_bytes == 0 {
        Some("query.maxbytes"@)
    } else if limits.max_snippet_bytes == 0 {
        Some("query.maxsnippetbytes"@)
    } else if limits.max_depth == 0 {
        Some("query.maxdepth"@)
    } else if limits.max_duration_ms == 0 {
        Some("query.maxduration"@)
    } else if limits.max_diagnostics == 0 {
        Some("query.maxdiagnostics"@)
    } else {
        None
    }
}

/// The budget that asks for all that the limits leave.
pub fn default_budget(
    limits: &QueryLimitsConfig,
) -> (result: Result<MemoryQueryBudget, MemoryQueryError>)
    ensures
        match result {
            Ok(budget) => zero_limit(limits.deep_view()) is None && budget.deep_view() == (
                MemoryQueryBudgetView {
                    max_results: limits.max_results,
                    max_bytes: limits.max_bytes,
                    max_snippet_bytes: limits.max_snippet_bytes,
                    max_depth: limits.max_depth,
                    max_duration_ms: limits.max_duration_ms,
                    max_diagnostics: limits.max_diagnostics,
                }),
            Err(error) => zero_limit(limits.deep_view()) matches Some(code) && error.deep_view()
                == backend(code),
        },
{
    proof {
        reveal_strlit("query.maxresults");
        reveal_strlit("query.maxbytes");
        reveal_strlit("query.maxsnippetbytes");
        reveal_strlit("query.maxdepth");
        reveal_strlit("query.maxduration");
        reveal_strlit("query.maxdiagnostics");
    }
    let max_results = match NonZeroU32::new(limits.max_results) {
        Some(value) => value,
        None => return Err(backend_error("query.maxresults")),
    };
    let max_bytes = match NonZeroU64::new(limits.max_bytes) {
        Some(value) => value,
        None => return Err(backend_error("query.maxbytes")),
    };
    let max_snippet_bytes = match NonZeroU64::new(limits.max_snippet_bytes) {
        Some(value) => value,
        None => return Err(backend_error("query.maxsnippetbytes")),
    };
    let max_depth = match NonZeroU32::new(limits.max_depth) {
        Some(value) => value,
        None => return Err(backend_error("query.maxdepth")),
    };
    let max_duration_ms = match NonZeroU64::new(limits.max_duration_ms) {
        Some(value) => value,
        None => return Err(backend_error("query.maxduration")),
    };
    let max_diagnostics = match NonZeroU32::new(limits.max_diagnostics) {
        Some(value) => value,
        None => return Err(backend_error("query.maxdiagnostics")),
    };
    Ok(
        MemoryQueryBudget {
            max_results,
            max_bytes,
            max_snippet_bytes,
            max_depth,
            max_duration_ms,
            max_diagnostics,
        },
    )
}

/// What a query may use: of each thing the lesser of what the caller asks for and the limit.
#[derive(Debug, Clone, Copy, PartialEq, Eq, Structural)]
pub struct EffectiveBudget {
    pub max_results: u32,
    pub max_bytes: u64,
    pub max_snippet_bytes: u64,
    pub max_depth: u32,
    pub max_duration_ms: u64,
    pub max_diagnostics: u32,
}

/// What a query may use.
pub open spec fn effective(
    requested: MemoryQueryBudgetView,
    limits: QueryLimitsConfigView,
) -> EffectiveBudget {
    EffectiveBudget {
        max_results: least(requested.max_results as int, limits.max_results as int) as u32,
        max_bytes: least(requested.max_bytes as int, limits.max_bytes as int) as u64,
        max_snippet_bytes: least(
            requested.max_snippet_bytes as int,
            limits.max_snippet_bytes as int,
        ) as u64,
        max_depth: least(requested.max_depth as int, limits.max_depth as int) as u32,
        max_duration_ms: least(
            requested.max_duration_ms as int,
            limits.max_duration_ms as int,
        ) as u64,
        max_diagnostics: least(
            requested.max_diagnostics as int,
            limits.max_diagnostics as int,
        ) as u32,
    }
}

/// No caller gets more than a limit, and no limit gives more than a caller asks for.
pub proof fn effective_budget_is_within_both(
    requested: MemoryQueryBudgetView,
    limits: QueryLimitsConfigView,
)
    ensures
        effective(requested, limits).max_results <= requested.max_results,
        effective(requested, limits).max_results <= limits.max_results,
        effective(requested, limits).max_bytes <= requested.max_bytes,
        effective(requested, limits).max_bytes <= limits.max_bytes,
        effective(requested, limits).max_snippet_bytes <= requested.max_snippet_bytes,
        effective(requested, limits).max_snippet_bytes <= limits.max_snippet_bytes,
        effective(requested, limits).max_depth <= requested.max_depth,
        effective(requested, limits).max_depth <= limits.max_depth,
        effective(requested, limits).max_duration_ms <= requested.max_duration_ms,
        effective(requested, limits).max_duration_ms <= limits.max_duration_ms,
        effective(requested, limits).max_diagnostics <= requested.max_diagnostics,
        effective(requested, limits).max_diagnostics <= limits.max_diagnostics,
{
}

/// At least one.
pub open spec fn at_least_one(value: int) -> int {
    if value < 1 {
        1
    } else {
        value
    }
}

impl EffectiveBudget {
    /// What a query may use.
    pub fn new(requested: &MemoryQueryBudget, limits: &QueryLimitsConfig) -> (budget: Self)
        ensures
            budget == effective(requested.deep_view(), limits.deep_view()),
    {
        EffectiveBudget {
            max_results: least_u32(requested.max_results.get(), limits.max_results),
            max_bytes: least_u64(requested.max_bytes.get(), limits.max_bytes),
            max_snippet_bytes: least_u64(requested.max_snippet_bytes.get(), limits.max_snippet_bytes),
            max_depth: least_u32(requested.max_depth.get(), limits.max_depth),
            max_duration_ms: least_u64(requested.max_duration_ms.get(), limits.max_duration_ms),
            max_diagnostics: least_u32(requested.max_diagnostics.get(), limits.max_diagnostics),
        }
    }

    /// What is asked of a memory backend, as a model.
    pub open spec fn for_memory(self) -> MemoryQueryBudgetView {
        MemoryQueryBudgetView {
            max_results: at_least_one(self.max_results as int) as u32,
            max_bytes: at_least_one(self.max_bytes as int) as u64,
            max_snippet_bytes: at_least_one(self.max_snippet_bytes as int) as u64,
            max_depth: at_least_one(self.max_depth as int) as u32,
            max_duration_ms: at_least_one(self.max_duration_ms as int) as u64,
            max_diagnostics: at_least_one(self.max_diagnostics as int) as u32,
        }
    }

    /// What is asked of a repository backend, as a model.
    pub open spec fn for_repository(self) -> QueryBudgetView {
        QueryBudgetView {
            max_results: at_least_one(self.max_results as int) as u32,
            max_bytes: at_least_one(self.max_bytes as int) as u64,
            max_depth: at_least_one(self.max_depth as int) as u32,
            max_duration_ms: at_least_one(self.max_duration_ms as int) as u64,
            max_diagnostics: at_least_one(self.max_diagnostics as int) as u32,
        }
    }

    /// What is asked of a memory backend.
    pub fn memory_budget(self) -> (budget: MemoryQueryBudget)
        ensures
            budget.deep_view() == self.for_memory(),
    {
        MemoryQueryBudget {
            max_results: positive_u32(self.max_results),
            max_bytes: positive_u64(self.max_bytes),
            max_snippet_bytes: positive_u64(self.max_snippet_bytes),
            max_depth: positive_u32(self.max_depth),
            max_duration_ms: positive_u64(self.max_duration_ms),
            max_diagnostics: positive_u32(self.max_diagnostics),
        }
    }

    /// What is asked of a repository backend.
    pub fn repository_budget(self) -> (budget: QueryBudget)
        ensures
            budget.deep_view() == self.for_repository(),
    {
        QueryBudget {
            max_results: positive_u32(self.max_results),
            max_bytes: positive_u64(self.max_bytes),
            max_depth: positive_u32(self.max_depth),
            max_duration_ms: positive_u64(self.max_duration_ms),
            max_diagnostics: positive_u32(self.max_diagnostics),
        }
    }

    /// The same in the time that is left.
    pub open spec fn within(self, left_ms: u64) -> EffectiveBudget {
        EffectiveBudget { max_duration_ms: shorter(left_ms, self.max_duration_ms), ..self }
    }

    /// What may still be used when so many milliseconds are left; nothing once the time is up.
    pub fn remaining(self, left_ms: u64) -> (result: Result<Self, MemoryQueryError>)
        ensures
            match result {
                Ok(rest) => !is_up(left_ms) && rest == self.within(left_ms),
                Err(error) => is_up(left_ms) && error.deep_view()
                    == MemoryQueryErrorView::BudgetExceeded(
                    crate::query::MemoryTruncationReason::Duration,
                ),
            },
    {
        if left_ms == 0 {
            return Err(
                MemoryQueryError::BudgetExceeded(crate::query::MemoryTruncationReason::Duration),
            );
        }
        let max_duration_ms = if left_ms <= self.max_duration_ms {
            left_ms
        } else {
            self.max_duration_ms
        };
        Ok(EffectiveBudget { max_duration_ms, ..self })
    }

    /// The same with another depth.
    pub fn with_max_depth(self, max_depth: u32) -> (budget: Self)
        ensures
            budget == (EffectiveBudget { max_depth, ..self }),
    {
        EffectiveBudget { max_depth, ..self }
    }
}

fn positive_u32(value: u32) -> (result: NonZeroU32)
    ensures
        result.deep_view() == at_least_one(value as int),
{
    NonZeroU32::new(if value < 1 { 1 } else { value }).unwrap()
}

fn positive_u64(value: u64) -> (result: NonZeroU64)
    ensures
        result.deep_view() == at_least_one(value as int),
{
    NonZeroU64::new(if value < 1 { 1 } else { value }).unwrap()
}

}
