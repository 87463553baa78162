//! What a query reads: the revision that it selects, within which budget, and how fresh it is.
use vstd::prelude::*;
use crate::budget::{backend, backend_error, effective, EffectiveBudget};
use crate::deadline::{begins, is_up, Deadline};
use crate::diagnostics::{
    diagnostic_code, MemoryDiagnostic, MemoryDiagnosticCode, MemoryDiagnosticView,
};
use crate::domain::{
    MemoryRevision, MemoryRevisionId, MemoryRevisionView, PublishedMemoryRevision,
    PublishedMemoryRevisionView,
};
use crate::query::{
    MemoryFreshness, MemoryFreshnessComparison, MemoryFreshnessComparisonView,
    MemoryFreshnessEnvelope, MemoryFreshnessEnvelopeView, MemoryQueryError, MemoryQueryErrorView,
    MemoryQueryScope, MemoryQueryScopeView, MemoryRetrievalAction, MemoryRevisionSelector,
    MemoryRevisionSelectorView, MemoryTruncationReason,
};
use crate::record::{outcome, Record};
use crate::repository::{QueryLimitsConfig, QueryLimitsConfigView};
use crate::MEMORY_QUERY_WIRE_VERSION;

verus! {

/// Why records could not be read.
#[derive(Debug, Clone, Copy, PartialEq, Eq, Structural)]
pub enum ReadFailure {
    /// The time for the query was over.
    Interrupted,
    /// What was stored cannot be understood.
    Corrupt,
    /// The store did not answer.
    Unavailable,
}

impl DeepView for ReadFailure {
    type V = ReadFailure;

    open spec fn deep_view(&self) -> ReadFailure {
        *self
    }
}

/// The error of a query whose reading failed.
pub open spec fn read_failure(failure: ReadFailure) -> MemoryQueryErrorView {
    match failure {
        ReadFailure::Interrupted => {
            MemoryQueryErrorView::BudgetExceeded(MemoryTruncationReason::Duration)
        },
        ReadFailure::Corrupt => backend("storage.corrupt"@),
        ReadFailure::Unavailable => backend("storage.unavailable"@),
    }
}

/// The error of a query whose reading failed.
pub fn read_error(failure: ReadFailure) -> (error: MemoryQueryError)
    ensures
        error.deep_view() == read_failure(failure),
{
    proof {
        reveal_strlit("storage.corrupt");
        reveal_strlit("storage.unavailable");
    }
    match failure {
        ReadFailure::Interrupted => {
            MemoryQueryError::BudgetExceeded(MemoryTruncationReason::Duration)
        },
        ReadFailure::Corrupt => backend_error("storage.corrupt"),
        ReadFailure::Unavailable => backend_error("storage.unavailable"),
    }
}

/// The error of a request that cannot be answered as it stands.
pub fn invalid_request(code: &str) -> (error: MemoryQueryError)
    requires
        crate::diagnostics::is_diagnostic_code(code@),
    ensures
        error.deep_view() == backend(code@),
{
    backend_error(code)
}

/// Admits requests in the current version alone.
pub fn validate_wire_version(version: u32) -> (result: Result<(), MemoryQueryError>)
    ensures
        result is Ok == (version == MEMORY_QUERY_WIRE_VERSION),
        result matches Err(error) ==> error.deep_view() == backend("query.wireversion"@),
{
    if version == MEMORY_QUERY_WIRE_VERSION {
        Ok(())
    } else {
        proof {
            reveal_strlit("query.wireversion");
        }
        Err(invalid_request("query.wireversion"))
    }
}

/// The revision that a scope selects, given the published view that it names.
pub open spec fn selected(
    scope: MemoryQueryScopeView,
    view: Result<Option<PublishedMemoryRevisionView>, MemoryQueryErrorView>,
) -> Result<Seq<char>, MemoryQueryErrorView> {
    if scope.wire_version != MEMORY_QUERY_WIRE_VERSION {
        Err(backend("query.wireversion"@))
    } else {
        match scope.revision {
            MemoryRevisionSelectorView::Published(_) => match view {
                Err(error) => Err(error),
                Ok(None) => Err(MemoryQueryErrorView::Unavailable),
                Ok(Some(view)) => Ok(view.revision_id),
            },
            MemoryRevisionSelectorView::Revision(revision_id) => Ok(revision_id),
        }
    }
}

/// The revision that a scope selects, given the published view that it names. A scope that names a
/// revision needs no view.
pub fn selected_revision(
    scope: &MemoryQueryScope,
    view: Result<Option<PublishedMemoryRevision>, MemoryQueryError>,
) -> (result: Result<MemoryRevisionId, MemoryQueryError>)
    ensures
        outcome(result) == selected(scope.deep_view(), outcome(view)),
{
    match validate_wire_version(scope.wire_version) {
        Err(error) => Err(error),
        Ok(()) => match &scope.revision {
            MemoryRevisionSelector::Published(_) => match view {
                Err(error) => Err(error),
                Ok(None) => Err(MemoryQueryError::Unavailable),
                Ok(Some(view)) => Ok(view.revision_id),
            },
            MemoryRevisionSelector::Revision(revision_id) => Ok(revision_id.copied()),
        },
    }
}

/// The reasons why a revision is not fresh.
pub open spec fn staleness(
    revision: MemoryRevisionView,
    comparison: MemoryFreshnessComparisonView,
) -> Seq<Seq<char>> {
    let none = Seq::<Seq<char>>::empty();
    let sources = if comparison.source_set_digest != revision.source_set_digest {
        none.push("freshness.sourceschanged"@)
    } else {
        none
    };
    let policy = if comparison.policy_digest != revision.policy_digest {
        sources.push("freshness.policychanged"@)
    } else {
        sources
    };
    if comparison.extractor_set_digest != revision.extractor_set_digest {
        policy.push("freshness.extractorschanged"@)
    } else {
        policy
    }
}

/// That nothing was compared.
pub open spec fn not_compared() -> MemoryFreshnessEnvelopeView {
    MemoryFreshnessEnvelopeView {
        freshness: MemoryFreshness::Unknown,
        compared_source_set_digest: None,
        reason_codes: Seq::empty().push("freshness.notcompared"@),
    }
}

/// How fresh a revision is, held against a comparison.
pub open spec fn freshness_of(
    revision: MemoryRevisionView,
    comparison: Option<MemoryFreshnessComparisonView>,
) -> MemoryFreshnessEnvelopeView {
    match comparison {
        None => not_compared(),
        Some(comparison) => MemoryFreshnessEnvelopeView {
            freshness: if staleness(revision, comparison).len() == 0 {
                MemoryFreshness::Fresh
            } else {
                MemoryFreshness::Stale
            },
            compared_source_set_digest: Some(comparison.source_set_digest),
            reason_codes: staleness(revision, comparison),
        },
    }
}

/// A revision is fresh exactly when its sources, its policy and its extractors are those of the
/// comparison.
pub proof fn fresh_means_unchanged(
    revision: MemoryRevisionView,
    comparison: MemoryFreshnessComparisonView,
)
    ensures
        (freshness_of(revision, Some(comparison)).freshness == MemoryFreshness::Fresh) == (
        comparison.source_set_digest == revision.source_set_digest && comparison.policy_digest
            == revision.policy_digest && comparison.extractor_set_digest
            == revision.extractor_set_digest),
{
}

/// That nothing was compared.
pub fn unknown_freshness() -> (freshness: MemoryFreshnessEnvelope)
    ensures
        freshness.deep_view() == not_compared(),
{
    proof {
        reveal_strlit("freshness.notcompared");
    }
    let mut reason_codes: Vec<MemoryDiagnosticCode> = Vec::new();
    reason_codes.push(diagnostic_code("freshness.notcompared"));
    assert(reason_codes.deep_view() =~= Seq::empty().push("freshness.notcompared"@));
    MemoryFreshnessEnvelope {
        freshness: MemoryFreshness::Unknown,
        compared_source_set_digest: None,
        reason_codes,
    }
}

/// How fresh a revision is, held against a comparison.
pub fn freshness(
    revision: &MemoryRevision,
    comparison: Option<&MemoryFreshnessComparison>,
) -> (freshness: MemoryFreshnessEnvelope)
    ensures
        freshness.deep_view() == freshness_of(revision.deep_view(), comparison.deep_view()),
{
    let comparison = match comparison {
        None => {
            return unknown_freshness();
        },
        Some(comparison) => comparison,
    };
    proof {
        reveal_strlit("freshness.sourceschanged");
        reveal_strlit("freshness.policychanged");
        reveal_strlit("freshness.extractorschanged");
    }
    let mut reason_codes: Vec<MemoryDiagnosticCode> = Vec::new();
    assert(reason_codes.deep_view() =~= Seq::<Seq<char>>::empty());
    if !comparison.source_set_digest.same(&revision.source_set_digest) {
        add_code(&mut reason_codes, "freshness.sourceschanged");
    }
    if !comparison.policy_digest.same(&revision.policy_digest) {
        add_code(&mut reason_codes, "freshness.policychanged");
    }
    if !comparison.extractor_set_digest.same(&revision.extractor_set_digest) {
        add_code(&mut reason_codes, "freshness.extractorschanged");
    }
    MemoryFreshnessEnvelope {
        freshness: if reason_codes.len() == 0 {
            MemoryFreshness::Fresh
        } else {
            MemoryFreshness::Stale
        },
        compared_source_set_digest: Some(comparison.source_set_digest.copied()),
        reason_codes,
    }
}

pub(crate) fn add_code(codes: &mut Vec<MemoryDiagnosticCode>, code: &str)
    requires
        crate::diagnostics::is_diagnostic_code(code@),
    ensures
        final(codes).deep_view() == old(codes).deep_view().push(code@),
{
    codes.push(diagnostic_code(code));
    assert(codes.deep_view() =~= old(codes).deep_view().push(code@));
}

/// What would make the answers better: a stale revision asks to be refreshed.
pub fn freshness_action(
    freshness: &MemoryFreshnessEnvelope,
) -> (action: Option<MemoryRetrievalAction>)
    ensures
        action == if freshness.freshness == MemoryFreshness::Stale {
            Some(MemoryRetrievalAction::Refresh)
        } else {
            None
        },
{
    match freshness.freshness {
        MemoryFreshness::Stale => Some(MemoryRetrievalAction::Refresh),
        _ => None,
    }
}

/// What a query reads: a revision, its freshness, and what the query may use.
pub struct ResolvedScope {
    pub revision: MemoryRevision,
    pub budget: EffectiveBudget,
    pub freshness: MemoryFreshnessEnvelope,
}

/// The model of [`ResolvedScope`].
pub struct ResolvedScopeView {
    pub revision: MemoryRevisionView,
    pub budget: EffectiveBudget,
    pub freshness: MemoryFreshnessEnvelopeView,
}

impl DeepView for ResolvedScope {
    type V = ResolvedScopeView;

    open spec fn deep_view(&self) -> ResolvedScopeView {
        ResolvedScopeView {
            revision: self.revision.deep_view(),
            budget: self.budget,
            freshness: self.freshness.deep_view(),
        }
    }
}

/// What a query with this scope reads, given the revision that the scope selects.
pub open spec fn resolved(
    scope: MemoryQueryScopeView,
    limits: QueryLimitsConfigView,
    revision: Result<Option<MemoryRevisionView>, MemoryQueryErrorView>,
) -> Result<ResolvedScopeView, MemoryQueryErrorView> {
    if scope.wire_version != MEMORY_QUERY_WIRE_VERSION {
        Err(backend("query.wireversion"@))
    } else {
        match revision {
            Err(error) => Err(error),
            Ok(None) => Err(MemoryQueryErrorView::RevisionNotFound),
            Ok(Some(revision)) => if revision.project == scope.project {
                Ok(
                    ResolvedScopeView {
                        revision,
                        budget: effective(scope.budget, limits),
                        freshness: freshness_of(revision, scope.freshness_comparison),
                    },
                )
            } else {
                Err(MemoryQueryErrorView::RevisionNotFound)
            },
        }
    }
}

/// What a query with this scope reads, given the revision that the scope selects. A revision of
/// another project is not found.
pub fn resolve_scope(
    scope: &MemoryQueryScope,
    limits: &QueryLimitsConfig,
    revision: Result<Option<MemoryRevision>, MemoryQueryError>,
) -> (result: Result<ResolvedScope, MemoryQueryError>)
    ensures
        outcome(result) == resolved(scope.deep_view(), limits.deep_view(), outcome(revision)),
{
    match validate_wire_version(scope.wire_version) {
        Err(error) => Err(error),
        Ok(()) => match revision {
            Err(error) => Err(error),
            Ok(None) => Err(MemoryQueryError::RevisionNotFound),
            Ok(Some(revision)) => {
                if !revision.project.same(&scope.project) {
                    return Err(MemoryQueryError::RevisionNotFound);
                }
                let freshness = freshness(&revision, scope.freshness_comparison.as_ref());
                Ok(
                    ResolvedScope {
                        revision,
                        budget: EffectiveBudget::new(&scope.budget, limits),
                        freshness,
                    },
                )
            },
        },
    }
}

/// At most so many of the diagnostics, from the first on.
pub open spec fn first_diagnostics(
    diagnostics: Seq<MemoryDiagnosticView>,
    max_diagnostics: u32,
) -> Seq<MemoryDiagnosticView> {
    if diagnostics.len() <= max_diagnostics {
        diagnostics
    } else {
        diagnostics.take(max_diagnostics as int)
    }
}

/// At most so many of the diagnostics, from the first on.
pub fn limit_diagnostics(diagnostics: Vec<MemoryDiagnostic>, max_diagnostics: u32) -> (kept: Vec<
    MemoryDiagnostic,
>)
    ensures
        kept.deep_view() == first_diagnostics(diagnostics.deep_view(), max_diagnostics),
{
    let mut kept = diagnostics;
    if kept.len() > max_diagnostics as usize {
        kept.truncate(max_diagnostics as usize);
        assert(kept.deep_view() =~= diagnostics.deep_view().take(max_diagnostics as int));
    }
    kept
}

/// The diagnostics of an answer, whether the time ran out before they were there, and how many
/// answers of the deadline are known then.
pub open spec fn diagnostics_within(
    diagnostics: Result<Seq<MemoryDiagnosticView>, MemoryQueryErrorView>,
    max_diagnostics: u32,
    answers: Seq<u64>,
    at: int,
) -> Result<(Seq<MemoryDiagnosticView>, bool, int), MemoryQueryErrorView> {
    if is_up(answers[at]) {
        Ok((Seq::empty(), true, at + 1))
    } else {
        match diagnostics {
            Ok(diagnostics) => Ok(
                (first_diagnostics(diagnostics, max_diagnostics), is_up(answers[at + 1]), at + 2),
            ),
            Err(error) => if error == MemoryQueryErrorView::BudgetExceeded(
                MemoryTruncationReason::Duration,
            ) {
                Ok((Seq::empty(), true, at + 1))
            } else {
                Err(error)
            },
        }
    }
}

/// The diagnostics of an answer, and whether the time ran out before they were there.
pub fn diagnostics_with_deadline<D: Deadline>(
    diagnostics: Result<Vec<MemoryDiagnostic>, MemoryQueryError>,
    max_diagnostics: u32,
    deadline: &mut D,
) -> (result: Result<(Vec<MemoryDiagnostic>, bool), MemoryQueryError>)
    ensures
        begins(old(deadline).answers(), final(deadline).answers()),
        forall|all: Seq<u64>|
            #![trigger diagnostics_within(
                outcome(diagnostics),
                max_diagnostics,
                all,
                old(deadline).answers().len() as int,
            )]
            begins(final(deadline).answers(), all) ==> diagnostics_within(
                outcome(diagnostics),
                max_diagnostics,
                all,
                old(deadline).answers().len() as int,
            ) == match result {
                Ok((kept, late)) => Ok::<_, MemoryQueryErrorView>(
                    (kept.deep_view(), late, final(deadline).answers().len() as int),
                ),
                Err(error) => Err::<(Seq<MemoryDiagnosticView>, bool, int), _>(error.deep_view()),
            },
{
    if deadline.expired() {
        let none: Vec<MemoryDiagnostic> = Vec::new();
        assert(none.deep_view() =~= Seq::<MemoryDiagnosticView>::empty());
        return Ok((none, true));
    }
    match diagnostics {
        Ok(diagnostics) => {
            let late = deadline.expired();
            Ok((limit_diagnostics(diagnostics, max_diagnostics), late))
        },
        Err(MemoryQueryError::BudgetExceeded(MemoryTruncationReason::Duration)) => {
            let none: Vec<MemoryDiagnostic> = Vec::new();
            assert(none.deep_view() =~= Seq::<MemoryDiagnosticView>::empty());
            Ok((none, true))
        },
        Err(error) => Err(error),
    }
}

}
