//! Questions to a memory that is kept in a store, and to memory and repository together.
use vstd::prelude::*;
use crate::budget::{effective, EffectiveBudget};
use crate::context::{
    asked_of, asked_within, context, context_answer, own_cursor_is_read, said_by, snippets_asked,
    ContextRecords,
};
use crate::deadline::{are_within, begins, Deadline, TimeLimit};
use crate::diagnostics::{MemoryDiagnostic, MemoryDiagnosticView};
use crate::domain::{
    MemoryBuild, MemoryBuildView, MemoryEntity, MemoryEntityView, MemoryRelationship,
    MemoryRelationshipView, MemoryRevision, MemoryRevisionId, MemoryRevisionView, MemoryViewName,
    ProjectRef, ProjectRefView, PublishedMemoryRevision, PublishedMemoryRevisionView,
};
use crate::federation::collecting::asked_for_context;
use crate::federation::context::{federated_context, federated_context_answer, items_wanted};
use crate::federation::crossing::{said, said_first};
use crate::federation::state::{context_identity, search_identity};
use crate::federation::search::{
    all_was_read, asked_for_search, federated_search, federated_search_answer, own_cursor_is_taken,
    results_wanted,
};
use crate::federation::{
    FederatedContextRequest, FederatedContextRequestView, FederatedContextResponse,
    FederatedContextResponseView, FederatedSearchRequest, FederatedSearchRequestView,
    FederatedSearchResponse, FederatedSearchResponseView,
};
use crate::ports::{GraphQuery, MemoryContent, MemoryLinkStore, MemoryQuery};
use crate::query::{
    MemoryContextRequest, MemoryContextRequestView, MemoryContextResponse,
    MemoryContextResponseView, MemoryFreshnessComparison, MemoryQueryError, MemoryQueryErrorView,
    MemoryQueryScope, MemoryQueryScopeView, MemoryRetentionStatistics,
    MemoryRetentionStatisticsView, MemoryRevisionSelector, MemorySearchRequest,
    MemorySearchRequestView, MemorySearchResponse, MemorySearchResponseView, MemoryStatistics,
    MemoryStatisticsView, MemoryStatusRequest, MemoryStatusRequestView, MemoryStatusResponse,
    MemoryStatusResponseView,
};
use crate::record::{outcome, Record};
use crate::repository::{QueryLimitsConfig, QueryLimitsConfigView};
use crate::scope::{resolved, selected, selected_revision};
use crate::search::{search, search_answer, MAX_FILTERS};
use crate::status::{status, status_answer, StatusRecords};
use crate::{FEDERATION_WIRE_VERSION, MEMORY_QUERY_WIRE_VERSION};

verus! {

/// What was read of a memory, and what was found.
pub enum RecordRead {
    View(ProjectRefView, Seq<char>, Result<Option<PublishedMemoryRevisionView>, MemoryQueryErrorView>),
    Revision(Seq<char>, Result<Option<MemoryRevisionView>, MemoryQueryErrorView>),
    Entities(Seq<char>, Result<Seq<MemoryEntityView>, MemoryQueryErrorView>),
    Relationships(Seq<char>, Result<Seq<MemoryRelationshipView>, MemoryQueryErrorView>),
    Links(Seq<char>, Result<Seq<MemoryRelationshipView>, MemoryQueryErrorView>),
    Diagnostics(Seq<char>, u32, Result<Seq<MemoryDiagnosticView>, MemoryQueryErrorView>),
    LatestBuild(ProjectRefView, Result<Option<MemoryBuildView>, MemoryQueryErrorView>),
    Statistics(Seq<char>, Result<MemoryStatisticsView, MemoryQueryErrorView>),
    Retention(ProjectRefView, Result<MemoryRetentionStatisticsView, MemoryQueryErrorView>),
}

/// What a memory has stored. Reading it never changes it.
pub trait MemoryRecords {
    /// What was read so far.
    open spec fn reads(&self) -> Seq<RecordRead> {
        Seq::empty()
    }

    /// The milliseconds that each read could take, where there was a limit.
    open spec fn times(&self) -> Seq<u64> {
        Seq::empty()
    }

    /// What a view of a project shows.
    fn published_view(&mut self, project: &ProjectRef, name: &MemoryViewName) -> (result: Result<
        Option<PublishedMemoryRevision>,
        MemoryQueryError,
    >)
        ensures
            final(self).reads() == old(self).reads().push(
                RecordRead::View(project.deep_view(), name.deep_view(), outcome(result)),
            ),
            final(self).times() == old(self).times(),
    ;

    /// The revision with a name.
    fn revision(&mut self, id: &MemoryRevisionId) -> (result: Result<
        Option<MemoryRevision>,
        MemoryQueryError,
    >)
        ensures
            final(self).reads() == old(self).reads().push(
                RecordRead::Revision(id.deep_view(), outcome(result)),
            ),
            final(self).times() == old(self).times(),
    ;

    /// The entities of a revision, in the order of their names.
    fn entities(&mut self, id: &MemoryRevisionId, max_duration_ms: u64) -> (result: Result<
        Vec<MemoryEntity>,
        MemoryQueryError,
    >)
        ensures
            final(self).reads() == old(self).reads().push(
                RecordRead::Entities(id.deep_view(), outcome(result)),
            ),
            final(self).times() == old(self).times().push(max_duration_ms),
    ;

    /// The relationships of a revision, in the order of their names.
    fn relationships(&mut self, id: &MemoryRevisionId, max_duration_ms: u64) -> (result: Result<
        Vec<MemoryRelationship>,
        MemoryQueryError,
    >)
        ensures
            final(self).reads() == old(self).reads().push(
                RecordRead::Relationships(id.deep_view(), outcome(result)),
            ),
            final(self).times() == old(self).times().push(max_duration_ms),
    ;

    /// The links of a revision, those of the newest set first.
    fn links(&mut self, id: &MemoryRevisionId, max_duration_ms: u64) -> (result: Result<
        Vec<MemoryRelationship>,
        MemoryQueryError,
    >)
        ensures
            final(self).reads() == old(self).reads().push(
                RecordRead::Links(id.deep_view(), outcome(result)),
            ),
            final(self).times() == old(self).times().push(max_duration_ms),
    ;

    /// What there is to say of a revision, so much at most.
    fn diagnostics(
        &mut self,
        id: &MemoryRevisionId,
        max_diagnostics: u32,
        max_duration_ms: u64,
    ) -> (result: Result<Vec<MemoryDiagnostic>, MemoryQueryError>)
        ensures
            final(self).reads() == old(self).reads().push(
                RecordRead::Diagnostics(id.deep_view(), max_diagnostics, outcome(result)),
            ),
            final(self).times() == old(self).times().push(max_duration_ms),
    ;

    /// The build of a project that began last.
    fn latest_build(&mut self, project: &ProjectRef, max_duration_ms: u64) -> (result: Result<
        Option<MemoryBuild>,
        MemoryQueryError,
    >)
        ensures
            final(self).reads() == old(self).reads().push(
                RecordRead::LatestBuild(project.deep_view(), outcome(result)),
            ),
            final(self).times() == old(self).times().push(max_duration_ms),
    ;

    /// How much a revision holds.
    fn statistics(&mut self, id: &MemoryRevisionId, max_duration_ms: u64) -> (result: Result<
        MemoryStatistics,
        MemoryQueryError,
    >)
        ensures
            final(self).reads() == old(self).reads().push(
                RecordRead::Statistics(id.deep_view(), outcome(result)),
            ),
            final(self).times() == old(self).times().push(max_duration_ms),
    ;

    /// How much is kept of a project.
    fn retention(&mut self, project: &ProjectRef, max_duration_ms: u64) -> (result: Result<
        MemoryRetentionStatistics,
        MemoryQueryError,
    >)
        ensures
            final(self).reads() == old(self).reads().push(
                RecordRead::Retention(project.deep_view(), outcome(result)),
            ),
            final(self).times() == old(self).times().push(max_duration_ms),
    ;
}

/// The revision that a scope selects, and what was read to know it.
pub open spec fn selection(
    scope: MemoryQueryScopeView,
    asked: Seq<RecordRead>,
    reads: Seq<RecordRead>,
) -> (
    Result<Option<MemoryRevisionView>, MemoryQueryErrorView>,
    Seq<RecordRead>,
) {
    let by_name = scope.wire_version == MEMORY_QUERY_WIRE_VERSION && scope.revision is Published;
    let view = reads[asked.len() as int]->View_2;
    let asked = if by_name {
        asked.push(
            RecordRead::View(
                scope.project,
                scope.revision->Published_0,
                view,
            ),
        )
    } else {
        asked
    };
    match selected(scope, view) {
        Err(error) => (Err(error), asked),
        Ok(id) => {
            let reply = reads[asked.len() as int]->Revision_1;
            (reply, asked.push(RecordRead::Revision(id, reply)))
        },
    }
}

/// Reads the revision that a scope selects.
fn select<S: MemoryRecords>(records: &mut S, scope: &MemoryQueryScope) -> (result: Result<
    Option<MemoryRevision>,
    MemoryQueryError,
>)
    ensures
        begins(old(records).reads(), final(records).reads()),
        final(records).times() == old(records).times(),
        forall|reads: Seq<RecordRead>|
            begins(final(records).reads(), reads) ==> #[trigger] selection(
                scope.deep_view(),
                old(records).reads(),
                reads,
            ) == (outcome(result), final(records).reads()),
{
    let ghost before = records.reads();
    let view = if scope.wire_version == MEMORY_QUERY_WIRE_VERSION {
        match &scope.revision {
            MemoryRevisionSelector::Published(name) => records.published_view(&scope.project, name),
            MemoryRevisionSelector::Revision(_) => Ok(None),
        }
    } else {
        Ok(None)
    };
    let ghost first = records.reads();
    let ghost seen = outcome(view);
    let chosen = selected_revision(scope, view);
    proof {
        if scope.deep_view().wire_version == MEMORY_QUERY_WIRE_VERSION && scope.deep_view().revision is Published {
            assert(first[before.len() as int] == RecordRead::View(
                scope.deep_view().project,
                scope.deep_view().revision->Published_0,
                seen,
            ));
        }
        assert(outcome(chosen) == selected(scope.deep_view(), seen));
    }
    match chosen {
        Err(error) => {
            assert forall|reads: Seq<RecordRead>| begins(first, reads) implies #[trigger] selection(
                scope.deep_view(),
                before,
                reads,
            ) == (Err::<Option<MemoryRevisionView>, _>(error.deep_view()), first) by {
                if first.len() > before.len() {
                    assert(reads[before.len() as int] == first[before.len() as int]);
                }
            }
            Err(error)
        },
        Ok(id) => {
            let reply = records.revision(&id);
            let ghost second = records.reads();
            assert forall|reads: Seq<RecordRead>| begins(second, reads) implies #[trigger] selection(
                scope.deep_view(),
                before,
                reads,
            ) == (outcome(reply), second) by {
                assert(reads[first.len() as int] == second[first.len() as int]);
                if first.len() > before.len() {
                    assert(reads[before.len() as int] == second[before.len() as int]);
                    assert(second[before.len() as int] == first[before.len() as int]);
                }
            }
            reply
        },
    }
}

/// Whether a revision is there and belongs to the project of a scope.
pub open spec fn can_be_read(
    scope: MemoryQueryScopeView,
    revision: Result<Option<MemoryRevisionView>, MemoryQueryErrorView>,
) -> bool {
    scope.wire_version == MEMORY_QUERY_WIRE_VERSION && match revision {
        Ok(Some(revision)) => revision.project == scope.project,
        _ => false,
    }
}

fn readable<'a>(
    scope: &MemoryQueryScope,
    revision: &'a Result<Option<MemoryRevision>, MemoryQueryError>,
) -> (id: Option<&'a MemoryRevisionId>)
    ensures
        id is Some == can_be_read(scope.deep_view(), outcome(*revision)),
        id matches Some(id) ==> id.deep_view() == outcome(*revision)->Ok_0->0.id,
{
    match revision {
        Ok(Some(revision)) => {
            if scope.wire_version == MEMORY_QUERY_WIRE_VERSION && revision.project.same(&scope.project) {
                Some(&revision.id)
            } else {
                None
            }
        },
        _ => None,
    }
}

/// What a search reads: the revision, and its entities and what there is to say of it where it can be
/// read.
pub open spec fn search_reads(
    request: MemorySearchRequestView,
    limits: QueryLimitsConfigView,
    asked: Seq<RecordRead>,
    reads: Seq<RecordRead>,
) -> Seq<RecordRead> {
    if request.entity_kinds.len() > MAX_FILTERS || request.source_categories.len() > MAX_FILTERS {
        asked
    } else {
        let (revision, asked) = selection(request.scope, asked, reads);
        if can_be_read(request.scope, revision) {
            let id = revision->Ok_0->0.id;
            asked.push(RecordRead::Entities(id, reads[asked.len() as int]->Entities_1)).push(
                RecordRead::Diagnostics(
                    id,
                    effective(request.scope.budget, limits).max_diagnostics,
                    reads[asked.len() as int + 1]->Diagnostics_2,
                ),
            )
        } else {
            asked
        }
    }
}

/// What a search is answered, given what was read.
pub open spec fn searched(
    request: MemorySearchRequestView,
    limits: QueryLimitsConfigView,
    asked: Seq<RecordRead>,
    reads: Seq<RecordRead>,
    answers: Seq<u64>,
    at: int,
) -> Result<MemorySearchResponseView, MemoryQueryErrorView> {
    let (revision, asked) = selection(request.scope, asked, reads);
    search_answer(
        request,
        limits,
        revision,
        reads[asked.len() as int]->Entities_1,
        reads[asked.len() as int + 1]->Diagnostics_2,
        answers,
        at,
    )
}

/// Whether records were read one after the other in the time that was left for each.
pub open spec fn read_in_what_is_left(before: Seq<u64>, after: Seq<u64>, lefts: Seq<u64>) -> bool {
    &&& begins(before, after)
    &&& after.len() - before.len() <= lefts.len()
    &&& forall|i: int|
        before.len() <= i < after.len() ==> #[trigger] after[i] == lefts[i - before.len()]
}

/// Whether a search was answered from what was read for it, in the times that were left.
pub open spec fn search_went<S: MemoryRecords, C: MemoryContent>(
    before: SqliteMemoryQuery<S, C>,
    after: SqliteMemoryQuery<S, C>,
    request: MemorySearchRequestView,
    answers: Seq<u64>,
    result: Result<MemorySearchResponseView, MemoryQueryErrorView>,
) -> bool {
    &&& read_in_what_is_left(before.records.times(), after.records.times(), answers)
    &&& searched(
        request,
        before.limits.deep_view(),
        before.records.reads(),
        after.records.reads(),
        answers,
        after.records.times().len() - before.records.times().len(),
    ) == result
}

/// Answers questions from what a memory has stored.
pub struct SqliteMemoryQuery<S, C> {
    pub records: S,
    pub limits: QueryLimitsConfig,
    pub content: Option<C>,
    pub statuses: Ghost<
        Seq<(MemoryStatusRequestView, Result<MemoryStatusResponseView, MemoryQueryErrorView>)>,
    >,
    pub searches: Ghost<
        Seq<(MemorySearchRequestView, Result<MemorySearchResponseView, MemoryQueryErrorView>)>,
    >,
    pub contexts: Ghost<
        Seq<(MemoryContextRequestView, Result<MemoryContextResponseView, MemoryQueryErrorView>)>,
    >,
}

/// Whether a question for context was answered from what was read for it, in the times that were left,
/// and the content was asked for exactly the snippets of the answer.
pub open spec fn context_went<S: MemoryRecords, C: MemoryContent>(
    before: SqliteMemoryQuery<S, C>,
    after: SqliteMemoryQuery<S, C>,
    request: MemoryContextRequestView,
    records: ContextRecords,
    answers: Seq<u64>,
    result: Result<MemoryContextResponseView, MemoryQueryErrorView>,
) -> bool {
    let limits = before.limits.deep_view();
    let revision = selection(request.scope, before.records.reads(), after.records.reads()).0;
    let read = said_by(before.content).len() as int;
    let at = after.records.times().len() - before.records.times().len();
    &&& read_in_what_is_left(before.records.times(), after.records.times(), answers)
    &&& match (result, resolved(request.scope, limits, revision)) {
        (Ok(_), Ok(scope)) => own_cursor_is_read(request, scope),
        _ => true,
    }
    &&& context_told(request, before.records.reads(), after.records.reads(), records)
    &&& context_answer(
        request,
        limits,
        revision,
        records,
        before.content is Some,
        answers,
        at,
        said_by(after.content),
        read,
    ) == result
    &&& asked_of(after.content) == asked_of(before.content) + snippets_asked(
        request,
        limits,
        revision,
        records,
        before.content is Some,
        answers,
        at,
        said_by(after.content),
        read,
    )
}

impl<S: MemoryRecords, C: MemoryContent> SqliteMemoryQuery<S, C> {
    /// Answers from some records, without the content of sources.
    pub fn new(records: S, limits: QueryLimitsConfig) -> (query: Self)
        ensures
            query.records == records,
            query.limits == limits,
            query.content is None,
    {
        SqliteMemoryQuery {
            records,
            limits,
            content: None,
            statuses: Ghost(Seq::empty()),
            searches: Ghost(Seq::empty()),
            contexts: Ghost(Seq::empty()),
        }
    }

    /// Answers with the content of sources.
    pub fn with_content(self, content: C) -> (query: Self)
        ensures
            query.records == self.records,
            query.limits == self.limits,
            query.content == Some(content),
    {
        SqliteMemoryQuery {
            records: self.records,
            limits: self.limits,
            content: Some(content),
            statuses: self.statuses,
            searches: self.searches,
            contexts: self.contexts,
        }
    }

    fn answer_search(&mut self, request: &MemorySearchRequest) -> (result: Result<
        MemorySearchResponse,
        MemoryQueryError,
    >)
        ensures
            final(self).limits == old(self).limits,
            final(self).content == old(self).content,
            final(self).statuses == old(self).statuses,
            final(self).searches == old(self).searches,
            final(self).contexts == old(self).contexts,
            are_within(
                old(self).records.times(),
                final(self).records.times(),
                effective(
                    request.deep_view().scope.budget,
                    old(self).limits.deep_view(),
                ).max_duration_ms,
            ),
            final(self).records.reads() == search_reads(
                request.deep_view(),
                old(self).limits.deep_view(),
                old(self).records.reads(),
                final(self).records.reads(),
            ),
            exists|answers: Seq<u64>| #[trigger]
                search_went(*old(self), *final(self), request.deep_view(), answers, outcome(result)),
    {
        let ghost before = self.records.reads();
        let budget = EffectiveBudget::new(&request.scope.budget, &self.limits);
        let mut deadline = TimeLimit::after_ms(budget.max_duration_ms);
        if request.entity_kinds.len() > MAX_FILTERS || request.source_categories.len() > MAX_FILTERS {
            let result = search(
                request,
                &self.limits,
                Err(MemoryQueryError::Unavailable),
                Err(MemoryQueryError::Unavailable),
                Err(MemoryQueryError::Unavailable),
                &mut deadline,
            );
            assert(search_went(
                *old(self),
                *self,
                request.deep_view(),
                deadline.answers(),
                outcome(result),
            ));
            return result;
        }
        let revision = select(&mut self.records, &request.scope);
        let ghost selected_at = self.records.reads();
        let ghost found = outcome(revision);
        assert(begins(selected_at, selected_at));
        let readable = readable(&request.scope, &revision);
        let (entities, diagnostics) = match readable {
            Some(id) => {
                let entities = self.records.entities(id, deadline.remaining_ms());
                let ghost with_entities = self.records.reads();
                let diagnostics = self.records.diagnostics(
                    id,
                    budget.max_diagnostics,
                    deadline.remaining_ms(),
                );
                proof {
                    let reads = self.records.reads();
                    assert(reads[selected_at.len() as int] == with_entities[selected_at.len() as int]);
                    assert(begins(selected_at, reads));
                    assert(selection(request.deep_view().scope, before, reads) == (found, selected_at));
                }
                (entities, diagnostics)
            },
            None => (Err(MemoryQueryError::Unavailable), Err(MemoryQueryError::Unavailable)),
        };
        let ghost read = (outcome(entities), outcome(diagnostics));
        let result = search(request, &self.limits, revision, entities, diagnostics, &mut deadline);
        proof {
            let reads = self.records.reads();
            assert(selection(request.deep_view().scope, before, reads) == (found, selected_at));
            assert(search_went(
                *old(self),
                *self,
                request.deep_view(),
                deadline.answers(),
                outcome(result),
            ));
        }
        result
    }
}

/// Whether nothing is published under the name that a scope selects.
pub open spec fn is_not_built(
    scope: MemoryQueryScopeView,
    revision: Result<Option<MemoryRevisionView>, MemoryQueryErrorView>,
) -> bool {
    scope.wire_version == MEMORY_QUERY_WIRE_VERSION && scope.revision is Published && revision == Err::<
        Option<MemoryRevisionView>,
        _,
    >(MemoryQueryErrorView::Unavailable)
}

/// What a question for the state reads.
pub open spec fn status_reads(
    request: MemoryStatusRequestView,
    limits: QueryLimitsConfigView,
    asked: Seq<RecordRead>,
    reads: Seq<RecordRead>,
) -> Seq<RecordRead> {
    let (revision, asked) = selection(request.scope, asked, reads);
    let at = asked.len() as int;
    if can_be_read(request.scope, revision) {
        let id = revision->Ok_0->0.id;
        asked + seq![
            RecordRead::LatestBuild(request.scope.project, reads[at]->LatestBuild_1),
            RecordRead::Statistics(id, reads[at + 1]->Statistics_1),
            RecordRead::Retention(request.scope.project, reads[at + 2]->Retention_1),
            RecordRead::Diagnostics(
                id,
                effective(request.scope.budget, limits).max_diagnostics,
                reads[at + 3]->Diagnostics_2,
            ),
        ]
    } else if is_not_built(request.scope, revision) {
        asked + seq![
            RecordRead::LatestBuild(request.scope.project, reads[at]->LatestBuild_1),
            RecordRead::Retention(request.scope.project, reads[at + 1]->Retention_1),
        ]
    } else {
        asked
    }
}

/// Whether these are the records that a question for the state read.
pub open spec fn status_told(
    request: MemoryStatusRequestView,
    asked: Seq<RecordRead>,
    reads: Seq<RecordRead>,
    records: StatusRecords,
) -> bool {
    let (revision, asked) = selection(request.scope, asked, reads);
    let at = asked.len() as int;
    if can_be_read(request.scope, revision) {
        &&& outcome(records.latest) == reads[at]->LatestBuild_1
        &&& outcome(records.statistics) == reads[at + 1]->Statistics_1
        &&& outcome(records.retention) == reads[at + 2]->Retention_1
        &&& outcome(records.diagnostics) == reads[at + 3]->Diagnostics_2
    } else if is_not_built(request.scope, revision) {
        &&& outcome(records.latest) == reads[at]->LatestBuild_1
        &&& outcome(records.retention) == reads[at + 1]->Retention_1
    } else {
        true
    }
}

/// Whether a question for context is refused before anything is read.
pub open spec fn refuses_context(request: MemoryContextRequestView) -> bool {
    request.seeds.len() == 0 || request.seeds.len() > MAX_FILTERS
        || request.policy.relationship_kinds.len() > MAX_FILTERS
}

/// What a question for context reads.
pub open spec fn context_reads(
    request: MemoryContextRequestView,
    limits: QueryLimitsConfigView,
    asked: Seq<RecordRead>,
    reads: Seq<RecordRead>,
) -> Seq<RecordRead> {
    if refuses_context(request) {
        asked
    } else {
        let (revision, asked) = selection(request.scope, asked, reads);
        let at = asked.len() as int;
        if can_be_read(request.scope, revision) {
            let id = revision->Ok_0->0.id;
            asked + seq![
                RecordRead::Entities(id, reads[at]->Entities_1),
                RecordRead::Relationships(id, reads[at + 1]->Relationships_1),
                RecordRead::Links(id, reads[at + 2]->Links_1),
                RecordRead::Diagnostics(
                    id,
                    effective(request.scope.budget, limits).max_diagnostics,
                    reads[at + 3]->Diagnostics_2,
                ),
            ]
        } else {
            asked
        }
    }
}

/// Whether these are the records that a question for context read.
pub open spec fn context_told(
    request: MemoryContextRequestView,
    asked: Seq<RecordRead>,
    reads: Seq<RecordRead>,
    records: ContextRecords,
) -> bool {
    let (revision, asked) = selection(request.scope, asked, reads);
    let at = asked.len() as int;
    !refuses_context(request) && can_be_read(request.scope, revision) ==> {
        &&& outcome(records.entities) == reads[at]->Entities_1
        &&& outcome(records.relationships) == reads[at + 1]->Relationships_1
        &&& outcome(records.links) == reads[at + 2]->Links_1
        &&& outcome(records.diagnostics) == reads[at + 3]->Diagnostics_2
    }
}

fn no_status_records() -> (records: StatusRecords) {
    StatusRecords {
        latest: Err(MemoryQueryError::Unavailable),
        statistics: Err(MemoryQueryError::Unavailable),
        retention: Err(MemoryQueryError::Unavailable),
        diagnostics: Err(MemoryQueryError::Unavailable),
    }
}

fn no_context_records() -> (records: ContextRecords) {
    ContextRecords {
        entities: Err(MemoryQueryError::Unavailable),
        relationships: Err(MemoryQueryError::Unavailable),
        links: Err(MemoryQueryError::Unavailable),
        diagnostics: Err(MemoryQueryError::Unavailable),
    }
}

fn awaits_build(
    scope: &MemoryQueryScope,
    revision: &Result<Option<MemoryRevision>, MemoryQueryError>,
) -> (awaits: bool)
    ensures
        awaits == is_not_built(scope.deep_view(), outcome(*revision)),
{
    if scope.wire_version != MEMORY_QUERY_WIRE_VERSION {
        return false;
    }
    match (&scope.revision, revision) {
        (MemoryRevisionSelector::Published(_), Err(MemoryQueryError::Unavailable)) => true,
        _ => false,
    }
}

impl<S: MemoryRecords, C: MemoryContent> SqliteMemoryQuery<S, C> {
    fn answer_status(&mut self, request: &MemoryStatusRequest) -> (result: Result<
        MemoryStatusResponse,
        MemoryQueryError,
    >)
        ensures
            final(self).limits == old(self).limits,
            final(self).content == old(self).content,
            final(self).statuses == old(self).statuses,
            final(self).searches == old(self).searches,
            final(self).contexts == old(self).contexts,
            are_within(
                old(self).records.times(),
                final(self).records.times(),
                effective(
                    request.deep_view().scope.budget,
                    old(self).limits.deep_view(),
                ).max_duration_ms,
            ),
            final(self).records.reads() == status_reads(
                request.deep_view(),
                old(self).limits.deep_view(),
                old(self).records.reads(),
                final(self).records.reads(),
            ),
            exists|records: StatusRecords, late: bool|
                status_told(
                    request.deep_view(),
                    old(self).records.reads(),
                    final(self).records.reads(),
                    records,
                ) && #[trigger] status_answer(
                    request.deep_view(),
                    old(self).limits.deep_view(),
                    selection(
                        request.deep_view().scope,
                        old(self).records.reads(),
                        final(self).records.reads(),
                    ).0,
                    records,
                    late,
                ) == outcome(result),
    {
        let ghost before = self.records.reads();
        let budget = EffectiveBudget::new(&request.scope.budget, &self.limits);
        let mut deadline = TimeLimit::after_ms(budget.max_duration_ms);
        let revision = select(&mut self.records, &request.scope);
        let ghost asked = self.records.reads();
        let ghost found = outcome(revision);
        let ghost at = asked.len() as int;
        assert(begins(asked, asked));
        let records = match readable(&request.scope, &revision) {
            Some(id) => {
                let latest = self.records.latest_build(&request.scope.project, deadline.remaining_ms());
                let statistics = self.records.statistics(id, deadline.remaining_ms());
                let retention = self.records.retention(&request.scope.project, deadline.remaining_ms());
                let diagnostics = self.records.diagnostics(
                    id,
                    budget.max_diagnostics,
                    deadline.remaining_ms(),
                );
                proof {
                    let reads = self.records.reads();
                    assert(begins(asked, reads));
                    assert(selection(request.deep_view().scope, before, reads) == (found, asked));
                    assert(reads[at]->LatestBuild_1 == outcome(latest));
                    assert(reads[at + 1]->Statistics_1 == outcome(statistics));
                    assert(reads[at + 2]->Retention_1 == outcome(retention));
                    assert(reads[at + 3]->Diagnostics_2 == outcome(diagnostics));
                    assert(reads =~= status_reads(
                        request.deep_view(),
                        self.limits.deep_view(),
                        before,
                        reads,
                    ));
                }
                StatusRecords { latest, statistics, retention, diagnostics }
            },
            None => {
                let mut records = no_status_records();
                if awaits_build(&request.scope, &revision) {
                    records.latest = self.records.latest_build(
                        &request.scope.project,
                        deadline.remaining_ms(),
                    );
                    records.retention = self.records.retention(
                        &request.scope.project,
                        deadline.remaining_ms(),
                    );
                    proof {
                        let reads = self.records.reads();
                        assert(begins(asked, reads));
                        assert(selection(request.deep_view().scope, before, reads) == (found, asked));
                        assert(reads[at]->LatestBuild_1 == outcome(records.latest));
                        assert(reads[at + 1]->Retention_1 == outcome(records.retention));
                        assert(reads =~= status_reads(
                            request.deep_view(),
                            self.limits.deep_view(),
                            before,
                            reads,
                        ));
                    }
                }
                records
            },
        };
        assert(selection(request.deep_view().scope, before, self.records.reads()) == (found, asked));
        assert(status_told(request.deep_view(), before, self.records.reads(), records));
        status(request, &self.limits, revision, records, &mut deadline)
    }

    fn answer_context(&mut self, request: &MemoryContextRequest) -> (result: Result<
        MemoryContextResponse,
        MemoryQueryError,
    >)
        ensures
            final(self).limits == old(self).limits,
            final(self).statuses == old(self).statuses,
            final(self).searches == old(self).searches,
            final(self).contexts == old(self).contexts,
            begins(said_by(old(self).content), said_by(final(self).content)),
            asked_within(
                old(self).content,
                final(self).content,
                effective(
                    request.deep_view().scope.budget,
                    old(self).limits.deep_view(),
                ).max_duration_ms,
            ),
            are_within(
                old(self).records.times(),
                final(self).records.times(),
                effective(
                    request.deep_view().scope.budget,
                    old(self).limits.deep_view(),
                ).max_duration_ms,
            ),
            final(self).records.reads() == context_reads(
                request.deep_view(),
                old(self).limits.deep_view(),
                old(self).records.reads(),
                final(self).records.reads(),
            ),
            exists|records: ContextRecords, answers: Seq<u64>| #[trigger]
                context_went(
                    *old(self),
                    *final(self),
                    request.deep_view(),
                    records,
                    answers,
                    outcome(result),
                ),
    {
        let ghost before = self.records.reads();
        let budget = EffectiveBudget::new(&request.scope.budget, &self.limits);
        let mut deadline = TimeLimit::after_ms(budget.max_duration_ms);
        if request.seeds.len() == 0 || request.seeds.len() > MAX_FILTERS
            || request.policy.relationship_kinds.len() > MAX_FILTERS {
            let records = no_context_records();
            let result = context(
                request,
                &self.limits,
                Err(MemoryQueryError::Unavailable),
                records,
                &mut self.content,
                &mut deadline,
            );
            assert(context_went(
                *old(self),
                *self,
                request.deep_view(),
                records,
                deadline.answers(),
                outcome(result),
            ));
            return result;
        }
        let revision = select(&mut self.records, &request.scope);
        let ghost asked = self.records.reads();
        let ghost found = outcome(revision);
        let ghost at = asked.len() as int;
        assert(begins(asked, asked));
        let records = match readable(&request.scope, &revision) {
            Some(id) => {
                let entities = self.records.entities(id, deadline.remaining_ms());
                let relationships = self.records.relationships(id, deadline.remaining_ms());
                let links = self.records.links(id, deadline.remaining_ms());
                let diagnostics = self.records.diagnostics(
                    id,
                    budget.max_diagnostics,
                    deadline.remaining_ms(),
                );
                proof {
                    let reads = self.records.reads();
                    assert(begins(asked, reads));
                    assert(selection(request.deep_view().scope, before, reads) == (found, asked));
                    assert(reads[at]->Entities_1 == outcome(entities));
                    assert(reads[at + 1]->Relationships_1 == outcome(relationships));
                    assert(reads[at + 2]->Links_1 == outcome(links));
                    assert(reads[at + 3]->Diagnostics_2 == outcome(diagnostics));
                    assert(reads =~= context_reads(
                        request.deep_view(),
                        self.limits.deep_view(),
                        before,
                        reads,
                    ));
                }
                ContextRecords { entities, relationships, links, diagnostics }
            },
            None => no_context_records(),
        };
        assert(selection(request.deep_view().scope, before, self.records.reads()) == (found, asked));
        assert(context_told(request.deep_view(), before, self.records.reads(), records));
        let ghost known = records;
        let result = context(
            request,
            &self.limits,
            revision,
            records,
            &mut self.content,
            &mut deadline,
        );
        assert(context_went(
            *old(self),
            *self,
            request.deep_view(),
            known,
            deadline.answers(),
            outcome(result),
        ));
        result
    }
}

impl<S: MemoryRecords, C: MemoryContent> MemoryQuery for SqliteMemoryQuery<S, C> {
    open spec fn statuses(&self) -> Seq<
        (MemoryStatusRequestView, Result<MemoryStatusResponseView, MemoryQueryErrorView>),
    > {
        self.statuses@
    }

    open spec fn searches(&self) -> Seq<
        (MemorySearchRequestView, Result<MemorySearchResponseView, MemoryQueryErrorView>),
    > {
        self.searches@
    }

    open spec fn contexts(&self) -> Seq<
        (MemoryContextRequestView, Result<MemoryContextResponseView, MemoryQueryErrorView>),
    > {
        self.contexts@
    }

    fn status(&mut self, request: &MemoryStatusRequest) -> (result: Result<
        MemoryStatusResponse,
        MemoryQueryError,
    >)
        ensures
            final(self).limits == old(self).limits,
            are_within(
                old(self).records.times(),
                final(self).records.times(),
                effective(
                    request.deep_view().scope.budget,
                    old(self).limits.deep_view(),
                ).max_duration_ms,
            ),
            final(self).records.reads() == status_reads(
                request.deep_view(),
                old(self).limits.deep_view(),
                old(self).records.reads(),
                final(self).records.reads(),
            ),
            exists|records: StatusRecords, late: bool|
                status_told(
                    request.deep_view(),
                    old(self).records.reads(),
                    final(self).records.reads(),
                    records,
                ) && #[trigger] status_answer(
                    request.deep_view(),
                    old(self).limits.deep_view(),
                    selection(
                        request.deep_view().scope,
                        old(self).records.reads(),
                        final(self).records.reads(),
                    ).0,
                    records,
                    late,
                ) == outcome(result),
    {
        let result = self.answer_status(request);
        self.statuses = Ghost(self.statuses@.push((request.deep_view(), outcome(result))));
        result
    }

    fn search(&mut self, request: &MemorySearchRequest) -> (result: Result<
        MemorySearchResponse,
        MemoryQueryError,
    >)
        ensures
            final(self).limits == old(self).limits,
            are_within(
                old(self).records.times(),
                final(self).records.times(),
                effective(
                    request.deep_view().scope.budget,
                    old(self).limits.deep_view(),
                ).max_duration_ms,
            ),
            final(self).records.reads() == search_reads(
                request.deep_view(),
                old(self).limits.deep_view(),
                old(self).records.reads(),
                final(self).records.reads(),
            ),
            exists|answers: Seq<u64>| #[trigger]
                search_went(*old(self), *final(self), request.deep_view(), answers, outcome(result)),
    {
        let result = self.answer_search(request);
        let ghost answered = *self;
        self.searches = Ghost(self.searches@.push((request.deep_view(), outcome(result))));
        proof {
            let answers = choose|answers: Seq<u64>| #[trigger]
                search_went(*old(self), answered, request.deep_view(), answers, outcome(result));
            assert(search_went(*old(self), *self, request.deep_view(), answers, outcome(result)));
        }
        result
    }

    fn context(&mut self, request: &MemoryContextRequest) -> (result: Result<
        MemoryContextResponse,
        MemoryQueryError,
    >)
        ensures
            final(self).limits == old(self).limits,
            begins(said_by(old(self).content), said_by(final(self).content)),
            asked_within(
                old(self).content,
                final(self).content,
                effective(
                    request.deep_view().scope.budget,
                    old(self).limits.deep_view(),
                ).max_duration_ms,
            ),
            are_within(
                old(self).records.times(),
                final(self).records.times(),
                effective(
                    request.deep_view().scope.budget,
                    old(self).limits.deep_view(),
                ).max_duration_ms,
            ),
            final(self).records.reads() == context_reads(
                request.deep_view(),
                old(self).limits.deep_view(),
                old(self).records.reads(),
                final(self).records.reads(),
            ),
            exists|records: ContextRecords, answers: Seq<u64>| #[trigger]
                context_went(
                    *old(self),
                    *final(self),
                    request.deep_view(),
                    records,
                    answers,
                    outcome(result),
                ),
    {
        let result = self.answer_context(request);
        let ghost answered = *self;
        self.contexts = Ghost(self.contexts@.push((request.deep_view(), outcome(result))));
        proof {
            let (records, answers) = choose|records: ContextRecords, answers: Seq<u64>| #[trigger]
                context_went(
                    *old(self),
                    answered,
                    request.deep_view(),
                    records,
                    answers,
                    outcome(result),
                );
            assert(context_went(
                *old(self),
                *self,
                request.deep_view(),
                records,
                answers,
                outcome(result),
            ));
        }
        result
    }
}

/// A memory that can be asked, wherever it is kept.
pub trait ProjectMemory: MemoryQuery {

}

impl<T: MemoryQuery> ProjectMemory for T {

}

/// Answers questions about memory and repository together.
pub trait ContextService {
    /// Searches memory and repository.
    fn search(&mut self, request: &FederatedSearchRequest) -> (result: Result<
        FederatedSearchResponse,
        MemoryQueryError,
    >);

    /// Gathers the context around some seeds, in memory and repository.
    fn context(&mut self, request: &FederatedContextRequest) -> (result: Result<
        FederatedContextResponse,
        MemoryQueryError,
    >);
}

/// Asks memory and repository, and puts their answers together.
pub struct FederatedContextService<R, M, L> {
    pub repository: R,
    pub memory: M,
    pub links: L,
    pub limits: QueryLimitsConfig,
    pub memory_freshness: Option<MemoryFreshnessComparison>,
}

impl<R: GraphQuery, M: MemoryQuery, L: MemoryLinkStore> FederatedContextService<R, M, L> {
    pub fn new(
        repository: R,
        memory: M,
        links: L,
        limits: QueryLimitsConfig,
        memory_freshness: Option<MemoryFreshnessComparison>,
    ) -> (service: Self)
        ensures
            service == (FederatedContextService {
                repository,
                memory,
                links,
                limits,
                memory_freshness,
            }),
    {
        FederatedContextService { repository, memory, links, limits, memory_freshness }
    }
}

/// Whether a search was answered from what the domains said to it, each asked as the request says and
/// in the time that was left, and no domain was asked for anything else.
pub open spec fn federated_search_went<R: GraphQuery, M: MemoryQuery, L>(
    before: FederatedContextService<R, M, L>,
    after: FederatedContextService<R, M, L>,
    request: FederatedSearchRequestView,
    answers: Seq<u64>,
    result: Result<FederatedSearchResponseView, MemoryQueryErrorView>,
) -> bool {
    let limits = before.limits.deep_view();
    &&& are_within(
        Seq::empty(),
        answers,
        effective(request.scope.budget, limits).max_duration_ms,
    )
    &&& request.scope.wire_version == FEDERATION_WIRE_VERSION ==> own_cursor_is_taken(
        request.cursor,
        "search"@,
        search_identity(request),
    )
    &&& begins(before.repository.searches(), after.repository.searches())
    &&& begins(before.memory.searches(), after.memory.searches())
    &&& after.repository.contexts() == before.repository.contexts()
    &&& after.repository.statuses() == before.repository.statuses()
    &&& after.memory.contexts() == before.memory.contexts()
    &&& after.memory.statuses() == before.memory.statuses()
    &&& asked_for_search(
        request,
        effective(request.scope.budget, limits),
        before.memory_freshness.deep_view(),
        after.repository.searches(),
        before.repository.searches().len() as int,
        after.memory.searches(),
        before.memory.searches().len() as int,
        results_wanted(request, limits),
        answers,
        0,
    )
    &&& result is Ok ==> all_was_read(
        request.scope.target,
        after.repository.searches(),
        before.repository.searches().len() as int,
        after.memory.searches(),
        before.memory.searches().len() as int,
        results_wanted(request, limits),
        answers,
        0,
    )
    &&& federated_search_answer(
        request,
        limits,
        after.repository.searches(),
        before.repository.searches().len() as int,
        after.memory.searches(),
        before.memory.searches().len() as int,
        answers,
        0,
    ) == result
}

/// Whether a question for context was answered from what the domains said to it, each asked as the
/// request says and in the time that was left, and no domain was searched.
pub open spec fn federated_context_went<R: GraphQuery, M: MemoryQuery, L: MemoryLinkStore>(
    before: FederatedContextService<R, M, L>,
    after: FederatedContextService<R, M, L>,
    request: FederatedContextRequestView,
    answers: Seq<u64>,
    result: Result<FederatedContextResponseView, MemoryQueryErrorView>,
) -> bool {
    let limits = before.limits.deep_view();
    let from = said(before.repository, before.memory, before.links);
    let all = said(after.repository, after.memory, after.links);
    &&& are_within(
        Seq::empty(),
        answers,
        effective(request.scope.budget, limits).max_duration_ms,
    )
    &&& request.scope.wire_version == FEDERATION_WIRE_VERSION && 0 < request.seeds.len() <= MAX_FILTERS
        ==> own_cursor_is_taken(request.cursor, "context"@, context_identity(request))
    &&& said_first(from, all)
    &&& after.repository.searches() == before.repository.searches()
    &&& after.memory.searches() == before.memory.searches()
    &&& all == from || asked_for_context(
        request,
        effective(request.scope.budget, limits),
        before.memory_freshness.deep_view(),
        items_wanted(request, limits),
        all,
        from,
        answers,
        0,
    )
    &&& federated_context_answer(request, limits, all, from, answers, 0) == result
}

impl<R: GraphQuery, M: MemoryQuery, L: MemoryLinkStore> ContextService for FederatedContextService<
    R,
    M,
    L,
> {
    fn search(&mut self, request: &FederatedSearchRequest) -> (result: Result<
        FederatedSearchResponse,
        MemoryQueryError,
    >)
        ensures
            final(self).limits == old(self).limits,
            final(self).memory_freshness == old(self).memory_freshness,
            final(self).links == old(self).links,
            exists|answers: Seq<u64>| #[trigger]
                federated_search_went(
                    *old(self),
                    *final(self),
                    request.deep_view(),
                    answers,
                    outcome(result),
                ),
    {
        let budget = EffectiveBudget::new(&request.scope.budget, &self.limits);
        let mut deadline = TimeLimit::after_ms(budget.max_duration_ms);
        let result = federated_search(
            &mut self.repository,
            &mut self.memory,
            &self.limits,
            &self.memory_freshness,
            request,
            &mut deadline,
        );
        assert(federated_search_went(
            *old(self),
            *self,
            request.deep_view(),
            deadline.answers(),
            outcome(result),
        ));
        result
    }

    fn context(&mut self, request: &FederatedContextRequest) -> (result: Result<
        FederatedContextResponse,
        MemoryQueryError,
    >)
        ensures
            final(self).limits == old(self).limits,
            final(self).memory_freshness == old(self).memory_freshness,
            exists|answers: Seq<u64>| #[trigger]
                federated_context_went(
                    *old(self),
                    *final(self),
                    request.deep_view(),
                    answers,
                    outcome(result),
                ),
    {
        let budget = EffectiveBudget::new(&request.scope.budget, &self.limits);
        let mut deadline = TimeLimit::after_ms(budget.max_duration_ms);
        let result = federated_context(
            &mut self.repository,
            &mut self.memory,
            &mut self.links,
            &self.limits,
            &self.memory_freshness,
            request,
            &mut deadline,
        );
        assert(federated_context_went(
            *old(self),
            *self,
            request.deep_view(),
            deadline.answers(),
            outcome(result),
        ));
        result
    }
}

}
