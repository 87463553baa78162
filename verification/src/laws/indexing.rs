//! How a project is indexed, and how what was indexed comes to be published.
use vstd::prelude::*;
use crate::diagnostics::{MemoryDiagnosticSeverity, MemoryDiagnosticView};
use crate::domain::{
    AuthorizedSourceDescriptorView, AuthorizedSourceManifestView, MemoryBuildState, MemoryCommitView,
    MemoryFragmentView, MemoryPublicationOutcomeView, MemoryPublicationVersionView,
    MemoryRelationshipView, MemoryRepositoryLinkCommitView, MemoryRepositoryLinkSetView,
    MemoryResolutionState, MemoryRevisionView, MemorySourceCategory, PublishedMemoryRevisionView,
};
use crate::extractors::{built_in, BuiltInExtractor};
use crate::index::{
    all_diagnostics, begun_build, commit_of, extraction_context, finished, first_reader,
    merging_keeps_everything, previous_links, published_outcome, rebased,
    revision_of, source_diagnostic, stale_count, with_extracted, with_fragment,
    with_read, with_source, with_sources, Facts, IndexScope, MemoryIndexError, MemoryIndexOutcomeView, MAX_DIAGNOSTICS,
};
use crate::ledger::StoreCall;
use crate::links::PreviousLinksView;
use crate::order::values_in_order;
use crate::ports::{
    MemoryExtractionInputView, MemoryExtractor, MemorySourceError, SourceReadView,
};
use crate::repository::RepositoryRefView;
use crate::store::MemoryStoreError;

verus! {

/// Structures and outcomes of specifications, archive manifests and runtime records each have their
/// reader. Bodies have none.
pub proof fn categories_have_their_reader(category: MemorySourceCategory)
    ensures
        match category {
            MemorySourceCategory::SpecificationStructure | MemorySourceCategory::ApprovedOutcome =>
                first_reader(built_in(), category) is Some && first_reader(built_in(), category)->0
                    is Specification,
            MemorySourceCategory::ArchiveManifest => first_reader(built_in(), category) is Some
                && first_reader(built_in(), category)->0 is Archive,
            MemorySourceCategory::RuntimeProvenance => first_reader(built_in(), category) is Some
                && first_reader(built_in(), category)->0 is Runtime,
            _ => first_reader(built_in(), category) is None,
        },
{
    reveal_with_fuel(first_reader, 4);
    let all = built_in();
    assert(all.skip(1)[0] == all[1]);
    assert(all.skip(1).skip(1)[0] == all[2]);
    assert(all.skip(1).skip(1).skip(1).len() == 0);
}

/// How many sources have been dealt with, one way or another.
pub open spec fn dealt_with(facts: Facts) -> nat {
    facts.reused + facts.extracted + facts.skipped + facts.failed
}

/// Every source is counted once: as reused, read, skipped or failed.
pub proof fn every_source_is_counted_once(
    facts: Facts,
    scope: IndexScope,
    sources: Seq<AuthorizedSourceDescriptorView>,
    reads: Seq<(AuthorizedSourceDescriptorView, Result<SourceReadView, MemorySourceError>)>,
    calls: Seq<StoreCall>,
)
    ensures
        with_sources(facts, scope, sources, reads, calls) matches Ok(after) ==> dealt_with(after)
            == dealt_with(facts) + sources.len(),
    decreases sources.len(),
{
    if sources.len() > 0 {
        reveal(with_read);
        reveal(with_fragment);
        if let Ok(next) = with_source(facts, scope, sources[0], reads, calls) {
            every_source_is_counted_once(next, scope, sources.skip(1), reads, calls);
        }
    }
}

/// A source that nobody reads is skipped with a warning that names its category. It is neither looked
/// for nor read, and nothing else comes of it.
pub proof fn unread_sources_are_skipped(
    facts: Facts,
    scope: IndexScope,
    source: AuthorizedSourceDescriptorView,
    reads: Seq<(AuthorizedSourceDescriptorView, Result<SourceReadView, MemorySourceError>)>,
    calls: Seq<StoreCall>,
)
    requires
        source.category.rank() >= MemorySourceCategory::TaskBody.rank(),
        facts.diagnostics.len() < MAX_DIAGNOSTICS,
    ensures
        with_source(facts, scope, source, reads, calls) is Ok,
        with_source(facts, scope, source, reads, calls)->Ok_0 == (Facts {
            skipped: facts.skipped + 1,
            diagnostics: with_source(facts, scope, source, reads, calls)->Ok_0.diagnostics,
            ..facts
        }),
        with_source(facts, scope, source, reads, calls)->Ok_0.diagnostics.drop_last()
            == facts.diagnostics,
        with_source(facts, scope, source, reads, calls)->Ok_0.diagnostics.last().code
            == "extractor.unavailable"@,
        with_source(facts, scope, source, reads, calls)->Ok_0.diagnostics.last().severity
            == MemoryDiagnosticSeverity::Warning,
        with_source(facts, scope, source, reads, calls)->Ok_0.diagnostics.last().source_category
            == Some(source.category),
        with_source(facts, scope, source, reads, calls)->Ok_0.diagnostics.last().revision_id
            == scope.revision.id,
{
    categories_have_their_reader(source.category);
    let diagnostic = source_diagnostic(scope.revision, source.category, "extractor.unavailable"@);
    assert(facts.diagnostics.push(diagnostic).drop_last() =~= facts.diagnostics);
}

/// Where not everything is read anew, a source whose fragment is kept is not read. What the fragment
/// holds stands in the new revision.
pub proof fn kept_fragments_are_reused(
    facts: Facts,
    scope: IndexScope,
    source: AuthorizedSourceDescriptorView,
    reads: Seq<(AuthorizedSourceDescriptorView, Result<SourceReadView, MemorySourceError>)>,
    calls: Seq<StoreCall>,
    fragment: MemoryFragmentView,
    at: int,
)
    requires
        source.category.rank() < MemorySourceCategory::TaskBody.rank(),
        !scope.full,
        calls[facts.calls.len() as int] is Fragment,
        calls[facts.calls.len() as int]->Fragment_1 == Ok::<_, MemoryStoreError>(Some(fragment)),
        0 <= at < fragment.entities.len(),
    ensures
        with_source(facts, scope, source, reads, calls) matches Ok(after) ==> {
            &&& after.reads == facts.reads
            &&& after.reused == facts.reused + 1
            &&& after.extracted == facts.extracted
            &&& after.cache_writes == facts.cache_writes
            &&& after.processed_bytes == facts.processed_bytes
            &&& after.entities.contains_key(fragment.entities[at].id)
            &&& after.entities[fragment.entities[at].id].data == fragment.entities[at].data
            &&& after.entities[fragment.entities[at].id].provenance == fragment.entities[at].provenance
            &&& after.entities[fragment.entities[at].id].project == scope.revision.project
            &&& after.entities[fragment.entities[at].id].memory_revision_id == scope.revision.id
        },
        with_source(facts, scope, source, reads, calls) matches Err(error) ==> error
            == MemoryIndexError::FactCollision,
{
    categories_have_their_reader(source.category);
    reveal(with_fragment);
    reveal(rebased);
    let moved = rebased(fragment, scope.revision).entities;
    merging_keeps_everything(facts.entities, moved);
    assert(moved[at].id == fragment.entities[at].id);
}

/// Where everything is read anew, every source that has a reader is read, and no fragment is looked
/// for.
pub proof fn full_runs_read_their_sources(
    facts: Facts,
    scope: IndexScope,
    source: AuthorizedSourceDescriptorView,
    reads: Seq<(AuthorizedSourceDescriptorView, Result<SourceReadView, MemorySourceError>)>,
    calls: Seq<StoreCall>,
)
    requires
        source.category.rank() < MemorySourceCategory::TaskBody.rank(),
        scope.full,
    ensures
        with_source(facts, scope, source, reads, calls) matches Ok(after) ==> {
            &&& after.reads.len() == facts.reads.len() + 1
            &&& after.reads.last() == (source, reads[facts.reads.len() as int].1)
            &&& after.calls == facts.calls
            &&& after.reused == facts.reused
        },
        reads[facts.reads.len() as int].1 matches Err(error) ==> with_source(
            facts,
            scope,
            source,
            reads,
            calls,
        ) == Err::<Facts, _>(MemoryIndexError::Source(error)),
{
    categories_have_their_reader(source.category);
    reveal(with_read);
    reveal(with_fragment);
}

/// A source whose fragment is not kept is read.
pub proof fn new_sources_are_read(
    facts: Facts,
    scope: IndexScope,
    source: AuthorizedSourceDescriptorView,
    reads: Seq<(AuthorizedSourceDescriptorView, Result<SourceReadView, MemorySourceError>)>,
    calls: Seq<StoreCall>,
)
    requires
        source.category.rank() < MemorySourceCategory::TaskBody.rank(),
        !scope.full,
        calls[facts.calls.len() as int] is Fragment,
        calls[facts.calls.len() as int]->Fragment_1 == Ok::<_, MemoryStoreError>(
            None::<MemoryFragmentView>,
        ),
    ensures
        with_source(facts, scope, source, reads, calls) matches Ok(after) ==> {
            &&& after.reads.len() == facts.reads.len() + 1
            &&& after.reads.last() == (source, reads[facts.reads.len() as int].1)
            &&& after.calls.len() == facts.calls.len() + 1
            &&& after.reused == facts.reused
        },
{
    categories_have_their_reader(source.category);
    reveal(with_read);
    reveal(with_fragment);
}

/// What was read out of a source is kept for the next run under all that it depends on.
pub proof fn what_is_read_is_kept(
    facts: Facts,
    scope: IndexScope,
    source: AuthorizedSourceDescriptorView,
    extractor: BuiltInExtractor,
    read: SourceReadView,
)
    ensures
        with_extracted(facts, scope, source, extractor, read) matches Ok(after) ==> {
            ||| after.failed == facts.failed + 1 && after.cache_writes == facts.cache_writes
                && after.entities == facts.entities && after.relationships == facts.relationships
            ||| {
                let write = after.cache_writes.last();
                &&& after.failed == facts.failed
                &&& after.extracted == facts.extracted + 1
                &&& after.cache_writes.len() == facts.cache_writes.len() + 1
                &&& write.key.project == scope.manifest.project
                &&& write.key.category == source.category
                &&& write.key.locator == source.locator
                &&& write.key.source_fingerprint == source.fingerprint
                &&& write.key.policy_digest == scope.manifest.policy_digest
                &&& write.key.extractor == extractor.named()
                &&& forall|i: int|
                    0 <= i < write.fragment.entities.len() ==> after.entities.contains_key(
                        (#[trigger] write.fragment.entities[i]).id,
                    ) && after.entities[write.fragment.entities[i].id] == write.fragment.entities[i]
            }
        },
{
    reveal(with_fragment);
    if let Ok(after) = with_extracted(facts, scope, source, extractor, read) {
        let input = MemoryExtractionInputView {
            context: extraction_context(scope),
            source,
            content: read.content.bytes,
            document: read.document,
        };
        if let Ok(fragment) = extractor.facts(input) {
            merging_keeps_everything(facts.entities, fragment.entities);
        }
    }
}

/// Two facts under one name that are not the same are a collision.
pub proof fn different_facts_collide(
    facts: Facts,
    fragment: MemoryFragmentView,
    at: int,
)
    requires
        0 <= at < fragment.entities.len(),
        facts.entities.contains_key(fragment.entities[at].id),
        facts.entities[fragment.entities[at].id] != fragment.entities[at],
    ensures
        with_fragment(facts, fragment) == Err::<Facts, _>(MemoryIndexError::FactCollision),
{
    reveal(with_fragment);
    merging_keeps_everything(facts.entities, fragment.entities);
}

/// A revision says what it was made of.
pub proof fn revisions_say_what_they_are_made_of(
    manifest: AuthorizedSourceManifestView,
    build_id: Seq<char>,
)
    ensures
        revision_of(manifest, build_id).id == manifest.revision(),
        revision_of(manifest, build_id).project == manifest.project,
        revision_of(manifest, build_id).source_set_digest == manifest.source_set_digest,
        revision_of(manifest, build_id).policy_digest == manifest.policy_digest,
        revision_of(manifest, build_id).extractor_set_digest == manifest.extractor_set_digest,
        revision_of(manifest, build_id).completed_by == build_id,
{
}

proof fn stale_links_are_counted(relationships: Seq<MemoryRelationshipView>)
    ensures
        stale_count(relationships) == relationships.filter(
            |link: MemoryRelationshipView| link.provenance.resolution == MemoryResolutionState::Stale,
        ).len(),
    decreases relationships.len(),
{
    reveal(Seq::filter);
    if relationships.len() > 0 {
        stale_links_are_counted(relationships.drop_last());
    }
}

/// A commit holds all facts that were gathered, and its measures count them.
pub proof fn commits_hold_what_was_gathered(
    scope: IndexScope,
    facts: Facts,
    links: MemoryRepositoryLinkCommitView,
    duration_ms: u64,
)
    ensures
        commit_of(scope, facts, links, duration_ms).revision == scope.revision,
        commit_of(scope, facts, links, duration_ms).entities == values_in_order(facts.entities),
        commit_of(scope, facts, links, duration_ms).relationships == values_in_order(
            facts.relationships,
        ),
        commit_of(scope, facts, links, duration_ms).cache_writes == facts.cache_writes,
        commit_of(scope, facts, links, duration_ms).repository_links == seq![links],
        commit_of(scope, facts, links, duration_ms).metrics.discovered_sources
            == scope.manifest.sources.len() as u64,
        commit_of(scope, facts, links, duration_ms).metrics.reused_sources == facts.reused as u64,
        commit_of(scope, facts, links, duration_ms).metrics.extracted_sources == facts.extracted as u64,
        commit_of(scope, facts, links, duration_ms).metrics.skipped_sources == facts.skipped as u64,
        commit_of(scope, facts, links, duration_ms).metrics.failed_sources == facts.failed as u64,
        commit_of(scope, facts, links, duration_ms).metrics.processed_bytes == facts.processed_bytes,
        commit_of(scope, facts, links, duration_ms).metrics.entities == values_in_order(
            facts.entities,
        ).len() as u64,
        values_in_order(facts.relationships).len() + links.relationships.len() <= u64::MAX ==> commit_of(
            scope,
            facts,
            links,
            duration_ms,
        ).metrics.relationships == values_in_order(facts.relationships).len() + links.relationships.len(),
        commit_of(scope, facts, links, duration_ms).metrics.stale_links == links.relationships.filter(
            |link: MemoryRelationshipView| link.provenance.resolution == MemoryResolutionState::Stale,
        ).len() as u64,
        commit_of(scope, facts, links, duration_ms).metrics.diagnostics == commit_of(
            scope,
            facts,
            links,
            duration_ms,
        ).diagnostics.len() as u64,
        commit_of(scope, facts, links, duration_ms).metrics.duration_ms == duration_ms,
{
    stale_links_are_counted(links.relationships);
}

/// What there is to say of the sources comes before what there is to say of the links, and no more is
/// said than may be.
pub proof fn sources_are_spoken_of_first(
    sources: Seq<MemoryDiagnosticView>,
    links: Seq<MemoryDiagnosticView>,
)
    requires
        sources.len() <= MAX_DIAGNOSTICS,
    ensures
        all_diagnostics(sources, links).len() <= MAX_DIAGNOSTICS,
        all_diagnostics(sources, links).len() == MAX_DIAGNOSTICS || all_diagnostics(sources, links)
            == sources + links,
        all_diagnostics(sources, links) == (sources + links).take(
            all_diagnostics(sources, links).len() as int,
        ),
{
    let all = all_diagnostics(sources, links);
    assert(all =~= (sources + links).take(all.len() as int));
}

/// The links that a set is compared with are those of the set with its name, where there is one; else
/// the latest of its revision; else the latest of a compatible one; else there are none.
pub proof fn links_are_compared_with_the_nearest(
    asked: Seq<StoreCall>,
    id: Seq<char>,
    revision: MemoryRevisionView,
    repository: RepositoryRefView,
    calls: Seq<StoreCall>,
    named: Option<MemoryRepositoryLinkSetView>,
    latest: Option<MemoryRepositoryLinkSetView>,
    compatible: Option<MemoryRepositoryLinkSetView>,
    links: Seq<MemoryRelationshipView>,
)
    requires
        calls[asked.len() as int] == StoreCall::LinkSet(id, Ok(named)),
        named is Some ==> calls[asked.len() as int + 1] == StoreCall::Links(named->0.id, Ok(links)),
        named is None ==> calls[asked.len() as int + 1] == StoreCall::LatestLinkSet(
            revision.id,
            repository,
            Ok(latest),
        ),
        named is None && latest is Some ==> calls[asked.len() as int + 2] == StoreCall::Links(
            latest->0.id,
            Ok(links),
        ),
        named is None && latest is None ==> calls[asked.len() as int + 2] == StoreCall::CompatibleLinkSet(
            revision,
            repository,
            Ok(compatible),
        ),
        named is None && latest is None && compatible is Some ==> calls[asked.len() as int + 3]
            == StoreCall::Links(compatible->0.id, Ok(links)),
    ensures
        named is Some ==> previous_links(asked, id, revision, repository, calls).0 == Ok::<
            _,
            MemoryStoreError,
        >(Some(PreviousLinksView { link_set: named->0, relationships: links })),
        named is None && latest is Some ==> previous_links(asked, id, revision, repository, calls).0
            == Ok::<_, MemoryStoreError>(
            Some(PreviousLinksView { link_set: latest->0, relationships: links }),
        ),
        named is None && latest is None && compatible is Some ==> previous_links(
            asked,
            id,
            revision,
            repository,
            calls,
        ).0 == Ok::<_, MemoryStoreError>(
            Some(PreviousLinksView { link_set: compatible->0, relationships: links }),
        ),
        named is None && latest is None && compatible is None ==> previous_links(
            asked,
            id,
            revision,
            repository,
            calls,
        ).0 == Ok::<_, MemoryStoreError>(None::<PreviousLinksView>),
{
}

/// A run begins a build under its name, for the project and the revision of its manifest.
pub proof fn runs_begin_a_build(
    view_name: Seq<char>,
    manifest: AuthorizedSourceManifestView,
    build_id: Seq<char>,
    before: Seq<StoreCall>,
    calls: Seq<StoreCall>,
)
    ensures
        begun_build(view_name, manifest, build_id, before, calls) matches Ok((current, asked)) ==> {
            &&& asked.len() == before.len() + 2
            &&& asked.take(before.len() as int) == before
            &&& asked[before.len() as int] == StoreCall::View(manifest.project, view_name, Ok(current))
            &&& asked.last() is Start
            &&& asked.last()->Start_0.id == build_id
            &&& asked.last()->Start_0.project == manifest.project
            &&& asked.last()->Start_0.prospective_revision_id == manifest.revision()
            &&& asked.last()->Start_0.state == MemoryBuildState::Building
            &&& asked.last()->Start_1 is Ok
        },
{
    reveal(begun_build);
    if let Ok((current, asked)) = begun_build(view_name, manifest, build_id, before, calls) {
        assert(asked.take(before.len() as int) =~= before);
    }
}

/// What was published is told as the store told it.
pub proof fn publications_are_told(
    commit: MemoryCommitView,
    revision: MemoryRevisionView,
    view_name: Seq<char>,
    expected: Option<MemoryPublicationVersionView>,
    asked: Seq<StoreCall>,
    calls: Seq<StoreCall>,
    publication: MemoryPublicationOutcomeView,
)
    requires
        calls[asked.len() as int] is Publish,
        calls[asked.len() as int]->Publish_1 == Ok::<_, MemoryStoreError>(publication),
    ensures
        published_outcome(commit, revision, view_name, expected, asked, calls).0 is Ok,
        published_outcome(commit, revision, view_name, expected, asked, calls).0->Ok_0.publication
            == publication,
        published_outcome(commit, revision, view_name, expected, asked, calls).0->Ok_0.revision
            == revision,
        published_outcome(commit, revision, view_name, expected, asked, calls).0->Ok_0.build_id
            == commit.revision.completed_by,
        published_outcome(commit, revision, view_name, expected, asked, calls).0->Ok_0.metrics
            == commit.metrics,
        published_outcome(commit, revision, view_name, expected, asked, calls).1.last() is Publish,
        published_outcome(commit, revision, view_name, expected, asked, calls).1.last()->Publish_0.project
            == commit.revision.project,
        published_outcome(commit, revision, view_name, expected, asked, calls).1.last()->Publish_0.view_name
            == view_name,
        published_outcome(commit, revision, view_name, expected, asked, calls).1.last()->Publish_0.build_id
            == commit.revision.completed_by,
        published_outcome(commit, revision, view_name, expected, asked, calls).1.last()->Publish_0.expected
            == expected,
{
}

/// A run that comes too late is superseded by what is shown meanwhile, and says so.
pub proof fn late_runs_are_superseded(
    commit: MemoryCommitView,
    revision: MemoryRevisionView,
    view_name: Seq<char>,
    expected: Option<MemoryPublicationVersionView>,
    asked: Seq<StoreCall>,
    calls: Seq<StoreCall>,
    current: PublishedMemoryRevisionView,
)
    requires
        calls[asked.len() as int] is Publish,
        calls[asked.len() as int]->Publish_1 == Err::<MemoryPublicationOutcomeView, _>(
            MemoryStoreError::PublicationConflict,
        ),
        calls[asked.len() as int + 1] == StoreCall::Supersede(commit.revision.completed_by, Ok(())),
        calls[asked.len() as int + 2] == StoreCall::View(revision.project, view_name, Ok(Some(current))),
    ensures
        published_outcome(commit, revision, view_name, expected, asked, calls).0 is Ok,
        published_outcome(commit, revision, view_name, expected, asked, calls).0->Ok_0.publication == (
        MemoryPublicationOutcomeView::Superseded { current }),
        published_outcome(commit, revision, view_name, expected, asked, calls).1.contains(
            StoreCall::Supersede(commit.revision.completed_by, Ok(())),
        ),
{
    let told = published_outcome(commit, revision, view_name, expected, asked, calls).1;
    assert(told[asked.len() as int + 1] == StoreCall::Supersede(commit.revision.completed_by, Ok(())));
}

/// A publication that fails otherwise is an error, and its build is superseded.
pub proof fn failed_publications_leave_no_build_behind(
    commit: MemoryCommitView,
    revision: MemoryRevisionView,
    view_name: Seq<char>,
    expected: Option<MemoryPublicationVersionView>,
    asked: Seq<StoreCall>,
    calls: Seq<StoreCall>,
    error: MemoryStoreError,
)
    requires
        calls[asked.len() as int] is Publish,
        calls[asked.len() as int]->Publish_1 == Err::<MemoryPublicationOutcomeView, _>(error),
        error != MemoryStoreError::PublicationConflict,
    ensures
        published_outcome(commit, revision, view_name, expected, asked, calls).0 == Err::<MemoryIndexOutcomeView, _>(
            MemoryIndexError::Store(error),
        ),
        published_outcome(commit, revision, view_name, expected, asked, calls).1.last() is Supersede,
        published_outcome(commit, revision, view_name, expected, asked, calls).1.last()->Supersede_0
            == commit.revision.completed_by,
{
}

/// A commit that the store refuses fails its build, and nothing is published.
pub proof fn refused_commits_fail_their_build(
    commit: MemoryCommitView,
    view_name: Seq<char>,
    expected: Option<MemoryPublicationVersionView>,
    asked: Seq<StoreCall>,
    calls: Seq<StoreCall>,
    error: MemoryStoreError,
)
    requires
        calls[asked.len() as int] is Complete,
        calls[asked.len() as int]->Complete_1 == Err::<(), _>(error),
    ensures
        finished(commit, view_name, expected, asked, calls).0 == Err::<MemoryIndexOutcomeView, _>(
            MemoryIndexError::Store(error),
        ),
        finished(commit, view_name, expected, asked, calls).1.len() == asked.len() + 2,
        finished(commit, view_name, expected, asked, calls).1.last() is Fail,
        finished(commit, view_name, expected, asked, calls).1.last()->Fail_0
            == commit.revision.completed_by,
{
}

} // verus!
