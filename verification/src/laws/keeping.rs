//! How builds, revisions and links are kept and published.
use vstd::prelude::*;
use crate::budget::backend;
use crate::diagnostics::MemoryDiagnosticView;
use crate::domain::{
    CachedMemoryFragmentView, MemoryBuildState, MemoryBuildView, MemoryCommitView,
    MemoryFragmentCacheKey, MemoryFragmentView, MemoryPublicationVersionView,
    MemoryPublishRequestView, MemoryRelationshipView, MemoryRepositoryLinkCommitView,
    MemoryRepositoryLinkSetView, MemoryRevisionView, ProjectRefView, PublishedMemoryRevisionView,
};
use crate::json::ToJson;
use crate::kept::{links_to_snapshot, read_links};
use crate::ledger::{
    compatible_links, count_where, last_begun, latest_links, links_newest_first, links_of,
    published, retained, started, transitioned, view_of, with_fragments, StoreState,
};
use crate::order::values_in_order;
use crate::ports::{LinkSetRequestView, LinksRequestView};
use crate::repository::RepositoryRefView;
use crate::store::{
    completion, link_completion, moved, publication, query_failure, BuildTransition,
    MemoryStoreError, PublicationView, MAX_GENERATION,
};

verus! {

/// A build that is over stays what it is: nothing makes a failed or a superseded build anything else,
/// and what was published is neither failed nor superseded by hand.
pub proof fn builds_that_are_over_stay_so(state: MemoryBuildState, transition: BuildTransition)
    requires
        state == MemoryBuildState::Failed || state == MemoryBuildState::Superseded || state
            == MemoryBuildState::Published,
    ensures
        moved(state, transition) is None,
{
}

/// A build can fail until it is complete, and can be superseded until it is published.
pub proof fn builds_move_on()
    ensures
        moved(MemoryBuildState::Building, BuildTransition::Fail) == Some(MemoryBuildState::Failed),
        moved(MemoryBuildState::Building, BuildTransition::Supersede) == Some(
            MemoryBuildState::Superseded,
        ),
        moved(MemoryBuildState::Complete, BuildTransition::Supersede) == Some(
            MemoryBuildState::Superseded,
        ),
        moved(MemoryBuildState::Complete, BuildTransition::Fail) is None,
{
}

/// A new build is kept under its name beside all that were there, and nothing else changes.
pub proof fn new_builds_are_kept(state: StoreState, build: MemoryBuildView, other: Seq<char>)
    requires
        build.state == MemoryBuildState::Building,
        !state.builds.contains_key(build.id),
    ensures
        started(state, build) is Ok,
        started(state, build)->Ok_0.builds.contains_key(build.id),
        started(state, build)->Ok_0.builds[build.id] == build,
        other != build.id ==> {
            &&& started(state, build)->Ok_0.builds.contains_key(other) == state.builds.contains_key(
                other,
            )
            &&& started(state, build)->Ok_0.builds[other] == state.builds[other]
        },
        started(state, build)->Ok_0.views == state.views,
        started(state, build)->Ok_0.revisions == state.revisions,
        started(state, build)->Ok_0.begun == state.begun.push(build.id),
{
}

/// A build cannot be begun twice, and none is begun in the middle.
pub proof fn builds_are_begun_once(state: StoreState, build: MemoryBuildView)
    ensures
        build.state != MemoryBuildState::Building ==> started(state, build) == Err::<StoreState, _>(
            MemoryStoreError::InvalidTransition,
        ),
        build.state == MemoryBuildState::Building && state.builds.contains_key(build.id) ==> started(
            state,
            build,
        ) is Err,
{
}

/// Moving a build changes its state and nothing else in the store.
pub proof fn moving_a_build_changes_its_state(
    state: StoreState,
    id: Seq<char>,
    transition: BuildTransition,
    other: Seq<char>,
)
    requires
        state.builds.contains_key(id),
        state.builds[id].state == MemoryBuildState::Building,
    ensures
        transitioned(state, id, transition) is Ok,
        transitioned(state, id, transition)->Ok_0.builds[id] == (MemoryBuildView {
            state: if transition == BuildTransition::Fail {
                MemoryBuildState::Failed
            } else {
                MemoryBuildState::Superseded
            },
            ..state.builds[id]
        }),
        other != id ==> transitioned(state, id, transition)->Ok_0.builds[other] == state.builds[other],
        transitioned(state, id, transition)->Ok_0 == (StoreState {
            builds: transitioned(state, id, transition)->Ok_0.builds,
            ..state
        }),
{
}

/// What a build completes is stored as new exactly where no such revision is there, the build is
/// under way for that project and revision, and all that is committed belongs to the revision.
pub proof fn new_revisions_are_stored(build: MemoryBuildView, commit: MemoryCommitView)
    ensures
        completion(Some(build), None, commit) == Ok::<bool, MemoryStoreError>(true) <==> {
            &&& build.state == MemoryBuildState::Building
            &&& build.project == commit.revision.project
            &&& build.prospective_revision_id == commit.revision.id
            &&& forall|i: int|
                0 <= i < commit.entities.len() ==> (#[trigger] commit.entities[i]).project
                    == commit.revision.project && commit.entities[i].memory_revision_id
                    == commit.revision.id
            &&& forall|i: int|
                0 <= i < commit.relationships.len() ==> (#[trigger] commit.relationships[i]).project
                    == commit.revision.project && commit.relationships[i].memory_revision_id
                    == commit.revision.id
        },
        completion(None, None, commit) == Err::<bool, _>(MemoryStoreError::BuildNotFound),
{
}

/// A revision that is there already is not stored again. It has to be the same one: of the same
/// project, sources, policy, model and extractors.
pub proof fn revisions_are_stored_once(
    build: MemoryBuildView,
    existing: MemoryRevisionView,
    commit: MemoryCommitView,
)
    requires
        build.state == MemoryBuildState::Building,
        build.project == commit.revision.project,
        build.prospective_revision_id == commit.revision.id,
    ensures
        completion(Some(build), Some(existing), commit) == Ok::<bool, MemoryStoreError>(false) <==> {
            &&& existing.project == commit.revision.project
            &&& existing.source_set_digest == commit.revision.source_set_digest
            &&& existing.policy_digest == commit.revision.policy_digest
            &&& existing.memory_model_version == commit.revision.memory_model_version
            &&& existing.extractor_set_digest == commit.revision.extractor_set_digest
        },
        completion(Some(build), Some(existing), commit) == Ok::<bool, MemoryStoreError>(false)
            || completion(Some(build), Some(existing), commit) == Err::<bool, _>(
            MemoryStoreError::IdentityMismatch,
        ),
{
}

/// Links belong to the revision they are committed with, and the same links can be committed again
/// at another time.
pub proof fn links_can_be_committed_again(
    revision: MemoryRevisionView,
    commit: MemoryRepositoryLinkCommitView,
    earlier: Seq<MemoryRelationshipView>,
)
    requires
        commit.link_set.project == revision.project,
        commit.link_set.memory_revision_id == revision.id,
        forall|i: int|
            0 <= i < commit.relationships.len() ==> (#[trigger] commit.relationships[i]).project
                == revision.project && commit.relationships[i].memory_revision_id == revision.id,
        earlier.len() == commit.relationships.len(),
        forall|i: int|
            0 <= i < earlier.len() ==> (#[trigger] earlier[i]) == (MemoryRelationshipView {
                provenance: crate::domain::MemoryProvenanceView {
                    timestamps: earlier[i].provenance.timestamps,
                    ..commit.relationships[i].provenance
                },
                ..commit.relationships[i]
            }),
    ensures
        link_completion(revision, commit, None) == Ok::<bool, MemoryStoreError>(true),
        link_completion(revision, commit, Some((commit.link_set, earlier))) == Ok::<
            bool,
            MemoryStoreError,
        >(false),
{
}

/// Links of another project or revision are refused, and so are other links under a name that is
/// taken.
pub proof fn other_links_are_refused(
    revision: MemoryRevisionView,
    commit: MemoryRepositoryLinkCommitView,
    set: MemoryRepositoryLinkSetView,
    links: Seq<MemoryRelationshipView>,
    at: int,
)
    ensures
        commit.link_set.project != revision.project || commit.link_set.memory_revision_id != revision.id
            ==> link_completion(revision, commit, None) == Err::<bool, _>(
            MemoryStoreError::IdentityMismatch,
        ),
        0 <= at < commit.relationships.len() && commit.relationships[at].memory_revision_id
            != revision.id ==> link_completion(revision, commit, None) == Err::<bool, _>(
            MemoryStoreError::IdentityMismatch,
        ),
        set != commit.link_set || links.len() != commit.relationships.len() ==> link_completion(
            revision,
            commit,
            Some((set, links)),
        ) == Err::<bool, _>(MemoryStoreError::IdentityMismatch),
        0 <= at < links.len() && at < commit.relationships.len() && links[at].target
            != commit.relationships[at].target ==> link_completion(revision, commit, Some((set, links)))
            == Err::<bool, _>(MemoryStoreError::IdentityMismatch),
{
}

/// The first revision of a view is its first generation, and each later one is the next.
pub proof fn generations_are_counted(
    request: MemoryPublishRequestView,
    build: MemoryBuildView,
    revision: MemoryRevisionView,
    current: PublishedMemoryRevisionView,
)
    requires
        build.project == request.project,
        build.state == MemoryBuildState::Complete,
        current.revision_id != revision.id,
        current.generation < MAX_GENERATION,
    ensures
        request.expected is None ==> publication(request, Some(build), Some(revision), None) == Ok::<
            PublicationView,
            MemoryStoreError,
        >(
            PublicationView::Replaced {
                view: PublishedMemoryRevisionView {
                    project: request.project,
                    view_name: request.view_name,
                    revision_id: revision.id,
                    build_id: build.id,
                    generation: 1,
                },
            },
        ),
        request.expected == Some(
            MemoryPublicationVersionView {
                revision_id: current.revision_id,
                generation: current.generation,
            },
        ) ==> publication(request, Some(build), Some(revision), Some(current)) == Ok::<
            PublicationView,
            MemoryStoreError,
        >(
            PublicationView::Replaced {
                view: PublishedMemoryRevisionView {
                    project: request.project,
                    view_name: request.view_name,
                    revision_id: revision.id,
                    build_id: build.id,
                    generation: (current.generation + 1) as u64,
                },
            },
        ),
{
}

/// Who expects another revision or generation than the one that is shown publishes nothing.
pub proof fn surprises_are_conflicts(
    request: MemoryPublishRequestView,
    build: MemoryBuildView,
    revision: MemoryRevisionView,
    current: Option<PublishedMemoryRevisionView>,
)
    requires
        build.project == request.project,
        build.state == MemoryBuildState::Complete,
        match (request.expected, current) {
            (None, None) => false,
            (Some(expected), Some(view)) => expected.revision_id != view.revision_id
                || expected.generation != view.generation,
            _ => true,
        },
    ensures
        publication(request, Some(build), Some(revision), current) == Err::<PublicationView, _>(
            MemoryStoreError::PublicationConflict,
        ),
{
}

/// Only a build that is complete, of the project asked for, is published.
pub proof fn only_complete_builds_are_published(
    request: MemoryPublishRequestView,
    build: MemoryBuildView,
    revision: Option<MemoryRevisionView>,
    current: Option<PublishedMemoryRevisionView>,
)
    requires
        build.state != MemoryBuildState::Complete || build.project != request.project,
    ensures
        publication(request, Some(build), revision, current) == Err::<PublicationView, _>(
            MemoryStoreError::InvalidTransition,
        ),
{
}

/// A view that shows a revision goes on showing it, in the same generation, when it is published
/// again.
pub proof fn shown_revisions_are_kept(
    request: MemoryPublishRequestView,
    build: MemoryBuildView,
    revision: MemoryRevisionView,
    current: PublishedMemoryRevisionView,
)
    requires
        build.project == request.project,
        build.state == MemoryBuildState::Complete,
        current.revision_id == revision.id,
        request.expected == Some(
            MemoryPublicationVersionView {
                revision_id: current.revision_id,
                generation: current.generation,
            },
        ),
    ensures
        publication(request, Some(build), Some(revision), Some(current)) == Ok::<
            PublicationView,
            MemoryStoreError,
        >(PublicationView::Kept { view: current }),
{
}

/// A store without a revision is told of as such, one of another make as incompatible, and any other
/// failure as a store that is not there.
pub proof fn failures_of_the_store_are_told(error: MemoryStoreError)
    ensures
        query_failure(error) is RevisionNotFound <==> error is RevisionNotFound,
        query_failure(error) == backend("storage.incompatible"@) <==> error is RequiresRebuild,
        query_failure(error) is RevisionNotFound || query_failure(error) == backend(
            "storage.incompatible"@,
        ) || query_failure(error) == backend("storage.unavailable"@),
{
    reveal_strlit("storage.incompatible");
    reveal_strlit("storage.unavailable");
    assert("storage.incompatible"@.len() != "storage.unavailable"@.len());
}

/// The view found is one of the views, for the project and the name asked for, and none is found only
/// where there is none.
pub proof fn views_are_found(
    views: Seq<PublishedMemoryRevisionView>,
    project: ProjectRefView,
    name: Seq<char>,
)
    ensures
        view_of(views, project, name) matches Some(view) ==> views.contains(view) && view.project
            == project && view.view_name == name,
        view_of(views, project, name) is None ==> forall|i: int|
            0 <= i < views.len() ==> (#[trigger] views[i]).project != project || views[i].view_name
                != name,
    decreases views.len(),
{
    if views.len() > 0 {
        let rest = views.skip(1);
        views_are_found(rest, project, name);
        if let Some(view) = view_of(rest, project, name) {
            let i = choose|i: int| 0 <= i < rest.len() && rest[i] == view;
            assert(views[i + 1] == view);
        }
        assert(views.contains(views[0]));
        assert forall|i: int| 1 <= i < views.len() implies #[trigger] views[i] == rest[i - 1] by {}
    }
}

/// The set of links under a name is the one stored last under it, and there is none only where none
/// was stored.
pub proof fn link_sets_are_found_by_name(links: Seq<MemoryRepositoryLinkCommitView>, id: Seq<char>)
    ensures
        links_of(links, id) matches Some(commit) ==> commit.link_set.id == id && links.contains(commit),
        links_of(links, id) is None ==> forall|i: int|
            0 <= i < links.len() ==> (#[trigger] links[i]).link_set.id != id,
    decreases links.len(),
{
    if links.len() > 0 {
        let rest = links.drop_last();
        link_sets_are_found_by_name(rest, id);
        if let Some(commit) = links_of(rest, id) {
            let i = choose|i: int| 0 <= i < rest.len() && rest[i] == commit;
            assert(links[i] == commit);
        }
        assert(links.contains(links.last()));
        assert forall|i: int| 0 <= i < links.len() - 1 implies #[trigger] links[i] == rest[i] by {}
    }
}

/// The latest links of a revision in a repository are those that were stored after all others of
/// that revision and repository.
pub proof fn latest_links_are_the_last(
    links: Seq<MemoryRepositoryLinkCommitView>,
    revision_id: Seq<char>,
    repository: RepositoryRefView,
    at: int,
)
    requires
        0 <= at < links.len(),
        links[at].link_set.memory_revision_id == revision_id,
        links[at].link_set.repository == repository,
        forall|i: int|
            at < i < links.len() ==> (#[trigger] links[i]).link_set.memory_revision_id != revision_id
                || links[i].link_set.repository != repository,
    ensures
        latest_links(links, revision_id, repository) == Some(links[at].link_set),
    decreases links.len(),
{
    if at < links.len() - 1 {
        let rest = links.drop_last();
        assert(links[links.len() - 1] == links.last());
        assert forall|i: int| 0 <= i < rest.len() implies #[trigger] rest[i] == links[i] by {}
        latest_links_are_the_last(rest, revision_id, repository, at);
    }
}

/// Without links of a revision in a repository none are the latest.
pub proof fn absent_links_are_not_found(
    links: Seq<MemoryRepositoryLinkCommitView>,
    revision_id: Seq<char>,
    repository: RepositoryRefView,
)
    requires
        forall|i: int|
            0 <= i < links.len() ==> (#[trigger] links[i]).link_set.memory_revision_id != revision_id
                || links[i].link_set.repository != repository,
    ensures
        latest_links(links, revision_id, repository) is None,
    decreases links.len(),
{
    if links.len() > 0 {
        let rest = links.drop_last();
        assert(links[links.len() - 1] == links.last());
        assert forall|i: int| 0 <= i < rest.len() implies #[trigger] rest[i] == links[i] by {}
        absent_links_are_not_found(rest, revision_id, repository);
    }
}

/// Whether a set of links can be gone on from: it is of the repository, and of another revision that
/// was made of the same project with the same policy, model and extractors.
pub open spec fn can_be_gone_on_from(
    set: MemoryRepositoryLinkSetView,
    revisions: Map<Seq<char>, MemoryRevisionView>,
    revision: MemoryRevisionView,
    repository: RepositoryRefView,
) -> bool {
    &&& set.repository == repository
    &&& revisions.contains_key(set.memory_revision_id)
    &&& revisions[set.memory_revision_id].id != revision.id
    &&& revisions[set.memory_revision_id].project == revision.project
    &&& revisions[set.memory_revision_id].policy_digest == revision.policy_digest
    &&& revisions[set.memory_revision_id].memory_model_version == revision.memory_model_version
    &&& revisions[set.memory_revision_id].extractor_set_digest == revision.extractor_set_digest
}

/// The links that a new revision goes on from are the last that it can go on from.
pub proof fn the_last_compatible_links_are_taken(
    links: Seq<MemoryRepositoryLinkCommitView>,
    revisions: Map<Seq<char>, MemoryRevisionView>,
    revision: MemoryRevisionView,
    repository: RepositoryRefView,
    at: int,
)
    requires
        0 <= at < links.len(),
        can_be_gone_on_from(links[at].link_set, revisions, revision, repository),
        forall|i: int|
            at < i < links.len() ==> !can_be_gone_on_from(
                (#[trigger] links[i]).link_set,
                revisions,
                revision,
                repository,
            ),
    ensures
        compatible_links(links, revisions, revision, repository) == Some(links[at].link_set),
    decreases links.len(),
{
    if at < links.len() - 1 {
        let rest = links.drop_last();
        assert(!can_be_gone_on_from(links[links.len() - 1].link_set, revisions, revision, repository));
        assert forall|i: int| 0 <= i < rest.len() implies #[trigger] rest[i] == links[i] by {}
        the_last_compatible_links_are_taken(rest, revisions, revision, repository, at);
    }
}

/// What is gone on from can be gone on from.
pub proof fn links_gone_on_from_are_compatible(
    links: Seq<MemoryRepositoryLinkCommitView>,
    revisions: Map<Seq<char>, MemoryRevisionView>,
    revision: MemoryRevisionView,
    repository: RepositoryRefView,
)
    ensures
        compatible_links(links, revisions, revision, repository) matches Some(set)
            ==> can_be_gone_on_from(set, revisions, revision, repository),
    decreases links.len(),
{
    if links.len() > 0 {
        links_gone_on_from_are_compatible(links.drop_last(), revisions, revision, repository);
    }
}

/// The links to a snapshot are those of the last set for the revision, the repository and the snapshot
/// asked for.
pub proof fn links_to_a_snapshot_are_the_last(
    links: Seq<MemoryRepositoryLinkCommitView>,
    request: LinkSetRequestView,
    at: int,
)
    requires
        0 <= at < links.len(),
        links[at].link_set.memory_revision_id == request.revision_id,
        links[at].link_set.repository == request.repository,
        links[at].link_set.repository_snapshot_id == request.snapshot_id,
        forall|i: int|
            at < i < links.len() ==> !((#[trigger] links[i]).link_set.memory_revision_id
                == request.revision_id && links[i].link_set.repository == request.repository
                && links[i].link_set.repository_snapshot_id == request.snapshot_id),
    ensures
        links_to_snapshot(links, request) == Some(links[at].link_set),
    decreases links.len(),
{
    if at < links.len() - 1 {
        let rest = links.drop_last();
        assert(links[links.len() - 1] == links.last());
        assert forall|i: int| 0 <= i < rest.len() implies #[trigger] rest[i] == links[i] by {}
        links_to_a_snapshot_are_the_last(rest, request, at);
    }
}

/// The links found to a snapshot are to that snapshot.
pub proof fn links_found_are_to_the_snapshot(
    links: Seq<MemoryRepositoryLinkCommitView>,
    request: LinkSetRequestView,
)
    ensures
        links_to_snapshot(links, request) matches Some(set) ==> set.memory_revision_id
            == request.revision_id && set.repository == request.repository && set.repository_snapshot_id
            == request.snapshot_id,
    decreases links.len(),
{
    if links.len() > 0 {
        links_found_are_to_the_snapshot(links.drop_last(), request);
    }
}

/// Links are read from the first on, as many as may be, and it is said when some are left out or time
/// ran out.
pub proof fn links_are_read_from_the_first_on(
    relationships: Seq<MemoryRelationshipView>,
    diagnostics: Seq<MemoryDiagnosticView>,
    late: bool,
    request: LinksRequestView,
)
    ensures
        read_links(relationships, diagnostics, late, request).relationships.len()
            <= request.max_links,
        read_links(relationships, diagnostics, late, request).relationships == relationships.take(
            read_links(relationships, diagnostics, late, request).relationships.len() as int,
        ),
        read_links(relationships, diagnostics, late, request).diagnostics.len()
            <= request.max_diagnostics,
        read_links(relationships, diagnostics, late, request).diagnostics == diagnostics.take(
            read_links(relationships, diagnostics, late, request).diagnostics.len() as int,
        ),
        read_links(relationships, diagnostics, late, request).truncated <==> !(read_links(
            relationships,
            diagnostics,
            late,
            request,
        ).relationships == relationships && read_links(
            relationships,
            diagnostics,
            late,
            request,
        ).diagnostics == diagnostics),
        read_links(relationships, diagnostics, late, request).relationships == relationships
            || read_links(relationships, diagnostics, late, request).relationships.len()
            == request.max_links,
        read_links(relationships, diagnostics, late, request).diagnostics == diagnostics || read_links(
            relationships,
            diagnostics,
            late,
            request,
        ).diagnostics.len() == request.max_diagnostics,
        read_links(relationships, diagnostics, late, request).duration_exceeded == late,
{
    assert(relationships.take(relationships.len() as int) =~= relationships);
    assert(diagnostics.take(diagnostics.len() as int) =~= diagnostics);
}

/// Publishing a revision in place of another makes its build the published one, and the build that
/// was shown before is superseded.
pub proof fn published_builds_take_over(
    state: StoreState,
    request: MemoryPublishRequestView,
    before: PublishedMemoryRevisionView,
)
    requires
        view_of(state.views, request.project, request.view_name) == Some(before),
        before.build_id != request.build_id,
        state.builds.contains_key(before.build_id),
        state.builds[before.build_id].state == MemoryBuildState::Published,
        state.builds.contains_key(request.build_id),
        state.builds[request.build_id].prospective_revision_id != before.revision_id,
        forall|id: Seq<char>| #[trigger]
            state.revisions.contains_key(id) ==> state.revisions[id].id == id,
    ensures
        published(state, request) matches Ok(next) ==> {
            &&& next.builds[request.build_id].state == MemoryBuildState::Published
            &&& next.builds[before.build_id].state == MemoryBuildState::Superseded
        },
{
}

/// The links of a revision are the relationships of its sets, and of no other.
pub proof fn links_of_a_revision_are_gathered(
    links: Seq<MemoryRepositoryLinkCommitView>,
    revision_id: Seq<char>,
    link: MemoryRelationshipView,
)
    ensures
        links_newest_first(links, revision_id).contains(link) <==> exists|i: int|
            0 <= i < links.len() && (#[trigger] links[i]).link_set.memory_revision_id == revision_id
                && links[i].relationships.contains(link),
    decreases links.len(),
{
    if links.len() > 0 {
        let rest = links.drop_last();
        let last = links.last();
        links_of_a_revision_are_gathered(rest, revision_id, link);
        assert forall|i: int| 0 <= i < rest.len() implies #[trigger] rest[i] == links[i] by {}
        assert(links[links.len() - 1] == last);
        crate::laws::lists::sum_holds(
            last.relationships,
            links_newest_first(rest, revision_id),
            link,
        );
        if links_newest_first(rest, revision_id).contains(link) {
            let i = choose|i: int|
                0 <= i < rest.len() && (#[trigger] rest[i]).link_set.memory_revision_id == revision_id
                    && rest[i].relationships.contains(link);
            assert(links[i] == rest[i]);
        }
        if exists|i: int|
            0 <= i < links.len() && (#[trigger] links[i]).link_set.memory_revision_id == revision_id
                && links[i].relationships.contains(link) {
            let i = choose|i: int|
                0 <= i < links.len() && (#[trigger] links[i]).link_set.memory_revision_id == revision_id
                    && links[i].relationships.contains(link);
            if i < rest.len() {
                assert(rest[i] == links[i]);
            }
        }
    }
}

/// A fragment that was written last under its key is the one that is kept under it.
pub proof fn written_fragments_are_kept(
    fragments: Map<Seq<char>, MemoryFragmentView>,
    writes: Seq<CachedMemoryFragmentView>,
    at: int,
)
    requires
        0 <= at < writes.len(),
        forall|i: int|
            at < i < writes.len() ==> MemoryFragmentCacheKey::json((#[trigger] writes[i]).key)
                != MemoryFragmentCacheKey::json(writes[at].key),
    ensures
        with_fragments(fragments, writes).contains_key(MemoryFragmentCacheKey::json(writes[at].key)),
        with_fragments(fragments, writes)[MemoryFragmentCacheKey::json(writes[at].key)]
            == writes[at].fragment,
    decreases writes.len(),
{
    if at < writes.len() - 1 {
        let rest = writes.drop_last();
        assert(writes[writes.len() - 1] == writes.last());
        assert forall|i: int| 0 <= i < rest.len() implies #[trigger] rest[i] == writes[i] by {}
        written_fragments_are_kept(fragments, rest, at);
    }
}

/// Fragments under other keys stay.
pub proof fn other_fragments_stay(
    fragments: Map<Seq<char>, MemoryFragmentView>,
    writes: Seq<CachedMemoryFragmentView>,
    key: Seq<char>,
)
    requires
        forall|i: int|
            0 <= i < writes.len() ==> MemoryFragmentCacheKey::json((#[trigger] writes[i]).key) != key,
    ensures
        with_fragments(fragments, writes).contains_key(key) == fragments.contains_key(key),
        with_fragments(fragments, writes)[key] == fragments[key],
    decreases writes.len(),
{
    if writes.len() > 0 {
        let rest = writes.drop_last();
        assert(writes[writes.len() - 1] == writes.last());
        assert forall|i: int| 0 <= i < rest.len() implies #[trigger] rest[i] == writes[i] by {}
        other_fragments_stay(fragments, rest, key);
    }
}

/// The build that was begun last for a project is found.
pub proof fn the_last_build_is_found(
    begun: Seq<Seq<char>>,
    builds: Map<Seq<char>, MemoryBuildView>,
    project: ProjectRefView,
    at: int,
)
    requires
        0 <= at < begun.len(),
        builds.contains_key(begun[at]),
        builds[begun[at]].project == project,
        forall|i: int|
            at < i < begun.len() ==> !(builds.contains_key(#[trigger] begun[i])
                && builds[begun[i]].project == project),
    ensures
        last_begun(begun, builds, project) == Some(builds[begun[at]]),
    decreases begun.len(),
{
    if at < begun.len() - 1 {
        let rest = begun.drop_last();
        assert(begun[begun.len() - 1] == begun.last());
        assert forall|i: int| 0 <= i < rest.len() implies #[trigger] rest[i] == begun[i] by {}
        the_last_build_is_found(rest, builds, project, at);
    }
}

proof fn counts_are_lengths<T>(
    records: Seq<T>,
    wanted: spec_fn(T) -> bool,
    other: spec_fn(T) -> bool,
)
    requires
        forall|record: T| #[trigger] wanted(record) == other(record),
    ensures
        count_where(records, wanted) == records.filter(other).len(),
    decreases records.len(),
{
    reveal(Seq::filter);
    if records.len() > 0 {
        counts_are_lengths(records.drop_last(), wanted, other);
        assert(wanted(records.last()) == other(records.last()));
    }
}

/// What is counted for a project are its revisions, those of them that no view shows, its builds,
/// those of them that are over without being published, and the sets of links of its revisions.
pub proof fn what_is_kept_is_counted(state: StoreState, project: ProjectRefView)
    ensures
        retained(state, project).revisions == values_in_order(state.revisions).filter(
            |revision: MemoryRevisionView| revision.project == project,
        ).len() as u64,
        retained(state, project).historical_revisions == values_in_order(state.revisions).filter(
            |revision: MemoryRevisionView|
                revision.project == project && forall|i: int|
                    0 <= i < state.views.len() ==> (#[trigger] state.views[i]).project != project
                        || state.views[i].revision_id != revision.id,
        ).len() as u64,
        retained(state, project).builds == values_in_order(state.builds).filter(
            |build: MemoryBuildView| build.project == project,
        ).len() as u64,
        retained(state, project).terminal_unpublished_builds == values_in_order(state.builds).filter(
            |build: MemoryBuildView|
                build.project == project && build.state != MemoryBuildState::Building && build.state
                    != MemoryBuildState::Published,
        ).len() as u64,
        retained(state, project).repository_link_sets == state.links.filter(
            |commit: MemoryRepositoryLinkCommitView|
                state.revisions.contains_key(commit.link_set.memory_revision_id)
                    && state.revisions[commit.link_set.memory_revision_id].project == project,
        ).len() as u64,
{
    let all = values_in_order(state.revisions);
    let builds = values_in_order(state.builds);
    counts_are_lengths(
        all,
        |revision: MemoryRevisionView| revision.project == project,
        |revision: MemoryRevisionView| revision.project == project,
    );
    counts_are_lengths(
        all,
        |revision: MemoryRevisionView|
            revision.project == project && !crate::ledger::is_shown(state.views, revision),
        |revision: MemoryRevisionView|
            revision.project == project && forall|i: int|
                0 <= i < state.views.len() ==> (#[trigger] state.views[i]).project != project
                    || state.views[i].revision_id != revision.id,
    );
    counts_are_lengths(
        builds,
        |build: MemoryBuildView| build.project == project,
        |build: MemoryBuildView| build.project == project,
    );
    counts_are_lengths(
        builds,
        |build: MemoryBuildView| build.project == project && crate::ledger::is_over(build),
        |build: MemoryBuildView|
            build.project == project && build.state != MemoryBuildState::Building && build.state
                != MemoryBuildState::Published,
    );
    counts_are_lengths(
        state.links,
        |commit: MemoryRepositoryLinkCommitView|
            state.revisions.contains_key(commit.link_set.memory_revision_id)
                && state.revisions[commit.link_set.memory_revision_id].project == project,
        |commit: MemoryRepositoryLinkCommitView|
            state.revisions.contains_key(commit.link_set.memory_revision_id)
                && state.revisions[commit.link_set.memory_revision_id].project == project,
    );
}

} // verus!
