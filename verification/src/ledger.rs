//! What a store of the memory holds, how each operation changes it, and a store that keeps all of it
//! at hand.
use vstd::prelude::*;
use crate::diagnostics::{MemoryDiagnostic, MemoryDiagnosticView};
use crate::domain::{
    CachedMemoryFragment, CachedMemoryFragmentView, MemoryBuild, MemoryBuildId, MemoryBuildState,
    MemoryBuildView, MemoryCommit, MemoryCommitView, MemoryEntity, MemoryEntityView, MemoryFragment,
    MemoryFragmentCacheKey, MemoryFragmentCacheKeyView, MemoryFragmentView,
    MemoryPublicationOutcome, MemoryPublicationOutcomeView, MemoryPublishRequest,
    MemoryPublishRequestView, MemoryRelationship, MemoryRelationshipView,
    MemoryRepositoryLinkCommit, MemoryRepositoryLinkCommitView, MemoryRepositoryLinkSet,
    MemoryRepositoryLinkSetId, MemoryRepositoryLinkSetView, MemoryRevision, MemoryRevisionId,
    MemoryRevisionView, MemoryViewName, ProjectRef, ProjectRefView, PublishedMemoryRevision,
    PublishedMemoryRevisionView,
};
use crate::json::ToJson;
use crate::kept::{KeptLinks, KeptRecords};
use crate::order::{listed, values_in_order, OrderedMap};
use crate::ports::MemoryBuildFailure;
use crate::query::{MemoryRetentionStatistics, MemoryRetentionStatisticsView};
use crate::record::{outcome, Record};
use crate::repository::{RepositoryRef, RepositoryRefView};
use crate::service::MemoryRecords;
use crate::sort::{sort, sorted};
use crate::store::{
    check_start, completion, decide_completion, decide_links, decide_publication, entities_belong,
    link_completion, move_build, moved, publication, relationships_belong, same_revision,
    BuildTransition, MemoryStoreError, Publication, PublicationView,
};

verus! {

/// What a store holds.
#[verifier::ext_equal]
pub struct StoreState {
    /// The builds, under their names.
    pub builds: Map<Seq<char>, MemoryBuildView>,
    /// The revisions, under their names.
    pub revisions: Map<Seq<char>, MemoryRevisionView>,
    /// The entities of each revision.
    pub entities: Map<Seq<char>, Seq<MemoryEntityView>>,
    /// The relationships of each revision.
    pub relationships: Map<Seq<char>, Seq<MemoryRelationshipView>>,
    /// What is published, one revision for each view of a project.
    pub views: Seq<PublishedMemoryRevisionView>,
    /// The fragments that were kept, under the JSON texts of their keys.
    pub fragments: Map<Seq<char>, MemoryFragmentView>,
    /// The sets of links to repositories, the oldest first.
    pub links: Seq<MemoryRepositoryLinkCommitView>,
    /// What each build had to say.
    pub diagnostics: Map<Seq<char>, Seq<MemoryDiagnosticView>>,
    /// The build whose words stand for each revision.
    pub diagnostic_builds: Map<Seq<char>, Seq<char>>,
    /// The names of the builds in the order in which they began.
    pub begun: Seq<Seq<char>>,
}

/// What is found under a key.
pub open spec fn found<V>(map: Map<Seq<char>, V>, key: Seq<char>) -> Option<V> {
    if map.contains_key(key) {
        Some(map[key])
    } else {
        None
    }
}

/// Whether this is what a view of a project shows.
pub open spec fn shows(
    view: PublishedMemoryRevisionView,
    project: ProjectRefView,
    name: Seq<char>,
) -> bool {
    view.project == project && view.view_name == name
}

/// What a view of a project shows.
pub open spec fn view_of(
    views: Seq<PublishedMemoryRevisionView>,
    project: ProjectRefView,
    name: Seq<char>,
) -> Option<PublishedMemoryRevisionView>
    decreases views.len(),
{
    if views.len() == 0 {
        None
    } else if shows(views[0], project, name) {
        Some(views[0])
    } else {
        view_of(views.skip(1), project, name)
    }
}

/// The views once one of them shows something else.
pub open spec fn with_view(
    views: Seq<PublishedMemoryRevisionView>,
    view: PublishedMemoryRevisionView,
) -> Seq<PublishedMemoryRevisionView>
    decreases views.len(),
{
    if views.len() == 0 {
        seq![view]
    } else if shows(views[0], view.project, view.view_name) {
        seq![view] + views.skip(1)
    } else {
        seq![views[0]] + with_view(views.skip(1), view)
    }
}

/// Where a view stands, it is found, and it is replaced.
proof fn view_stands(
    views: Seq<PublishedMemoryRevisionView>,
    at: int,
    view: PublishedMemoryRevisionView,
)
    requires
        0 <= at <= views.len(),
        forall|i: int| 0 <= i < at ==> !shows(#[trigger] views[i], view.project, view.view_name),
        at < views.len() ==> shows(views[at], view.project, view.view_name),
    ensures
        view_of(views, view.project, view.view_name) == if at < views.len() {
            Some(views[at])
        } else {
            None
        },
        with_view(views, view) == if at < views.len() {
            views.update(at, view)
        } else {
            views.push(view)
        },
    decreases views.len(),
{
    if views.len() == 0 {
        assert(with_view(views, view) =~= views.push(view));
    } else if at == 0 {
        assert(with_view(views, view) =~= views.update(at, view));
    } else {
        let rest = views.skip(1);
        assert forall|i: int| 0 <= i < at - 1 implies !shows(
            #[trigger] rest[i],
            view.project,
            view.view_name,
        ) by {
            assert(rest[i] == views[i + 1]);
        }
        assert(!shows(views[0], view.project, view.view_name));
        view_stands(rest, at - 1, view);
        if at < views.len() {
            assert(with_view(views, view) =~= views.update(at, view));
        } else {
            assert(with_view(views, view) =~= views.push(view));
        }
    }
}

/// Where the view that is wanted stands, or that there is none.
proof fn view_place(
    views: Seq<PublishedMemoryRevisionView>,
    project: ProjectRefView,
    name: Seq<char>,
) -> (at: int)
    ensures
        0 <= at <= views.len(),
        forall|i: int| 0 <= i < at ==> !shows(#[trigger] views[i], project, name),
        at < views.len() ==> shows(views[at], project, name),
    decreases views.len(),
{
    if views.len() == 0 {
        0
    } else if shows(views[0], project, name) {
        0
    } else {
        let rest = views.skip(1);
        let at = view_place(rest, project, name);
        assert forall|i: int|
            0 <= i < at + 1 implies !shows(#[trigger] views[i], project, name) by {
            if i > 0 {
                assert(views[i] == rest[i - 1]);
            }
        }
        at + 1
    }
}

/// A view that was written is shown.
pub proof fn written_views_are_shown(
    views: Seq<PublishedMemoryRevisionView>,
    view: PublishedMemoryRevisionView,
)
    ensures
        view_of(with_view(views, view), view.project, view.view_name) == Some(view),
{
    let at = view_place(views, view.project, view.view_name);
    view_stands(views, at, view);
    let next = with_view(views, view);
    assert forall|i: int| 0 <= i < at implies !shows(#[trigger] next[i], view.project, view.view_name) by {
        assert(next[i] == views[i]);
    }
    view_stands(next, at, view);
}

/// The set of links with a name.
pub open spec fn links_of(links: Seq<MemoryRepositoryLinkCommitView>, id: Seq<char>) -> Option<
    MemoryRepositoryLinkCommitView,
>
    decreases links.len(),
{
    if links.len() == 0 {
        None
    } else if links.last().link_set.id == id {
        Some(links.last())
    } else {
        links_of(links.drop_last(), id)
    }
}

/// The newest set of links from a revision to a repository.
pub open spec fn latest_links(
    links: Seq<MemoryRepositoryLinkCommitView>,
    revision_id: Seq<char>,
    repository: RepositoryRefView,
) -> Option<MemoryRepositoryLinkSetView>
    decreases links.len(),
{
    if links.len() == 0 {
        None
    } else if links.last().link_set.memory_revision_id == revision_id
        && links.last().link_set.repository == repository {
        Some(links.last().link_set)
    } else {
        latest_links(links.drop_last(), revision_id, repository)
    }
}

/// Whether another revision was made the same way: of the same project, by the same policy, model and
/// extractors.
pub open spec fn is_compatible(other: MemoryRevisionView, revision: MemoryRevisionView) -> bool {
    &&& other.id != revision.id
    &&& other.project == revision.project
    &&& other.policy_digest == revision.policy_digest
    &&& other.memory_model_version == revision.memory_model_version
    &&& other.extractor_set_digest == revision.extractor_set_digest
}

/// The newest set of links to a repository from another revision that was made the same way.
pub open spec fn compatible_links(
    links: Seq<MemoryRepositoryLinkCommitView>,
    revisions: Map<Seq<char>, MemoryRevisionView>,
    revision: MemoryRevisionView,
    repository: RepositoryRefView,
) -> Option<MemoryRepositoryLinkSetView>
    decreases links.len(),
{
    if links.len() == 0 {
        None
    } else {
        let set = links.last().link_set;
        if set.repository == repository && revisions.contains_key(set.memory_revision_id)
            && is_compatible(revisions[set.memory_revision_id], revision) {
            Some(set)
        } else {
            compatible_links(links.drop_last(), revisions, revision, repository)
        }
    }
}

/// The links of a set, in the order of their names.
pub open spec fn links_in_set(links: Seq<MemoryRepositoryLinkCommitView>, id: Seq<char>) -> Seq<
    MemoryRelationshipView,
> {
    match links_of(links, id) {
        Some(commit) => commit.relationships,
        None => Seq::empty(),
    }
}

/// What there is to say of a set of links.
pub open spec fn link_diagnostics_in_set(
    links: Seq<MemoryRepositoryLinkCommitView>,
    id: Seq<char>,
) -> Seq<MemoryDiagnosticView> {
    match links_of(links, id) {
        Some(commit) => commit.diagnostics,
        None => Seq::empty(),
    }
}

/// Whether no two entities have one name.
pub open spec fn entities_are_apart(entities: Seq<MemoryEntityView>) -> bool {
    forall|i: int, j: int|
        0 <= i < j < entities.len() ==> (#[trigger] entities[i]).id != (#[trigger] entities[j]).id
}

/// Whether no two relationships have one name.
pub open spec fn relationships_are_apart(relationships: Seq<MemoryRelationshipView>) -> bool {
    forall|i: int, j: int|
        0 <= i < j < relationships.len() ==> (#[trigger] relationships[i]).id
            != (#[trigger] relationships[j]).id
}

/// The sets of links once those of a commit are stored with its revision.
pub open spec fn with_links(
    links: Seq<MemoryRepositoryLinkCommitView>,
    revision: MemoryRevisionView,
    commits: Seq<MemoryRepositoryLinkCommitView>,
) -> Result<Seq<MemoryRepositoryLinkCommitView>, MemoryStoreError>
    decreases commits.len(),
{
    if commits.len() == 0 {
        Ok(links)
    } else {
        match with_links(links, revision, commits.drop_last()) {
            Err(error) => Err(error),
            Ok(links) => with_link_set(links, revision, commits.last()),
        }
    }
}

/// The sets of links once another one is stored.
pub open spec fn with_link_set(
    links: Seq<MemoryRepositoryLinkCommitView>,
    revision: MemoryRevisionView,
    commit: MemoryRepositoryLinkCommitView,
) -> Result<Seq<MemoryRepositoryLinkCommitView>, MemoryStoreError> {
    let existing = match links_of(links, commit.link_set.id) {
        Some(stored) => Some((stored.link_set, stored.relationships)),
        None => None,
    };
    match link_completion(revision, commit, existing) {
        Err(error) => Err(error),
        Ok(false) => Ok(links),
        Ok(true) => if relationships_are_apart(commit.relationships) {
            Ok(
                links.push(
                    MemoryRepositoryLinkCommitView {
                        relationships: sorted::<MemoryRelationship>(commit.relationships),
                        ..commit
                    },
                ),
            )
        } else {
            Err(MemoryStoreError::Unavailable)
        },
    }
}

/// The fragments once those of a commit are kept.
pub open spec fn with_fragments(
    fragments: Map<Seq<char>, MemoryFragmentView>,
    writes: Seq<CachedMemoryFragmentView>,
) -> Map<Seq<char>, MemoryFragmentView>
    decreases writes.len(),
{
    if writes.len() == 0 {
        fragments
    } else {
        with_fragments(fragments, writes.drop_last()).insert(
            MemoryFragmentCacheKey::json(writes.last().key),
            writes.last().fragment,
        )
    }
}

/// The store that holds nothing.
pub open spec fn nothing_stored() -> StoreState {
    StoreState {
        builds: Map::empty(),
        revisions: Map::empty(),
        entities: Map::empty(),
        relationships: Map::empty(),
        views: Seq::empty(),
        fragments: Map::empty(),
        links: Seq::empty(),
        diagnostics: Map::empty(),
        diagnostic_builds: Map::empty(),
        begun: Seq::empty(),
    }
}

/// The store once a build has begun. Its name has to be new.
pub open spec fn started(state: StoreState, build: MemoryBuildView) -> Result<
    StoreState,
    MemoryStoreError,
> {
    if build.state != MemoryBuildState::Building {
        Err(MemoryStoreError::InvalidTransition)
    } else if state.builds.contains_key(build.id) {
        Err(MemoryStoreError::Unavailable)
    } else {
        Ok(
            StoreState {
                builds: state.builds.insert(build.id, build),
                begun: state.begun.push(build.id),
                ..state
            },
        )
    }
}

/// The store once a build has moved.
pub open spec fn with_state(
    state: StoreState,
    id: Seq<char>,
    next: MemoryBuildState,
) -> StoreState {
    StoreState {
        builds: state.builds.insert(id, MemoryBuildView { state: next, ..state.builds[id] }),
        ..state
    }
}

/// The store once a build has moved by itself.
pub open spec fn transitioned(
    state: StoreState,
    id: Seq<char>,
    transition: BuildTransition,
) -> Result<StoreState, MemoryStoreError> {
    if state.builds.contains_key(id) && moved(state.builds[id].state, transition) is Some {
        Ok(with_state(state, id, moved(state.builds[id].state, transition)->0))
    } else {
        Err(MemoryStoreError::InvalidTransition)
    }
}

/// The store once a commit has completed its build: all of it is there, or nothing.
pub open spec fn completed(state: StoreState, commit: MemoryCommitView) -> Result<
    StoreState,
    MemoryStoreError,
> {
    let id = commit.revision.id;
    let build_id = commit.revision.completed_by;
    match completion(found(state.builds, build_id), found(state.revisions, id), commit) {
        Err(error) => Err(error),
        Ok(new) => if new && !(entities_are_apart(commit.entities) && relationships_are_apart(
            commit.relationships,
        )) {
            Err(MemoryStoreError::Unavailable)
        } else {
            match with_links(state.links, commit.revision, commit.repository_links) {
                Err(error) => Err(error),
                Ok(links) => Ok(
                    StoreState {
                        builds: state.builds.insert(
                            build_id,
                            MemoryBuildView {
                                state: MemoryBuildState::Complete,
                                ..state.builds[build_id]
                            },
                        ),
                        revisions: if new {
                            state.revisions.insert(id, commit.revision)
                        } else {
                            state.revisions
                        },
                        entities: if new {
                            state.entities.insert(id, commit.entities)
                        } else {
                            state.entities
                        },
                        relationships: if new {
                            state.relationships.insert(id, commit.relationships)
                        } else {
                            state.relationships
                        },
                        views: state.views,
                        fragments: with_fragments(state.fragments, commit.cache_writes),
                        links,
                        diagnostics: state.diagnostics.insert(build_id, commit.diagnostics),
                        diagnostic_builds: state.diagnostic_builds.insert(id, build_id),
                        begun: state.begun,
                    },
                ),
            }
        },
    }
}

/// What publishing a build of the store comes to.
pub open spec fn publication_in(state: StoreState, request: MemoryPublishRequestView) -> Result<
    PublicationView,
    MemoryStoreError,
> {
    let build = found(state.builds, request.build_id);
    publication(
        request,
        build,
        match build {
            Some(build) => found(state.revisions, build.prospective_revision_id),
            None => None,
        },
        view_of(state.views, request.project, request.view_name),
    )
}

/// The builds once another build replaces a published one.
pub open spec fn with_superseded(
    builds: Map<Seq<char>, MemoryBuildView>,
    current: Option<PublishedMemoryRevisionView>,
) -> Map<Seq<char>, MemoryBuildView> {
    match current {
        Some(view) => if builds.contains_key(view.build_id) && builds[view.build_id].state
            == MemoryBuildState::Published {
            builds.insert(
                view.build_id,
                MemoryBuildView { state: MemoryBuildState::Superseded, ..builds[view.build_id] },
            )
        } else {
            builds
        },
        None => builds,
    }
}

/// The store once a build is published.
pub open spec fn published(state: StoreState, request: MemoryPublishRequestView) -> Result<
    StoreState,
    MemoryStoreError,
> {
    match publication_in(state, request) {
        Err(error) => Err(error),
        Ok(PublicationView::Kept { view }) => Ok(
            with_state(state, request.build_id, MemoryBuildState::Superseded),
        ),
        Ok(PublicationView::Replaced { view }) => {
            let builds = with_superseded(
                state.builds,
                view_of(state.views, request.project, request.view_name),
            );
            Ok(
                StoreState {
                    builds: builds.insert(
                        request.build_id,
                        MemoryBuildView {
                            state: MemoryBuildState::Published,
                            ..builds[request.build_id]
                        },
                    ),
                    views: with_view(state.views, view),
                    ..state
                },
            )
        },
    }
}

/// What a view shows once a build is published.
pub open spec fn shown(publication: PublicationView) -> PublishedMemoryRevisionView {
    match publication {
        PublicationView::Kept { view } => view,
        PublicationView::Replaced { view } => view,
    }
}

/// Whether a change was made as it was owed, or refused without a trace.
pub open spec fn settled(
    before: StoreState,
    after: StoreState,
    owed: Result<StoreState, MemoryStoreError>,
    result: Result<(), MemoryStoreError>,
) -> bool {
    match result {
        Ok(_) => owed == Ok::<StoreState, MemoryStoreError>(after),
        Err(error) => after == before && owed == Err::<StoreState, MemoryStoreError>(error),
    }
}

/// What a store was asked, and what it answered.
pub enum StoreCall {
    Start(MemoryBuildView, Result<(), MemoryStoreError>),
    Fail(Seq<char>, Seq<char>, Result<(), MemoryStoreError>),
    Complete(MemoryCommitView, Result<(), MemoryStoreError>),
    Publish(MemoryPublishRequestView, Result<MemoryPublicationOutcomeView, MemoryStoreError>),
    Supersede(Seq<char>, Result<(), MemoryStoreError>),
    Build(Seq<char>, Result<Option<MemoryBuildView>, MemoryStoreError>),
    Revision(Seq<char>, Result<Option<MemoryRevisionView>, MemoryStoreError>),
    View(
        ProjectRefView,
        Seq<char>,
        Result<Option<PublishedMemoryRevisionView>, MemoryStoreError>,
    ),
    Fragment(MemoryFragmentCacheKeyView, Result<Option<MemoryFragmentView>, MemoryStoreError>),
    Diagnostics(Seq<char>, Result<Seq<MemoryDiagnosticView>, MemoryStoreError>),
    LinkSet(Seq<char>, Result<Option<MemoryRepositoryLinkSetView>, MemoryStoreError>),
    LatestLinkSet(
        Seq<char>,
        RepositoryRefView,
        Result<Option<MemoryRepositoryLinkSetView>, MemoryStoreError>,
    ),
    CompatibleLinkSet(
        MemoryRevisionView,
        RepositoryRefView,
        Result<Option<MemoryRepositoryLinkSetView>, MemoryStoreError>,
    ),
    Links(Seq<char>, Result<Seq<MemoryRelationshipView>, MemoryStoreError>),
}

/// A store of the memory. Others may change it between two calls. A call is done whole, or it leaves
/// the store as it was.
pub trait MemoryStore {
    /// Whether the store can be used.
    open spec fn ready(&self) -> bool {
        true
    }

    /// What the store was asked so far, and what it answered.
    open spec fn calls(&self) -> Seq<StoreCall> {
        Seq::empty()
    }

    /// Begins a build.
    fn start_build(&mut self, build: &MemoryBuild) -> (result: Result<(), MemoryStoreError>)
        requires
            old(self).ready(),
        ensures
            final(self).ready(),
            final(self).calls() == old(self).calls().push(StoreCall::Start(build.deep_view(), result)),
    ;

    /// Ends a build that failed.
    fn fail_build(
        &mut self,
        build_id: &MemoryBuildId,
        failure: &MemoryBuildFailure,
    ) -> (result: Result<(), MemoryStoreError>)
        requires
            old(self).ready(),
        ensures
            final(self).ready(),
            final(self).calls() == old(self).calls().push(
                StoreCall::Fail(build_id.deep_view(), failure.code.deep_view(), result),
            ),
    ;

    /// Completes a build with what it found.
    fn complete_build(&mut self, commit: &MemoryCommit) -> (result: Result<(), MemoryStoreError>)
        requires
            old(self).ready(),
        ensures
            final(self).ready(),
            final(self).calls() == old(self).calls().push(
                StoreCall::Complete(commit.deep_view(), result),
            ),
    ;

    /// Publishes a complete build.
    fn publish(&mut self, request: &MemoryPublishRequest) -> (result: Result<
        MemoryPublicationOutcome,
        MemoryStoreError,
    >)
        requires
            old(self).ready(),
        ensures
            final(self).ready(),
            final(self).calls() == old(self).calls().push(
                StoreCall::Publish(request.deep_view(), outcome(result)),
            ),
    ;

    /// Ends a build that another one replaces.
    fn supersede_build(
        &mut self,
        build_id: &MemoryBuildId,
    ) -> (result: Result<(), MemoryStoreError>)
        requires
            old(self).ready(),
        ensures
            final(self).ready(),
            final(self).calls() == old(self).calls().push(
                StoreCall::Supersede(build_id.deep_view(), result),
            ),
    ;

    /// The build with a name.
    fn build(&mut self, build_id: &MemoryBuildId) -> (result: Result<
        Option<MemoryBuild>,
        MemoryStoreError,
    >)
        requires
            old(self).ready(),
        ensures
            final(self).ready(),
            final(self).calls() == old(self).calls().push(
                StoreCall::Build(build_id.deep_view(), outcome(result)),
            ),
    ;

    /// The revision with a name.
    fn revision(&mut self, revision_id: &MemoryRevisionId) -> (result: Result<
        Option<MemoryRevision>,
        MemoryStoreError,
    >)
        requires
            old(self).ready(),
        ensures
            final(self).ready(),
            final(self).calls() == old(self).calls().push(
                StoreCall::Revision(revision_id.deep_view(), outcome(result)),
            ),
    ;

    /// What a view of a project shows.
    fn published_view(
        &mut self,
        project: &ProjectRef,
        view_name: &MemoryViewName,
    ) -> (result: Result<Option<PublishedMemoryRevision>, MemoryStoreError>)
        requires
            old(self).ready(),
        ensures
            final(self).ready(),
            final(self).calls() == old(self).calls().push(
                StoreCall::View(project.deep_view(), view_name.deep_view(), outcome(result)),
            ),
    ;

    /// The fragment that was kept under a key.
    fn load_cached_fragment(&mut self, key: &MemoryFragmentCacheKey) -> (result: Result<
        Option<MemoryFragment>,
        MemoryStoreError,
    >)
        requires
            old(self).ready(),
        ensures
            final(self).ready(),
            final(self).calls() == old(self).calls().push(
                StoreCall::Fragment(key.deep_view(), outcome(result)),
            ),
    ;

    /// What a build had to say.
    fn diagnostics_for_build(&mut self, build_id: &MemoryBuildId) -> (result: Result<
        Vec<MemoryDiagnostic>,
        MemoryStoreError,
    >)
        requires
            old(self).ready(),
        ensures
            final(self).ready(),
            final(self).calls() == old(self).calls().push(
                StoreCall::Diagnostics(build_id.deep_view(), outcome(result)),
            ),
    ;

    /// The set of links with a name.
    fn repository_link_set(&mut self, id: &MemoryRepositoryLinkSetId) -> (result: Result<
        Option<MemoryRepositoryLinkSet>,
        MemoryStoreError,
    >)
        requires
            old(self).ready(),
        ensures
            final(self).ready(),
            final(self).calls() == old(self).calls().push(
                StoreCall::LinkSet(id.deep_view(), outcome(result)),
            ),
    ;

    /// The newest set of links from a revision to a repository.
    fn latest_repository_link_set(
        &mut self,
        revision_id: &MemoryRevisionId,
        repository: &RepositoryRef,
    ) -> (result: Result<Option<MemoryRepositoryLinkSet>, MemoryStoreError>)
        requires
            old(self).ready(),
        ensures
            final(self).ready(),
            final(self).calls() == old(self).calls().push(
                StoreCall::LatestLinkSet(
                    revision_id.deep_view(),
                    repository.deep_view(),
                    outcome(result),
                ),
            ),
    ;

    /// The newest set of links to a repository from another revision that was made the same way.
    fn latest_compatible_repository_link_set(
        &mut self,
        revision: &MemoryRevision,
        repository: &RepositoryRef,
    ) -> (result: Result<Option<MemoryRepositoryLinkSet>, MemoryStoreError>)
        requires
            old(self).ready(),
        ensures
            final(self).ready(),
            final(self).calls() == old(self).calls().push(
                StoreCall::CompatibleLinkSet(
                    revision.deep_view(),
                    repository.deep_view(),
                    outcome(result),
                ),
            ),
    ;

    /// The links of a set.
    fn repository_links(&mut self, id: &MemoryRepositoryLinkSetId) -> (result: Result<
        Vec<MemoryRelationship>,
        MemoryStoreError,
    >)
        requires
            old(self).ready(),
        ensures
            final(self).ready(),
            final(self).calls() == old(self).calls().push(
                StoreCall::Links(id.deep_view(), outcome(result)),
            ),
    ;
}

/// What a store that nobody else changes holds after a call, where its answer is the one it owed.
pub open spec fn after_call(state: StoreState, call: StoreCall) -> StoreState {
    match call {
        StoreCall::Start(build, Ok(_)) => started(state, build)->Ok_0,
        StoreCall::Fail(id, _, Ok(_)) => transitioned(state, id, BuildTransition::Fail)->Ok_0,
        StoreCall::Complete(commit, Ok(_)) => completed(state, commit)->Ok_0,
        StoreCall::Publish(request, Ok(_)) => published(state, request)->Ok_0,
        StoreCall::Supersede(id, Ok(_)) => {
            transitioned(state, id, BuildTransition::Supersede)->Ok_0
        },
        _ => state,
    }
}

/// Whether the answer to a call is the one that a store owed.
pub open spec fn is_owed(state: StoreState, call: StoreCall) -> bool {
    match call {
        StoreCall::Start(build, result) => is_answer(started(state, build), result),
        StoreCall::Fail(id, _, result) => is_answer(
            transitioned(state, id, BuildTransition::Fail),
            result,
        ),
        StoreCall::Complete(commit, result) => is_answer(completed(state, commit), result),
        StoreCall::Publish(request, result) => match result {
            Ok(outcome) => published(state, request) is Ok && outcome
                == (MemoryPublicationOutcomeView::Published {
                view: shown(publication_in(state, request)->Ok_0),
            }),
            Err(error) => published(state, request) == Err::<StoreState, MemoryStoreError>(error),
        },
        StoreCall::Supersede(id, result) => is_answer(
            transitioned(state, id, BuildTransition::Supersede),
            result,
        ),
        StoreCall::Build(id, result) => {
            result == Ok::<_, MemoryStoreError>(found(state.builds, id))
        },
        StoreCall::Revision(id, result) => result == Ok::<_, MemoryStoreError>(
            found(state.revisions, id),
        ),
        StoreCall::View(project, name, result) => result == Ok::<_, MemoryStoreError>(
            view_of(state.views, project, name),
        ),
        StoreCall::Fragment(key, result) => result == Ok::<_, MemoryStoreError>(
            found(state.fragments, MemoryFragmentCacheKey::json(key)),
        ),
        StoreCall::Diagnostics(id, result) => result == Ok::<_, MemoryStoreError>(
            listed(state.diagnostics, id),
        ),
        StoreCall::LinkSet(id, result) => result == Ok::<_, MemoryStoreError>(
            match links_of(state.links, id) {
                Some(commit) => Some(commit.link_set),
                None => None,
            },
        ),
        StoreCall::LatestLinkSet(revision_id, repository, result) => result == Ok::<
            _,
            MemoryStoreError,
        >(latest_links(state.links, revision_id, repository)),
        StoreCall::CompatibleLinkSet(revision, repository, result) => result == Ok::<
            _,
            MemoryStoreError,
        >(compatible_links(state.links, state.revisions, revision, repository)),
        StoreCall::Links(id, result) => result == Ok::<_, MemoryStoreError>(
            links_in_set(state.links, id),
        ),
    }
}

/// Whether a change came out as it was owed.
pub open spec fn is_answer(
    owed: Result<StoreState, MemoryStoreError>,
    result: Result<(), MemoryStoreError>,
) -> bool {
    match result {
        Ok(_) => owed is Ok,
        Err(error) => owed == Err::<StoreState, MemoryStoreError>(error),
    }
}

/// What a store that nobody else changes holds after some calls.
pub open spec fn after_calls(state: StoreState, calls: Seq<StoreCall>) -> StoreState
    decreases calls.len(),
{
    if calls.len() == 0 {
        state
    } else {
        after_call(after_calls(state, calls.drop_last()), calls.last())
    }
}

/// Whether all answers of a store that nobody else changes are the ones that it owed.
pub open spec fn are_owed(state: StoreState, calls: Seq<StoreCall>) -> bool
    decreases calls.len(),
{
    calls.len() > 0 ==> are_owed(state, calls.drop_last()) && is_owed(
        after_calls(state, calls.drop_last()),
        calls.last(),
    )
}

/// A store that keeps all it holds at hand.
pub struct MemoryLedger {
    builds: OrderedMap<MemoryBuild>,
    revisions: OrderedMap<MemoryRevision>,
    entities: OrderedMap<Vec<MemoryEntity>>,
    relationships: OrderedMap<Vec<MemoryRelationship>>,
    views: Vec<PublishedMemoryRevision>,
    fragments: OrderedMap<MemoryFragment>,
    links: Vec<MemoryRepositoryLinkCommit>,
    diagnostics: OrderedMap<Vec<MemoryDiagnostic>>,
    diagnostic_builds: OrderedMap<String>,
    begun: Vec<String>,
    calls: Ghost<Seq<StoreCall>>,
}

fn entities_differ(entities: &Vec<MemoryEntity>) -> (apart: bool)
    ensures
        apart == entities_are_apart(entities.deep_view()),
{
    let ghost models = entities.deep_view();
    let mut seen: OrderedMap<bool> = OrderedMap::new();
    let mut at: usize = 0;
    while at < entities.len()
        invariant
            at <= entities.len(),
            models == entities.deep_view(),
            seen.well_formed(),
            entities_are_apart(models.take(at as int)),
            forall|i: int| 0 <= i < at ==> seen.deep_view().contains_key((#[trigger] models[i]).id),
            forall|id: Seq<char>| #[trigger]
                seen.deep_view().contains_key(id) ==> exists|i: int| 0 <= i < at && models[i].id == id,
        decreases entities.len() - at,
    {
        assert(models[at as int] == entities@[at as int].deep_view());
        let ghost before = seen.deep_view();
        if seen.insert(entities[at].id.as_str().to_owned(), true).is_some() {
            assert(before.contains_key(models[at as int].id));
            assert(!entities_are_apart(models));
            return false;
        }
        proof {
            let next = models.take(at + 1);
            assert forall|i: int, j: int| 0 <= i < j < next.len() implies (#[trigger] next[i]).id
                != (#[trigger] next[j]).id by {
                if j < at {
                    assert(models.take(at as int)[i] == next[i]);
                    assert(models.take(at as int)[j] == next[j]);
                } else {
                    assert(before.contains_key(models[i].id));
                }
            }
        }
        at += 1;
    }
    assert(models.take(at as int) =~= models);
    true
}

fn relationships_differ(relationships: &Vec<MemoryRelationship>) -> (apart: bool)
    ensures
        apart == relationships_are_apart(relationships.deep_view()),
{
    let ghost models = relationships.deep_view();
    let mut seen: OrderedMap<bool> = OrderedMap::new();
    let mut at: usize = 0;
    while at < relationships.len()
        invariant
            at <= relationships.len(),
            models == relationships.deep_view(),
            seen.well_formed(),
            relationships_are_apart(models.take(at as int)),
            forall|i: int| 0 <= i < at ==> seen.deep_view().contains_key((#[trigger] models[i]).id),
            forall|id: Seq<char>| #[trigger]
                seen.deep_view().contains_key(id) ==> exists|i: int| 0 <= i < at && models[i].id == id,
        decreases relationships.len() - at,
    {
        assert(models[at as int] == relationships@[at as int].deep_view());
        let ghost before = seen.deep_view();
        if seen.insert(relationships[at].id.as_str().to_owned(), true).is_some() {
            assert(before.contains_key(models[at as int].id));
            assert(!relationships_are_apart(models));
            return false;
        }
        proof {
            let next = models.take(at + 1);
            assert forall|i: int, j: int| 0 <= i < j < next.len() implies (#[trigger] next[i]).id
                != (#[trigger] next[j]).id by {
                if j < at {
                    assert(models.take(at as int)[i] == next[i]);
                    assert(models.take(at as int)[j] == next[j]);
                } else {
                    assert(before.contains_key(models[i].id));
                }
            }
        }
        at += 1;
    }
    assert(models.take(at as int) =~= models);
    true
}

pub(crate) fn find_links<'a>(
    links: &'a Vec<MemoryRepositoryLinkCommit>,
    id: &MemoryRepositoryLinkSetId,
) -> (commit: Option<&'a MemoryRepositoryLinkCommit>)
    ensures
        commit.deep_view() == links_of(links.deep_view(), id.deep_view()),
{
    let ghost models = links.deep_view();
    let mut at: usize = links.len();
    assert(models.take(at as int) =~= models);
    while at > 0
        invariant
            at <= links.len(),
            models == links.deep_view(),
            links_of(models, id.deep_view()) == links_of(models.take(at as int), id.deep_view()),
        decreases at,
    {
        at -= 1;
        assert(models[at as int] == links@[at as int].deep_view());
        assert(models.take(at + 1).last() == models[at as int]);
        assert(models.take(at + 1).drop_last() =~= models.take(at as int));
        if links[at].link_set.id.same(id) {
            return Some(&links[at]);
        }
    }
    None
}

/// Stores another set of links.
fn store_link_set(
    links: &mut Vec<MemoryRepositoryLinkCommit>,
    revision: &MemoryRevision,
    commit: &MemoryRepositoryLinkCommit,
) -> (result: Result<(), MemoryStoreError>)
    ensures
        match result {
            Ok(_) => with_link_set(old(links).deep_view(), revision.deep_view(), commit.deep_view()) == Ok::<
                _,
                MemoryStoreError,
            >(final(links).deep_view()),
            Err(error) => with_link_set(
                old(links).deep_view(),
                revision.deep_view(),
                commit.deep_view(),
            ) == Err::<Seq<MemoryRepositoryLinkCommitView>, _>(error),
        },
{
    let existing = match find_links(links, &commit.link_set.id) {
        Some(stored) => Some((&stored.link_set, &stored.relationships)),
        None => None,
    };
    match decide_links(revision, commit, existing) {
        Err(error) => Err(error),
        Ok(new) => {
            if new {
                if !relationships_differ(&commit.relationships) {
                    return Err(MemoryStoreError::Unavailable);
                }
                let stored = MemoryRepositoryLinkCommit {
                    link_set: commit.link_set.copied(),
                    relationships: sort(commit.relationships.copied()),
                    diagnostics: commit.diagnostics.copied(),
                };
                let ghost before = links.deep_view();
                links.push(stored);
                assert(links.deep_view() =~= before.push(stored.deep_view()));
            }
            Ok(())
        },
    }
}

/// Stores the sets of links of a commit.
fn store_links(
    links: &Vec<MemoryRepositoryLinkCommit>,
    revision: &MemoryRevision,
    commits: &Vec<MemoryRepositoryLinkCommit>,
) -> (result: Result<Vec<MemoryRepositoryLinkCommit>, MemoryStoreError>)
    ensures
        outcome(result) == with_links(
            links.deep_view(),
            revision.deep_view(),
            commits.deep_view(),
        ),
{
    let ghost models = commits.deep_view();
    let ghost start = links.deep_view();
    let mut stored = links.copied();
    let mut at: usize = 0;
    assert(models.take(0) =~= Seq::empty());
    while at < commits.len()
        invariant
            at <= commits.len(),
            models == commits.deep_view(),
            start == links.deep_view(),
            with_links(start, revision.deep_view(), models.take(at as int)) == Ok::<
                _,
                MemoryStoreError,
            >(stored.deep_view()),
        decreases commits.len() - at,
    {
        assert(models[at as int] == commits@[at as int].deep_view());
        assert(models.take(at + 1).last() == models[at as int]);
        assert(models.take(at + 1).drop_last() =~= models.take(at as int));
        match store_link_set(&mut stored, revision, &commits[at]) {
            Ok(_) => {},
            Err(error) => {
                proof {
                    later_links_fail(start, revision.deep_view(), models, at + 1);
                }
                return Err(error);
            },
        }
        at += 1;
    }
    assert(models.take(at as int) =~= models);
    Ok(stored)
}

/// Where one set of links is refused, all are.
proof fn later_links_fail(
    links: Seq<MemoryRepositoryLinkCommitView>,
    revision: MemoryRevisionView,
    commits: Seq<MemoryRepositoryLinkCommitView>,
    at: int,
)
    requires
        0 <= at <= commits.len(),
        with_links(links, revision, commits.take(at)) is Err,
    ensures
        with_links(links, revision, commits) == with_links(links, revision, commits.take(at)),
    decreases commits.len(),
{
    if at == commits.len() {
        assert(commits.take(at) =~= commits);
    } else {
        assert(commits.drop_last().take(at) =~= commits.take(at));
        later_links_fail(links, revision, commits.drop_last(), at);
    }
}

impl MemoryLedger {
    /// What the store holds.
    pub closed spec fn state(&self) -> StoreState {
        StoreState {
            builds: self.builds.deep_view(),
            revisions: self.revisions.deep_view(),
            entities: self.entities.deep_view(),
            relationships: self.relationships.deep_view(),
            views: self.views.deep_view(),
            fragments: self.fragments.deep_view(),
            links: self.links.deep_view(),
            diagnostics: self.diagnostics.deep_view(),
            diagnostic_builds: self.diagnostic_builds.deep_view(),
            begun: self.begun.deep_view(),
        }
    }

    /// The store that holds nothing.
    pub fn new() -> (ledger: Self)
        ensures
            ledger.ready(),
            ledger.state() == nothing_stored(),
            ledger.calls() == Seq::<StoreCall>::empty(),
    {
        proof {
            nothing_is_sound();
        }
        let ledger = MemoryLedger {
            builds: OrderedMap::new(),
            revisions: OrderedMap::new(),
            entities: OrderedMap::new(),
            relationships: OrderedMap::new(),
            views: Vec::new(),
            fragments: OrderedMap::new(),
            links: Vec::new(),
            diagnostics: OrderedMap::new(),
            diagnostic_builds: OrderedMap::new(),
            begun: Vec::new(),
            calls: Ghost(Seq::empty()),
        };
        assert(ledger.state() =~= nothing_stored());
        ledger
    }

    /// The entities of a revision.
    pub fn entities_for_revision(
        &self,
        revision_id: &MemoryRevisionId,
    ) -> (entities: Vec<MemoryEntity>)
        requires
            self.ready(),
        ensures
            entities.deep_view() == listed(
                self.state().entities,
                revision_id.deep_view(),
            ),
    {
        match self.entities.get(revision_id.as_str()) {
            Some(entities) => entities.copied(),
            None => {
                let entities: Vec<MemoryEntity> = Vec::new();
                assert(entities.deep_view() =~= Seq::empty());
                entities
            },
        }
    }

    /// The relationships of a revision.
    pub fn relationships_for_revision(&self, revision_id: &MemoryRevisionId) -> (relationships: Vec<
        MemoryRelationship,
    >)
        requires
            self.ready(),
        ensures
            relationships.deep_view() == listed(
                self.state().relationships,
                revision_id.deep_view(),
            ),
    {
        match self.relationships.get(revision_id.as_str()) {
            Some(relationships) => relationships.copied(),
            None => {
                let relationships: Vec<MemoryRelationship> = Vec::new();
                assert(relationships.deep_view() =~= Seq::empty());
                relationships
            },
        }
    }

    /// What the build that stands for a revision had to say.
    pub fn diagnostics_for_revision(&self, revision_id: &MemoryRevisionId) -> (diagnostics: Vec<
        MemoryDiagnostic,
    >)
        requires
            self.ready(),
        ensures
            diagnostics.deep_view() == match found(
                self.state().diagnostic_builds,
                revision_id.deep_view(),
            ) {
                Some(build_id) => listed(self.state().diagnostics, build_id),
                None => Seq::empty(),
            },
    {
        if let Some(build_id) = self.diagnostic_builds.get(revision_id.as_str()) {
            if let Some(diagnostics) = self.diagnostics.get(build_id.as_str()) {
                return diagnostics.copied();
            }
        }
        let diagnostics: Vec<MemoryDiagnostic> = Vec::new();
        assert(diagnostics.deep_view() =~= Seq::empty());
        diagnostics
    }

    /// What there is to say of a set of links.
    pub fn repository_link_diagnostics(
        &self,
        id: &MemoryRepositoryLinkSetId,
    ) -> (diagnostics: Vec<MemoryDiagnostic>)
        requires
            self.ready(),
        ensures
            diagnostics.deep_view() == link_diagnostics_in_set(self.state().links, id.deep_view()),
    {
        match find_links(&self.links, id) {
            Some(commit) => commit.diagnostics.copied(),
            None => {
                let diagnostics: Vec<MemoryDiagnostic> = Vec::new();
                assert(diagnostics.deep_view() =~= Seq::empty());
                diagnostics
            },
        }
    }

    fn place_of(&self, project: &ProjectRef, view_name: &MemoryViewName) -> (at: usize)
        ensures
            at <= self.views.len(),
            forall|i: int|
                0 <= i < at ==> !shows(
                    #[trigger] self.views.deep_view()[i],
                    project.deep_view(),
                    view_name.deep_view(),
                ),
            at < self.views.len() ==> shows(
                self.views.deep_view()[at as int],
                project.deep_view(),
                view_name.deep_view(),
            ),
    {
        let mut at: usize = 0;
        while at < self.views.len()
            invariant
                at <= self.views.len(),
                forall|i: int|
                    0 <= i < at ==> !shows(
                        #[trigger] self.views.deep_view()[i],
                        project.deep_view(),
                        view_name.deep_view(),
                    ),
            decreases self.views.len() - at,
        {
            assert(self.views.deep_view()[at as int] == self.views@[at as int].deep_view());
            if self.views[at].project.same(project) && self.views[at].view_name.same(view_name) {
                return at;
            }
            at += 1;
        }
        at
    }

    fn set_state(&mut self, build_id: &MemoryBuildId, next: MemoryBuildState)
        requires
            old(self).parts_ready(),
            old(self).state().builds.contains_key(build_id.deep_view()),
        ensures
            final(self).parts_ready(),
            final(self).calls@ == old(self).calls@,
            final(self).state() == with_state(old(self).state(), build_id.deep_view(), next),
    {
        let ghost before = self.state();
        if let Some(build) = self.builds.get(build_id.as_str()) {
            let moved = MemoryBuild {
                id: build.id.copied(),
                project: build.project.copied(),
                prospective_revision_id: build.prospective_revision_id.copied(),
                state: next,
            };
            self.builds.insert(build_id.as_str().to_owned(), moved);
        }
        assert(self.state() =~= with_state(before, build_id.deep_view(), next));
    }

    fn transition(
        &mut self,
        build_id: &MemoryBuildId,
        transition: BuildTransition,
    ) -> (result: Result<(), MemoryStoreError>)
        requires
            old(self).parts_ready(),
        ensures
            final(self).parts_ready(),
            final(self).calls@ == old(self).calls@,
            settled(
                old(self).state(),
                final(self).state(),
                transitioned(old(self).state(), build_id.deep_view(), transition),
                result,
            ),
    {
        let next = match self.builds.get(build_id.as_str()) {
            Some(build) => move_build(build.state, transition),
            None => Err(MemoryStoreError::InvalidTransition),
        };
        match next {
            Ok(next) => {
                self.set_state(build_id, next);
                Ok(())
            },
            Err(error) => Err(error),
        }
    }

    fn keep_fragments(&mut self, writes: &Vec<CachedMemoryFragment>)
        requires
            old(self).parts_ready(),
        ensures
            final(self).parts_ready(),
            final(self).calls@ == old(self).calls@,
            final(self).state() == (StoreState {
                fragments: with_fragments(old(self).state().fragments, writes.deep_view()),
                ..old(self).state()
            }),
    {
        let ghost models = writes.deep_view();
        let ghost before = self.state();
        let mut at: usize = 0;
        assert(models.take(0) =~= Seq::empty());
        while at < writes.len()
            invariant
                at <= writes.len(),
                models == writes.deep_view(),
                self.parts_ready(),
                self.calls@ == old(self).calls@,
                self.state() == (StoreState {
                    fragments: with_fragments(before.fragments, models.take(at as int)),
                    ..before
                }),
            decreases writes.len() - at,
        {
            assert(models[at as int] == writes@[at as int].deep_view());
            assert(models.take(at + 1).last() == models[at as int]);
            assert(models.take(at + 1).drop_last() =~= models.take(at as int));
            self.fragments.insert(writes[at].key.to_json(), writes[at].fragment.copied());
            assert(self.state() =~= (StoreState {
                fragments: with_fragments(before.fragments, models.take(at + 1)),
                ..before
            }));
            at += 1;
        }
        assert(models.take(at as int) =~= models);
    }
}

impl MemoryLedger {
    /// Remembers a call.
    fn note(&mut self, call: Ghost<StoreCall>)
        requires
            old(self).parts_ready(),
            old(self).state() == after_call(after_calls(nothing_stored(), old(self).calls@), call@),
            is_sound(after_calls(nothing_stored(), old(self).calls@)),
            are_owed(nothing_stored(), old(self).calls@),
            is_owed(after_calls(nothing_stored(), old(self).calls@), call@),
        ensures
            final(self).ready(),
            final(self).state() == old(self).state(),
            final(self).calls@ == old(self).calls@.push(call@),
    {
        let ghost before = self.calls@;
        self.calls = Ghost(self.calls@.push(call@));
        assert(self.calls@.drop_last() =~= before);
        proof {
            calls_keep_soundness(after_calls(nothing_stored(), before), call@);
        }
    }

    /// What the store holds is what its calls made of it, and it hangs together.
    pub proof fn holds_together(&self)
        requires
            self.ready(),
        ensures
            is_sound(self.state()),
            are_owed(nothing_stored(), self.calls()),
            self.state() == after_calls(nothing_stored(), self.calls()),
    {
    }

    spec fn parts_ready(&self) -> bool {
        &&& self.builds.well_formed()
        &&& self.revisions.well_formed()
        &&& self.entities.well_formed()
        &&& self.relationships.well_formed()
        &&& self.fragments.well_formed()
        &&& self.diagnostics.well_formed()
        &&& self.diagnostic_builds.well_formed()
    }

    fn begin(&mut self, build: &MemoryBuild) -> (result: Result<(), MemoryStoreError>)
        requires
            old(self).parts_ready(),
        ensures
            final(self).parts_ready(),
            final(self).calls@ == old(self).calls@,
            settled(old(self).state(), final(self).state(), started(old(self).state(), build.deep_view()), result),
    {
        match check_start(build) {
            Ok(()) => {},
            Err(error) => {
                return Err(error);
            },
        }
        if self.builds.contains(build.id.as_str()) {
            return Err(MemoryStoreError::Unavailable);
        }
        let ghost before = self.state();
        self.builds.insert(build.id.as_str().to_owned(), build.copied());
        self.begun.push(build.id.as_str().to_owned());
        assert(self.begun.deep_view() =~= before.begun.push(build.deep_view().id));
        assert(self.state() =~= started(before, build.deep_view())->Ok_0);
        Ok(())
    }

    fn complete(&mut self, commit: &MemoryCommit) -> (result: Result<(), MemoryStoreError>)
        requires
            old(self).parts_ready(),
        ensures
            final(self).parts_ready(),
            final(self).calls@ == old(self).calls@,
            settled(old(self).state(), final(self).state(), completed(old(self).state(), commit.deep_view()), result),
    {
        let ghost before = self.state();
        let id = &commit.revision.id;
        let build_id = &commit.revision.completed_by;
        let build = self.builds.get(build_id.as_str());
        let existing = self.revisions.get(id.as_str());
        assert(build.deep_view() == found(before.builds, build_id.deep_view()));
        assert(existing.deep_view() == found(before.revisions, id.deep_view()));
        let new = match decide_completion(build, existing, commit) {
            Ok(new) => new,
            Err(error) => {
                return Err(error);
            },
        };
        if new && !(entities_differ(&commit.entities) && relationships_differ(&commit.relationships)) {
            return Err(MemoryStoreError::Unavailable);
        }
        let links = match store_links(&self.links, &commit.revision, &commit.repository_links) {
            Ok(links) => links,
            Err(error) => {
                return Err(error);
            },
        };
        self.set_state(build_id, MemoryBuildState::Complete);
        if new {
            self.revisions.insert(id.as_str().to_owned(), commit.revision.copied());
            self.entities.insert(id.as_str().to_owned(), commit.entities.copied());
            self.relationships.insert(id.as_str().to_owned(), commit.relationships.copied());
        }
        self.links = links;
        self.diagnostics.insert(build_id.as_str().to_owned(), commit.diagnostics.copied());
        self.diagnostic_builds.insert(id.as_str().to_owned(), build_id.as_str().to_owned());
        self.keep_fragments(&commit.cache_writes);
        assert(self.state() =~= completed(before, commit.deep_view())->Ok_0);
        Ok(())
    }

    fn put(&mut self, request: &MemoryPublishRequest) -> (result: Result<
        MemoryPublicationOutcome,
        MemoryStoreError,
    >)
        requires
            old(self).parts_ready(),
        ensures
            final(self).parts_ready(),
            final(self).calls@ == old(self).calls@,
            settled(
                old(self).state(),
                final(self).state(),
                published(old(self).state(), request.deep_view()),
                match result {
                    Ok(_) => Ok(()),
                    Err(error) => Err(error),
                },
            ),
            result matches Ok(outcome) ==> outcome.deep_view()
                == (MemoryPublicationOutcomeView::Published {
                view: shown(publication_in(old(self).state(), request.deep_view())->Ok_0),
            }),
    {
        let ghost before = self.state();
        let build = self.builds.get(request.build_id.as_str());
        let revision = match build {
            Some(build) => self.revisions.get(build.prospective_revision_id.as_str()),
            None => None,
        };
        let place = self.place_of(&request.project, &request.view_name);
        let current = if place < self.views.len() {
            Some(&self.views[place])
        } else {
            None
        };
        proof {
            let wanted = PublishedMemoryRevisionView {
                project: request.project.deep_view(),
                view_name: request.view_name.deep_view(),
                revision_id: Seq::empty(),
                build_id: Seq::empty(),
                generation: 0,
            };
            view_stands(self.views.deep_view(), place as int, wanted);
            assert(build.deep_view() == found(before.builds, request.build_id.deep_view()));
            assert(current.deep_view() == view_of(
                before.views,
                request.project.deep_view(),
                request.view_name.deep_view(),
            ));
        }
        match decide_publication(request, build, revision, current) {
            Err(error) => Err(error),
            Ok(Publication::Kept { view }) => {
                self.set_state(&request.build_id, MemoryBuildState::Superseded);
                Ok(MemoryPublicationOutcome::Published { view })
            },
            Ok(Publication::Replaced { view }) => {
                proof {
                    view_stands(self.views.deep_view(), place as int, view.deep_view());
                }
                if place < self.views.len() {
                    let replaced = self.views[place].build_id.copied();
                    let superseded = match self.builds.get(replaced.as_str()) {
                        Some(build) => build.state == MemoryBuildState::Published,
                        None => false,
                    };
                    if superseded {
                        self.set_state(&replaced, MemoryBuildState::Superseded);
                    }
                    self.views.set(place, view.copied());
                } else {
                    self.views.push(view.copied());
                }
                assert(self.views.deep_view() =~= with_view(before.views, view.deep_view()));
                self.set_state(&request.build_id, MemoryBuildState::Published);
                assert(self.state() =~= published(before, request.deep_view())->Ok_0);
                Ok(MemoryPublicationOutcome::Published { view })
            },
        }
    }

    fn find_build(&self, build_id: &MemoryBuildId) -> (given: Option<MemoryBuild>)
        requires
            self.parts_ready(),
        ensures
            given.deep_view() == found(self.state().builds, build_id.deep_view()),
    {
        match self.builds.get(build_id.as_str()) {
            Some(build) => Some(build.copied()),
            None => None,
        }
    }

    fn find_revision(&self, revision_id: &MemoryRevisionId) -> (given: Option<MemoryRevision>)
        requires
            self.parts_ready(),
        ensures
            given.deep_view() == found(self.state().revisions, revision_id.deep_view()),
    {
        match self.revisions.get(revision_id.as_str()) {
            Some(revision) => Some(revision.copied()),
            None => None,
        }
    }

    fn find_view(
        &self,
        project: &ProjectRef,
        view_name: &MemoryViewName,
    ) -> (given: Option<PublishedMemoryRevision>)
        requires
            self.parts_ready(),
        ensures
            given.deep_view() == view_of(self.state().views, project.deep_view(), view_name.deep_view()),
    {
        let place = self.place_of(project, view_name);
        proof {
            view_stands(
                self.views.deep_view(),
                place as int,
                PublishedMemoryRevisionView {
                    project: project.deep_view(),
                    view_name: view_name.deep_view(),
                    revision_id: Seq::empty(),
                    build_id: Seq::empty(),
                    generation: 0,
                },
            );
        }
        if place < self.views.len() {
            Some(self.views[place].copied())
        } else {
            None
        }
    }

    fn find_fragment(&self, key: &MemoryFragmentCacheKey) -> (given: Option<MemoryFragment>)
        requires
            self.parts_ready(),
        ensures
            given.deep_view() == found(self.state().fragments, MemoryFragmentCacheKey::json(key.deep_view())),
    {
        match self.fragments.get(key.to_json().as_str()) {
            Some(fragment) => Some(fragment.copied()),
            None => None,
        }
    }

    fn find_diagnostics(&self, build_id: &MemoryBuildId) -> (given: Vec<MemoryDiagnostic>)
        requires
            self.parts_ready(),
        ensures
            given.deep_view() == listed(self.state().diagnostics, build_id.deep_view()),
    {
        match self.diagnostics.get(build_id.as_str()) {
            Some(diagnostics) => diagnostics.copied(),
            None => {
                let diagnostics: Vec<MemoryDiagnostic> = Vec::new();
                assert(diagnostics.deep_view() =~= Seq::empty());
                diagnostics
            },
        }
    }

    fn find_link_set(
        &self,
        id: &MemoryRepositoryLinkSetId,
    ) -> (given: Option<MemoryRepositoryLinkSet>)
        requires
            self.parts_ready(),
        ensures
            given.deep_view() == match links_of(self.state().links, id.deep_view()) {
                Some(commit) => Some(commit.link_set),
                None => None,
            },
    {
        match find_links(&self.links, id) {
            Some(commit) => Some(commit.link_set.copied()),
            None => None,
        }
    }

    fn find_latest(
        &self,
        revision_id: &MemoryRevisionId,
        repository: &RepositoryRef,
    ) -> (given: Option<MemoryRepositoryLinkSet>)
        requires
            self.parts_ready(),
        ensures
            given.deep_view() == latest_links(self.state().links, revision_id.deep_view(), repository.deep_view()),
    {
        let ghost models = self.links.deep_view();
        let mut at: usize = self.links.len();
        assert(models.take(at as int) =~= models);
        while at > 0
            invariant
                at <= self.links.len(),
                models == self.links.deep_view(),
                latest_links(models, revision_id.deep_view(), repository.deep_view()) == latest_links(
                    models.take(at as int),
                    revision_id.deep_view(),
                    repository.deep_view(),
                ),
            decreases at,
        {
            at -= 1;
            assert(models[at as int] == self.links@[at as int].deep_view());
            assert(models.take(at + 1).last() == models[at as int]);
            assert(models.take(at + 1).drop_last() =~= models.take(at as int));
            if self.links[at].link_set.memory_revision_id.same(revision_id)
                && self.links[at].link_set.repository.same(repository) {
                return Some(self.links[at].link_set.copied());
            }
        }
        None
    }

    fn find_compatible(
        &self,
        revision: &MemoryRevision,
        repository: &RepositoryRef,
    ) -> (given: Option<MemoryRepositoryLinkSet>)
        requires
            self.parts_ready(),
        ensures
            given.deep_view() == compatible_links(
                self.state().links,
                self.state().revisions,
                revision.deep_view(),
                repository.deep_view(),
            ),
    {
        let ghost models = self.links.deep_view();
        let ghost revisions = self.revisions.deep_view();
        let mut at: usize = self.links.len();
        assert(models.take(at as int) =~= models);
        while at > 0
            invariant
                at <= self.links.len(),
                self.revisions.well_formed(),
                models == self.links.deep_view(),
                revisions == self.revisions.deep_view(),
                compatible_links(models, revisions, revision.deep_view(), repository.deep_view())
                    == compatible_links(
                    models.take(at as int),
                    revisions,
                    revision.deep_view(),
                    repository.deep_view(),
                ),
            decreases at,
        {
            at -= 1;
            assert(models[at as int] == self.links@[at as int].deep_view());
            assert(models.take(at + 1).last() == models[at as int]);
            assert(models.take(at + 1).drop_last() =~= models.take(at as int));
            let set = &self.links[at].link_set;
            if set.repository.same(repository) {
                if let Some(other) = self.revisions.get(set.memory_revision_id.as_str()) {
                    if !other.id.same(&revision.id) && other.project.same(&revision.project)
                        && other.policy_digest.same(&revision.policy_digest)
                        && other.memory_model_version == revision.memory_model_version
                        && other.extractor_set_digest.same(&revision.extractor_set_digest) {
                        return Some(set.copied());
                    }
                }
            }
        }
        None
    }

    fn find_set_links(&self, id: &MemoryRepositoryLinkSetId) -> (given: Vec<MemoryRelationship>)
        requires
            self.parts_ready(),
        ensures
            given.deep_view() == links_in_set(self.state().links, id.deep_view()),
    {
        match find_links(&self.links, id) {
            Some(commit) => commit.relationships.copied(),
            None => {
                let links: Vec<MemoryRelationship> = Vec::new();
                assert(links.deep_view() =~= Seq::empty());
                links
            },
        }
    }
}

impl MemoryStore for MemoryLedger {
    closed spec fn ready(&self) -> bool {
        &&& self.parts_ready()
        &&& self.state() == after_calls(nothing_stored(), self.calls@)
        &&& are_owed(nothing_stored(), self.calls@)
        &&& is_sound(self.state())
    }

    closed spec fn calls(&self) -> Seq<StoreCall> {
        self.calls@
    }

    fn start_build(&mut self, build: &MemoryBuild) -> (result: Result<(), MemoryStoreError>)
        ensures
            is_owed(old(self).state(), StoreCall::Start(build.deep_view(), result)),
            final(self).state() == after_call(
                old(self).state(),
                StoreCall::Start(build.deep_view(), result),
            ),
    {
        let result = self.begin(build);
        self.note(Ghost(StoreCall::Start(build.deep_view(), result)));
        result
    }

    fn fail_build(
        &mut self,
        build_id: &MemoryBuildId,
        failure: &MemoryBuildFailure,
    ) -> (result: Result<(), MemoryStoreError>)
        ensures
            is_owed(
                old(self).state(),
                StoreCall::Fail(build_id.deep_view(), failure.code.deep_view(), result),
            ),
            final(self).state() == after_call(
                old(self).state(),
                StoreCall::Fail(build_id.deep_view(), failure.code.deep_view(), result),
            ),
    {
        let result = self.transition(build_id, BuildTransition::Fail);
        self.note(Ghost(StoreCall::Fail(build_id.deep_view(), failure.code.deep_view(), result)));
        result
    }

    fn complete_build(&mut self, commit: &MemoryCommit) -> (result: Result<(), MemoryStoreError>)
        ensures
            is_owed(old(self).state(), StoreCall::Complete(commit.deep_view(), result)),
            final(self).state() == after_call(
                old(self).state(),
                StoreCall::Complete(commit.deep_view(), result),
            ),
    {
        let result = self.complete(commit);
        self.note(Ghost(StoreCall::Complete(commit.deep_view(), result)));
        result
    }

    fn publish(&mut self, request: &MemoryPublishRequest) -> (result: Result<
        MemoryPublicationOutcome,
        MemoryStoreError,
    >)
        ensures
            is_owed(old(self).state(), StoreCall::Publish(request.deep_view(), outcome(result))),
            final(self).state() == after_call(
                old(self).state(),
                StoreCall::Publish(request.deep_view(), outcome(result)),
            ),
    {
        let result = self.put(request);
        self.note(Ghost(StoreCall::Publish(request.deep_view(), outcome(result))));
        result
    }

    fn supersede_build(
        &mut self,
        build_id: &MemoryBuildId,
    ) -> (result: Result<(), MemoryStoreError>)
        ensures
            is_owed(old(self).state(), StoreCall::Supersede(build_id.deep_view(), result)),
            final(self).state() == after_call(
                old(self).state(),
                StoreCall::Supersede(build_id.deep_view(), result),
            ),
    {
        let result = self.transition(build_id, BuildTransition::Supersede);
        self.note(Ghost(StoreCall::Supersede(build_id.deep_view(), result)));
        result
    }

    fn build(
        &mut self,
        build_id: &MemoryBuildId,
    ) -> (result: Result<Option<MemoryBuild>, MemoryStoreError>)
        ensures
            is_owed(old(self).state(), StoreCall::Build(build_id.deep_view(), outcome(result))),
            final(self).state() == after_call(
                old(self).state(),
                StoreCall::Build(build_id.deep_view(), outcome(result)),
            ),
    {
        let result = Ok(self.find_build(build_id));
        self.note(Ghost(StoreCall::Build(build_id.deep_view(), outcome(result))));
        result
    }

    fn revision(&mut self, revision_id: &MemoryRevisionId) -> (result: Result<
        Option<MemoryRevision>,
        MemoryStoreError,
    >)
        ensures
            is_owed(
                old(self).state(),
                StoreCall::Revision(revision_id.deep_view(), outcome(result)),
            ),
            final(self).state() == after_call(
                old(self).state(),
                StoreCall::Revision(revision_id.deep_view(), outcome(result)),
            ),
    {
        let result = Ok(self.find_revision(revision_id));
        self.note(Ghost(StoreCall::Revision(revision_id.deep_view(), outcome(result))));
        result
    }

    fn published_view(
        &mut self,
        project: &ProjectRef,
        view_name: &MemoryViewName,
    ) -> (result: Result<Option<PublishedMemoryRevision>, MemoryStoreError>)
        ensures
            is_owed(
                old(self).state(),
                StoreCall::View(project.deep_view(), view_name.deep_view(), outcome(result)),
            ),
            final(self).state() == after_call(
                old(self).state(),
                StoreCall::View(project.deep_view(), view_name.deep_view(), outcome(result)),
            ),
    {
        let result = Ok(self.find_view(project, view_name));
        self.note(Ghost(StoreCall::View(project.deep_view(), view_name.deep_view(), outcome(result))));
        result
    }

    fn load_cached_fragment(&mut self, key: &MemoryFragmentCacheKey) -> (result: Result<
        Option<MemoryFragment>,
        MemoryStoreError,
    >)
        ensures
            is_owed(old(self).state(), StoreCall::Fragment(key.deep_view(), outcome(result))),
            final(self).state() == after_call(
                old(self).state(),
                StoreCall::Fragment(key.deep_view(), outcome(result)),
            ),
    {
        let result = Ok(self.find_fragment(key));
        self.note(Ghost(StoreCall::Fragment(key.deep_view(), outcome(result))));
        result
    }

    fn diagnostics_for_build(&mut self, build_id: &MemoryBuildId) -> (result: Result<
        Vec<MemoryDiagnostic>,
        MemoryStoreError,
    >)
        ensures
            is_owed(
                old(self).state(),
                StoreCall::Diagnostics(build_id.deep_view(), outcome(result)),
            ),
            final(self).state() == after_call(
                old(self).state(),
                StoreCall::Diagnostics(build_id.deep_view(), outcome(result)),
            ),
    {
        let result = Ok(self.find_diagnostics(build_id));
        self.note(Ghost(StoreCall::Diagnostics(build_id.deep_view(), outcome(result))));
        result
    }

    fn repository_link_set(&mut self, id: &MemoryRepositoryLinkSetId) -> (result: Result<
        Option<MemoryRepositoryLinkSet>,
        MemoryStoreError,
    >)
        ensures
            is_owed(old(self).state(), StoreCall::LinkSet(id.deep_view(), outcome(result))),
            final(self).state() == after_call(
                old(self).state(),
                StoreCall::LinkSet(id.deep_view(), outcome(result)),
            ),
    {
        let result = Ok(self.find_link_set(id));
        self.note(Ghost(StoreCall::LinkSet(id.deep_view(), outcome(result))));
        result
    }

    fn latest_repository_link_set(
        &mut self,
        revision_id: &MemoryRevisionId,
        repository: &RepositoryRef,
    ) -> (result: Result<Option<MemoryRepositoryLinkSet>, MemoryStoreError>)
        ensures
            is_owed(
                old(self).state(),
                StoreCall::LatestLinkSet(revision_id.deep_view(), repository.deep_view(), outcome(result)),
            ),
            final(self).state() == after_call(
                old(self).state(),
                StoreCall::LatestLinkSet(revision_id.deep_view(), repository.deep_view(), outcome(result)),
            ),
    {
        let result = Ok(self.find_latest(revision_id, repository));
        self.note(Ghost(StoreCall::LatestLinkSet(revision_id.deep_view(), repository.deep_view(), outcome(result))));
        result
    }

    fn latest_compatible_repository_link_set(
        &mut self,
        revision: &MemoryRevision,
        repository: &RepositoryRef,
    ) -> (result: Result<Option<MemoryRepositoryLinkSet>, MemoryStoreError>)
        ensures
            is_owed(
                old(self).state(),
                StoreCall::CompatibleLinkSet(
                    revision.deep_view(),
                    repository.deep_view(),
                    outcome(result),
                ),
            ),
            final(self).state() == old(self).state(),
    {
        let result = Ok(self.find_compatible(revision, repository));
        self.note(
            Ghost(
                StoreCall::CompatibleLinkSet(
                    revision.deep_view(),
                    repository.deep_view(),
                    outcome(result),
                ),
            ),
        );
        result
    }

    fn repository_links(&mut self, id: &MemoryRepositoryLinkSetId) -> (result: Result<
        Vec<MemoryRelationship>,
        MemoryStoreError,
    >)
        ensures
            is_owed(old(self).state(), StoreCall::Links(id.deep_view(), outcome(result))),
            final(self).state() == after_call(
                old(self).state(),
                StoreCall::Links(id.deep_view(), outcome(result)),
            ),
    {
        let result = Ok(self.find_set_links(id));
        self.note(Ghost(StoreCall::Links(id.deep_view(), outcome(result))));
        result
    }
}

/// Whether what a store holds hangs together: a complete or published build has its revision, a
/// revision has its own entities and relationships, a view shows a revision that is there and the one
/// build that published it, and no build is published in two views.
pub open spec fn is_sound(state: StoreState) -> bool {
    &&& forall|id: Seq<char>| #[trigger] state.builds.contains_key(id) ==> state.builds[id].id == id
    &&& forall|id: Seq<char>| #[trigger]
        state.builds.contains_key(id) && (state.builds[id].state == MemoryBuildState::Complete
            || state.builds[id].state == MemoryBuildState::Published) ==> state.revisions.contains_key(
            state.builds[id].prospective_revision_id,
        )
    &&& forall|id: Seq<char>| #[trigger]
        state.revisions.contains_key(id) ==> state.revisions[id].id == id
            && state.entities.contains_key(id) && state.relationships.contains_key(id)
            && entities_belong(state.entities[id], state.revisions[id]) && relationships_belong(
            state.relationships[id],
            state.revisions[id],
        )
    &&& forall|i: int|
        0 <= i < state.views.len() ==> #[trigger] is_backed(state, state.views[i])
    &&& forall|i: int, j: int|
        0 <= i < j < state.views.len() ==> !shows(
            #[trigger] state.views[j],
            (#[trigger] state.views[i]).project,
            state.views[i].view_name,
        ) && state.views[i].build_id != state.views[j].build_id
}

/// Whether a view shows a revision that is there, as the build that published it made it.
pub open spec fn is_backed(state: StoreState, view: PublishedMemoryRevisionView) -> bool {
    &&& state.builds.contains_key(view.build_id)
    &&& state.builds[view.build_id].state == MemoryBuildState::Published
    &&& state.builds[view.build_id].project == view.project
    &&& state.builds[view.build_id].prospective_revision_id == view.revision_id
    &&& state.revisions.contains_key(view.revision_id)
    &&& view.generation >= 1
}

/// A store that holds nothing hangs together.
pub proof fn nothing_is_sound()
    ensures
        is_sound(nothing_stored()),
{
}

/// Beginning a build keeps a store sound, and changes nothing that was there.
pub proof fn starting_keeps_soundness(state: StoreState, build: MemoryBuildView)
    requires
        is_sound(state),
    ensures
        started(state, build) matches Ok(next) ==> is_sound(next) && next.views == state.views
            && next.revisions == state.revisions,
{
    if let Ok(next) = started(state, build) {
        assert forall|i: int|
            0 <= i < next.views.len() implies #[trigger] is_backed(next, next.views[i]) by {
            assert(is_backed(state, state.views[i]));
        }
    }
}

/// A build that fails or is superseded leaves everything published as it was: a store stays sound.
pub proof fn moving_keeps_soundness(state: StoreState, id: Seq<char>, transition: BuildTransition)
    requires
        is_sound(state),
    ensures
        transitioned(state, id, transition) matches Ok(next) ==> is_sound(next) && next.views
            == state.views && next.revisions == state.revisions,
{
    if let Ok(next) = transitioned(state, id, transition) {
        assert forall|i: int|
            0 <= i < next.views.len() implies #[trigger] is_backed(next, next.views[i]) by {
            assert(is_backed(state, state.views[i]));
        }
    }
}

/// Completing a build publishes nothing, keeps every revision that was there as it was, with its
/// entities and relationships, and keeps a store sound.
pub proof fn completing_keeps_soundness(state: StoreState, commit: MemoryCommitView)
    requires
        is_sound(state),
    ensures
        completed(state, commit) matches Ok(next) ==> is_sound(next) && next.views == state.views
            && next.revisions.contains_key(commit.revision.id) && forall|id: Seq<char>| #[trigger]
            state.revisions.contains_key(id) ==> next.revisions.contains_key(id) && next.revisions[id]
                == state.revisions[id] && next.entities[id] == state.entities[id]
                && next.relationships[id] == state.relationships[id],
{
    if let Ok(next) = completed(state, commit) {
        assert forall|i: int|
            0 <= i < next.views.len() implies #[trigger] is_backed(next, next.views[i]) by {
            assert(is_backed(state, state.views[i]));
        }
    }
}

/// Publishing a build makes its view show the build's revision, leaves every other view as it was,
/// and keeps a store sound.
pub proof fn publishing_keeps_soundness(
    state: StoreState,
    request: MemoryPublishRequestView,
    project: ProjectRefView,
    name: Seq<char>,
)
    requires
        is_sound(state),
    ensures
        published(state, request) matches Ok(next) ==> is_sound(next) && next.revisions
            == state.revisions && view_of(next.views, project, name) == if project == request.project
            && name == request.view_name {
            Some(shown(publication_in(state, request)->Ok_0))
        } else {
            view_of(state.views, project, name)
        } && shown(publication_in(state, request)->Ok_0).revision_id
            == state.builds[request.build_id].prospective_revision_id,
{
    match publication_in(state, request) {
        Err(_) => {},
        Ok(PublicationView::Kept { view }) => {
            let next = published(state, request)->Ok_0;
            assert forall|i: int| 0 <= i < next.views.len() implies #[trigger] is_backed(
                next,
                next.views[i],
            ) by {
                assert(is_backed(state, state.views[i]));
            }
        },
        Ok(PublicationView::Replaced { view }) => {
            let next = published(state, request)->Ok_0;
            let at = view_place(state.views, request.project, request.view_name);
            view_stands(state.views, at, view);
            let build = state.builds[request.build_id];
            assert forall|i: int| 0 <= i < next.views.len() implies #[trigger] is_backed(
                next,
                next.views[i],
            ) by {
                if i != at {
                    assert(is_backed(state, state.views[i]));
                    if at < state.views.len() {
                        assert(state.views[i].build_id != state.views[at].build_id);
                    }
                } else {
                    assert(build.state == MemoryBuildState::Complete);
                }
            }
            assert forall|i: int, j: int| 0 <= i < j < next.views.len() implies !shows(
                #[trigger] next.views[j],
                (#[trigger] next.views[i]).project,
                next.views[i].view_name,
            ) && next.views[i].build_id != next.views[j].build_id by {
                if i != at {
                    assert(is_backed(state, state.views[i]));
                }
                if j != at {
                    assert(is_backed(state, state.views[j]));
                }
            }
            let other = PublishedMemoryRevisionView { project, view_name: name, ..view };
            let place = view_place(next.views, project, name);
            view_stands(next.views, place, other);
            let before = view_place(state.views, project, name);
            view_stands(state.views, before, other);
            if project == request.project && name == request.view_name {
                assert(before == at);
                assert(shows(next.views[at], project, name));
                assert(place == at) by {
                    if place > at {
                        assert(!shows(next.views[at], project, name));
                    } else if place < at {
                        assert(shows(state.views[place], project, name));
                    }
                }
            } else {
                if before < state.views.len() {
                    assert(shows(next.views[before], project, name));
                    if place < before {
                        assert(shows(next.views[place], project, name));
                        assert(!shows(state.views[place], project, name));
                    }
                } else if place < next.views.len() {
                    assert(shows(next.views[place], project, name));
                    if place < state.views.len() {
                        assert(!shows(state.views[place], project, name));
                    }
                }
            }
        },
    }
}

/// Whatever a store is asked, what it holds hangs together, its revisions stay as they are, and what
/// is published stays as it is unless a build is published.
pub proof fn calls_keep_soundness(state: StoreState, call: StoreCall)
    requires
        is_sound(state),
        is_owed(state, call),
    ensures
        is_sound(after_call(state, call)),
        !is_publication(call) ==> after_call(state, call).views == state.views,
        forall|id: Seq<char>| #[trigger]
            state.revisions.contains_key(id) ==> after_call(state, call).revisions.contains_key(id)
                && after_call(state, call).revisions[id] == state.revisions[id],
{
    match call {
        StoreCall::Start(build, _) => starting_keeps_soundness(state, build),
        StoreCall::Fail(id, _, _) => moving_keeps_soundness(state, id, BuildTransition::Fail),
        StoreCall::Complete(commit, _) => completing_keeps_soundness(state, commit),
        StoreCall::Publish(request, _) => publishing_keeps_soundness(
            state,
            request,
            request.project,
            request.view_name,
        ),
        StoreCall::Supersede(id, _) => {
            moving_keeps_soundness(state, id, BuildTransition::Supersede)
        },
        _ => {},
    }
}

/// Whether a call published a build.
pub open spec fn is_publication(call: StoreCall) -> bool {
    match call {
        StoreCall::Publish(_, Ok(_)) => true,
        _ => false,
    }
}

/// Only publishing changes what is published: whatever else a store was asked since, every view shows
/// what it showed.
pub proof fn only_publishing_changes_views(state: StoreState, calls: Seq<StoreCall>, since: int)
    requires
        is_sound(state),
        are_owed(state, calls),
        0 <= since <= calls.len(),
        forall|i: int| since <= i < calls.len() ==> !is_publication(#[trigger] calls[i]),
    ensures
        after_calls(state, calls).views == after_calls(state, calls.take(since)).views,
        is_sound(after_calls(state, calls)),
    decreases calls.len(),
{
    if calls.len() == 0 {
        assert(calls.take(since) =~= calls);
    } else if since == calls.len() {
        assert(calls.take(since) =~= calls);
        let before = calls.drop_last();
        only_publishing_changes_views(state, before, before.len() as int);
        calls_keep_soundness(after_calls(state, before), calls.last());
    } else {
        let before = calls.drop_last();
        assert(before.take(since) =~= calls.take(since));
        only_publishing_changes_views(state, before, since);
        calls_keep_soundness(after_calls(state, before), calls.last());
    }
}

/// The build of a project that began last.
pub open spec fn last_begun(
    begun: Seq<Seq<char>>,
    builds: Map<Seq<char>, MemoryBuildView>,
    project: ProjectRefView,
) -> Option<MemoryBuildView>
    decreases begun.len(),
{
    if begun.len() == 0 {
        None
    } else if builds.contains_key(begun.last()) && builds[begun.last()].project == project {
        Some(builds[begun.last()])
    } else {
        last_begun(begun.drop_last(), builds, project)
    }
}

/// How many records are as they should be.
pub open spec fn count_where<T>(records: Seq<T>, wanted: spec_fn(T) -> bool) -> nat
    decreases records.len(),
{
    if records.len() == 0 {
        0
    } else {
        count_where(records.drop_last(), wanted) + if wanted(records.last()) {
            1nat
        } else {
            0nat
        }
    }
}

proof fn count_is_bounded<T>(records: Seq<T>, wanted: spec_fn(T) -> bool)
    ensures
        count_where(records, wanted) <= records.len(),
    decreases records.len(),
{
    if records.len() > 0 {
        count_is_bounded(records.drop_last(), wanted);
    }
}

/// Whether a revision is shown in a view of its project.
pub open spec fn is_shown(
    views: Seq<PublishedMemoryRevisionView>,
    revision: MemoryRevisionView,
) -> bool {
    exists|i: int|
        0 <= i < views.len() && (#[trigger] views[i]).project == revision.project
            && views[i].revision_id == revision.id
}

/// Whether a build is over and not published.
pub open spec fn is_over(build: MemoryBuildView) -> bool {
    build.state == MemoryBuildState::Complete || build.state == MemoryBuildState::Failed
        || build.state == MemoryBuildState::Superseded
}

/// How much is kept of a project.
pub open spec fn retained(
    state: StoreState,
    project: ProjectRefView,
) -> MemoryRetentionStatisticsView {
    MemoryRetentionStatisticsView {
        revisions: count_where(
            values_in_order(state.revisions),
            |revision: MemoryRevisionView| revision.project == project,
        ) as u64,
        historical_revisions: count_where(
            values_in_order(state.revisions),
            |revision: MemoryRevisionView|
                revision.project == project && !is_shown(state.views, revision),
        ) as u64,
        builds: count_where(
            values_in_order(state.builds),
            |build: MemoryBuildView| build.project == project,
        ) as u64,
        terminal_unpublished_builds: count_where(
            values_in_order(state.builds),
            |build: MemoryBuildView| build.project == project && is_over(build),
        ) as u64,
        repository_link_sets: count_where(
            state.links,
            |commit: MemoryRepositoryLinkCommitView|
                state.revisions.contains_key(commit.link_set.memory_revision_id)
                    && state.revisions[commit.link_set.memory_revision_id].project == project,
        ) as u64,
    }
}

/// The links of a revision, those of the newest set first.
pub open spec fn links_newest_first(
    links: Seq<MemoryRepositoryLinkCommitView>,
    revision_id: Seq<char>,
) -> Seq<MemoryRelationshipView>
    decreases links.len(),
{
    if links.len() == 0 {
        Seq::empty()
    } else {
        let rest = links_newest_first(links.drop_last(), revision_id);
        if links.last().link_set.memory_revision_id == revision_id {
            links.last().relationships + rest
        } else {
            rest
        }
    }
}

impl MemoryLedger {
    /// The build of a project that began last.
    pub fn latest_build(&self, project: &ProjectRef) -> (build: Option<MemoryBuild>)
        requires
            self.ready(),
        ensures
            build.deep_view() == last_begun(
                self.state().begun,
                self.state().builds,
                project.deep_view(),
            ),
    {
        let ghost begun = self.begun.deep_view();
        let ghost builds = self.builds.deep_view();
        let mut at: usize = self.begun.len();
        assert(begun.take(at as int) =~= begun);
        while at > 0
            invariant
                at <= self.begun.len(),
                self.builds.well_formed(),
                begun == self.begun.deep_view(),
                builds == self.builds.deep_view(),
                last_begun(begun, builds, project.deep_view()) == last_begun(
                    begun.take(at as int),
                    builds,
                    project.deep_view(),
                ),
            decreases at,
        {
            at -= 1;
            assert(begun[at as int] == self.begun@[at as int].deep_view());
            assert(begun.take(at + 1).last() == begun[at as int]);
            assert(begun.take(at + 1).drop_last() =~= begun.take(at as int));
            if let Some(build) = self.builds.get(self.begun[at].as_str()) {
                if build.project.same(project) {
                    return Some(build.copied());
                }
            }
        }
        None
    }

    fn is_shown(&self, revision: &MemoryRevision) -> (shown: bool)
        ensures
            shown == is_shown(self.state().views, revision.deep_view()),
    {
        let ghost views = self.views.deep_view();
        let mut at: usize = 0;
        while at < self.views.len()
            invariant
                at <= self.views.len(),
                views == self.views.deep_view(),
                forall|i: int|
                    0 <= i < at ==> !((#[trigger] views[i]).project == revision.deep_view().project
                        && views[i].revision_id == revision.deep_view().id),
            decreases self.views.len() - at,
        {
            assert(views[at as int] == self.views@[at as int].deep_view());
            if self.views[at].project.same(&revision.project) && self.views[at].revision_id.same(
                &revision.id,
            ) {
                return true;
            }
            at += 1;
        }
        false
    }

    fn count_revisions(&self, project: &ProjectRef) -> (counts: (u64, u64))
        requires
            self.parts_ready(),
        ensures
            counts.0 == retained(self.state(), project.deep_view()).revisions,
            counts.1 == retained(self.state(), project.deep_view()).historical_revisions,
    {
        let revisions = self.revisions.values();
        let ghost models = revisions.deep_view();
        let ghost views = self.state().views;
        let ghost owned = |revision: MemoryRevisionView| revision.project == project.deep_view();
        let ghost past = |revision: MemoryRevisionView|
            revision.project == project.deep_view() && !is_shown(views, revision);
        let mut all: u64 = 0;
        let mut historical: u64 = 0;
        let mut at: usize = 0;
        while at < revisions.len()
            invariant
                at <= revisions.len(),
                models == revisions.deep_view(),
                views == self.state().views,
                owned == (|revision: MemoryRevisionView| revision.project == project.deep_view()),
                past == (|revision: MemoryRevisionView|
                    revision.project == project.deep_view() && !is_shown(views, revision)),
                all == count_where(models.take(at as int), owned),
                historical == count_where(models.take(at as int), past),
            decreases revisions.len() - at,
        {
            assert(models[at as int] == revisions@[at as int].deep_view());
            assert(models.take(at + 1).last() == models[at as int]);
            assert(models.take(at + 1).drop_last() =~= models.take(at as int));
            proof {
                count_is_bounded(models.take(at as int), owned);
                count_is_bounded(models.take(at as int), past);
            }
            if revisions[at].project.same(project) {
                all = all + 1;
                if !self.is_shown(&revisions[at]) {
                    historical = historical + 1;
                }
            }
            at += 1;
        }
        assert(models.take(at as int) =~= models);
        proof {
            count_is_bounded(models, owned);
            count_is_bounded(models, past);
        }
        (all, historical)
    }

    fn count_builds(&self, project: &ProjectRef) -> (counts: (u64, u64))
        requires
            self.parts_ready(),
        ensures
            counts.0 == retained(self.state(), project.deep_view()).builds,
            counts.1 == retained(self.state(), project.deep_view()).terminal_unpublished_builds,
    {
        let builds = self.builds.values();
        let ghost models = builds.deep_view();
        let ghost owned = |build: MemoryBuildView| build.project == project.deep_view();
        let ghost over = |build: MemoryBuildView|
            build.project == project.deep_view() && is_over(build);
        let mut all: u64 = 0;
        let mut ended: u64 = 0;
        let mut at: usize = 0;
        while at < builds.len()
            invariant
                at <= builds.len(),
                models == builds.deep_view(),
                owned == (|build: MemoryBuildView| build.project == project.deep_view()),
                over == (|build: MemoryBuildView|
                    build.project == project.deep_view() && is_over(build)),
                all == count_where(models.take(at as int), owned),
                ended == count_where(models.take(at as int), over),
            decreases builds.len() - at,
        {
            assert(models[at as int] == builds@[at as int].deep_view());
            assert(models.take(at + 1).last() == models[at as int]);
            assert(models.take(at + 1).drop_last() =~= models.take(at as int));
            proof {
                count_is_bounded(models.take(at as int), owned);
                count_is_bounded(models.take(at as int), over);
            }
            if builds[at].project.same(project) {
                all = all + 1;
                match builds[at].state {
                    MemoryBuildState::Complete
                    | MemoryBuildState::Failed
                    | MemoryBuildState::Superseded => {
                        ended = ended + 1;
                    },
                    _ => {},
                }
            }
            at += 1;
        }
        assert(models.take(at as int) =~= models);
        proof {
            count_is_bounded(models, owned);
            count_is_bounded(models, over);
        }
        (all, ended)
    }

    fn count_link_sets(&self, project: &ProjectRef) -> (count: u64)
        requires
            self.parts_ready(),
        ensures
            count == retained(self.state(), project.deep_view()).repository_link_sets,
    {
        let ghost models = self.links.deep_view();
        let ghost revisions = self.state().revisions;
        let ghost owned = |commit: MemoryRepositoryLinkCommitView|
            revisions.contains_key(commit.link_set.memory_revision_id)
                && revisions[commit.link_set.memory_revision_id].project == project.deep_view();
        let mut count: u64 = 0;
        let mut at: usize = 0;
        while at < self.links.len()
            invariant
                at <= self.links.len(),
                self.parts_ready(),
                models == self.links.deep_view(),
                revisions == self.state().revisions,
                owned == (|commit: MemoryRepositoryLinkCommitView|
                    revisions.contains_key(commit.link_set.memory_revision_id)
                        && revisions[commit.link_set.memory_revision_id].project
                        == project.deep_view()),
                count == count_where(models.take(at as int), owned),
            decreases self.links.len() - at,
        {
            assert(models[at as int] == self.links@[at as int].deep_view());
            assert(models.take(at + 1).last() == models[at as int]);
            assert(models.take(at + 1).drop_last() =~= models.take(at as int));
            proof {
                count_is_bounded(models.take(at as int), owned);
            }
            if let Some(revision) = self.revisions.get(
                self.links[at].link_set.memory_revision_id.as_str(),
            ) {
                if revision.project.same(project) {
                    count = count + 1;
                }
            }
            at += 1;
        }
        assert(models.take(at as int) =~= models);
        proof {
            count_is_bounded(models, owned);
        }
        count
    }

    /// How much is kept of a project.
    pub fn retention_statistics(
        &self,
        project: &ProjectRef,
    ) -> (statistics: MemoryRetentionStatistics)
        requires
            self.ready(),
        ensures
            statistics.deep_view() == retained(self.state(), project.deep_view()),
    {
        let (revisions, historical_revisions) = self.count_revisions(project);
        let (builds, terminal_unpublished_builds) = self.count_builds(project);
        MemoryRetentionStatistics {
            revisions,
            historical_revisions,
            builds,
            terminal_unpublished_builds,
            repository_link_sets: self.count_link_sets(project),
        }
    }

    /// The links of a revision, those of the newest set first.
    pub fn links_for_revision(
        &self,
        revision_id: &MemoryRevisionId,
    ) -> (links: Vec<MemoryRelationship>)
        requires
            self.ready(),
        ensures
            links.deep_view() == links_newest_first(self.state().links, revision_id.deep_view()),
    {
        let ghost models = self.links.deep_view();
        let mut links: Vec<MemoryRelationship> = Vec::new();
        let mut at: usize = self.links.len();
        assert(models.take(at as int) =~= models);
        assert(links.deep_view() + links_newest_first(models, revision_id.deep_view())
            =~= links_newest_first(models, revision_id.deep_view()));
        while at > 0
            invariant
                at <= self.links.len(),
                models == self.links.deep_view(),
                links_newest_first(models, revision_id.deep_view()) == links.deep_view()
                    + links_newest_first(models.take(at as int), revision_id.deep_view()),
            decreases at,
        {
            at -= 1;
            let ghost before = links.deep_view();
            assert(models[at as int] == self.links@[at as int].deep_view());
            assert(models.take(at + 1).last() == models[at as int]);
            assert(models.take(at + 1).drop_last() =~= models.take(at as int));
            let ghost rest = links_newest_first(models.take(at as int), revision_id.deep_view());
            if self.links[at].link_set.memory_revision_id.same(revision_id) {
                let mut more = self.links[at].relationships.copied();
                let ghost added = more.deep_view();
                links.append(&mut more);
                assert(links.deep_view() =~= before + added);
                assert((before + added) + rest =~= before + (added + rest));
            }
        }
        assert(links.deep_view() + Seq::empty() =~= links.deep_view());
        links
    }
}

impl MemoryLedger {
    /// The sets of links, to be read by their snapshots.
    pub fn link_store(&self) -> (links: KeptLinks)
        requires
            self.ready(),
        ensures
            links.links.deep_view() == self.state().links,
    {
        KeptLinks::new(self.links.copied())
    }

    /// The records of the revision that a view of a project shows.
    pub fn records(
        &self,
        project: &ProjectRef,
        view_name: &MemoryViewName,
    ) -> (records: KeptRecords)
        requires
            self.ready(),
        ensures
            records.reads().len() == 0,
            records.view.deep_view() == view_of(
                self.state().views,
                project.deep_view(),
                view_name.deep_view(),
            ),
            records.latest.deep_view() == last_begun(
                self.state().begun,
                self.state().builds,
                project.deep_view(),
            ),
            records.retention.deep_view() == retained(self.state(), project.deep_view()),
            match records.view {
                None => records.revision is None,
                Some(view) => {
                    let id = view.deep_view().revision_id;
                    &&& records.revision.deep_view() == found(self.state().revisions, id)
                    &&& records.entities.deep_view() == listed(self.state().entities, id)
                    &&& records.relationships.deep_view() == listed(self.state().relationships, id)
                    &&& records.links.deep_view() == links_newest_first(self.state().links, id)
                    &&& records.diagnostics.deep_view() == match found(
                        self.state().diagnostic_builds,
                        id,
                    ) {
                        Some(build_id) => listed(self.state().diagnostics, build_id),
                        None => Seq::empty(),
                    }
                },
            },
    {
        let latest = self.latest_build(project);
        let retention = self.retention_statistics(project);
        match self.find_view(project, view_name) {
            None => KeptRecords {
                view: None,
                revision: None,
                entities: Vec::new(),
                relationships: Vec::new(),
                links: Vec::new(),
                diagnostics: Vec::new(),
                latest,
                retention,
                reads: Ghost(Seq::empty()),
                times: Ghost(Seq::empty()),
            },
            Some(view) => {
                let revision = self.find_revision(&view.revision_id);
                let entities = self.entities_for_revision(&view.revision_id);
                let relationships = self.relationships_for_revision(&view.revision_id);
                let links = self.links_for_revision(&view.revision_id);
                let diagnostics = self.diagnostics_for_revision(&view.revision_id);
                KeptRecords {
                    view: Some(view),
                    revision,
                    entities,
                    relationships,
                    links,
                    diagnostics,
                    latest,
                    retention,
                    reads: Ghost(Seq::empty()),
                    times: Ghost(Seq::empty()),
                }
            },
        }
    }
}

proof fn last_write_is_kept(
    fragments: Map<Seq<char>, MemoryFragmentView>,
    writes: Seq<CachedMemoryFragmentView>,
    at: int,
)
    requires
        0 <= at < writes.len(),
        forall|i: int|
            at < i < writes.len() ==> MemoryFragmentCacheKey::json((#[trigger] writes[i]).key)
                != MemoryFragmentCacheKey::json(writes[at].key),
    ensures
        found(with_fragments(fragments, writes), MemoryFragmentCacheKey::json(writes[at].key)) == Some(
            writes[at].fragment,
        ),
    decreases writes.len(),
{
    if at < writes.len() - 1 {
        let before = writes.drop_last();
        assert(before[at] == writes[at]);
        assert forall|i: int| at < i < before.len() implies MemoryFragmentCacheKey::json(
            (#[trigger] before[i]).key,
        ) != MemoryFragmentCacheKey::json(before[at].key) by {
            assert(before[i] == writes[i]);
        }
        last_write_is_kept(fragments, before, at);
        assert(MemoryFragmentCacheKey::json(writes[writes.len() - 1].key)
            != MemoryFragmentCacheKey::json(writes[at].key));
    }
}

/// What a commit wrote is read back: its revision with its entities and relationships where the
/// revision was new, what its build had to say, and of each key the fragment that was written last.
pub proof fn commits_are_read_back(state: StoreState, commit: MemoryCommitView, at: int)
    ensures
        completed(state, commit) matches Ok(next) ==> {
            let id = commit.revision.id;
            &&& !state.revisions.contains_key(id) ==> found(next.revisions, id) == Some(
                commit.revision,
            ) && listed(next.entities, id) == commit.entities && listed(next.relationships, id)
                == commit.relationships
            &&& state.revisions.contains_key(id) ==> same_revision(
                next.revisions[id],
                commit.revision,
            )
            &&& found(next.diagnostic_builds, id) == Some(commit.revision.completed_by)
            &&& listed(next.diagnostics, commit.revision.completed_by) == commit.diagnostics
            &&& 0 <= at < commit.cache_writes.len() && (forall|i: int|
                at < i < commit.cache_writes.len() ==> MemoryFragmentCacheKey::json(
                    (#[trigger] commit.cache_writes[i]).key,
                ) != MemoryFragmentCacheKey::json(commit.cache_writes[at].key)) ==> found(
                next.fragments,
                MemoryFragmentCacheKey::json(commit.cache_writes[at].key),
            ) == Some(commit.cache_writes[at].fragment)
        },
{
    if 0 <= at < commit.cache_writes.len() && (forall|i: int|
        at < i < commit.cache_writes.len() ==> MemoryFragmentCacheKey::json(
            (#[trigger] commit.cache_writes[i]).key,
        ) != MemoryFragmentCacheKey::json(commit.cache_writes[at].key)) {
        last_write_is_kept(state.fragments, commit.cache_writes, at);
    }
}

}
