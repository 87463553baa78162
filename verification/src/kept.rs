//! Memories, links and graphs that are all at hand.
use vstd::prelude::*;
use crate::diagnostics::{MemoryDiagnostic, MemoryDiagnosticView};
use crate::domain::{
    MemoryBuild, MemoryEntity, MemoryEntityView, MemoryRelationship, MemoryRelationshipView,
    MemoryRepositoryLinkCommit, MemoryRepositoryLinkCommitView, MemoryRepositoryLinkSet,
    MemoryRepositoryLinkSetView, MemoryRevision, MemoryRevisionId, MemorySourceCategory,
    MemoryViewName, ProjectRef, ProjectRefView, PublishedMemoryRevision,
};
use crate::budget::{saturated, saturating_sum};
use crate::index::{count_stale, stale_count};
use crate::ledger::{find_links, links_of, shows};
use crate::links::{LocalRepositoryLinkResolver, LocalRepositoryLinkResolverView};
use crate::ports::{
    BoundedRepositoryLinks, BoundedRepositoryLinksView, GraphQuery, LinkResolvers, LinkSetRequest,
    LinkSetRequestView, LinksRequest, LinksRequestView, MemoryLinkStore,
};
use crate::query::{
    MemoryQueryError, MemoryQueryErrorView, MemoryRetentionStatistics, MemoryStatistics,
    MemoryStatisticsView,
};
use crate::record::{outcome, Record};
use crate::repository::{
    ContextRequest, ContextRequestView, ContextResponse, ContextResponseView, QueryErrorCode,
    QueryScope, QueryScopeView, SearchRequest, SearchRequestView, SearchResponse,
    SearchResponseView, StatusResponse, StatusResponseView,
};
use crate::scope::ReadFailure;
use crate::service::{MemoryRecords, RecordRead};

verus! {

/// The first so many of some records.
pub open spec fn first_of<T>(records: Seq<T>, max: u32) -> Seq<T> {
    if records.len() <= max {
        records
    } else {
        records.take(max as int)
    }
}

fn first_records<T: Record>(records: &Vec<T>, max: u32) -> (result: Vec<T>)
    ensures
        result.deep_view() == first_of(records.deep_view(), max),
{
    let ghost models = records.deep_view();
    let mut result: Vec<T> = Vec::new();
    let mut at: usize = 0;
    while at < records.len() && (at as u64) < max as u64
        invariant
            at <= records.len(),
            at <= max,
            models == records.deep_view(),
            result.deep_view() =~= models.take(at as int),
        decreases records.len() - at,
    {
        let ghost before = result.deep_view();
        assert(models[at as int] == records@[at as int].deep_view());
        let record = records[at].copied();
        result.push(record);
        assert(result.deep_view() =~= before.push(record.deep_view()));
        at += 1;
    }
    assert(result.deep_view() =~= first_of(models, max));
    result
}

/// The newest set of links of a revision to a snapshot of a repository.
pub open spec fn links_to_snapshot(
    links: Seq<MemoryRepositoryLinkCommitView>,
    request: LinkSetRequestView,
) -> Option<MemoryRepositoryLinkSetView>
    decreases links.len(),
{
    if links.len() == 0 {
        None
    } else {
        let set = links.last().link_set;
        if set.memory_revision_id == request.revision_id && set.repository == request.repository
            && set.repository_snapshot_id == request.snapshot_id {
            Some(set)
        } else {
            links_to_snapshot(links.drop_last(), request)
        }
    }
}

/// The links of a set, as many as were asked for.
pub open spec fn bounded_links(
    links: Seq<MemoryRepositoryLinkCommitView>,
    request: LinksRequestView,
) -> BoundedRepositoryLinksView {
    let (relationships, diagnostics) = match links_of(links, request.link_set_id) {
        Some(commit) => (commit.relationships, commit.diagnostics),
        None => (Seq::empty(), Seq::empty()),
    };
    read_links(relationships, diagnostics, false, request)
}

/// What was read of the links of a set, no more than was asked for.
pub open spec fn read_links(
    relationships: Seq<MemoryRelationshipView>,
    diagnostics: Seq<MemoryDiagnosticView>,
    late: bool,
    request: LinksRequestView,
) -> BoundedRepositoryLinksView {
    BoundedRepositoryLinksView {
        relationships: first_of(relationships, request.max_links),
        diagnostics: first_of(diagnostics, request.max_diagnostics),
        truncated: relationships.len() > request.max_links || diagnostics.len()
            > request.max_diagnostics,
        duration_exceeded: late,
    }
}

/// What was read of the links of a set, no more than was asked for.
pub fn bounded_read(
    relationships: &Vec<MemoryRelationship>,
    diagnostics: &Vec<MemoryDiagnostic>,
    late: bool,
    request: &LinksRequest,
) -> (bounded: BoundedRepositoryLinks)
    ensures
        bounded.deep_view() == read_links(
            relationships.deep_view(),
            diagnostics.deep_view(),
            late,
            request.deep_view(),
        ),
{
    assert(relationships.deep_view().len() == relationships.len());
    assert(diagnostics.deep_view().len() == diagnostics.len());
    BoundedRepositoryLinks {
        relationships: first_records(relationships, request.max_links),
        diagnostics: first_records(diagnostics, request.max_diagnostics),
        truncated: relationships.len() as u64 > request.max_links as u64 || diagnostics.len() as u64
            > request.max_diagnostics as u64,
        duration_exceeded: late,
    }
}

/// Sets of links, the oldest first.
pub struct KeptLinks {
    pub links: Vec<MemoryRepositoryLinkCommit>,
    pub set_reads: Ghost<
        Seq<(LinkSetRequestView, Result<Option<MemoryRepositoryLinkSetView>, ReadFailure>)>,
    >,
    pub link_reads: Ghost<
        Seq<(LinksRequestView, Result<BoundedRepositoryLinksView, ReadFailure>)>,
    >,
}

impl KeptLinks {
    pub fn new(links: Vec<MemoryRepositoryLinkCommit>) -> (kept: Self)
        ensures
            kept.links == links,
    {
        KeptLinks { links, set_reads: Ghost(Seq::empty()), link_reads: Ghost(Seq::empty()) }
    }

    fn find_set(&self, request: &LinkSetRequest) -> (set: Option<MemoryRepositoryLinkSet>)
        ensures
            set.deep_view() == links_to_snapshot(self.links.deep_view(), request.deep_view()),
    {
        let ghost models = self.links.deep_view();
        let mut at: usize = self.links.len();
        assert(models.take(at as int) =~= models);
        while at > 0
            invariant
                at <= self.links.len(),
                models == self.links.deep_view(),
                links_to_snapshot(models, request.deep_view()) == links_to_snapshot(
                    models.take(at as int),
                    request.deep_view(),
                ),
            decreases at,
        {
            at -= 1;
            assert(models[at as int] == self.links@[at as int].deep_view());
            assert(models.take(at + 1).last() == models[at as int]);
            assert(models.take(at + 1).drop_last() =~= models.take(at as int));
            let set = &self.links[at].link_set;
            if set.memory_revision_id.same(&request.revision_id) && set.repository.same(
                &request.repository,
            ) && set.repository_snapshot_id.same(&request.snapshot_id) {
                return Some(set.copied());
            }
        }
        None
    }

    fn bounded(&self, request: &LinksRequest) -> (bounded: BoundedRepositoryLinks)
        ensures
            bounded.deep_view() == bounded_links(self.links.deep_view(), request.deep_view()),
    {
        match find_links(&self.links, &request.link_set_id) {
            Some(commit) => bounded_read(&commit.relationships, &commit.diagnostics, false, request),
            None => {
                let relationships: Vec<MemoryRelationship> = Vec::new();
                let diagnostics: Vec<MemoryDiagnostic> = Vec::new();
                assert(relationships.deep_view() =~= Seq::empty());
                assert(diagnostics.deep_view() =~= Seq::empty());
                bounded_read(&relationships, &diagnostics, false, request)
            },
        }
    }
}

impl MemoryLinkStore for KeptLinks {
    open spec fn set_reads(&self) -> Seq<
        (LinkSetRequestView, Result<Option<MemoryRepositoryLinkSetView>, ReadFailure>),
    > {
        self.set_reads@
    }

    open spec fn link_reads(&self) -> Seq<
        (LinksRequestView, Result<BoundedRepositoryLinksView, ReadFailure>),
    > {
        self.link_reads@
    }

    fn repository_link_set_for_snapshot(&mut self, request: &LinkSetRequest) -> (result: Result<
        Option<MemoryRepositoryLinkSet>,
        ReadFailure,
    >)
        ensures
            final(self).links == old(self).links,
            outcome(result) == Ok::<_, ReadFailure>(
                links_to_snapshot(old(self).links.deep_view(), request.deep_view()),
            ),
    {
        let set = self.find_set(request);
        self.set_reads = Ghost(self.set_reads@.push((request.deep_view(), Ok(set.deep_view()))));
        Ok(set)
    }

    fn bounded_repository_links(&mut self, request: &LinksRequest) -> (result: Result<
        BoundedRepositoryLinks,
        ReadFailure,
    >)
        ensures
            final(self).links == old(self).links,
            outcome(result) == Ok::<_, ReadFailure>(
                bounded_links(old(self).links.deep_view(), request.deep_view()),
            ),
    {
        let bounded = self.bounded(request);
        self.link_reads = Ghost(self.link_reads@.push((request.deep_view(), Ok(bounded.deep_view()))));
        Ok(bounded)
    }
}

/// A repository that is opened already, where there is one.
pub struct KeptResolver {
    pub resolver: Option<LocalRepositoryLinkResolver>,
    pub opened: Ghost<Seq<(ProjectRefView, Option<LocalRepositoryLinkResolverView>)>>,
}

impl KeptResolver {
    pub fn new(resolver: Option<LocalRepositoryLinkResolver>) -> (kept: Self)
        ensures
            kept.resolver == resolver,
    {
        KeptResolver { resolver, opened: Ghost(Seq::empty()) }
    }
}

impl LinkResolvers for KeptResolver {
    open spec fn opened(&self) -> Seq<(ProjectRefView, Option<LocalRepositoryLinkResolverView>)> {
        self.opened@
    }

    fn open(&mut self, project: &ProjectRef) -> (resolver: Option<LocalRepositoryLinkResolver>)
        ensures
            final(self).resolver == old(self).resolver,
            resolver.deep_view() == old(self).resolver.deep_view(),
    {
        let resolver = self.resolver.copied();
        self.opened = Ghost(self.opened@.push((project.deep_view(), resolver.deep_view())));
        resolver
    }
}

/// How many categories of sources some entities come from.
pub open spec fn source_categories(entities: Seq<MemoryEntityView>) -> Set<MemorySourceCategory> {
    entities.map_values(|entity: MemoryEntityView| entity.provenance.source_category).to_set()
}

/// How much a revision holds: its sources, entities, relationships with links, and stale links.
pub open spec fn statistics_of(
    entities: Seq<MemoryEntityView>,
    relationships: Seq<MemoryRelationshipView>,
    links: Seq<MemoryRelationshipView>,
) -> MemoryStatisticsView {
    MemoryStatisticsView {
        sources: source_categories(entities).len() as u64,
        entities: entities.len() as u64,
        relationships: saturated(relationships.len() as u64, links.len() as u64),
        stale_links: stale_count(links) as u64,
    }
}

fn count_categories(entities: &Vec<MemoryEntity>) -> (count: u64)
    ensures
        count == source_categories(entities.deep_view()).len(),
{
    let ghost models = entities.deep_view();
    let ghost all = models.map_values(|entity: MemoryEntityView| entity.provenance.source_category);
    let mut seen: Vec<MemorySourceCategory> = Vec::new();
    let mut at: usize = 0;
    assert(all.take(0).to_set() =~= Set::empty());
    assert(seen@.to_set() =~= Set::empty());
    while at < entities.len()
        invariant
            at <= entities.len(),
            models == entities.deep_view(),
            all == models.map_values(|entity: MemoryEntityView| entity.provenance.source_category),
            seen@.no_duplicates(),
            seen@.to_set() == all.take(at as int).to_set(),
            seen.len() <= at,
        decreases entities.len() - at,
    {
        assert(models[at as int] == entities@[at as int].deep_view());
        let category = entities[at].provenance.source_category;
        assert(category == all[at as int]);
        assert(all.take(at + 1) =~= all.take(at as int).push(category));
        let ghost before = seen@;
        let mut found = false;
        let mut i: usize = 0;
        while i < seen.len()
            invariant
                i <= seen.len(),
                found == exists|j: int| 0 <= j < i && seen@[j] == category,
            decreases seen.len() - i,
        {
            if seen[i] == category {
                found = true;
            }
            i += 1;
        }
        proof {
            all.take(at as int).lemma_push_to_set_commute(category);
            assert(found == before.to_set().contains(category)) by {
                if before.to_set().contains(category) {
                    assert(before.contains(category));
                }
                if found {
                    let j = choose|j: int| 0 <= j < before.len() && before[j] == category;
                    assert(before.contains(before[j]));
                }
            }
        }
        if !found {
            seen.push(category);
            proof {
                before.lemma_push_to_set_commute(category);
                assert(seen@.no_duplicates()) by {
                    assert forall|a: int, b: int|
                        0 <= a < b < seen@.len() implies seen@[a] != seen@[b] by {
                        if b == before.len() && seen@[a] == category {
                            assert(before[a] == category);
                            assert(before.contains(category));
                        }
                    }
                }
            }
        } else {
            assert(before.to_set().insert(category) =~= before.to_set());
        }
        at += 1;
    }
    assert(all.take(at as int) =~= all);
    proof {
        seen@.unique_seq_to_set();
    }
    seen.len() as u64
}

/// How much a revision holds.
pub fn revision_statistics(
    entities: &Vec<MemoryEntity>,
    relationships: &Vec<MemoryRelationship>,
    links: &Vec<MemoryRelationship>,
) -> (statistics: MemoryStatistics)
    ensures
        statistics.deep_view() == statistics_of(
            entities.deep_view(),
            relationships.deep_view(),
            links.deep_view(),
        ),
{
    assert(entities.deep_view().len() == entities.len());
    assert(relationships.deep_view().len() == relationships.len());
    assert(links.deep_view().len() == links.len());
    MemoryStatistics {
        sources: count_categories(entities),
        entities: entities.len() as u64,
        relationships: saturating_sum(relationships.len() as u64, links.len() as u64),
        stale_links: count_stale(links),
    }
}

/// The records of one revision, and what is published of it.
pub struct KeptRecords {
    pub view: Option<PublishedMemoryRevision>,
    pub revision: Option<MemoryRevision>,
    pub entities: Vec<MemoryEntity>,
    pub relationships: Vec<MemoryRelationship>,
    pub links: Vec<MemoryRelationship>,
    pub diagnostics: Vec<MemoryDiagnostic>,
    pub latest: Option<MemoryBuild>,
    pub retention: MemoryRetentionStatistics,
    pub reads: Ghost<Seq<RecordRead>>,
    pub times: Ghost<Seq<u64>>,
}

impl KeptRecords {
    /// Whether the revision at hand has a name.
    pub open spec fn is_about(self, id: Seq<char>) -> bool {
        self.revision is Some && self.revision->0.deep_view().id == id
    }

    fn has(&self, id: &MemoryRevisionId) -> (has: bool)
        ensures
            has == self.is_about(id.deep_view()),
    {
        match &self.revision {
            Some(revision) => revision.id.same(id),
            None => false,
        }
    }

    /// Whether everything at hand stayed as it was.
    pub open spec fn keeps(self, before: Self) -> bool {
        &&& self.view == before.view
        &&& self.revision == before.revision
        &&& self.entities == before.entities
        &&& self.relationships == before.relationships
        &&& self.links == before.links
        &&& self.diagnostics == before.diagnostics
        &&& self.latest == before.latest
        &&& self.retention == before.retention
    }
}

/// The records of a revision, where it is the one at hand, and else none.
pub open spec fn if_about<T>(about: bool, records: Seq<T>) -> Seq<T> {
    if about {
        records
    } else {
        Seq::empty()
    }
}

fn copied_if<T: Record>(about: bool, records: &Vec<T>) -> (result: Vec<T>)
    ensures
        result.deep_view() == if_about(about, records.deep_view()),
{
    if about {
        records.copied()
    } else {
        let result: Vec<T> = Vec::new();
        assert(result.deep_view() =~= Seq::empty());
        result
    }
}

impl MemoryRecords for KeptRecords {
    open spec fn reads(&self) -> Seq<RecordRead> {
        self.reads@
    }

    open spec fn times(&self) -> Seq<u64> {
        self.times@
    }

    fn published_view(&mut self, project: &ProjectRef, name: &MemoryViewName) -> (result: Result<
        Option<PublishedMemoryRevision>,
        MemoryQueryError,
    >)
        ensures
            final(self).keeps(*old(self)),
            outcome(result) == Ok::<_, MemoryQueryErrorView>(
                match old(self).view.deep_view() {
                    Some(view) => if shows(view, project.deep_view(), name.deep_view()) {
                        Some(view)
                    } else {
                        None
                    },
                    None => None,
                },
            ),
    {
        let result = match &self.view {
            Some(view) => {
                if view.project.same(project) && view.view_name.same(name) {
                    Ok(Some(view.copied()))
                } else {
                    Ok(None)
                }
            },
            None => Ok(None),
        };
        self.reads = Ghost(
            self.reads@.push(
                RecordRead::View(project.deep_view(), name.deep_view(), outcome(result)),
            ),
        );
        result
    }

    fn revision(&mut self, id: &MemoryRevisionId) -> (result: Result<
        Option<MemoryRevision>,
        MemoryQueryError,
    >)
        ensures
            final(self).keeps(*old(self)),
            outcome(result) == Ok::<_, MemoryQueryErrorView>(
                if old(self).is_about(id.deep_view()) {
                    old(self).revision.deep_view()
                } else {
                    None
                },
            ),
    {
        let result = if self.has(id) {
            Ok(self.revision.copied())
        } else {
            Ok(None)
        };
        self.reads = Ghost(self.reads@.push(RecordRead::Revision(id.deep_view(), outcome(result))));
        result
    }

    fn entities(&mut self, id: &MemoryRevisionId, max_duration_ms: u64) -> (result: Result<
        Vec<MemoryEntity>,
        MemoryQueryError,
    >)
        ensures
            final(self).keeps(*old(self)),
            outcome(result) == Ok::<_, MemoryQueryErrorView>(
                if_about(old(self).is_about(id.deep_view()), old(self).entities.deep_view()),
            ),
    {
        let result = Ok(copied_if(self.has(id), &self.entities));
        self.times = Ghost(self.times@.push(max_duration_ms));
        self.reads = Ghost(self.reads@.push(RecordRead::Entities(id.deep_view(), outcome(result))));
        result
    }

    fn relationships(&mut self, id: &MemoryRevisionId, max_duration_ms: u64) -> (result: Result<
        Vec<MemoryRelationship>,
        MemoryQueryError,
    >)
        ensures
            final(self).keeps(*old(self)),
            outcome(result) == Ok::<_, MemoryQueryErrorView>(
                if_about(old(self).is_about(id.deep_view()), old(self).relationships.deep_view()),
            ),
    {
        let result = Ok(copied_if(self.has(id), &self.relationships));
        self.times = Ghost(self.times@.push(max_duration_ms));
        self.reads = Ghost(
            self.reads@.push(RecordRead::Relationships(id.deep_view(), outcome(result))),
        );
        result
    }

    fn links(&mut self, id: &MemoryRevisionId, max_duration_ms: u64) -> (result: Result<
        Vec<MemoryRelationship>,
        MemoryQueryError,
    >)
        ensures
            final(self).keeps(*old(self)),
            outcome(result) == Ok::<_, MemoryQueryErrorView>(
                if_about(old(self).is_about(id.deep_view()), old(self).links.deep_view()),
            ),
    {
        let result = Ok(copied_if(self.has(id), &self.links));
        self.times = Ghost(self.times@.push(max_duration_ms));
        self.reads = Ghost(self.reads@.push(RecordRead::Links(id.deep_view(), outcome(result))));
        result
    }

    fn diagnostics(
        &mut self,
        id: &MemoryRevisionId,
        max_diagnostics: u32,
        max_duration_ms: u64,
    ) -> (result: Result<Vec<MemoryDiagnostic>, MemoryQueryError>)
        ensures
            final(self).keeps(*old(self)),
            outcome(result) == Ok::<_, MemoryQueryErrorView>(
                first_of(
                    if_about(old(self).is_about(id.deep_view()), old(self).diagnostics.deep_view()),
                    max_diagnostics,
                ),
            ),
    {
        let said = copied_if(self.has(id), &self.diagnostics);
        let result = Ok(first_records(&said, max_diagnostics));
        self.times = Ghost(self.times@.push(max_duration_ms));
        self.reads = Ghost(
            self.reads@.push(
                RecordRead::Diagnostics(id.deep_view(), max_diagnostics, outcome(result)),
            ),
        );
        result
    }

    fn latest_build(&mut self, project: &ProjectRef, max_duration_ms: u64) -> (result: Result<
        Option<MemoryBuild>,
        MemoryQueryError,
    >)
        ensures
            final(self).keeps(*old(self)),
            outcome(result) == Ok::<_, MemoryQueryErrorView>(
                match old(self).latest.deep_view() {
                    Some(build) => if build.project == project.deep_view() {
                        Some(build)
                    } else {
                        None
                    },
                    None => None,
                },
            ),
    {
        let result = match &self.latest {
            Some(build) => {
                if build.project.same(project) {
                    Ok(Some(build.copied()))
                } else {
                    Ok(None)
                }
            },
            None => Ok(None),
        };
        self.times = Ghost(self.times@.push(max_duration_ms));
        self.reads = Ghost(
            self.reads@.push(RecordRead::LatestBuild(project.deep_view(), outcome(result))),
        );
        result
    }

    fn statistics(&mut self, id: &MemoryRevisionId, max_duration_ms: u64) -> (result: Result<
        MemoryStatistics,
        MemoryQueryError,
    >)
        ensures
            final(self).keeps(*old(self)),
            outcome(result) == Ok::<_, MemoryQueryErrorView>(
                statistics_of(
                    if_about(old(self).is_about(id.deep_view()), old(self).entities.deep_view()),
                    if_about(
                        old(self).is_about(id.deep_view()),
                        old(self).relationships.deep_view(),
                    ),
                    if_about(old(self).is_about(id.deep_view()), old(self).links.deep_view()),
                ),
            ),
    {
        let about = self.has(id);
        let result = Ok(
            revision_statistics(
                &copied_if(about, &self.entities),
                &copied_if(about, &self.relationships),
                &copied_if(about, &self.links),
            ),
        );
        self.times = Ghost(self.times@.push(max_duration_ms));
        self.reads = Ghost(self.reads@.push(RecordRead::Statistics(id.deep_view(), outcome(result))));
        result
    }

    fn retention(&mut self, project: &ProjectRef, max_duration_ms: u64) -> (result: Result<
        MemoryRetentionStatistics,
        MemoryQueryError,
    >)
        ensures
            final(self).keeps(*old(self)),
            outcome(result) == Ok::<_, MemoryQueryErrorView>(old(self).retention.deep_view()),
    {
        let result = Ok(self.retention.copied());
        self.times = Ghost(self.times@.push(max_duration_ms));
        self.reads = Ghost(
            self.reads@.push(RecordRead::Retention(project.deep_view(), outcome(result))),
        );
        result
    }
}

/// A graph that always gives the same answers.
pub struct KeptGraph {
    pub status: Result<StatusResponse, QueryErrorCode>,
    pub search: Result<SearchResponse, QueryErrorCode>,
    pub context: Result<ContextResponse, QueryErrorCode>,
    pub statuses: Ghost<Seq<(QueryScopeView, Result<StatusResponseView, QueryErrorCode>)>>,
    pub searches: Ghost<Seq<(SearchRequestView, Result<SearchResponseView, QueryErrorCode>)>>,
    pub contexts: Ghost<Seq<(ContextRequestView, Result<ContextResponseView, QueryErrorCode>)>>,
}

fn copied_reply<T: Record>(reply: &Result<T, QueryErrorCode>) -> (copy: Result<T, QueryErrorCode>)
    ensures
        outcome(copy) == outcome(*reply),
{
    match reply {
        Ok(value) => Ok(value.copied()),
        Err(error) => Err(*error),
    }
}

impl KeptGraph {
    pub fn new(
        status: Result<StatusResponse, QueryErrorCode>,
        search: Result<SearchResponse, QueryErrorCode>,
        context: Result<ContextResponse, QueryErrorCode>,
    ) -> (graph: Self)
        ensures
            graph.status == status,
            graph.search == search,
            graph.context == context,
    {
        KeptGraph {
            status,
            search,
            context,
            statuses: Ghost(Seq::empty()),
            searches: Ghost(Seq::empty()),
            contexts: Ghost(Seq::empty()),
        }
    }
}

impl GraphQuery for KeptGraph {
    open spec fn statuses(
        &self,
    ) -> Seq<(QueryScopeView, Result<StatusResponseView, QueryErrorCode>)> {
        self.statuses@
    }

    open spec fn searches(
        &self,
    ) -> Seq<(SearchRequestView, Result<SearchResponseView, QueryErrorCode>)> {
        self.searches@
    }

    open spec fn contexts(
        &self,
    ) -> Seq<(ContextRequestView, Result<ContextResponseView, QueryErrorCode>)> {
        self.contexts@
    }

    fn status(&mut self, request: &QueryScope) -> (result: Result<StatusResponse, QueryErrorCode>)
        ensures
            outcome(result) == outcome(old(self).status),
    {
        let result = copied_reply(&self.status);
        self.statuses = Ghost(self.statuses@.push((request.deep_view(), outcome(result))));
        result
    }

    fn search(
        &mut self,
        request: &SearchRequest,
    ) -> (result: Result<SearchResponse, QueryErrorCode>)
        ensures
            outcome(result) == outcome(old(self).search),
    {
        let result = copied_reply(&self.search);
        self.searches = Ghost(self.searches@.push((request.deep_view(), outcome(result))));
        result
    }

    fn context(
        &mut self,
        request: &ContextRequest,
    ) -> (result: Result<ContextResponse, QueryErrorCode>)
        ensures
            outcome(result) == outcome(old(self).context),
    {
        let result = copied_reply(&self.context);
        self.contexts = Ghost(self.contexts@.push((request.deep_view(), outcome(result))));
        result
    }
}

}
