//! What a second run finds of the first one in a store that nobody else changes.
use vstd::prelude::*;
use crate::deadline::begins;
use crate::domain::{
    AuthorizedSourceDescriptorView, AuthorizedSourceManifestView, CachedMemoryFragmentView,
    MemoryBuildState, MemoryCommitView, MemoryEntityView, MemoryFragmentCacheKey, MemoryFragmentCacheKeyView,
    MemoryFragmentView, MemoryPublishRequestView, MemoryRelationship, MemoryRelationshipView,
    MemoryRepositoryLinkCommitView, MemoryResolutionState, MemoryRevisionView,
};
use crate::extractors::built_in;
use crate::index::{
    begun_build, begun_run, cache_key, first_reader, linked_commit, no_sources, prepared,
    previous_links, ran, revision_of, stale_count, with_fragment, with_read, with_source, with_sources, BegunRun,
    Facts, IndexReplies, IndexScope, MemoryIndexError, MemoryIndexOutcomeView, MemoryIndexer,
};
use crate::json::ToJson;
use crate::ledger::{
    after_call, after_calls, are_owed, calls_keep_soundness, compatible_links, completed, found,
    is_compatible, is_owed, is_publication, is_sound, latest_links, links_in_set, links_of,
    nothing_is_sound, nothing_stored, publication_in, relationships_are_apart, view_of,
    with_fragments, with_link_set, with_links, written_views_are_shown, MemoryLedger, MemoryStore,
    StoreCall, StoreState,
};
use crate::links::{
    by_identity, has_file, kept_candidates, local_candidates, local_link_commit, local_link_set,
    local_links, symbol_nodes_of, ExplicitRepositoryReferenceView, LinkCandidateView,
    LocalRepositoryLinkResolverView, PreviousLinksView,
};
use crate::order::values_in_order;
use crate::ports::{LinkResolvers, MemorySource, MemorySourceError, SourceReadView};
use crate::repository::RepositoryRefView;
use crate::sort::{sorted, sorting_orders_and_keeps};
use crate::store::{version_of, PublicationView};

verus! {

/// Whether nothing in the repository answers a candidate now: it is neither in the current snapshot nor
/// in the one that its change came from.
pub open spec fn is_lost(
    resolver: LocalRepositoryLinkResolverView,
    candidate: LinkCandidateView,
) -> bool {
    let current = resolver.repository_snapshot_id;
    let origin = candidate.origin_snapshot_id;
    match candidate.reference {
        ExplicitRepositoryReferenceView::Path(path) => {
            &&& current is Some ==> !has_file(resolver.snapshots, current->0, path)
            &&& origin is Some ==> !has_file(resolver.snapshots, origin->0, path)
        },
        ExplicitRepositoryReferenceView::Symbol(key) => {
            &&& current is Some ==> symbol_nodes_of(resolver.snapshots, current->0, key).len() == 0
            &&& origin is Some ==> symbol_nodes_of(resolver.snapshots, origin->0, key).len() != 1
        },
    }
}

/// A link whose target was found before stays, as a stale one with its earlier target, where the target
/// is gone: whatever set the earlier link was in, if this is another one.
pub proof fn lost_targets_stay_as_stale(
    resolver: LocalRepositoryLinkResolverView,
    revision: MemoryRevisionView,
    entities: Seq<MemoryEntityView>,
    previous: PreviousLinksView,
    indexed_at: Seq<char>,
    at: int,
)
    requires
        resolver.repository_snapshot_id is Some,
        previous.link_set.id != local_link_set(resolver, revision, entities),
        0 <= at < kept_candidates(local_candidates(resolver, revision, entities)).len(),
        ({
            let candidate = kept_candidates(local_candidates(resolver, revision, entities))[at];
            let earlier = by_identity(previous.relationships);
            &&& earlier.contains_key(candidate.id)
            &&& earlier[candidate.id].provenance.resolution != MemoryResolutionState::Unresolved
            &&& is_lost(resolver, candidate)
        }),
    ensures
        ({
            let candidate = kept_candidates(local_candidates(resolver, revision, entities))[at];
            let links = local_link_commit(resolver, revision, entities, Some(previous), indexed_at);
            let link = links.relationships[at];
            &&& at < links.relationships.len()
            &&& link.id == candidate.id
            &&& link.memory_revision_id == revision.id
            &&& link.provenance.resolution == MemoryResolutionState::Stale
            &&& link.target == by_identity(previous.relationships)[candidate.id].target
        }),
{
    let links = local_links(resolver, revision, entities, Some(previous), indexed_at);
    assert(links.len() == kept_candidates(local_candidates(resolver, revision, entities)).len());
}

/// The links that a store has from before, for a set with a name, from a revision to a repository.
pub open spec fn stored_links(
    state: StoreState,
    id: Seq<char>,
    revision: MemoryRevisionView,
    repository: RepositoryRefView,
) -> Option<PreviousLinksView> {
    let set = match links_of(state.links, id) {
        Some(commit) => Some(commit.link_set),
        None => match latest_links(state.links, revision.id, repository) {
            Some(set) => Some(set),
            None => compatible_links(state.links, state.revisions, revision, repository),
        },
    };
    match set {
        Some(set) => Some(
            PreviousLinksView { link_set: set, relationships: links_in_set(state.links, set.id) },
        ),
        None => None,
    }
}

/// What a run hears of earlier links is what the store has, where the store answers what it owes.
pub proof fn earlier_links_are_heard(
    state: StoreState,
    asked: Seq<StoreCall>,
    id: Seq<char>,
    revision: MemoryRevisionView,
    repository: RepositoryRefView,
    calls: Seq<StoreCall>,
)
    requires
        ({
            let (_, all) = previous_links(asked, id, revision, repository, calls);
            forall|i: int| asked.len() <= i < all.len() ==> is_owed(state, #[trigger] all[i])
        }),
    ensures
        previous_links(asked, id, revision, repository, calls).0 == Ok::<
            _,
            crate::store::MemoryStoreError,
        >(stored_links(state, id, revision, repository)),
{
    let (_, all) = previous_links(asked, id, revision, repository, calls);
    let at = asked.len() as int;
    assert(is_owed(state, all[at]));
    if at + 1 < all.len() {
        assert(is_owed(state, all[at + 1]));
    }
    if at + 2 < all.len() {
        assert(is_owed(state, all[at + 2]));
    }
    if at + 3 < all.len() {
        assert(is_owed(state, all[at + 3]));
    }
}

/// The links that were stored with a build are found again, by the next run for the same revision and by
/// the next run for another revision that is made the same way and has no links of its own yet.
pub proof fn stored_links_are_found_again(
    state: StoreState,
    commit: MemoryCommitView,
    links: MemoryRepositoryLinkCommitView,
    revision: MemoryRevisionView,
    id: Seq<char>,
)
    requires
        completed(state, commit) is Ok,
        commit.repository_links == seq![links],
        links_of(state.links, links.link_set.id) is None,
        completed(state, commit)->Ok_0.revisions[commit.revision.id].id == commit.revision.id,
        revision.id == commit.revision.id || is_compatible(
            completed(state, commit)->Ok_0.revisions[commit.revision.id],
            revision,
        ) && latest_links(state.links, revision.id, links.link_set.repository) is None && links_of(
            state.links,
            id,
        ) is None,
        id == links.link_set.id || revision.id != commit.revision.id,
        revision.id != commit.revision.id ==> id != links.link_set.id,
    ensures
        stored_links(
            completed(state, commit)->Ok_0,
            id,
            revision,
            links.link_set.repository,
        ) == Some(
            PreviousLinksView {
                link_set: links.link_set,
                relationships: sorted::<MemoryRelationship>(links.relationships),
            },
        ),
        relationships_are_apart(links.relationships),
{
    let next = completed(state, commit)->Ok_0;
    assert(commit.repository_links.drop_last() =~= Seq::empty());
    assert(commit.repository_links.last() == links);
    assert(with_links(state.links, commit.revision, Seq::empty()) == Ok::<
        _,
        crate::store::MemoryStoreError,
    >(state.links));
    assert(next.links == with_link_set(state.links, commit.revision, links)->Ok_0);
    assert(next.links.drop_last() =~= state.links);
    assert(next.links.last().link_set == links.link_set);
    assert(next.links.last().relationships == sorted::<MemoryRelationship>(links.relationships));
    assert(next.revisions.contains_key(commit.revision.id));
}

/// Relationships that are apart stand under their names.
proof fn apart_stand_under_names(relationships: Seq<MemoryRelationshipView>, at: int)
    requires
        relationships_are_apart(relationships),
        0 <= at < relationships.len(),
    ensures
        by_identity(relationships).contains_key(relationships[at].id),
        by_identity(relationships)[relationships[at].id] == relationships[at],
    decreases relationships.len(),
{
    let rest = relationships.drop_last();
    if at < rest.len() {
        assert(rest[at] == relationships[at]);
        assert forall|i: int, j: int| 0 <= i < j < rest.len() implies (#[trigger] rest[i]).id != (
        #[trigger] rest[j]).id by {
            assert(relationships[i].id != relationships[j].id);
        }
        apart_stand_under_names(rest, at);
        assert(relationships[at].id != relationships[relationships.len() - 1].id);
    }
}

/// Sorting loses no relationship.
proof fn sorted_stand_under_names(relationships: Seq<MemoryRelationshipView>, at: int)
    requires
        relationships_are_apart(relationships),
        0 <= at < relationships.len(),
    ensures
        by_identity(sorted::<MemoryRelationship>(relationships)).contains_key(relationships[at].id),
        by_identity(sorted::<MemoryRelationship>(relationships))[relationships[at].id]
            == relationships[at],
{
    let ordered = sorted::<MemoryRelationship>(relationships);
    sorting_orders_and_keeps::<MemoryRelationship>(relationships);
    ordered.to_multiset_ensures();
    relationships.to_multiset_ensures();
    assert(relationships.contains(relationships[at]));
    assert(relationships.to_multiset().contains(relationships[at]));
    assert(ordered.contains(relationships[at]));
    let place = choose|place: int| 0 <= place < ordered.len() && ordered[place] == relationships[at];
    assert(relationships_are_apart(ordered)) by {
        assert(relationships.no_duplicates()) by {
            assert forall|i: int, j: int|
                0 <= i < relationships.len() && 0 <= j < relationships.len() && i != j implies relationships[i]
                != relationships[j] by {
                if i < j {
                    assert(relationships[i].id != relationships[j].id);
                } else {
                    assert(relationships[j].id != relationships[i].id);
                }
            }
        }
        relationships.lemma_multiset_has_no_duplicates();
        ordered.lemma_multiset_has_no_duplicates_conv();
        assert forall|i: int, j: int| 0 <= i < j < ordered.len() implies (#[trigger] ordered[i]).id != (
        #[trigger] ordered[j]).id by {
            assert(ordered.to_multiset().contains(ordered[i]));
            assert(ordered.to_multiset().contains(ordered[j]));
            let p = choose|p: int| 0 <= p < relationships.len() && relationships[p] == ordered[i];
            let q = choose|q: int| 0 <= q < relationships.len() && relationships[q] == ordered[j];
            assert(ordered[i] != ordered[j]);
            if p < q {
                assert(relationships[p].id != relationships[q].id);
            } else if q < p {
                assert(relationships[q].id != relationships[p].id);
            }
        }
    }
    apart_stand_under_names(ordered, place);
}

/// A link that was found with one revision outlives it: where its target is gone when the next revision
/// is indexed, made the same way and with no links of its own yet, the link stays as a stale one with the
/// target that it had.
pub proof fn found_links_outlive_their_revision(
    state: StoreState,
    commit: MemoryCommitView,
    links: MemoryRepositoryLinkCommitView,
    known: int,
    resolver: LocalRepositoryLinkResolverView,
    revision: MemoryRevisionView,
    entities: Seq<MemoryEntityView>,
    indexed_at: Seq<char>,
    at: int,
)
    requires
        completed(state, commit) is Ok,
        commit.repository_links == seq![links],
        links_of(state.links, links.link_set.id) is None,
        completed(state, commit)->Ok_0.revisions[commit.revision.id].id == commit.revision.id,
        is_compatible(completed(state, commit)->Ok_0.revisions[commit.revision.id], revision),
        resolver.repository == links.link_set.repository,
        resolver.repository_snapshot_id is Some,
        latest_links(state.links, revision.id, resolver.repository) is None,
        links_of(state.links, local_link_set(resolver, revision, entities)) is None,
        local_link_set(resolver, revision, entities) != links.link_set.id,
        0 <= known < links.relationships.len(),
        links.relationships[known].provenance.resolution != MemoryResolutionState::Unresolved,
        0 <= at < kept_candidates(local_candidates(resolver, revision, entities)).len(),
        kept_candidates(local_candidates(resolver, revision, entities))[at].id
            == links.relationships[known].id,
        is_lost(resolver, kept_candidates(local_candidates(resolver, revision, entities))[at]),
    ensures
        ({
            let next = completed(state, commit)->Ok_0;
            let found = stored_links(
                next,
                local_link_set(resolver, revision, entities),
                revision,
                resolver.repository,
            );
            let link = local_link_commit(
                resolver,
                revision,
                entities,
                found,
                indexed_at,
            ).relationships[at];
            &&& link.id == links.relationships[known].id
            &&& link.memory_revision_id == revision.id
            &&& link.target == links.relationships[known].target
            &&& link.provenance.resolution == MemoryResolutionState::Stale
        }),
{
    let id = local_link_set(resolver, revision, entities);
    stored_links_are_found_again(state, commit, links, revision, id);
    sorted_stand_under_names(links.relationships, known);
    lost_targets_stay_as_stale(
        resolver,
        revision,
        entities,
        PreviousLinksView {
            link_set: links.link_set,
            relationships: sorted::<MemoryRelationship>(links.relationships),
        },
        indexed_at,
        at,
    );
}

/// What a store holds after so many of the calls.
spec fn state_at(calls: Seq<StoreCall>, count: int) -> StoreState {
    after_calls(nothing_stored(), calls.take(count))
}

/// Every answer of such a store was owed when it was given.
proof fn owed_at(calls: Seq<StoreCall>, at: int)
    requires
        are_owed(nothing_stored(), calls),
        0 <= at < calls.len(),
    ensures
        is_owed(state_at(calls, at), calls[at]),
        state_at(calls, at + 1) == after_call(state_at(calls, at), calls[at]),
    decreases calls.len(),
{
    assert(calls.take(at + 1).drop_last() =~= calls.take(at));
    assert(calls.take(at + 1).last() == calls[at]);
    if at < calls.len() - 1 {
        let rest = calls.drop_last();
        owed_at(rest, at);
        assert(rest.take(at) =~= calls.take(at));
        assert(rest.take(at + 1) =~= calls.take(at + 1));
    } else {
        assert(calls.take(at) =~= calls.drop_last());
    }
}

/// What is written is there.
proof fn written_are_there(
    fragments: Map<Seq<char>, MemoryFragmentView>,
    writes: Seq<CachedMemoryFragmentView>,
)
    ensures
        forall|key: Seq<char>| #[trigger]
            fragments.contains_key(key) ==> with_fragments(fragments, writes).contains_key(key),
        forall|i: int|
            0 <= i < writes.len() ==> with_fragments(fragments, writes).contains_key(
                MemoryFragmentCacheKey::json((#[trigger] writes[i]).key),
            ),
    decreases writes.len(),
{
    if writes.len() > 0 {
        let rest = writes.drop_last();
        written_are_there(fragments, rest);
        assert forall|i: int| 0 <= i < writes.len() implies with_fragments(fragments, writes).contains_key(
            MemoryFragmentCacheKey::json((#[trigger] writes[i]).key),
        ) by {
            if i < rest.len() {
                assert(rest[i] == writes[i]);
            }
        }
    }
}

/// What is kept stays kept.
proof fn fragments_stay(calls: Seq<StoreCall>, from: int, to: int, key: Seq<char>)
    requires
        are_owed(nothing_stored(), calls),
        0 <= from <= to <= calls.len(),
        state_at(calls, from).fragments.contains_key(key),
    ensures
        state_at(calls, to).fragments.contains_key(key),
    decreases to - from,
{
    if from < to {
        fragments_stay(calls, from, to - 1, key);
        owed_at(calls, to - 1);
        if let StoreCall::Complete(commit, Ok(_)) = calls[to - 1] {
            written_are_there(state_at(calls, to - 1).fragments, commit.cache_writes);
        }
    }
}

/// What the facts of a source are kept under, by its reader.
pub open spec fn source_key(
    manifest: AuthorizedSourceManifestView,
    source: AuthorizedSourceDescriptorView,
) -> MemoryFragmentCacheKeyView {
    cache_key(manifest, source, first_reader(built_in(), source.category)->0)
}

/// Whether the facts under a key were there since some call, or are written.
spec fn was_kept(facts: Facts, from: int, key: MemoryFragmentCacheKeyView) -> bool {
    (exists|i: int| from <= i < facts.calls.len() && was_found(#[trigger] facts.calls[i], key))
        || exists|j: int| 0 <= j < facts.cache_writes.len() && (#[trigger] facts.cache_writes[j]).key == key
}

/// Whether a call found the facts under a key.
spec fn was_found(call: StoreCall, key: MemoryFragmentCacheKeyView) -> bool {
    call is Fragment && call->Fragment_0 == key && call->Fragment_1 is Ok && call->Fragment_1->Ok_0 is Some
}

/// What a source adds.
proof fn source_step(
    facts: Facts,
    scope: IndexScope,
    source: AuthorizedSourceDescriptorView,
    reads: Seq<(AuthorizedSourceDescriptorView, Result<SourceReadView, MemorySourceError>)>,
    calls: Seq<StoreCall>,
)
    requires
        !scope.full,
    ensures
        with_source(facts, scope, source, reads, calls) matches Ok(next) ==> {
            let reply = calls[facts.calls.len() as int]->Fragment_1;
            let key = source_key(scope.manifest, source);
            &&& facts.failed <= next.failed <= facts.failed + 1
            &&& facts.skipped <= next.skipped <= facts.skipped + 1
            &&& begins(facts.calls, next.calls)
            &&& begins(facts.cache_writes, next.cache_writes)
            &&& first_reader(built_in(), source.category) is None ==> next.skipped == facts.skipped + 1
                && next.calls == facts.calls
            &&& first_reader(built_in(), source.category) is Some ==> {
                &&& next.calls == facts.calls.push(StoreCall::Fragment(key, reply))
                &&& reply is Ok
                &&& reply->Ok_0 is Some ==> next.reused == facts.reused + 1 && next.extracted
                    == facts.extracted && next.failed == facts.failed && next.skipped == facts.skipped
                &&& reply->Ok_0 is None ==> next.failed == facts.failed + 1 || (
                next.cache_writes.len() == facts.cache_writes.len() + 1 && next.cache_writes.last().key
                    == key)
            }
        },
{
    reveal(with_read);
    reveal(with_fragment);
}

/// What some sources add, where each of them can be read: all their facts were there or are written.
proof fn sources_are_kept(
    facts: Facts,
    scope: IndexScope,
    sources: Seq<AuthorizedSourceDescriptorView>,
    reads: Seq<(AuthorizedSourceDescriptorView, Result<SourceReadView, MemorySourceError>)>,
    calls: Seq<StoreCall>,
    all: Facts,
)
    requires
        !scope.full,
        with_sources(facts, scope, sources, reads, calls) == Ok::<_, MemoryIndexError>(all),
    ensures
        begins(facts.calls, all.calls),
        begins(facts.cache_writes, all.cache_writes),
        facts.failed <= all.failed <= facts.failed + sources.len(),
        facts.skipped <= all.skipped <= facts.skipped + sources.len(),
        forall|i: int| facts.calls.len() <= i < all.calls.len() ==> #[trigger] all.calls[i] is Fragment,
        all.failed == facts.failed && all.skipped == facts.skipped ==> forall|k: int|
            0 <= k < sources.len() ==> first_reader(built_in(), (#[trigger] sources[k]).category) is Some
                && was_kept(
                all,
                facts.calls.len() as int,
                source_key(scope.manifest, sources[k]),
            ),
    decreases sources.len(),
{
    if sources.len() > 0 {
        let next = with_source(facts, scope, sources[0], reads, calls)->Ok_0;
        source_step(facts, scope, sources[0], reads, calls);
        sources_are_kept(next, scope, sources.skip(1), reads, calls, all);
        assert forall|i: int|
            facts.calls.len() <= i < all.calls.len() implies #[trigger] all.calls[i] is Fragment by {
            if i < next.calls.len() {
                assert(all.calls[i] == next.calls[i]);
            }
        }
        if all.failed == facts.failed && all.skipped == facts.skipped {
            assert forall|k: int| 0 <= k < sources.len() implies first_reader(
                built_in(),
                (#[trigger] sources[k]).category,
            ) is Some && was_kept(
                all,
                facts.calls.len() as int,
                source_key(scope.manifest, sources[k]),
            ) by {
                let key = source_key(scope.manifest, sources[k]);
                if k > 0 {
                    assert(sources.skip(1)[k - 1] == sources[k]);
                    assert(was_kept(all, next.calls.len() as int, key));
                    if exists|i: int| next.calls.len() <= i < all.calls.len() && was_found(
                        #[trigger] all.calls[i],
                        key,
                    ) {
                        let i = choose|i: int| next.calls.len() <= i < all.calls.len() && was_found(
                            #[trigger] all.calls[i],
                            key,
                        );
                        assert(was_found(all.calls[i], key));
                    }
                } else {
                    let at = facts.calls.len() as int;
                    assert(all.calls[at] == next.calls[at]);
                    let reply = calls[at]->Fragment_1;
                    if reply->Ok_0 is Some {
                        assert(was_found(all.calls[at], key));
                    } else {
                        let j = next.cache_writes.len() - 1;
                        assert(all.cache_writes[j] == next.cache_writes[j]);
                    }
                }
            }
        }
    }
}

/// Where all facts are there, all sources are reused.
proof fn kept_sources_are_reused(
    facts: Facts,
    scope: IndexScope,
    sources: Seq<AuthorizedSourceDescriptorView>,
    reads: Seq<(AuthorizedSourceDescriptorView, Result<SourceReadView, MemorySourceError>)>,
    calls: Seq<StoreCall>,
    all: Facts,
)
    requires
        !scope.full,
        with_sources(facts, scope, sources, reads, calls) == Ok::<_, MemoryIndexError>(all),
        begins(all.calls, calls),
        are_owed(nothing_stored(), calls),
        forall|k: int|
            0 <= k < sources.len() ==> first_reader(built_in(), (#[trigger] sources[k]).category) is Some
                && state_at(calls, facts.calls.len() as int).fragments.contains_key(
                MemoryFragmentCacheKey::json(source_key(scope.manifest, sources[k])),
            ),
    ensures
        all.reused == facts.reused + sources.len(),
        all.extracted == facts.extracted,
    decreases sources.len(),
{
    if sources.len() > 0 {
        let next = with_source(facts, scope, sources[0], reads, calls)->Ok_0;
        let at = facts.calls.len() as int;
        source_step(facts, scope, sources[0], reads, calls);
        sources_are_kept(next, scope, sources.skip(1), reads, calls, all);
        assert(next.calls[at] == all.calls[at]);
        assert(calls[at] == all.calls[at]);
        owed_at(calls, at);
        assert forall|k: int| 0 <= k < sources.skip(1).len() implies first_reader(
            built_in(),
            (#[trigger] sources.skip(1)[k]).category,
        ) is Some && state_at(calls, next.calls.len() as int).fragments.contains_key(
            MemoryFragmentCacheKey::json(source_key(scope.manifest, sources.skip(1)[k])),
        ) by {
            assert(sources.skip(1)[k] == sources[k + 1]);
            fragments_stay(
                calls,
                at,
                at + 1,
                MemoryFragmentCacheKey::json(source_key(scope.manifest, sources[k + 1])),
            );
        }
        kept_sources_are_reused(next, scope, sources.skip(1), reads, calls, all);
    }
}

/// What a run that came to an end did: how it began, what its sources added up to, what it stored, and
/// what the store was asked before.
pub struct RunTrace {
    pub run: BegunRun,
    pub facts: Facts,
    pub commit: MemoryCommitView,
    pub asked: Seq<StoreCall>,
}

/// What a run did, given what others said in it.
pub open spec fn trace_of(
    view_name: Seq<char>,
    full: bool,
    build_id: Seq<char>,
    indexed_at: Seq<char>,
    replies: IndexReplies,
) -> RunTrace {
    let run = begun_run(view_name, full, build_id, indexed_at, replies)->Ok_0;
    let stored = prepared(run.scope, replies, run.asked)->Ok_0;
    RunTrace {
        run,
        facts: with_sources(
            no_sources(replies.reads_before, run.asked),
            run.scope,
            run.scope.manifest.sources,
            replies.reads,
            replies.calls,
        )->Ok_0,
        commit: stored.0,
        asked: stored.1,
    }
}

/// Whether a call asks for links.
spec fn asks_for_links(call: StoreCall) -> bool {
    call is LinkSet || call is LatestLinkSet || call is CompatibleLinkSet || call is Links
}

proof fn linking_only_reads(
    scope: IndexScope,
    facts: Facts,
    resolver: LocalRepositoryLinkResolverView,
    calls: Seq<StoreCall>,
    duration_ms: u64,
)
    ensures
        linked_commit(scope, facts, resolver, calls, duration_ms) matches Ok((commit, asked)) ==> {
            &&& begins(facts.calls, asked)
            &&& forall|i: int| facts.calls.len() <= i < asked.len() ==> asks_for_links(#[trigger] asked[i])
            &&& commit.revision == scope.revision
            &&& commit.cache_writes == facts.cache_writes
            &&& commit.metrics.discovered_sources == scope.manifest.sources.len() as u64
            &&& commit.metrics.reused_sources == facts.reused as u64
            &&& commit.metrics.extracted_sources == facts.extracted as u64
            &&& commit.metrics.failed_sources == facts.failed as u64
            &&& commit.metrics.skipped_sources == facts.skipped as u64
        },
{
    reveal(linked_commit);
}

/// Whether a run of this trace asked the store so.
spec fn traced(
    trace: RunTrace,
    view_name: Seq<char>,
    id: Seq<char>,
    before: Seq<StoreCall>,
    calls: Seq<StoreCall>,
    outcome: MemoryIndexOutcomeView,
) -> bool {
    let manifest = trace.run.scope.manifest;
    let at = trace.asked.len() as int;
    &&& trace.run.scope.revision == revision_of(manifest, id)
    &&& trace.commit.revision == trace.run.scope.revision
    &&& trace.commit.cache_writes == trace.facts.cache_writes
    &&& outcome.metrics == trace.commit.metrics
    &&& outcome.metrics.discovered_sources == manifest.sources.len() as u64
    &&& outcome.metrics.reused_sources == trace.facts.reused as u64
    &&& outcome.metrics.extracted_sources == trace.facts.extracted as u64
    &&& outcome.metrics.failed_sources == trace.facts.failed as u64
    &&& outcome.metrics.skipped_sources == trace.facts.skipped as u64
    &&& trace.run.asked.len() == before.len() + 2
    &&& trace.run.asked[before.len() as int] == StoreCall::View(
        manifest.project,
        view_name,
        Ok(trace.run.current),
    )
    &&& trace.run.asked[before.len() as int + 1] is Start
    &&& begins(trace.run.asked, trace.facts.calls)
    &&& begins(trace.facts.calls, trace.asked)
    &&& begins(trace.asked, calls)
    &&& forall|i: int| trace.run.asked.len() <= i < at ==> !is_publication(#[trigger] calls[i])
    &&& calls.len() > at + 2
    &&& calls[at] is Complete
    &&& calls[at]->Complete_0 == trace.commit
    &&& calls[at]->Complete_1 is Ok
    &&& calls[at + 1] == StoreCall::Revision(trace.commit.revision.id, Ok(Some(outcome.revision)))
    &&& calls[at + 2] is Publish
    &&& calls[at + 2]->Publish_0 == (MemoryPublishRequestView {
        project: manifest.project,
        view_name,
        build_id: id,
        expected: version_of(trace.run.current),
    })
    &&& match calls[at + 2]->Publish_1 {
        Ok(publication) => calls.len() == at + 3 && outcome.publication == publication,
        Err(_) => outcome.publication is Superseded,
    }
}

/// What a run that came to an end asked.
proof fn run_is_traced<S: MemorySource, T: MemoryStore, R: LinkResolvers>(
    before: MemoryIndexer<S, T, R>,
    after: MemoryIndexer<S, T, R>,
    id: Seq<char>,
    indexed_at: Seq<char>,
    outcome: MemoryIndexOutcomeView,
    replies: IndexReplies,
)
    requires
        ran(before, after, false, id, indexed_at, Ok(outcome), replies),
    ensures
        ({
            let view_name = before.view_name.deep_view();
            let trace = trace_of(view_name, false, id, indexed_at, replies);
            &&& replies.calls == after.store.calls()
            &&& replies.manifest == Ok::<_, MemorySourceError>(trace.run.scope.manifest)
            &&& !trace.run.scope.full
            &&& with_sources(
                no_sources(replies.reads_before, trace.run.asked),
                trace.run.scope,
                trace.run.scope.manifest.sources,
                replies.reads,
                replies.calls,
            ) == Ok::<_, MemoryIndexError>(trace.facts)
            &&& replies.resolver is Some
            &&& linked_commit(
                trace.run.scope,
                trace.facts,
                replies.resolver->0,
                replies.calls,
                replies.duration_ms,
            ) == Ok::<_, MemoryIndexError>((trace.commit, trace.asked))
            &&& traced(
                trace,
                view_name,
                id,
                before.store.calls(),
                after.store.calls(),
                outcome,
            )
        }),
{
    reveal(ran);
    reveal(begun_build);
    let view_name = before.view_name.deep_view();
    let trace = trace_of(view_name, false, id, indexed_at, replies);
    let calls = after.store.calls();
    let run = begun_run(view_name, false, id, indexed_at, replies);
    assert(run is Ok);
    let facts = trace.facts;
    assert(prepared(trace.run.scope, replies, trace.run.asked) is Ok);
    sources_are_kept(
        no_sources(replies.reads_before, trace.run.asked),
        trace.run.scope,
        trace.run.scope.manifest.sources,
        replies.reads,
        replies.calls,
        facts,
    );
    linking_only_reads(
        trace.run.scope,
        facts,
        replies.resolver->0,
        replies.calls,
        replies.duration_ms,
    );
    assert(begins(trace.asked, calls));
    assert forall|i: int|
        trace.run.asked.len() <= i < trace.asked.len() implies !is_publication(#[trigger] calls[i]) by {
        assert(calls[i] == trace.asked[i]);
        if i < facts.calls.len() {
            assert(trace.asked[i] == facts.calls[i]);
        } else {
            assert(asks_for_links(trace.asked[i]));
        }
    }
    let at = trace.asked.len() as int;
    let commit = trace.commit;
    let base = before.store.calls();
    assert(trace.run.scope.revision == revision_of(trace.run.scope.manifest, id));
    assert(commit.revision == trace.run.scope.revision);
    assert(commit.cache_writes == facts.cache_writes);
    assert(outcome.metrics == commit.metrics);
    assert(trace.run.asked.len() == base.len() + 2);
    assert(trace.run.asked[base.len() as int] == StoreCall::View(
        trace.run.scope.manifest.project,
        view_name,
        Ok(trace.run.current),
    ));
    assert(trace.run.asked[base.len() as int + 1] is Start);
    assert(calls.len() > at + 2);
    assert(calls[at] is Complete && calls[at]->Complete_0 == commit && calls[at]->Complete_1 is Ok);
    assert(calls[at + 1] == StoreCall::Revision(commit.revision.id, Ok(Some(outcome.revision))));
    assert(calls[at + 2] is Publish);
}

/// What a store holds is sound after every call.
proof fn sound_at(calls: Seq<StoreCall>, count: int)
    requires
        are_owed(nothing_stored(), calls),
        0 <= count <= calls.len(),
    ensures
        is_sound(state_at(calls, count)),
    decreases count,
{
    if count == 0 {
        nothing_is_sound();
        assert(calls.take(0) =~= Seq::empty());
    } else {
        sound_at(calls, count - 1);
        owed_at(calls, count - 1);
        calls_keep_soundness(state_at(calls, count - 1), calls[count - 1]);
    }
}

/// The views stay as they are where nothing is published.
proof fn views_stay(calls: Seq<StoreCall>, from: int, to: int)
    requires
        are_owed(nothing_stored(), calls),
        0 <= from <= to <= calls.len(),
        forall|i: int| from <= i < to ==> !is_publication(#[trigger] calls[i]),
    ensures
        state_at(calls, to).views == state_at(calls, from).views,
    decreases to - from,
{
    if from < to {
        views_stay(calls, from, to - 1);
        sound_at(calls, to - 1);
        owed_at(calls, to - 1);
        calls_keep_soundness(state_at(calls, to - 1), calls[to - 1]);
    }
}

/// A build that was completed is there, with its revision, when it is published.
proof fn completed_build_is_there(trace: RunTrace, calls: Seq<StoreCall>)
    requires
        are_owed(nothing_stored(), calls),
        trace.asked.len() + 2 < calls.len(),
        calls[trace.asked.len() as int] is Complete,
        calls[trace.asked.len() as int]->Complete_0 == trace.commit,
        calls[trace.asked.len() as int]->Complete_1 is Ok,
        calls[trace.asked.len() as int + 1] is Revision,
    ensures
        ({
            let state = state_at(calls, trace.asked.len() as int + 2);
            let revision = trace.commit.revision;
            let build = found(state.builds, revision.completed_by);
            &&& build is Some
            &&& build->0.project == revision.project
            &&& build->0.state == MemoryBuildState::Complete
            &&& build->0.prospective_revision_id == revision.id
            &&& found(state.revisions, revision.id) is Some
            &&& found(state.revisions, revision.id)->0.id == revision.id
            &&& state == state_at(calls, trace.asked.len() as int + 1)
        }),
{
    let at = trace.asked.len() as int;
    owed_at(calls, at);
    owed_at(calls, at + 1);
    sound_at(calls, at + 2);
}

/// After a run that published, its view shows its revision.
proof fn published_run_is_shown(
    trace: RunTrace,
    view_name: Seq<char>,
    id: Seq<char>,
    before: Seq<StoreCall>,
    calls: Seq<StoreCall>,
    outcome: MemoryIndexOutcomeView,
)
    requires
        are_owed(nothing_stored(), calls),
        traced(trace, view_name, id, before, calls, outcome),
        outcome.publication is Published,
    ensures
        ({
            let shown = view_of(
                state_at(calls, calls.len() as int).views,
                trace.run.scope.manifest.project,
                view_name,
            );
            shown is Some && shown->0.revision_id == trace.run.scope.manifest.revision()
        }),
{
    let at = trace.asked.len() as int;
    let state = state_at(calls, at + 2);
    completed_build_is_there(trace, calls);
    owed_at(calls, at + 2);
    let request = calls[at + 2]->Publish_0;
    assert(calls[at + 2]->Publish_1 is Ok);
    match publication_in(state, request)->Ok_0 {
        PublicationView::Kept { view } => {},
        PublicationView::Replaced { view } => {
            written_views_are_shown(state.views, view);
        },
    }
}

/// After a run all of whose sources could be read, the facts of every source are kept.
proof fn run_keeps_facts(
    trace: RunTrace,
    view_name: Seq<char>,
    id: Seq<char>,
    before: Seq<StoreCall>,
    calls: Seq<StoreCall>,
    outcome: MemoryIndexOutcomeView,
    key: MemoryFragmentCacheKeyView,
)
    requires
        are_owed(nothing_stored(), calls),
        traced(trace, view_name, id, before, calls, outcome),
        was_kept(trace.facts, trace.run.asked.len() as int, key),
    ensures
        state_at(calls, calls.len() as int).fragments.contains_key(MemoryFragmentCacheKey::json(key)),
{
    let facts = trace.facts;
    let text = MemoryFragmentCacheKey::json(key);
    if exists|i: int| trace.run.asked.len() <= i < facts.calls.len() && was_found(
        #[trigger] facts.calls[i],
        key,
    ) {
        let i = choose|i: int| trace.run.asked.len() <= i < facts.calls.len() && was_found(
            #[trigger] facts.calls[i],
            key,
        );
        assert(trace.asked[i] == facts.calls[i]);
        assert(calls[i] == trace.asked[i]);
        owed_at(calls, i);
        fragments_stay(calls, i, calls.len() as int, text);
    } else {
        let at = trace.asked.len() as int;
        let j = choose|j: int|
            0 <= j < facts.cache_writes.len() && (#[trigger] facts.cache_writes[j]).key == key;
        owed_at(calls, at);
        written_are_there(state_at(calls, at).fragments, trace.commit.cache_writes);
        assert(trace.commit.cache_writes[j].key == key);
        fragments_stay(calls, at + 1, calls.len() as int, text);
    }
}

/// What a store holds that answered every call as it owed, after these calls.
pub open spec fn held_after(calls: Seq<StoreCall>) -> StoreState {
    after_calls(nothing_stored(), calls)
}

/// What was owed of all calls was owed of the first ones.
proof fn first_are_owed(calls: Seq<StoreCall>, count: int)
    requires
        are_owed(nothing_stored(), calls),
        0 <= count <= calls.len(),
    ensures
        are_owed(nothing_stored(), calls.take(count)),
    decreases calls.len() - count,
{
    if count == calls.len() {
        assert(calls.take(count) =~= calls);
    } else {
        first_are_owed(calls, count + 1);
        assert(calls.take(count + 1).drop_last() =~= calls.take(count));
    }
}

/// A second run over the same sources finds everything as it was: where the first run read or reused
/// every source and published what it found, and the store answers as it owes and was asked nothing in
/// between, the second run comes to the same revision, reuses every source and reads none anew, and every
/// view shows what it showed, in the same generation.
pub proof fn unchanged_sources_are_reused<S: MemorySource, T: MemoryStore, R: LinkResolvers>(
    start: MemoryIndexer<S, T, R>,
    middle: MemoryIndexer<S, T, R>,
    last: MemoryIndexer<S, T, R>,
    first_id: Seq<char>,
    second_id: Seq<char>,
    first_at: Seq<char>,
    second_at: Seq<char>,
    first_replies: IndexReplies,
    second_replies: IndexReplies,
    first: MemoryIndexOutcomeView,
    second: MemoryIndexOutcomeView,
)
    requires
        are_owed(nothing_stored(), last.store.calls()),
        ran(start, middle, false, first_id, first_at, Ok(first), first_replies),
        ran(middle, last, false, second_id, second_at, Ok(second), second_replies),
        begins(middle.store.calls(), last.store.calls()),
        middle.view_name.deep_view() == start.view_name.deep_view(),
        second_replies.manifest == first_replies.manifest,
        first_replies.manifest->Ok_0.sources.len() <= u64::MAX,
        first.publication is Published,
        first.metrics.failed_sources == 0,
        first.metrics.skipped_sources == 0,
    ensures
        second.revision.id == first.revision.id,
        second.metrics.reused_sources == first.metrics.discovered_sources,
        second.metrics.extracted_sources == 0,
        held_after(last.store.calls()).views == held_after(middle.store.calls()).views,
        second.publication is Published,
        second.publication->view == view_of(
            held_after(middle.store.calls()).views,
            first_replies.manifest->Ok_0.project,
            middle.view_name.deep_view(),
        )->0,
{
    let name = middle.view_name.deep_view();
    let before = middle.store.calls();
    let calls = last.store.calls();
    assert(calls.take(before.len() as int) =~= before);
    first_are_owed(calls, before.len() as int);
    run_is_traced(start, middle, first_id, first_at, first, first_replies);
    run_is_traced(middle, last, second_id, second_at, second, second_replies);
    let one = trace_of(name, false, first_id, first_at, first_replies);
    let two = trace_of(name, false, second_id, second_at, second_replies);
    let manifest = one.run.scope.manifest;
    let base = before.len() as int;
    assert(before.take(base) =~= before);
    assert(calls.take(base) =~= before);
    assert(calls.take(calls.len() as int) =~= calls);
    assert(state_at(calls, base) == held_after(before));
    // What the first run left behind.
    sources_are_kept(
        no_sources(first_replies.reads_before, one.run.asked),
        one.run.scope,
        manifest.sources,
        first_replies.reads,
        first_replies.calls,
        one.facts,
    );
    assert forall|k: int| 0 <= k < manifest.sources.len() implies first_reader(
        built_in(),
        (#[trigger] manifest.sources[k]).category,
    ) is Some && state_at(calls, two.run.asked.len() as int).fragments.contains_key(
        MemoryFragmentCacheKey::json(source_key(manifest, manifest.sources[k])),
    ) by {
        let key = source_key(manifest, manifest.sources[k]);
        run_keeps_facts(one, name, first_id, start.store.calls(), before, first, key);
        fragments_stay(
            calls,
            base,
            two.run.asked.len() as int,
            MemoryFragmentCacheKey::json(key),
        );
    }
    published_run_is_shown(one, name, first_id, start.store.calls(), before, first);
    // What the second run finds of it.
    assert(begins(two.facts.calls, calls)) by {
        assert forall|i: int| 0 <= i < two.facts.calls.len() implies #[trigger] calls[i]
            == two.facts.calls[i] by {
            assert(two.asked[i] == two.facts.calls[i]);
        }
    }
    kept_sources_are_reused(
        no_sources(second_replies.reads_before, two.run.asked),
        two.run.scope,
        manifest.sources,
        second_replies.reads,
        second_replies.calls,
        two.facts,
    );
    second_run_keeps_views(two, name, second_id, before, calls, second);
    // Both stored revisions have the name that the manifest gives.
    let first_end = one.asked.len() as int;
    let second_end = two.asked.len() as int;
    completed_build_is_there(one, before);
    completed_build_is_there(two, calls);
    owed_at(before, first_end + 1);
    owed_at(calls, second_end + 1);
}

/// A run to the revision that its view shows leaves every view as it is.
proof fn second_run_keeps_views(
    trace: RunTrace,
    view_name: Seq<char>,
    id: Seq<char>,
    before: Seq<StoreCall>,
    calls: Seq<StoreCall>,
    outcome: MemoryIndexOutcomeView,
)
    requires
        are_owed(nothing_stored(), calls),
        begins(before, calls),
        traced(trace, view_name, id, before, calls, outcome),
        ({
            let shown = view_of(
                state_at(calls, before.len() as int).views,
                trace.run.scope.manifest.project,
                view_name,
            );
            shown is Some && shown->0.revision_id == trace.run.scope.manifest.revision()
        }),
    ensures
        state_at(calls, calls.len() as int).views == state_at(calls, before.len() as int).views,
        outcome.publication is Published,
        outcome.publication->view == view_of(
            state_at(calls, before.len() as int).views,
            trace.run.scope.manifest.project,
            view_name,
        )->0,
{
    let base = before.len() as int;
    let at = trace.asked.len() as int;
    assert(calls[base] == trace.run.asked[base]) by {
        assert(trace.facts.calls[base] == trace.run.asked[base]);
        assert(trace.asked[base] == trace.facts.calls[base]);
    }
    assert(calls[base + 1] == trace.run.asked[base + 1]) by {
        assert(trace.facts.calls[base + 1] == trace.run.asked[base + 1]);
        assert(trace.asked[base + 1] == trace.facts.calls[base + 1]);
    }
    owed_at(calls, base);
    assert forall|i: int| base <= i < at + 2 implies !is_publication(#[trigger] calls[i]) by {
        if i >= trace.run.asked.len() && i < at {
            assert(!is_publication(calls[i]));
        }
    }
    views_stay(calls, base, at + 2);
    completed_build_is_there(trace, calls);
    owed_at(calls, at + 2);
    let state = state_at(calls, at + 2);
    let request = calls[at + 2]->Publish_0;
    assert(publication_in(state, request) is Ok);
    assert(publication_in(state, request)->Ok_0 is Kept);
}

/// A ledger answers every call as it owes, so what is said of such a store holds of two runs on a ledger.
pub proof fn ledgers_answer_as_they_owe(ledger: MemoryLedger)
    requires
        ledger.ready(),
    ensures
        are_owed(nothing_stored(), ledger.calls()),
        held_after(ledger.calls()) == ledger.state(),
{
    ledger.holds_together();
}

/// Calls that complete no build leave links and revisions as they are.
proof fn links_stay(calls: Seq<StoreCall>, from: int, to: int)
    requires
        are_owed(nothing_stored(), calls),
        0 <= from <= to <= calls.len(),
        forall|i: int| from <= i < to ==> !(#[trigger] calls[i] is Complete),
    ensures
        state_at(calls, to).links == state_at(calls, from).links,
        state_at(calls, to).revisions == state_at(calls, from).revisions,
    decreases to - from,
{
    if from < to {
        links_stay(calls, from, to - 1);
        owed_at(calls, to - 1);
    }
}

/// Calls that only ask for links change nothing.
proof fn asking_changes_nothing(calls: Seq<StoreCall>, from: int, to: int)
    requires
        are_owed(nothing_stored(), calls),
        0 <= from <= to <= calls.len(),
        forall|i: int| from <= i < to ==> asks_for_links(#[trigger] calls[i]),
    ensures
        forall|i: int| from <= i <= to ==> #[trigger] state_at(calls, i) == state_at(calls, from),
    decreases to - from,
{
    if from < to {
        asking_changes_nothing(calls, from, to - 1);
        owed_at(calls, to - 1);
    }
}

/// A stale link counts.
proof fn stale_links_count(relationships: Seq<MemoryRelationshipView>, at: int)
    requires
        0 <= at < relationships.len(),
        relationships[at].provenance.resolution == MemoryResolutionState::Stale,
    ensures
        stale_count(relationships) > 0,
    decreases relationships.len(),
{
    if at < relationships.len() - 1 {
        stale_links_count(relationships.drop_last(), at);
    }
}

/// Links are resolved against what the store has when it is asked.
proof fn linking_hears_the_store(
    scope: IndexScope,
    facts: Facts,
    resolver: LocalRepositoryLinkResolverView,
    known: Seq<StoreCall>,
    duration_ms: u64,
    commit: MemoryCommitView,
    asked: Seq<StoreCall>,
    calls: Seq<StoreCall>,
)
    requires
        linked_commit(scope, facts, resolver, known, duration_ms) == Ok::<_, MemoryIndexError>(
            (commit, asked),
        ),
        begins(asked, calls),
        are_owed(nothing_stored(), calls),
    ensures
        ({
            let entities = values_in_order(facts.entities);
            let links = local_link_commit(
                resolver,
                scope.revision,
                entities,
                stored_links(
                    state_at(calls, asked.len() as int),
                    local_link_set(resolver, scope.revision, entities),
                    scope.revision,
                    resolver.repository,
                ),
                scope.indexed_at,
            );
            &&& commit.repository_links == seq![links]
            &&& commit.metrics.stale_links == stale_count(links.relationships) as u64
        }),
{
    linking_only_reads(scope, facts, resolver, known, duration_ms);
    reveal(linked_commit);
    let set = local_link_set(resolver, scope.revision, values_in_order(facts.entities));
    let from = facts.calls.len() as int;
    let to = asked.len() as int;
    assert forall|i: int| from <= i < to implies asks_for_links(#[trigger] calls[i]) by {
        assert(calls[i] == asked[i]);
        assert(asks_for_links(asked[i]));
    }
    asking_changes_nothing(calls, from, to);
    assert(previous_links(facts.calls, set, scope.revision, resolver.repository, known).1 == asked);
    assert forall|i: int| from <= i < to implies is_owed(state_at(calls, to), #[trigger] asked[i]) by {
        owed_at(calls, i);
        assert(calls[i] == asked[i]);
        assert(state_at(calls, i) == state_at(calls, from));
        assert(state_at(calls, to) == state_at(calls, from));
    }
    earlier_links_are_heard(
        state_at(calls, to),
        facts.calls,
        set,
        scope.revision,
        resolver.repository,
        known,
    );
}

/// Until a run stores what it found, it completes no build.
proof fn nothing_is_completed_before<S: MemorySource, T: MemoryStore, R: LinkResolvers>(
    before: MemoryIndexer<S, T, R>,
    after: MemoryIndexer<S, T, R>,
    id: Seq<char>,
    indexed_at: Seq<char>,
    outcome: MemoryIndexOutcomeView,
    replies: IndexReplies,
)
    requires
        ran(before, after, false, id, indexed_at, Ok(outcome), replies),
    ensures
        ({
            let trace = trace_of(before.view_name.deep_view(), false, id, indexed_at, replies);
            &&& before.store.calls().len() <= trace.asked.len()
            &&& forall|i: int|
                before.store.calls().len() <= i < trace.asked.len() ==> !(#[trigger] trace.asked[i] is Complete)
        }),
{
    run_is_traced(before, after, id, indexed_at, outcome, replies);
    let trace = trace_of(before.view_name.deep_view(), false, id, indexed_at, replies);
    let facts = trace.facts;
    linking_only_reads(
        trace.run.scope,
        facts,
        replies.resolver->0,
        replies.calls,
        replies.duration_ms,
    );
    sources_are_kept(
        no_sources(replies.reads_before, trace.run.asked),
        trace.run.scope,
        trace.run.scope.manifest.sources,
        replies.reads,
        replies.calls,
        facts,
    );
    assert forall|i: int| before.store.calls().len() <= i < trace.asked.len() implies !(
    #[trigger] trace.asked[i] is Complete) by {
        if i < facts.calls.len() {
            assert(trace.asked[i] == facts.calls[i]);
            if i < trace.run.asked.len() {
                assert(facts.calls[i] == trace.run.asked[i]);
            } else {
                assert(facts.calls[i] is Fragment);
            }
        } else {
            assert(asks_for_links(trace.asked[i]));
        }
    }
}

/// A run is indexed when it says.
proof fn run_is_dated<S: MemorySource, T: MemoryStore, R: LinkResolvers>(
    before: MemoryIndexer<S, T, R>,
    after: MemoryIndexer<S, T, R>,
    id: Seq<char>,
    indexed_at: Seq<char>,
    outcome: MemoryIndexOutcomeView,
    replies: IndexReplies,
)
    requires
        ran(before, after, false, id, indexed_at, Ok(outcome), replies),
    ensures
        trace_of(before.view_name.deep_view(), false, id, indexed_at, replies).run.scope.indexed_at
            == indexed_at,
{
    reveal(ran);
    reveal(begun_build);
}

/// Whether a link that one run resolved has lost its target when the next run asks: the link was stored
/// anew with a revision, the next revision is another one that was made the same way and has no links
/// yet, and nothing in the repository answers the candidate of the same name now.
#[verifier::opaque]
pub open spec fn link_is_lost(
    before: StoreState,
    held: StoreState,
    links: MemoryRepositoryLinkCommitView,
    stored: MemoryRevisionView,
    known: int,
    resolver: LocalRepositoryLinkResolverView,
    revision: MemoryRevisionView,
    entities: Seq<MemoryEntityView>,
    at: int,
) -> bool {
    let candidates = kept_candidates(local_candidates(resolver, revision, entities));
    &&& links_of(before.links, links.link_set.id) is None
    &&& is_compatible(stored, revision)
    &&& resolver.repository == links.link_set.repository
    &&& resolver.repository_snapshot_id is Some
    &&& latest_links(held.links, revision.id, resolver.repository) is None
    &&& links_of(held.links, local_link_set(resolver, revision, entities)) is None
    &&& 0 <= known < links.relationships.len()
    &&& links.relationships[known].provenance.resolution != MemoryResolutionState::Unresolved
    &&& 0 <= at < candidates.len()
    &&& candidates[at].id == links.relationships[known].id
    &&& is_lost(resolver, candidates[at])
}

/// Whether a link is an earlier one that has become stale.
pub open spec fn is_stale_copy(
    links: MemoryRepositoryLinkCommitView,
    at: int,
    before: MemoryRelationshipView,
    revision_id: Seq<char>,
) -> bool {
    &&& 0 <= at < links.relationships.len()
    &&& links.relationships[at].id == before.id
    &&& links.relationships[at].memory_revision_id == revision_id
    &&& links.relationships[at].target == before.target
    &&& links.relationships[at].provenance.resolution == MemoryResolutionState::Stale
}

/// What links look like that were stored at one time and looked for at a later one.
proof fn stored_links_grow_stale(
    calls: Seq<StoreCall>,
    start: int,
    end: int,
    base: int,
    later: int,
    commit: MemoryCommitView,
    stored: MemoryRevisionView,
    known: int,
    resolver: LocalRepositoryLinkResolverView,
    revision: MemoryRevisionView,
    entities: Seq<MemoryEntityView>,
    indexed_at: Seq<char>,
    at: int,
)
    requires
        are_owed(nothing_stored(), calls),
        0 <= start <= end < base <= later <= calls.len(),
        end + 1 < calls.len(),
        calls[end] is Complete,
        calls[end]->Complete_0 == commit,
        calls[end]->Complete_1 is Ok,
        calls[end + 1] == StoreCall::Revision(commit.revision.id, Ok(Some(stored))),
        forall|i: int| start <= i < end ==> !(#[trigger] calls[i] is Complete),
        forall|i: int| end < i < later ==> !(#[trigger] calls[i] is Complete),
        commit.repository_links.len() == 1,
        link_is_lost(
            state_at(calls, start),
            state_at(calls, base),
            commit.repository_links[0],
            stored,
            known,
            resolver,
            revision,
            entities,
            at,
        ),
    ensures
        is_stale_copy(
            local_link_commit(
                resolver,
                revision,
                entities,
                stored_links(
                    state_at(calls, later),
                    local_link_set(resolver, revision, entities),
                    revision,
                    resolver.repository,
                ),
                indexed_at,
            ),
            at,
            commit.repository_links[0].relationships[known],
            revision.id,
        ),
{
    reveal(link_is_lost);
    let links = commit.repository_links[0];
    let state = state_at(calls, end);
    assert(commit.repository_links =~= seq![links]);
    owed_at(calls, end);
    owed_at(calls, end + 1);
    sound_at(calls, end + 1);
    let next = completed(state, commit)->Ok_0;
    assert(state_at(calls, end + 1) == next);
    links_stay(calls, start, end);
    links_stay(calls, end + 1, base);
    links_stay(calls, end + 1, later);
    assert(commit.repository_links.drop_last() =~= Seq::empty());
    assert(commit.repository_links.last() == links);
    assert(with_links(state.links, commit.revision, Seq::empty()) == Ok::<
        _,
        crate::store::MemoryStoreError,
    >(state.links));
    assert(next.links == with_link_set(state.links, commit.revision, links)->Ok_0);
    assert(next.links.drop_last() =~= state.links);
    assert(next.links.last().link_set == links.link_set);
    found_links_outlive_their_revision(
        state,
        commit,
        links,
        known,
        resolver,
        revision,
        entities,
        indexed_at,
        at,
    );
    let id = local_link_set(resolver, revision, entities);
    assert(stored_links(state_at(calls, later), id, revision, resolver.repository) == stored_links(
        next,
        id,
        revision,
        resolver.repository,
    ));
    let found = local_links(
        resolver,
        revision,
        entities,
        stored_links(next, id, revision, resolver.repository),
        indexed_at,
    );
    assert(found.len() == kept_candidates(local_candidates(resolver, revision, entities)).len());
}

/// A link that one run resolved becomes a stale one in the next run, where its target is gone then: the
/// next run, to another revision made the same way, counts stale links and stores this one with the target
/// that it had. The store answers as it owes and was asked nothing in between, and nothing was linked from
/// the new revision yet.
pub proof fn lost_links_become_stale_in_the_next_run<S: MemorySource, T: MemoryStore, R: LinkResolvers>(
    start: MemoryIndexer<S, T, R>,
    middle: MemoryIndexer<S, T, R>,
    last: MemoryIndexer<S, T, R>,
    first_id: Seq<char>,
    second_id: Seq<char>,
    first_at: Seq<char>,
    second_at: Seq<char>,
    first_replies: IndexReplies,
    second_replies: IndexReplies,
    first: MemoryIndexOutcomeView,
    second: MemoryIndexOutcomeView,
    known: int,
    at: int,
)
    requires
        are_owed(nothing_stored(), last.store.calls()),
        ran(start, middle, false, first_id, first_at, Ok(first), first_replies),
        ran(middle, last, false, second_id, second_at, Ok(second), second_replies),
        begins(start.store.calls(), middle.store.calls()),
        begins(middle.store.calls(), last.store.calls()),
        first.publication is Published,
        ({
            let one = trace_of(start.view_name.deep_view(), false, first_id, first_at, first_replies);
            let two = trace_of(middle.view_name.deep_view(), false, second_id, second_at, second_replies);
            &&& link_is_lost(
                held_after(start.store.calls()),
                held_after(middle.store.calls()),
                one.commit.repository_links[0],
                first.revision,
                known,
                second_replies.resolver->0,
                two.run.scope.revision,
                values_in_order(two.facts.entities),
                at,
            )
            &&& stale_count(two.commit.repository_links[0].relationships) <= u64::MAX
        }),
    ensures
        ({
            let one = trace_of(start.view_name.deep_view(), false, first_id, first_at, first_replies);
            let two = trace_of(middle.view_name.deep_view(), false, second_id, second_at, second_replies);
            &&& second.revision.id != first.revision.id
            &&& second.metrics.stale_links > 0
            &&& is_stale_copy(
                two.commit.repository_links[0],
                at,
                one.commit.repository_links[0].relationships[known],
                second.revision.id,
            )
        }),
{
    let calls = last.store.calls();
    let base = middle.store.calls().len() as int;
    let one = trace_of(start.view_name.deep_view(), false, first_id, first_at, first_replies);
    let two = trace_of(middle.view_name.deep_view(), false, second_id, second_at, second_replies);
    assert(calls.take(base) =~= middle.store.calls());
    assert(calls.take(start.store.calls().len() as int) =~= start.store.calls()) by {
        assert forall|i: int| 0 <= i < start.store.calls().len() implies calls[i]
            == #[trigger] start.store.calls()[i] by {
            assert(middle.store.calls()[i] == start.store.calls()[i]);
            assert(calls[i] == middle.store.calls()[i]);
        }
    }
    run_is_traced(start, middle, first_id, first_at, first, first_replies);
    run_is_traced(middle, last, second_id, second_at, second, second_replies);
    run_is_dated(middle, last, second_id, second_at, second, second_replies);
    nothing_is_completed_before(start, middle, first_id, first_at, first, first_replies);
    nothing_is_completed_before(middle, last, second_id, second_at, second, second_replies);
    let resolver = second_replies.resolver->0;
    let revision = two.run.scope.revision;
    let entities = values_in_order(two.facts.entities);
    let from = start.store.calls().len() as int;
    let end = one.asked.len() as int;
    let later = two.asked.len() as int;
    linking_hears_the_store(
        two.run.scope,
        two.facts,
        resolver,
        second_replies.calls,
        second_replies.duration_ms,
        two.commit,
        two.asked,
        calls,
    );
    assert(one.commit.repository_links.len() == 1) by {
        reveal(linked_commit);
    }
    assert(calls[end] == middle.store.calls()[end]);
    assert(calls[end + 1] == middle.store.calls()[end + 1]);
    assert(calls[end + 2] == middle.store.calls()[end + 2]);
    assert(base == end + 3);
    assert forall|i: int| from <= i < end implies !(#[trigger] calls[i] is Complete) by {
        assert(calls[i] == middle.store.calls()[i]);
        assert(middle.store.calls()[i] == one.asked[i]);
        assert(!(one.asked[i] is Complete));
    }
    assert forall|i: int| end < i < later implies !(#[trigger] calls[i] is Complete) by {
        if i >= base {
            assert(calls[i] == two.asked[i]);
            assert(!(two.asked[i] is Complete));
        }
    }
    stored_links_grow_stale(
        calls,
        from,
        end,
        base,
        later,
        one.commit,
        first.revision,
        known,
        resolver,
        revision,
        entities,
        second_at,
        at,
    );
    stale_links_count(two.commit.repository_links[0].relationships, at);
    second_revision_is_named(two, calls, second);
    assert(is_compatible(first.revision, revision)) by {
        reveal(link_is_lost);
    }
}

/// The revision that a run tells of has the name that its manifest gives.
proof fn second_revision_is_named(trace: RunTrace, calls: Seq<StoreCall>, outcome: MemoryIndexOutcomeView)
    requires
        are_owed(nothing_stored(), calls),
        trace.asked.len() + 2 < calls.len(),
        calls[trace.asked.len() as int] is Complete,
        calls[trace.asked.len() as int]->Complete_0 == trace.commit,
        calls[trace.asked.len() as int]->Complete_1 is Ok,
        calls[trace.asked.len() as int + 1] == StoreCall::Revision(
            trace.commit.revision.id,
            Ok(Some(outcome.revision)),
        ),
    ensures
        outcome.revision.id == trace.commit.revision.id,
{
    completed_build_is_there(trace, calls);
    owed_at(calls, trace.asked.len() as int + 1);
}

}
