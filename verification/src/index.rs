//! Indexing: what the sources of a project add up to, and how it comes to be published.
use vstd::prelude::*;
use crate::budget::{saturated, saturating_sum};
use crate::deadline::{begins, ms_of, TimeLimit};
use crate::diagnostics::{
    MemoryDiagnostic, MemoryDiagnosticCode, MemoryDiagnosticMetrics, MemoryDiagnosticMetricsView,
    MemoryDiagnosticSeverity, MemoryDiagnosticView,
};
use crate::digest::{digest_of, text_digest};
use crate::domain::{
    AuthorizedSourceDescriptor, AuthorizedSourceDescriptorView, AuthorizedSourceManifest,
    AuthorizedSourceManifestView, CachedMemoryFragment, CachedMemoryFragmentView, MemoryBuild,
    MemoryBuildId, MemoryBuildMetrics, MemoryBuildMetricsView, MemoryBuildState, MemoryBuildView,
    MemoryCommit, MemoryCommitView, MemoryEntity, MemoryEntityView, MemoryFragment,
    MemoryFragmentCacheKey, MemoryFragmentCacheKeyView, MemoryFragmentView,
    MemoryPublicationOutcome, MemoryPublicationOutcomeView, MemoryPublicationVersion,
    MemoryPublicationVersionView, MemoryPublishRequest, MemoryPublishRequestView,
    MemoryRelationship, MemoryRelationshipView, MemoryRepositoryLinkCommit,
    MemoryRepositoryLinkCommitView, MemoryRepositoryLinkSet, MemoryRepositoryLinkSetId,
    MemoryRepositoryLinkSetView, MemoryResolutionState, MemoryRevision, MemoryRevisionId,
    MemoryRevisionView, MemorySourceCategory, MemoryViewName, ProjectRef, PublishedMemoryRevision,
    PublishedMemoryRevisionView,
};
use crate::extractors::ownership::facts_belong_to_their_source;
use crate::extractors::{built_in, built_in_extractors, BuiltInExtractor};
use crate::json::{json_array, json_object, JsonArray, JsonObject, ToJson};
use crate::ledger::{
    entities_are_apart, is_publication, relationships_are_apart, nothing_is_sound, nothing_stored,
    only_publishing_changes_views, MemoryLedger,
    MemoryStore, StoreCall,
};
use crate::links::{
    can_be_linked, local_link_commit, local_link_set, LocalRepositoryLinkResolver,
    LocalRepositoryLinkResolverView, PreviousLinks, PreviousLinksView,
};
use crate::manifest::AuthorizedSourceManifestError;
use crate::order::{
    in_order, text_lt, text_order_is_strict, values_in_order, values_stand_under_keys, OrderedMap,
};
use crate::ports::{
    LinkResolvers, MemoryBuildFailure, MemoryExtractionContext, MemoryExtractionContextView,
    MemoryExtractionInput,
    MemoryExtractionInputView, MemoryExtractor, MemorySource, MemorySourceError, SourceRead,
    SourceReadView,
};
use crate::record::{outcome, Record};
use crate::repository::{RepositoryRef, RepositoryRefView};
use crate::store::{entities_belong, relationships_belong, version_of, MemoryStoreError};
use crate::text::{decimal, decimal_of, joined, signed_decimal, signed_decimal_of};
use crate::MEMORY_MODEL_VERSION;

verus! {

/// The most entities that one source may have.
pub const MAX_ENTITIES_PER_SOURCE: u64 = 10_000;

/// The most relationships that one source may have.
pub const MAX_RELATIONSHIPS_PER_SOURCE: u64 = 20_000;

/// The most that a build may have to say.
pub const MAX_DIAGNOSTICS: usize = 1_000;

/// How long a parser may take.
pub const MAX_PARSER_DURATION_MS: u64 = 5_000;

/// How to index.
#[derive(Debug, Clone, Copy, PartialEq, Eq, Structural)]
pub struct MemoryIndexOptions {
    /// Whether everything is read anew.
    pub full: bool,
}

impl Default for MemoryIndexOptions {
    fn default() -> (options: Self)
        ensures
            !options.full,
    {
        MemoryIndexOptions { full: false }
    }
}

/// Why nothing was indexed.
#[derive(Debug, Clone, Copy, PartialEq, Eq, Structural)]
pub enum MemoryIndexError {
    Source(MemorySourceError),
    Store(MemoryStoreError),
    Identity(AuthorizedSourceManifestError),
    Links,
    FactCollision,
}

impl DeepView for MemoryIndexError {
    type V = MemoryIndexError;

    open spec fn deep_view(&self) -> MemoryIndexError {
        *self
    }
}

impl MemoryIndexError {
    /// What is wrong, in words.
    pub fn message(self) -> (text: &'static str)
        ensures
            text@ == match self {
                MemoryIndexError::Source(_) =>
                    "project-memory source discovery or verification failed"@,
                MemoryIndexError::Store(_) => "project-memory storage failed"@,
                MemoryIndexError::Identity(_) => "project-memory identity validation failed"@,
                MemoryIndexError::Links => "project-memory repository link resolution failed"@,
                MemoryIndexError::FactCollision =>
                    "project-memory facts contain conflicting deterministic identities"@,
            },
    {
        match self {
            MemoryIndexError::Source(_) => "project-memory source discovery or verification failed",
            MemoryIndexError::Store(_) => "project-memory storage failed",
            MemoryIndexError::Identity(_) => "project-memory identity validation failed",
            MemoryIndexError::Links => "project-memory repository link resolution failed",
            MemoryIndexError::FactCollision =>
                "project-memory facts contain conflicting deterministic identities",
        }
    }
}

/// The name of a build that begins at a time, the so-manieth of its process.
pub open spec fn build_name(timestamp_ns: i64, sequence: u64) -> Seq<char> {
    "memory-build:"@ + text_digest(
        json_array(seq![signed_decimal(timestamp_ns), decimal(sequence as nat)]),
    )
}

/// The name of a build that begins at a time, the so-manieth of its process.
pub fn next_build_id(timestamp_ns: i64, sequence: u64) -> (id: MemoryBuildId)
    ensures
        id.deep_view() == build_name(timestamp_ns, sequence),
{
    let array = JsonArray::new().item(signed_decimal_of(timestamp_ns)).item(decimal_of(sequence));
    assert(array.items() =~= seq![signed_decimal(timestamp_ns), decimal(sequence as nat)]);
    let digest = digest_of(array.finish().as_str());
    let text = joined("memory-build:", digest.as_str());
    proof {
        crate::digest::hex_digits_are_plain(digest@);
        reveal_strlit("memory-build:");
        crate::value::plain_text_is_bounded(text@, crate::domain::MAX_ID_BYTES as nat, false);
    }
    MemoryBuildId::new(text.as_str()).unwrap()
}

/// What an index run goes by.
pub struct IndexScope {
    pub manifest: AuthorizedSourceManifestView,
    pub revision: MemoryRevisionView,
    pub indexed_at: Seq<char>,
    pub full: bool,
}

/// What extractors get to know of a run.
#[verifier::opaque]
pub open spec fn extraction_context(scope: IndexScope) -> MemoryExtractionContextView {
    MemoryExtractionContextView {
        project: scope.manifest.project,
        revision_id: scope.revision.id,
        build_id: scope.revision.completed_by,
        indexed_at: scope.indexed_at,
        max_entities_per_source: MAX_ENTITIES_PER_SOURCE,
        max_relationships_per_source: MAX_RELATIONSHIPS_PER_SOURCE,
        max_parser_duration_ms: MAX_PARSER_DURATION_MS,
        max_diagnostics: MAX_DIAGNOSTICS as u64,
    }
}

/// What the sources that were seen so far add up to.
pub struct Facts {
    /// The entities, under their names.
    pub entities: Map<Seq<char>, MemoryEntityView>,
    /// The relationships, under their names.
    pub relationships: Map<Seq<char>, MemoryRelationshipView>,
    /// The fragments to keep.
    pub cache_writes: Seq<CachedMemoryFragmentView>,
    /// What there is to say.
    pub diagnostics: Seq<MemoryDiagnosticView>,
    /// How many sources were as they had been.
    pub reused: nat,
    /// How many sources were read anew.
    pub extracted: nat,
    /// How many sources nobody reads.
    pub skipped: nat,
    /// How many sources could not be read.
    pub failed: nat,
    /// How many bytes were read.
    pub processed_bytes: u64,
    /// What was read of the sources so far.
    pub reads: Seq<(AuthorizedSourceDescriptorView, Result<SourceReadView, MemorySourceError>)>,
    /// What the store was asked so far.
    pub calls: Seq<StoreCall>,
}

/// What no source adds up to.
pub open spec fn no_sources(
    reads: Seq<(AuthorizedSourceDescriptorView, Result<SourceReadView, MemorySourceError>)>,
    calls: Seq<StoreCall>,
) -> Facts {
    Facts {
        entities: Map::empty(),
        relationships: Map::empty(),
        cache_writes: Seq::empty(),
        diagnostics: Seq::empty(),
        reused: 0,
        extracted: 0,
        skipped: 0,
        failed: 0,
        processed_bytes: 0,
        reads,
        calls,
    }
}

/// The entities together with more of them. Two different ones must not have one name.
pub open spec fn merged_entities(
    known: Map<Seq<char>, MemoryEntityView>,
    more: Seq<MemoryEntityView>,
) -> Option<Map<Seq<char>, MemoryEntityView>>
    decreases more.len(),
{
    if more.len() == 0 {
        Some(known)
    } else {
        match merged_entities(known, more.drop_last()) {
            None => None,
            Some(known) => if known.contains_key(more.last().id) && known[more.last().id] != more.last() {
                None
            } else {
                Some(known.insert(more.last().id, more.last()))
            },
        }
    }
}

/// The relationships together with more of them. Two different ones must not have one name.
pub open spec fn merged_relationships(
    known: Map<Seq<char>, MemoryRelationshipView>,
    more: Seq<MemoryRelationshipView>,
) -> Option<Map<Seq<char>, MemoryRelationshipView>>
    decreases more.len(),
{
    if more.len() == 0 {
        Some(known)
    } else {
        match merged_relationships(known, more.drop_last()) {
            None => None,
            Some(known) => if known.contains_key(more.last().id) && known[more.last().id] != more.last() {
                None
            } else {
                Some(known.insert(more.last().id, more.last()))
            },
        }
    }
}

/// The facts together with those of a source.
#[verifier::opaque]
pub open spec fn with_fragment(facts: Facts, fragment: MemoryFragmentView) -> Result<
    Facts,
    MemoryIndexError,
> {
    match (
        merged_entities(facts.entities, fragment.entities),
        merged_relationships(facts.relationships, fragment.relationships),
    ) {
        (Some(entities), Some(relationships)) => Ok(Facts { entities, relationships, ..facts }),
        _ => Err(MemoryIndexError::FactCollision),
    }
}

/// The fragment of another revision, as one of this revision.
#[verifier::opaque]
pub open spec fn rebased(
    fragment: MemoryFragmentView,
    revision: MemoryRevisionView,
) -> MemoryFragmentView {
    MemoryFragmentView {
        entities: fragment.entities.map_values(
            |entity: MemoryEntityView|
                MemoryEntityView {
                    project: revision.project,
                    memory_revision_id: revision.id,
                    ..entity
                },
        ),
        relationships: fragment.relationships.map_values(
            |relationship: MemoryRelationshipView|
                MemoryRelationshipView {
                    project: revision.project,
                    memory_revision_id: revision.id,
                    ..relationship
                },
        ),
    }
}

/// What there is to say of a source.
pub open spec fn source_diagnostic(
    revision: MemoryRevisionView,
    category: MemorySourceCategory,
    code: Seq<char>,
) -> MemoryDiagnosticView {
    MemoryDiagnosticView {
        build_id: revision.completed_by,
        revision_id: revision.id,
        severity: MemoryDiagnosticSeverity::Warning,
        code,
        source_category: Some(category),
        entity_id: None,
        relationship_id: None,
        metrics: MemoryDiagnosticMetricsView { entries: Seq::empty() },
    }
}

/// The diagnostics with one more, where there is room.
pub open spec fn with_diagnostic(
    diagnostics: Seq<MemoryDiagnosticView>,
    diagnostic: MemoryDiagnosticView,
) -> Seq<MemoryDiagnosticView> {
    if diagnostics.len() >= MAX_DIAGNOSTICS {
        diagnostics
    } else {
        diagnostics.push(diagnostic)
    }
}

/// The first extractor that reads a category.
pub open spec fn first_reader(
    extractors: Seq<BuiltInExtractor>,
    category: MemorySourceCategory,
) -> Option<BuiltInExtractor>
    decreases extractors.len(),
{
    if extractors.len() == 0 {
        None
    } else if extractors[0].reads(category) {
        Some(extractors[0])
    } else {
        first_reader(extractors.skip(1), category)
    }
}

/// What the facts of a source are kept under.
pub open spec fn cache_key(
    manifest: AuthorizedSourceManifestView,
    source: AuthorizedSourceDescriptorView,
    extractor: BuiltInExtractor,
) -> MemoryFragmentCacheKeyView {
    MemoryFragmentCacheKeyView {
        project: manifest.project,
        category: source.category,
        locator: source.locator,
        source_fingerprint: source.fingerprint,
        policy_digest: manifest.policy_digest,
        extractor: extractor.named(),
    }
}

/// Whether a source has more facts than it may have.
pub open spec fn has_too_many_facts(fragment: MemoryFragmentView) -> bool {
    fragment.entities.len() > MAX_ENTITIES_PER_SOURCE || fragment.relationships.len()
        > MAX_RELATIONSHIPS_PER_SOURCE
}

/// The facts together with those of a source that was read.
pub open spec fn with_extracted(
    facts: Facts,
    scope: IndexScope,
    source: AuthorizedSourceDescriptorView,
    extractor: BuiltInExtractor,
    read: SourceReadView,
) -> Result<Facts, MemoryIndexError> {
    let facts = Facts {
        processed_bytes: saturated(facts.processed_bytes, read.content.bytes.len() as u64),
        ..facts
    };
    match extractor.facts(
        MemoryExtractionInputView {
            context: extraction_context(scope),
            source,
            content: read.content.bytes,
            document: read.document,
        },
    ) {
        Err(failure) => Ok(
            Facts {
                failed: facts.failed + 1,
                diagnostics: with_diagnostic(
                    facts.diagnostics,
                    source_diagnostic(scope.revision, source.category, failure.code),
                ),
                ..facts
            },
        ),
        Ok(fragment) => if has_too_many_facts(fragment) {
            Ok(
                Facts {
                    failed: facts.failed + 1,
                    diagnostics: with_diagnostic(
                        facts.diagnostics,
                        source_diagnostic(
                            scope.revision,
                            source.category,
                            "extractor.factlimit"@,
                        ),
                    ),
                    ..facts
                },
            )
        } else {
            with_fragment(
                Facts {
                    extracted: facts.extracted + 1,
                    cache_writes: facts.cache_writes.push(
                        CachedMemoryFragmentView {
                            key: cache_key(scope.manifest, source, extractor),
                            fragment,
                        },
                    ),
                    ..facts
                },
                fragment,
            )
        },
    }
}

/// The facts together with those of a source that has to be read.
#[verifier::opaque]
pub open spec fn with_read(
    facts: Facts,
    scope: IndexScope,
    source: AuthorizedSourceDescriptorView,
    extractor: BuiltInExtractor,
    reads: Seq<(AuthorizedSourceDescriptorView, Result<SourceReadView, MemorySourceError>)>,
) -> Result<Facts, MemoryIndexError> {
    let reply = reads[facts.reads.len() as int].1;
    match reply {
        Err(error) => Err(MemoryIndexError::Source(error)),
        Ok(read) => with_extracted(
            Facts { reads: facts.reads.push((source, reply)), ..facts },
            scope,
            source,
            extractor,
            read,
        ),
    }
}

/// The facts together with those of a source: those that were kept, where they may be used, and else
/// those of what was read.
pub open spec fn with_source(
    facts: Facts,
    scope: IndexScope,
    source: AuthorizedSourceDescriptorView,
    reads: Seq<(AuthorizedSourceDescriptorView, Result<SourceReadView, MemorySourceError>)>,
    calls: Seq<StoreCall>,
) -> Result<Facts, MemoryIndexError> {
    match first_reader(built_in(), source.category) {
        None => Ok(
            Facts {
                skipped: facts.skipped + 1,
                diagnostics: with_diagnostic(
                    facts.diagnostics,
                    source_diagnostic(scope.revision, source.category, "extractor.unavailable"@),
                ),
                ..facts
            },
        ),
        Some(extractor) => if scope.full {
            with_read(facts, scope, source, extractor, reads)
        } else {
            let reply = calls[facts.calls.len() as int]->Fragment_1;
            let facts = Facts {
                calls: facts.calls.push(
                    StoreCall::Fragment(cache_key(scope.manifest, source, extractor), reply),
                ),
                ..facts
            };
            match reply {
                Err(error) => Err(MemoryIndexError::Store(error)),
                Ok(Some(fragment)) => with_fragment(
                    Facts { reused: facts.reused + 1, ..facts },
                    rebased(fragment, scope.revision),
                ),
                Ok(None) => with_read(facts, scope, source, extractor, reads),
            }
        },
    }
}

/// The facts together with those of some sources, one after the other.
pub open spec fn with_sources(
    facts: Facts,
    scope: IndexScope,
    sources: Seq<AuthorizedSourceDescriptorView>,
    reads: Seq<(AuthorizedSourceDescriptorView, Result<SourceReadView, MemorySourceError>)>,
    calls: Seq<StoreCall>,
) -> Result<Facts, MemoryIndexError>
    decreases sources.len(),
{
    if sources.len() == 0 {
        Ok(facts)
    } else {
        match with_source(facts, scope, sources[0], reads, calls) {
            Err(error) => Err(error),
            Ok(facts) => with_sources(facts, scope, sources.skip(1), reads, calls),
        }
    }
}

/// What the sources that were seen so far add up to, and how the run goes on.
struct Gathering {
    entities: OrderedMap<MemoryEntity>,
    relationships: OrderedMap<MemoryRelationship>,
    cache_writes: Vec<CachedMemoryFragment>,
    diagnostics: Vec<MemoryDiagnostic>,
    reused: u64,
    extracted: u64,
    skipped: u64,
    failed: u64,
    processed_bytes: u64,
    reads: Ghost<Seq<(AuthorizedSourceDescriptorView, Result<SourceReadView, MemorySourceError>)>>,
    calls: Ghost<Seq<StoreCall>>,
}

impl Gathering {
    spec fn well_formed(self) -> bool {
        self.entities.well_formed() && self.relationships.well_formed()
    }

    spec fn seen(self) -> int {
        self.reused + self.extracted + self.skipped + self.failed
    }

    spec fn facts(self) -> Facts {
        Facts {
            entities: self.entities.deep_view(),
            relationships: self.relationships.deep_view(),
            cache_writes: self.cache_writes.deep_view(),
            diagnostics: self.diagnostics.deep_view(),
            reused: self.reused as nat,
            extracted: self.extracted as nat,
            skipped: self.skipped as nat,
            failed: self.failed as nat,
            processed_bytes: self.processed_bytes,
            reads: self.reads@,
            calls: self.calls@,
        }
    }

    fn new(
        reads: Ghost<Seq<(AuthorizedSourceDescriptorView, Result<SourceReadView, MemorySourceError>)>>,
        calls: Ghost<Seq<StoreCall>>,
    ) -> (gathering: Self)
        ensures
            gathering.well_formed(),
            gathering.facts() == no_sources(reads@, calls@),
            gathering.seen() == 0,
    {
        let gathering = Gathering {
            entities: OrderedMap::new(),
            relationships: OrderedMap::new(),
            cache_writes: Vec::new(),
            diagnostics: Vec::new(),
            reused: 0,
            extracted: 0,
            skipped: 0,
            failed: 0,
            processed_bytes: 0,
            reads,
            calls,
        };
        assert(gathering.cache_writes.deep_view() =~= Seq::empty());
        assert(gathering.diagnostics.deep_view() =~= Seq::empty());
        gathering
    }

    /// Says something of a source.
    fn push_diagnostic(
        &mut self,
        revision: &MemoryRevision,
        category: MemorySourceCategory,
        code: MemoryDiagnosticCode,
    )
        requires
            old(self).well_formed(),
        ensures
            final(self).well_formed(),
            final(self).seen() == old(self).seen(),
            final(self).failed == old(self).failed,
            final(self).facts() == (Facts {
                diagnostics: with_diagnostic(
                    old(self).facts().diagnostics,
                    source_diagnostic(revision.deep_view(), category, code.deep_view()),
                ),
                ..old(self).facts()
            }),
    {
        assert(self.diagnostics.deep_view().len() == self.diagnostics.len());
        if self.diagnostics.len() >= MAX_DIAGNOSTICS {
            return;
        }
        let diagnostic = MemoryDiagnostic {
            build_id: revision.completed_by.copied(),
            revision_id: revision.id.copied(),
            severity: MemoryDiagnosticSeverity::Warning,
            code,
            source_category: Some(category),
            entity_id: None,
            relationship_id: None,
            metrics: MemoryDiagnosticMetrics { entries: Vec::new() },
        };
        assert(diagnostic.deep_view() == source_diagnostic(
            revision.deep_view(),
            category,
            code.deep_view(),
        )) by {
            assert(diagnostic.metrics.deep_view().entries =~= Seq::empty());
        }
        let ghost before = self.diagnostics.deep_view();
        self.diagnostics.push(diagnostic);
        assert(self.diagnostics.deep_view() =~= before.push(diagnostic.deep_view()));
    }
}

/// Merges entities into those that are known.
fn merge_entities(
    known: &mut OrderedMap<MemoryEntity>,
    more: &Vec<MemoryEntity>,
) -> (result: Result<(), MemoryIndexError>)
    requires
        old(known).well_formed(),
    ensures
        final(known).well_formed(),
        match result {
            Ok(_) => merged_entities(old(known).deep_view(), more.deep_view()) == Some(
                final(known).deep_view(),
            ),
            Err(error) => merged_entities(old(known).deep_view(), more.deep_view()) is None && error
                == MemoryIndexError::FactCollision,
        },
{
    let ghost models = more.deep_view();
    let ghost start = known.deep_view();
    let mut at: usize = 0;
    assert(models.take(0) =~= Seq::empty());
    while at < more.len()
        invariant
            at <= more.len(),
            known.well_formed(),
            models == more.deep_view(),
            start == old(known).deep_view(),
            merged_entities(start, models.take(at as int)) == Some(known.deep_view()),
        decreases more.len() - at,
    {
        assert(models[at as int] == more@[at as int].deep_view());
        assert(models.take(at + 1).last() == models[at as int]);
        assert(models.take(at + 1).drop_last() =~= models.take(at as int));
        let entity = &more[at];
        if let Some(existing) = known.insert(entity.id.as_str().to_owned(), entity.copied()) {
            if !existing.same(entity) {
                proof {
                    entity_collision_stays(start, models, at + 1);
                }
                return Err(MemoryIndexError::FactCollision);
            }
        }
        at += 1;
    }
    assert(models.take(at as int) =~= models);
    Ok(())
}

proof fn entity_collision_stays(
    known: Map<Seq<char>, MemoryEntityView>,
    more: Seq<MemoryEntityView>,
    at: int,
)
    requires
        0 <= at <= more.len(),
        merged_entities(known, more.take(at)) is None,
    ensures
        merged_entities(known, more) is None,
    decreases more.len(),
{
    if at == more.len() {
        assert(more.take(at) =~= more);
    } else {
        assert(more.drop_last().take(at) =~= more.take(at));
        entity_collision_stays(known, more.drop_last(), at);
    }
}

/// Merges relationships into those that are known.
fn merge_relationships(
    known: &mut OrderedMap<MemoryRelationship>,
    more: &Vec<MemoryRelationship>,
) -> (result: Result<(), MemoryIndexError>)
    requires
        old(known).well_formed(),
    ensures
        final(known).well_formed(),
        match result {
            Ok(_) => merged_relationships(old(known).deep_view(), more.deep_view()) == Some(
                final(known).deep_view(),
            ),
            Err(error) => merged_relationships(old(known).deep_view(), more.deep_view()) is None
                && error == MemoryIndexError::FactCollision,
        },
{
    let ghost models = more.deep_view();
    let ghost start = known.deep_view();
    let mut at: usize = 0;
    assert(models.take(0) =~= Seq::empty());
    while at < more.len()
        invariant
            at <= more.len(),
            known.well_formed(),
            models == more.deep_view(),
            start == old(known).deep_view(),
            merged_relationships(start, models.take(at as int)) == Some(known.deep_view()),
        decreases more.len() - at,
    {
        assert(models[at as int] == more@[at as int].deep_view());
        assert(models.take(at + 1).last() == models[at as int]);
        assert(models.take(at + 1).drop_last() =~= models.take(at as int));
        let relationship = &more[at];
        if let Some(existing) = known.insert(
            relationship.id.as_str().to_owned(),
            relationship.copied(),
        ) {
            if !existing.same(relationship) {
                proof {
                    relationship_collision_stays(start, models, at + 1);
                }
                return Err(MemoryIndexError::FactCollision);
            }
        }
        at += 1;
    }
    assert(models.take(at as int) =~= models);
    Ok(())
}

proof fn relationship_collision_stays(
    known: Map<Seq<char>, MemoryRelationshipView>,
    more: Seq<MemoryRelationshipView>,
    at: int,
)
    requires
        0 <= at <= more.len(),
        merged_relationships(known, more.take(at)) is None,
    ensures
        merged_relationships(known, more) is None,
    decreases more.len(),
{
    if at == more.len() {
        assert(more.take(at) =~= more);
    } else {
        assert(more.drop_last().take(at) =~= more.take(at));
        relationship_collision_stays(known, more.drop_last(), at);
    }
}

/// The fragment of another revision, as one of this revision.
pub fn rebase_fragment(
    fragment: &MemoryFragment,
    revision: &MemoryRevision,
) -> (result: MemoryFragment)
    ensures
        result.deep_view() == rebased(fragment.deep_view(), revision.deep_view()),
{
    proof {
        reveal(rebased);
    }
    let ghost goal = rebased(fragment.deep_view(), revision.deep_view());
    let mut entities: Vec<MemoryEntity> = Vec::new();
    let mut at: usize = 0;
    while at < fragment.entities.len()
        invariant
            at <= fragment.entities.len(),
            goal == rebased(fragment.deep_view(), revision.deep_view()),
            entities.deep_view() =~= goal.entities.take(at as int),
        decreases fragment.entities.len() - at,
    {
        proof {
            reveal(rebased);
        }
        let ghost before = entities.deep_view();
        let mut entity = fragment.entities[at].copied();
        entity.memory_revision_id = revision.id.copied();
        entity.project = revision.project.copied();
        assert(fragment.deep_view().entities[at as int] == fragment.entities@[at as int].deep_view());
        entities.push(entity);
        assert(entities.deep_view() =~= before.push(entity.deep_view()));
        at += 1;
    }
    let mut relationships: Vec<MemoryRelationship> = Vec::new();
    let mut at: usize = 0;
    while at < fragment.relationships.len()
        invariant
            at <= fragment.relationships.len(),
            goal == rebased(fragment.deep_view(), revision.deep_view()),
            relationships.deep_view() =~= goal.relationships.take(at as int),
        decreases fragment.relationships.len() - at,
    {
        proof {
            reveal(rebased);
        }
        let ghost before = relationships.deep_view();
        let mut relationship = fragment.relationships[at].copied();
        relationship.memory_revision_id = revision.id.copied();
        relationship.project = revision.project.copied();
        assert(fragment.deep_view().relationships[at as int]
            == fragment.relationships@[at as int].deep_view());
        relationships.push(relationship);
        assert(relationships.deep_view() =~= before.push(relationship.deep_view()));
        at += 1;
    }
    assert(entities.deep_view() =~= goal.entities);
    assert(relationships.deep_view() =~= goal.relationships);
    MemoryFragment { entities, relationships }
}

/// The first extractor that reads a category.
fn find_reader<'a>(
    extractors: &'a Vec<BuiltInExtractor>,
    category: MemorySourceCategory,
) -> (reader: Option<&'a BuiltInExtractor>)
    ensures
        match reader {
            Some(reader) => first_reader(extractors@, category) == Some(*reader),
            None => first_reader(extractors@, category) is None,
        },
{
    let mut at: usize = 0;
    assert(extractors@.skip(0) =~= extractors@);
    while at < extractors.len()
        invariant
            at <= extractors.len(),
            first_reader(extractors@, category) == first_reader(extractors@.skip(at as int), category),
        decreases extractors.len() - at,
    {
        assert(extractors@.skip(at as int)[0] == extractors@[at as int]);
        assert(extractors@.skip(at as int).skip(1) =~= extractors@.skip(at + 1));
        if extractors[at].supports(category) {
            return Some(&extractors[at]);
        }
        at += 1;
    }
    None
}

impl Gathering {
    /// Adds the facts of a source.
    fn add_fragment(&mut self, fragment: &MemoryFragment) -> (result: Result<(), MemoryIndexError>)
        requires
            old(self).well_formed(),
        ensures
            final(self).well_formed(),
            final(self).seen() == old(self).seen(),
            final(self).facts().reads == old(self).facts().reads,
            final(self).facts().calls == old(self).facts().calls,
            match result {
                Ok(_) => with_fragment(old(self).facts(), fragment.deep_view()) == Ok::<
                    _,
                    MemoryIndexError,
                >(final(self).facts()),
                Err(error) => with_fragment(old(self).facts(), fragment.deep_view()) == Err::<Facts, _>(
                    error,
                ),
            },
    {
        proof {
            reveal(with_fragment);
        }
        match merge_entities(&mut self.entities, &fragment.entities) {
            Ok(_) => {},
            Err(error) => {
                return Err(error);
            },
        }
        merge_relationships(&mut self.relationships, &fragment.relationships)
    }

    /// Adds the facts of what was read of a source.
    fn add_extracted(
        &mut self,
        revision: &MemoryRevision,
        context: &MemoryExtractionContext,
        source: &AuthorizedSourceDescriptor,
        extractor: &BuiltInExtractor,
        key: MemoryFragmentCacheKey,
        read: &SourceRead,
        scope: Ghost<IndexScope>,
    ) -> (result: Result<(), MemoryIndexError>)
        requires
            old(self).well_formed(),
            old(self).seen() < u64::MAX,
            scope@.revision == revision.deep_view(),
            context.deep_view() == extraction_context(scope@),
            key.deep_view() == cache_key(scope@.manifest, source.deep_view(), *extractor),
        ensures
            final(self).well_formed(),
            match result {
                Ok(_) => with_extracted(
                    old(self).facts(),
                    scope@,
                    source.deep_view(),
                    *extractor,
                    read.deep_view(),
                ) == Ok::<_, MemoryIndexError>(final(self).facts()) && final(self).seen() == old(self).seen() + 1,
                Err(error) => with_extracted(
                    old(self).facts(),
                    scope@,
                    source.deep_view(),
                    *extractor,
                    read.deep_view(),
                ) == Err::<Facts, _>(error),
            },
    {
        let content = &read.content.bytes;
        self.processed_bytes = saturating_sum(self.processed_bytes, content.len() as u64);
        let input = MemoryExtractionInput {
            context,
            source,
            content: content.as_slice(),
            document: &read.document,
        };
        assert(read.deep_view().content.bytes =~= content@);
        assert(input.deep_view() == (MemoryExtractionInputView {
            context: extraction_context(scope@),
            source: source.deep_view(),
            content: read.deep_view().content.bytes,
            document: read.deep_view().document,
        }));
        match extractor.extract(&input) {
            Err(failure) => {
                self.failed = self.failed + 1;
                self.push_diagnostic(revision, source.category, failure.code);
                Ok(())
            },
            Ok(fragment) => {
                assert(fragment.deep_view().entities.len() == fragment.entities.len());
                assert(fragment.deep_view().relationships.len() == fragment.relationships.len());
                if fragment.entities.len() as u64 > MAX_ENTITIES_PER_SOURCE
                    || fragment.relationships.len() as u64 > MAX_RELATIONSHIPS_PER_SOURCE {
                    self.failed = self.failed + 1;
                    proof {
                        reveal_strlit("extractor.factlimit");
                    }
                    let code = MemoryDiagnosticCode::new("extractor.factlimit").unwrap();
                    self.push_diagnostic(revision, source.category, code);
                    return Ok(());
                }
                self.extracted = self.extracted + 1;
                let written = CachedMemoryFragment { key, fragment: fragment.copied() };
                let ghost before = self.cache_writes.deep_view();
                self.cache_writes.push(written);
                assert(self.cache_writes.deep_view() =~= before.push(written.deep_view()));
                self.add_fragment(&fragment)
            },
        }
    }

    /// Reads a source and adds its facts.
    fn add_read<S: MemorySource>(
        &mut self,
        revision: &MemoryRevision,
        context: &MemoryExtractionContext,
        source: &AuthorizedSourceDescriptor,
        extractor: &BuiltInExtractor,
        key: MemoryFragmentCacheKey,
        sources: &mut S,
        scope: Ghost<IndexScope>,
    ) -> (result: Result<(), MemoryIndexError>)
        requires
            old(self).well_formed(),
            old(self).seen() < u64::MAX,
            old(self).facts().reads == old(sources).reads(),
            scope@.revision == revision.deep_view(),
            context.deep_view() == extraction_context(scope@),
            key.deep_view() == cache_key(scope@.manifest, source.deep_view(), *extractor),
        ensures
            final(self).well_formed(),
            begins(old(sources).reads(), final(sources).reads()),
            final(sources).manifests() == old(sources).manifests(),
            final(sources).checks() == old(sources).checks(),
            result is Ok ==> final(self).facts().reads == final(sources).reads() && final(self).seen()
                == old(self).seen() + 1 && final(self).facts().calls == old(self).facts().calls,
            forall|reads: Seq<
                (AuthorizedSourceDescriptorView, Result<SourceReadView, MemorySourceError>),
            >|
                begins(final(sources).reads(), reads) ==> #[trigger] with_read(
                    old(self).facts(),
                    scope@,
                    source.deep_view(),
                    *extractor,
                    reads,
                ) == match result {
                    Ok(_) => Ok(final(self).facts()),
                    Err(error) => Err(error),
                },
    {
        let ghost before = sources.reads();
        let reply = sources.read_verified(source);
        proof {
            reveal(with_read);
            reveal(with_fragment);
            assert forall|reads: Seq<
                (AuthorizedSourceDescriptorView, Result<SourceReadView, MemorySourceError>),
            >|
                begins(sources.reads(), reads) implies reads[before.len() as int]
                == #[trigger] sources.reads()[before.len() as int] by {}
        }
        match reply {
            Err(error) => Err(MemoryIndexError::Source(error)),
            Ok(read) => {
                self.reads = Ghost(sources.reads());
                self.add_extracted(revision, context, source, extractor, key, &read, scope)
            },
        }
    }

    /// Adds the facts of a source.
    fn add_source<S: MemorySource, T: MemoryStore>(
        &mut self,
        manifest: &AuthorizedSourceManifest,
        revision: &MemoryRevision,
        context: &MemoryExtractionContext,
        full: bool,
        source: &AuthorizedSourceDescriptor,
        sources: &mut S,
        store: &mut T,
        scope: Ghost<IndexScope>,
    ) -> (result: Result<(), MemoryIndexError>)
        requires
            old(self).well_formed(),
            old(self).seen() < u64::MAX,
            old(self).facts().reads == old(sources).reads(),
            old(self).facts().calls == old(store).calls(),
            old(store).ready(),
            scope@.manifest == manifest.deep_view(),
            scope@.revision == revision.deep_view(),
            scope@.full == full,
            context.deep_view() == extraction_context(scope@),
        ensures
            final(self).well_formed(),
            final(store).ready(),
            begins(old(sources).reads(), final(sources).reads()),
            begins(old(store).calls(), final(store).calls()),
            reads_only(old(store).calls(), final(store).calls()),
            final(sources).manifests() == old(sources).manifests(),
            final(sources).checks() == old(sources).checks(),
            result is Ok ==> final(self).facts().reads == final(sources).reads()
                && final(self).facts().calls == final(store).calls() && final(self).seen() == old(self).seen() + 1,
            forall|
                reads: Seq<
                    (AuthorizedSourceDescriptorView, Result<SourceReadView, MemorySourceError>),
                >,
                calls: Seq<StoreCall>,
            |
                begins(final(sources).reads(), reads) && begins(final(store).calls(), calls)
                    ==> #[trigger] with_source(
                    old(self).facts(),
                    scope@,
                    source.deep_view(),
                    reads,
                    calls,
                ) == match result {
                    Ok(_) => Ok(final(self).facts()),
                    Err(error) => Err(error),
                },
    {
        let ghost start = self.facts();
        let extractors = built_in_extractors();
        let extractor = match find_reader(&extractors, source.category) {
            Some(extractor) => extractor,
            None => {
                self.skipped = self.skipped + 1;
                proof {
                    reveal_strlit("extractor.unavailable");
                }
                let code = MemoryDiagnosticCode::new("extractor.unavailable").unwrap();
                self.push_diagnostic(revision, source.category, code);
                return Ok(());
            },
        };
        let key = MemoryFragmentCacheKey {
            project: manifest.project.copied(),
            category: source.category,
            locator: source.locator.copied(),
            source_fingerprint: source.fingerprint.copied(),
            policy_digest: manifest.policy_digest.copied(),
            extractor: extractor.identity(),
        };
        if full {
            return self.add_read(revision, context, source, extractor, key, sources, scope);
        }
        let ghost before = store.calls();
        let reply = store.load_cached_fragment(&key);
        proof {
            assert forall|calls: Seq<StoreCall>| #[trigger]
                begins(store.calls(), calls) implies calls[before.len() as int] == store.calls()[before.len() as int] by {}
        }
        self.calls = Ghost(store.calls());
        match reply {
            Err(error) => Err(MemoryIndexError::Store(error)),
            Ok(Some(fragment)) => {
                self.reused = self.reused + 1;
                let fragment = rebase_fragment(&fragment, revision);
                self.add_fragment(&fragment)
            },
            Ok(None) => self.add_read(revision, context, source, extractor, key, sources, scope),
        }
    }
}

/// Whether only fragments were asked for since.
pub open spec fn reads_only(before: Seq<StoreCall>, after: Seq<StoreCall>) -> bool {
    forall|i: int| before.len() <= i < after.len() ==> #[trigger] after[i] is Fragment
}

/// Adds up the facts of all sources.
fn gather_sources<S: MemorySource, T: MemoryStore>(
    manifest: &AuthorizedSourceManifest,
    revision: &MemoryRevision,
    context: &MemoryExtractionContext,
    full: bool,
    sources: &mut S,
    store: &mut T,
    scope: Ghost<IndexScope>,
) -> (result: Result<Gathering, MemoryIndexError>)
    requires
        old(store).ready(),
        scope@.manifest == manifest.deep_view(),
        scope@.revision == revision.deep_view(),
        scope@.full == full,
        context.deep_view() == extraction_context(scope@),
    ensures
        final(store).ready(),
        begins(old(sources).reads(), final(sources).reads()),
        begins(old(store).calls(), final(store).calls()),
        reads_only(old(store).calls(), final(store).calls()),
        final(sources).manifests() == old(sources).manifests(),
        final(sources).checks() == old(sources).checks(),
        result matches Ok(gathering) ==> gathering.well_formed() && gathering.facts().calls == final(store).calls(),
        forall|
            reads: Seq<
                (AuthorizedSourceDescriptorView, Result<SourceReadView, MemorySourceError>),
            >,
            calls: Seq<StoreCall>,
        |
            begins(final(sources).reads(), reads) && begins(final(store).calls(), calls)
                ==> #[trigger] with_sources(
                no_sources(old(sources).reads(), old(store).calls()),
                scope@,
                manifest.deep_view().sources,
                reads,
                calls,
            ) == match result {
                Ok(gathering) => Ok(gathering.facts()),
                Err(error) => Err(error),
            },
{
    let ghost models = manifest.deep_view().sources;
    let ghost start = no_sources(sources.reads(), store.calls());
    let mut gathering = Gathering::new(Ghost(sources.reads()), Ghost(store.calls()));
    let mut at: usize = 0;
    assert(models.skip(0) =~= models);
    while at < manifest.sources.len()
        invariant
            at <= manifest.sources.len(),
            models == manifest.deep_view().sources,
            start == no_sources(old(sources).reads(), old(store).calls()),
            gathering.well_formed(),
            gathering.seen() == at,
            gathering.facts().reads == sources.reads(),
            gathering.facts().calls == store.calls(),
            store.ready(),
            scope@.manifest == manifest.deep_view(),
            scope@.revision == revision.deep_view(),
            scope@.full == full,
            context.deep_view() == extraction_context(scope@),
            begins(old(sources).reads(), sources.reads()),
            begins(old(store).calls(), store.calls()),
            reads_only(old(store).calls(), store.calls()),
            sources.manifests() == old(sources).manifests(),
            sources.checks() == old(sources).checks(),
            forall|
                reads: Seq<
                    (AuthorizedSourceDescriptorView, Result<SourceReadView, MemorySourceError>),
                >,
                calls: Seq<StoreCall>,
            |
                begins(sources.reads(), reads) && begins(store.calls(), calls)
                    ==> #[trigger] with_sources(start, scope@, models, reads, calls) == with_sources(
                    gathering.facts(),
                    scope@,
                    models.skip(at as int),
                    reads,
                    calls,
                ),
        decreases manifest.sources.len() - at,
    {
        let ghost facts = gathering.facts();
        let ghost reads_before = sources.reads();
        let ghost calls_before = store.calls();
        assert(models[at as int] == manifest.sources@[at as int].deep_view());
        assert(models.skip(at as int)[0] == models[at as int]);
        assert(models.skip(at as int).skip(1) =~= models.skip(at + 1));
        let result = gathering.add_source(
            manifest,
            revision,
            context,
            full,
            &manifest.sources[at],
            sources,
            store,
            scope,
        );
        proof {
            assert forall|
                reads: Seq<
                    (AuthorizedSourceDescriptorView, Result<SourceReadView, MemorySourceError>),
                >,
                calls: Seq<StoreCall>,
            |
                begins(sources.reads(), reads) && begins(store.calls(), calls)
                implies #[trigger] with_sources(start, scope@, models, reads, calls)
                == match result {
                Ok(_) => with_sources(
                    gathering.facts(),
                    scope@,
                    models.skip(at + 1),
                    reads,
                    calls,
                ),
                Err(error) => Err(error),
            } by {
                assert(begins(reads_before, reads)) by {
                    assert forall|i: int| 0 <= i < reads_before.len() implies #[trigger] reads[i]
                        == reads_before[i] by {
                        assert(sources.reads()[i] == reads_before[i]);
                    }
                }
                assert(begins(calls_before, calls)) by {
                    assert forall|i: int| 0 <= i < calls_before.len() implies #[trigger] calls[i]
                        == calls_before[i] by {
                        assert(store.calls()[i] == calls_before[i]);
                    }
                }
                assert(with_source(facts, scope@, models[at as int], reads, calls) == match result {
                    Ok(_) => Ok::<Facts, MemoryIndexError>(gathering.facts()),
                    Err(error) => Err(error),
                });
            }
            assert(begins(old(sources).reads(), sources.reads())) by {
                assert forall|i: int| 0 <= i < old(sources).reads().len() implies #[trigger] sources.reads()[i]
                    == old(sources).reads()[i] by {
                    assert(sources.reads()[i] == reads_before[i]);
                }
            }
            assert(begins(old(store).calls(), store.calls())) by {
                assert forall|i: int| 0 <= i < old(store).calls().len() implies #[trigger] store.calls()[i]
                    == old(store).calls()[i] by {
                    assert(store.calls()[i] == calls_before[i]);
                }
            }
            assert(reads_only(old(store).calls(), store.calls())) by {
                assert forall|i: int|
                    old(store).calls().len() <= i < store.calls().len() implies #[trigger] store.calls()[i] is Fragment by {
                    if i < calls_before.len() {
                        assert(store.calls()[i] == calls_before[i]);
                    }
                }
            }
        }
        match result {
            Ok(_) => {},
            Err(error) => {
                return Err(error);
            },
        }
        at += 1;
    }
    proof {
        assert(models.skip(at as int) =~= Seq::empty());
    }
    Ok(gathering)
}

/// What was known of a set of links, and what the store was asked to know it.
pub open spec fn known_links(
    asked: Seq<StoreCall>,
    set: MemoryRepositoryLinkSetView,
    calls: Seq<StoreCall>,
) -> (Result<Option<PreviousLinksView>, MemoryStoreError>, Seq<StoreCall>) {
    let reply = calls[asked.len() as int]->Links_1;
    let asked = asked.push(StoreCall::Links(set.id, reply));
    match reply {
        Err(error) => (Err(error), asked),
        Ok(relationships) => (
            Ok(Some(PreviousLinksView { link_set: set, relationships })),
            asked,
        ),
    }
}

/// The links that were found before: those of the same set, or else the newest ones from the revision
/// to the repository, or else the newest ones from another revision that was made the same way.
pub open spec fn previous_links(
    asked: Seq<StoreCall>,
    id: Seq<char>,
    revision: MemoryRevisionView,
    repository: RepositoryRefView,
    calls: Seq<StoreCall>,
) -> (Result<Option<PreviousLinksView>, MemoryStoreError>, Seq<StoreCall>) {
    let reply = calls[asked.len() as int]->LinkSet_1;
    let asked = asked.push(StoreCall::LinkSet(id, reply));
    match reply {
        Err(error) => (Err(error), asked),
        Ok(Some(set)) => known_links(asked, set, calls),
        Ok(None) => {
            let reply = calls[asked.len() as int]->LatestLinkSet_2;
            let asked = asked.push(StoreCall::LatestLinkSet(revision.id, repository, reply));
            match reply {
                Err(error) => (Err(error), asked),
                Ok(Some(set)) => known_links(asked, set, calls),
                Ok(None) => {
                    let reply = calls[asked.len() as int]->CompatibleLinkSet_2;
                    let asked = asked.push(
                        StoreCall::CompatibleLinkSet(revision, repository, reply),
                    );
                    match reply {
                        Err(error) => (Err(error), asked),
                        Ok(None) => (Ok(None), asked),
                        Ok(Some(set)) => known_links(asked, set, calls),
                    }
                },
            }
        },
    }
}

/// Whether nothing but reads were asked for since.
pub open spec fn changes_nothing(before: Seq<StoreCall>, after: Seq<StoreCall>) -> bool {
    forall|i: int|
        before.len() <= i < after.len() ==> match #[trigger] after[i] {
            StoreCall::Start(_, _) => false,
            StoreCall::Fail(_, _, _) => false,
            StoreCall::Complete(_, _) => false,
            StoreCall::Publish(_, _) => false,
            StoreCall::Supersede(_, _) => false,
            _ => true,
        }
}

fn load_known_links<T: MemoryStore>(store: &mut T, set: MemoryRepositoryLinkSet) -> (result: Result<
    Option<PreviousLinks>,
    MemoryStoreError,
>)
    requires
        old(store).ready(),
    ensures
        final(store).ready(),
        begins(old(store).calls(), final(store).calls()),
        changes_nothing(old(store).calls(), final(store).calls()),
        (outcome(result), final(store).calls()) == known_links(
            old(store).calls(),
            set.deep_view(),
            final(store).calls(),
        ),
        final(store).calls().len() == old(store).calls().len() + 1,
{
    match store.repository_links(&set.id) {
        Ok(relationships) => Ok(Some(PreviousLinks { link_set: set, relationships })),
        Err(error) => Err(error),
    }
}

/// Finds the links that were found before.
fn load_previous_links<T: MemoryStore>(
    store: &mut T,
    id: &MemoryRepositoryLinkSetId,
    revision: &MemoryRevision,
    repository: &RepositoryRef,
) -> (result: Result<Option<PreviousLinks>, MemoryStoreError>)
    requires
        old(store).ready(),
    ensures
        final(store).ready(),
        begins(old(store).calls(), final(store).calls()),
        changes_nothing(old(store).calls(), final(store).calls()),
        (outcome(result), final(store).calls()) == previous_links(
            old(store).calls(),
            id.deep_view(),
            revision.deep_view(),
            repository.deep_view(),
            final(store).calls(),
        ),
{
    let ghost before = store.calls();
    match store.repository_link_set(id) {
        Err(error) => Err(error),
        Ok(Some(set)) => {
            let ghost asked = store.calls();
            let result = load_known_links(store, set);
            assert(store.calls()[before.len() as int] == asked[before.len() as int]);
            result
        },
        Ok(None) => {
            let ghost first = store.calls();
            match store.latest_repository_link_set(&revision.id, repository) {
                Err(error) => Err(error),
                Ok(Some(set)) => {
                    let ghost second = store.calls();
                    let result = load_known_links(store, set);
                    assert(store.calls()[before.len() as int] == second[before.len() as int]);
                    assert(store.calls()[first.len() as int] == second[first.len() as int]);
                    result
                },
                Ok(None) => {
                    let ghost second = store.calls();
                    let reply = store.latest_compatible_repository_link_set(revision, repository);
                    let ghost third = store.calls();
                    assert(third[before.len() as int] == second[before.len() as int]);
                    assert(third[first.len() as int] == second[first.len() as int]);
                    match reply {
                        Err(error) => Err(error),
                        Ok(None) => Ok(None),
                        Ok(Some(set)) => {
                            let result = load_known_links(store, set);
                            assert(store.calls()[before.len() as int] == third[before.len() as int]);
                            assert(store.calls()[first.len() as int] == third[first.len() as int]);
                            assert(store.calls()[second.len() as int] == third[second.len() as int]);
                            result
                        },
                    }
                },
            }
        },
    }
}

/// How many relationships are stale.
pub open spec fn stale_count(relationships: Seq<MemoryRelationshipView>) -> nat
    decreases relationships.len(),
{
    if relationships.len() == 0 {
        0
    } else {
        stale_count(relationships.drop_last()) + if relationships.last().provenance.resolution
            == MemoryResolutionState::Stale {
            1nat
        } else {
            0nat
        }
    }
}

proof fn stale_are_among_all(relationships: Seq<MemoryRelationshipView>)
    ensures
        stale_count(relationships) <= relationships.len(),
    decreases relationships.len(),
{
    if relationships.len() > 0 {
        stale_are_among_all(relationships.drop_last());
    }
}

pub(crate) fn count_stale(relationships: &Vec<MemoryRelationship>) -> (count: u64)
    ensures
        count == stale_count(relationships.deep_view()),
{
    let ghost models = relationships.deep_view();
    let mut count: u64 = 0;
    let mut at: usize = 0;
    assert(models.take(0) =~= Seq::empty());
    while at < relationships.len()
        invariant
            at <= relationships.len(),
            models == relationships.deep_view(),
            count == stale_count(models.take(at as int)),
        decreases relationships.len() - at,
    {
        assert(models[at as int] == relationships@[at as int].deep_view());
        assert(models.take(at + 1).last() == models[at as int]);
        assert(models.take(at + 1).drop_last() =~= models.take(at as int));
        proof {
            stale_are_among_all(models.take(at as int));
        }
        if relationships[at].provenance.resolution == MemoryResolutionState::Stale {
            count = count + 1;
        }
        at += 1;
    }
    assert(models.take(at as int) =~= models);
    count
}

/// What a build has to say: of its sources first, then of its links, as far as there is room.
pub open spec fn all_diagnostics(
    sources: Seq<MemoryDiagnosticView>,
    links: Seq<MemoryDiagnosticView>,
) -> Seq<MemoryDiagnosticView> {
    let room = MAX_DIAGNOSTICS - sources.len();
    if links.len() <= room {
        sources + links
    } else if room <= 0 {
        sources
    } else {
        sources + links.take(room as int)
    }
}

fn add_link_diagnostics(sources: &mut Vec<MemoryDiagnostic>, links: &Vec<MemoryDiagnostic>)
    ensures
        final(sources).deep_view() == all_diagnostics(old(sources).deep_view(), links.deep_view()),
{
    let ghost start = sources.deep_view();
    let ghost models = links.deep_view();
    let mut at: usize = 0;
    assert(start + models.take(0) =~= start);
    while at < links.len() && sources.len() < MAX_DIAGNOSTICS
        invariant
            at <= links.len(),
            models == links.deep_view(),
            sources.deep_view() == start + models.take(at as int),
            start.len() <= MAX_DIAGNOSTICS ==> sources.len() <= MAX_DIAGNOSTICS,
            start.len() > MAX_DIAGNOSTICS ==> at == 0,
        decreases links.len() - at,
    {
        let ghost before = sources.deep_view();
        let diagnostic = links[at].copied();
        assert(models[at as int] == links@[at as int].deep_view());
        sources.push(diagnostic);
        assert(sources.deep_view() =~= before.push(diagnostic.deep_view()));
        assert(start + models.take(at + 1) =~= (start + models.take(at as int)).push(
            models[at as int],
        ));
        at += 1;
    }
    assert(sources.deep_view().len() == sources.len());
    if at == links.len() {
        assert(models.take(at as int) =~= models);
    }
    assert(start + models.take(0) =~= start);
}

/// What a build with some facts and links comes to.
pub open spec fn commit_of(
    scope: IndexScope,
    facts: Facts,
    links: MemoryRepositoryLinkCommitView,
    duration_ms: u64,
) -> MemoryCommitView {
    let entities = values_in_order(facts.entities);
    let relationships = values_in_order(facts.relationships);
    let diagnostics = all_diagnostics(facts.diagnostics, links.diagnostics);
    MemoryCommitView {
        revision: scope.revision,
        entities,
        relationships,
        cache_writes: facts.cache_writes,
        diagnostics,
        repository_links: seq![links],
        metrics: MemoryBuildMetricsView {
            discovered_sources: scope.manifest.sources.len() as u64,
            reused_sources: facts.reused as u64,
            extracted_sources: facts.extracted as u64,
            skipped_sources: facts.skipped as u64,
            failed_sources: facts.failed as u64,
            processed_bytes: facts.processed_bytes,
            entities: entities.len() as u64,
            relationships: saturated(relationships.len() as u64, links.relationships.len() as u64),
            stale_links: stale_count(links.relationships) as u64,
            diagnostics: diagnostics.len() as u64,
            duration_ms,
        },
    }
}

/// What a build with some facts comes to once its links are resolved, and what the store was asked.
#[verifier::opaque]
pub open spec fn linked_commit(
    scope: IndexScope,
    facts: Facts,
    resolver: LocalRepositoryLinkResolverView,
    calls: Seq<StoreCall>,
    duration_ms: u64,
) -> Result<(MemoryCommitView, Seq<StoreCall>), MemoryIndexError> {
    let entities = values_in_order(facts.entities);
    let (previous, asked) = previous_links(
        facts.calls,
        local_link_set(resolver, scope.revision, entities),
        scope.revision,
        resolver.repository,
        calls,
    );
    match previous {
        Err(error) => Err(MemoryIndexError::Store(error)),
        Ok(previous) => if !can_be_linked(resolver, scope.revision, entities, previous) {
            Err(MemoryIndexError::Links)
        } else {
            Ok(
                (
                    commit_of(
                        scope,
                        facts,
                        local_link_commit(
                            resolver,
                            scope.revision,
                            entities,
                            previous,
                            scope.indexed_at,
                        ),
                        duration_ms,
                    ),
                    asked,
                ),
            )
        },
    }
}

/// What the sources add up to.
spec fn added_up(result: Result<Gathering, MemoryIndexError>) -> Result<Facts, MemoryIndexError> {
    match result {
        Ok(gathering) => Ok(gathering.facts()),
        Err(error) => Err(error),
    }
}

/// What was prepared, and what the store was asked for it.
spec fn committed(result: Result<MemoryCommit, MemoryIndexError>, calls: Seq<StoreCall>) -> Result<
    (MemoryCommitView, Seq<StoreCall>),
    MemoryIndexError,
> {
    match result {
        Ok(commit) => Ok((commit.deep_view(), calls)),
        Err(error) => Err(error),
    }
}

/// Whether this is what a build with some facts comes to, whatever the store is asked later.
spec fn comes_to(
    scope: IndexScope,
    facts: Facts,
    resolver: LocalRepositoryLinkResolverView,
    calls: Seq<StoreCall>,
    duration_ms: u64,
    result: Result<(MemoryCommitView, Seq<StoreCall>), MemoryIndexError>,
) -> bool {
    forall|more: Seq<StoreCall>|
        begins(calls, more) ==> #[trigger] linked_commit(scope, facts, resolver, more, duration_ms)
            == result
}

/// What the store is asked later changes nothing.
proof fn later_calls_change_nothing(
    scope: IndexScope,
    facts: Facts,
    resolver: LocalRepositoryLinkResolverView,
    calls: Seq<StoreCall>,
    duration_ms: u64,
)
    requires
        previous_links(
            facts.calls,
            local_link_set(resolver, scope.revision, values_in_order(facts.entities)),
            scope.revision,
            resolver.repository,
            calls,
        ).1.len() <= calls.len(),
    ensures
        comes_to(
            scope,
            facts,
            resolver,
            calls,
            duration_ms,
            linked_commit(scope, facts, resolver, calls, duration_ms),
        ),
{
    reveal(linked_commit);
    let id = local_link_set(resolver, scope.revision, values_in_order(facts.entities));
    assert forall|more: Seq<StoreCall>| begins(calls, more) implies #[trigger] linked_commit(
        scope,
        facts,
        resolver,
        more,
        duration_ms,
    ) == linked_commit(scope, facts, resolver, calls, duration_ms) by {
        let first = facts.calls.len() as int;
        assert(first < calls.len());
        assert(more[first] == calls[first]);
        if first + 1 < calls.len() {
            assert(more[first + 1] == calls[first + 1]);
        }
        if first + 2 < calls.len() {
            assert(more[first + 2] == calls[first + 2]);
        }
        if first + 3 < calls.len() {
            assert(more[first + 3] == calls[first + 3]);
        }
        assert(previous_links(facts.calls, id, scope.revision, resolver.repository, more)
            == previous_links(facts.calls, id, scope.revision, resolver.repository, calls));
    }
}

/// Resolves the links of the facts, and puts all of it together.
fn link_commit<T: MemoryStore>(
    gathering: Gathering,
    manifest: &AuthorizedSourceManifest,
    revision: MemoryRevision,
    resolver: &LocalRepositoryLinkResolver,
    store: &mut T,
    indexed_at: &str,
    clock: &mut TimeLimit,
    scope: Ghost<IndexScope>,
) -> (result: Result<MemoryCommit, MemoryIndexError>)
    requires
        old(store).ready(),
        gathering.well_formed(),
        gathering.facts().calls == old(store).calls(),
        scope@.manifest == manifest.deep_view(),
        scope@.revision == revision.deep_view(),
        scope@.indexed_at == indexed_at@,
    ensures
        final(store).ready(),
        begins(old(store).calls(), final(store).calls()),
        changes_nothing(old(store).calls(), final(store).calls()),
        result matches Ok(commit) ==> commit.deep_view().repository_links.len() == 1,
        result matches Ok(commit) ==> commit.metrics.duration_ms == ms_of(
            final(clock).drawn().last() as int,
        ) && final(clock).drawn().len() == old(clock).drawn().len() + 1,
        exists|duration_ms: u64| #[trigger]
            comes_to(
                scope@,
                gathering.facts(),
                resolver.deep_view(),
                final(store).calls(),
                duration_ms,
                committed(result, final(store).calls()),
            ),
{
    proof {
        reveal(linked_commit);
    }
    let ghost facts = gathering.facts();
    let entities = gathering.entities.into_values();
    let relationships = gathering.relationships.into_values();
    let id = resolver.link_set_id(&revision, &entities);
    let previous = match load_previous_links(store, &id, &revision, resolver.repository()) {
        Ok(previous) => previous,
        Err(error) => {
            assert(linked_commit(scope@, facts, resolver.deep_view(), store.calls(), 0) == Err::<
                (MemoryCommitView, Seq<StoreCall>),
                _,
            >(MemoryIndexError::Store(error)));
            proof {
                later_calls_change_nothing(scope@, facts, resolver.deep_view(), store.calls(), 0);
            }
            return Err(MemoryIndexError::Store(error));
        },
    };
    let ghost ordered = entities.deep_view();
    let ghost before = previous.deep_view();
    assert(previous_links(
        facts.calls,
        local_link_set(resolver.deep_view(), scope@.revision, ordered),
        scope@.revision,
        resolver.deep_view().repository,
        store.calls(),
    ) == (Ok::<_, MemoryStoreError>(before), store.calls()));
    let links = match resolver.resolve(&revision, &entities, &previous, indexed_at) {
        Ok(links) => links,
        Err(_) => {
            assert(linked_commit(scope@, facts, resolver.deep_view(), store.calls(), 0) == Err::<
                (MemoryCommitView, Seq<StoreCall>),
                _,
            >(MemoryIndexError::Links));
            proof {
                later_calls_change_nothing(scope@, facts, resolver.deep_view(), store.calls(), 0);
            }
            return Err(MemoryIndexError::Links);
        },
    };
    let mut diagnostics = gathering.diagnostics;
    add_link_diagnostics(&mut diagnostics, &links.diagnostics);
    proof {
        assert(entities.deep_view().len() == entities.len());
        assert(relationships.deep_view().len() == relationships.len());
        assert(links.relationships.deep_view().len() == links.relationships.len());
        assert(diagnostics.deep_view().len() == diagnostics.len());
        assert(manifest.sources.deep_view().len() == manifest.sources.len());
    }
    let metrics = MemoryBuildMetrics {
        discovered_sources: manifest.sources.len() as u64,
        reused_sources: gathering.reused,
        extracted_sources: gathering.extracted,
        skipped_sources: gathering.skipped,
        failed_sources: gathering.failed,
        processed_bytes: gathering.processed_bytes,
        entities: entities.len() as u64,
        relationships: saturating_sum(relationships.len() as u64, links.relationships.len() as u64),
        stale_links: count_stale(&links.relationships),
        diagnostics: diagnostics.len() as u64,
        duration_ms: clock.elapsed_ms(),
    };
    let ghost linked = links.deep_view();
    assert(linked == local_link_commit(
        resolver.deep_view(),
        scope@.revision,
        ordered,
        before,
        scope@.indexed_at,
    ));
    let mut repository_links: Vec<MemoryRepositoryLinkCommit> = Vec::new();
    repository_links.push(links);
    assert(repository_links.deep_view() =~= seq![linked]);
    let commit = MemoryCommit {
        revision,
        entities,
        relationships,
        cache_writes: gathering.cache_writes,
        diagnostics,
        repository_links,
        metrics,
    };
    assert(commit.deep_view() == commit_of(scope@, facts, linked, metrics.duration_ms));
    assert(linked_commit(
        scope@,
        facts,
        resolver.deep_view(),
        store.calls(),
        metrics.duration_ms,
    ) == Ok::<_, MemoryIndexError>((commit.deep_view(), store.calls())));
    proof {
        later_calls_change_nothing(
            scope@,
            facts,
            resolver.deep_view(),
            store.calls(),
            metrics.duration_ms,
        );
    }
    Ok(commit)
}

/// What an index run came to.
#[derive(Debug, PartialEq, Eq)]
pub struct MemoryIndexOutcome {
    pub build_id: MemoryBuildId,
    pub revision: MemoryRevision,
    pub publication: MemoryPublicationOutcome,
    pub repository_link_set: MemoryRepositoryLinkSet,
    pub metrics: MemoryBuildMetrics,
}

/// The model of [`MemoryIndexOutcome`].
pub struct MemoryIndexOutcomeView {
    pub build_id: Seq<char>,
    pub revision: MemoryRevisionView,
    pub publication: MemoryPublicationOutcomeView,
    pub repository_link_set: MemoryRepositoryLinkSetView,
    pub metrics: MemoryBuildMetricsView,
}

impl DeepView for MemoryIndexOutcome {
    type V = MemoryIndexOutcomeView;

    open spec fn deep_view(&self) -> MemoryIndexOutcomeView {
        MemoryIndexOutcomeView {
            build_id: self.build_id.deep_view(),
            revision: self.revision.deep_view(),
            publication: self.publication.deep_view(),
            repository_link_set: self.repository_link_set.deep_view(),
            metrics: self.metrics.deep_view(),
        }
    }
}

impl Record for MemoryIndexOutcome {
    fn copied(&self) -> (copy: Self) {
        MemoryIndexOutcome {
            build_id: self.build_id.copied(),
            revision: self.revision.copied(),
            publication: self.publication.copied(),
            repository_link_set: self.repository_link_set.copied(),
            metrics: self.metrics.copied(),
        }
    }

    fn same(&self, other: &Self) -> (same: bool) {
        self.build_id.same(&other.build_id)
            && self.revision.same(&other.revision)
            && self.publication.same(&other.publication)
            && self.repository_link_set.same(&other.repository_link_set)
            && self.metrics.same(&other.metrics)
    }
}

impl Clone for MemoryIndexOutcome {
    fn clone(&self) -> (copy: Self)
        ensures
            copy.deep_view() == self.deep_view(),
    {
        self.copied()
    }
}

impl MemoryIndexOutcomeView {
    /// The members of the JSON object.
    pub open spec fn members(self) -> Seq<(Seq<char>, Seq<char>)> {
        seq![
            ("build_id"@, <MemoryBuildId as ToJson>::json(self.build_id)),
            ("revision"@, <MemoryRevision as ToJson>::json(self.revision)),
            ("publication"@, <MemoryPublicationOutcome as ToJson>::json(self.publication)),
            ("repository_link_set"@, <MemoryRepositoryLinkSet as ToJson>::json(self.repository_link_set)),
            ("metrics"@, <MemoryBuildMetrics as ToJson>::json(self.metrics)),
        ]
    }
}

impl ToJson for MemoryIndexOutcome {
    open spec fn json(model: MemoryIndexOutcomeView) -> Seq<char> {
        json_object(model.members())
    }

    fn to_json(&self) -> (text: String) {
        let object = JsonObject::new()
            .member("build_id", self.build_id.to_json())
            .member("revision", self.revision.to_json())
            .member("publication", self.publication.to_json())
            .member("repository_link_set", self.repository_link_set.to_json())
            .member("metrics", self.metrics.to_json());
        assert(object.members() =~= self.deep_view().members());
        object.finish()
    }
}


/// The view that a run publishes.
pub const PROJECT_VIEW: &'static str = "project";

/// The outcome of a run once its commit is complete, and what the store was asked.
pub open spec fn published_outcome(
    commit: MemoryCommitView,
    revision: MemoryRevisionView,
    view_name: Seq<char>,
    expected: Option<MemoryPublicationVersionView>,
    asked: Seq<StoreCall>,
    calls: Seq<StoreCall>,
) -> (Result<MemoryIndexOutcomeView, MemoryIndexError>, Seq<StoreCall>) {
    let build_id = commit.revision.completed_by;
    let request = MemoryPublishRequestView {
        project: commit.revision.project,
        view_name,
        build_id,
        expected,
    };
    let reply = calls[asked.len() as int]->Publish_1;
    let asked = asked.push(StoreCall::Publish(request, reply));
    let published = MemoryIndexOutcomeView {
        build_id,
        revision,
        publication: reply->Ok_0,
        repository_link_set: commit.repository_links[0].link_set,
        metrics: commit.metrics,
    };
    match reply {
        Ok(_) => (Ok(published), asked),
        Err(error) => {
            let left = calls[asked.len() as int]->Supersede_1;
            let asked = asked.push(StoreCall::Supersede(build_id, left));
            if error != MemoryStoreError::PublicationConflict {
                (Err(MemoryIndexError::Store(error)), asked)
            } else if left is Err {
                (Err(MemoryIndexError::Store(left->Err_0)), asked)
            } else {
                let current = calls[asked.len() as int]->View_2;
                let asked = asked.push(StoreCall::View(revision.project, view_name, current));
                match current {
                    Err(error) => (Err(MemoryIndexError::Store(error)), asked),
                    Ok(None) => (
                        Err(MemoryIndexError::Store(MemoryStoreError::PublicationConflict)),
                        asked,
                    ),
                    Ok(Some(current)) => (
                        Ok(
                            MemoryIndexOutcomeView {
                                publication: MemoryPublicationOutcomeView::Superseded { current },
                                ..published
                            },
                        ),
                        asked,
                    ),
                }
            }
        },
    }
}

/// The outcome of a run with its commit, and what the store was asked: the build is completed, and
/// its revision is published unless another publication came first.
pub open spec fn finished(
    commit: MemoryCommitView,
    view_name: Seq<char>,
    expected: Option<MemoryPublicationVersionView>,
    asked: Seq<StoreCall>,
    calls: Seq<StoreCall>,
) -> (Result<MemoryIndexOutcomeView, MemoryIndexError>, Seq<StoreCall>) {
    let build_id = commit.revision.completed_by;
    let reply = calls[asked.len() as int]->Complete_1;
    let asked = asked.push(StoreCall::Complete(commit, reply));
    match reply {
        Err(error) => {
            let left = calls[asked.len() as int]->Fail_2;
            (
                Err(MemoryIndexError::Store(error)),
                asked.push(StoreCall::Fail(build_id, "build.commitfailed"@, left)),
            )
        },
        Ok(_) => {
            let stored = calls[asked.len() as int]->Revision_1;
            let asked = asked.push(StoreCall::Revision(commit.revision.id, stored));
            match stored {
                Err(error) => (Err(MemoryIndexError::Store(error)), asked),
                Ok(None) => {
                    (Err(MemoryIndexError::Store(MemoryStoreError::RevisionNotFound)), asked)
                },
                Ok(Some(revision)) => published_outcome(
                    commit,
                    revision,
                    view_name,
                    expected,
                    asked,
                    calls,
                ),
            }
        },
    }
}

/// Completes a build and publishes its revision.
fn finish<T: MemoryStore>(
    store: &mut T,
    commit: MemoryCommit,
    view_name: &MemoryViewName,
    expected: Option<MemoryPublicationVersion>,
) -> (result: Result<MemoryIndexOutcome, MemoryIndexError>)
    requires
        old(store).ready(),
        commit.deep_view().repository_links.len() > 0,
    ensures
        final(store).ready(),
        begins(old(store).calls(), final(store).calls()),
        (outcome(result), final(store).calls()) == finished(
            commit.deep_view(),
            view_name.deep_view(),
            expected.deep_view(),
            old(store).calls(),
            final(store).calls(),
        ),
        result is Err ==> publishes_nothing(old(store).calls(), final(store).calls()),
{
    let ghost start = store.calls();
    let ghost goal = commit.deep_view();
    proof {
        assert(commit.deep_view().repository_links[0] == commit.repository_links@[0].deep_view());
    }
    match store.complete_build(&commit) {
        Ok(_) => {},
        Err(error) => {
            let ghost first = store.calls();
            proof {
                reveal_strlit("build.commitfailed");
            }
            let code = MemoryDiagnosticCode::new("build.commitfailed").unwrap();
            let _ = store.fail_build(&commit.revision.completed_by, &MemoryBuildFailure { code });
            assert(store.calls()[start.len() as int] == first[start.len() as int]);
            return Err(MemoryIndexError::Store(error));
        },
    }
    let ghost first = store.calls();
    let revision = match store.revision(&commit.revision.id) {
        Ok(Some(revision)) => revision,
        Ok(None) => {
            assert(store.calls()[start.len() as int] == first[start.len() as int]);
            return Err(MemoryIndexError::Store(MemoryStoreError::RevisionNotFound));
        },
        Err(error) => {
            assert(store.calls()[start.len() as int] == first[start.len() as int]);
            return Err(MemoryIndexError::Store(error));
        },
    };
    let ghost second = store.calls();
    let request = MemoryPublishRequest {
        project: commit.revision.project.copied(),
        view_name: view_name.copied(),
        build_id: commit.revision.completed_by.copied(),
        expected,
    };
    let reply = store.publish(&request);
    let ghost third = store.calls();
    assert(third[start.len() as int] == first[start.len() as int]);
    assert(third[first.len() as int] == second[first.len() as int]);
    let publication = match reply {
        Ok(publication) => publication,
        Err(error) => {
            let left = store.supersede_build(&commit.revision.completed_by);
            let ghost fourth = store.calls();
            assert(fourth[start.len() as int] == third[start.len() as int]);
            assert(fourth[first.len() as int] == third[first.len() as int]);
            assert(fourth[second.len() as int] == third[second.len() as int]);
            match error {
                MemoryStoreError::PublicationConflict => {},
                _ => {
                    return Err(MemoryIndexError::Store(error));
                },
            }
            match left {
                Ok(_) => {},
                Err(error) => {
                    return Err(MemoryIndexError::Store(error));
                },
            }
            let current = store.published_view(&revision.project, view_name);
            assert(store.calls()[start.len() as int] == fourth[start.len() as int]);
            assert(store.calls()[first.len() as int] == fourth[first.len() as int]);
            assert(store.calls()[second.len() as int] == fourth[second.len() as int]);
            assert(store.calls()[third.len() as int] == fourth[third.len() as int]);
            match current {
                Ok(Some(current)) => MemoryPublicationOutcome::Superseded { current },
                Ok(None) => {
                    return Err(MemoryIndexError::Store(MemoryStoreError::PublicationConflict));
                },
                Err(error) => {
                    return Err(MemoryIndexError::Store(error));
                },
            }
        },
    };
    Ok(
        MemoryIndexOutcome {
            build_id: commit.revision.completed_by.copied(),
            revision,
            publication,
            repository_link_set: commit.repository_links[0].link_set.copied(),
            metrics: commit.metrics.copied(),
        },
    )
}

/// Whether nothing was published since.
pub open spec fn publishes_nothing(before: Seq<StoreCall>, after: Seq<StoreCall>) -> bool {
    forall|i: int| before.len() <= i < after.len() ==> !is_publication(#[trigger] after[i])
}

/// What others said during a run.
pub struct IndexReplies {
    /// What there was to index.
    pub manifest: Result<AuthorizedSourceManifestView, MemorySourceError>,
    /// What had been read of the sources before the run.
    pub reads_before: Seq<
        (AuthorizedSourceDescriptorView, Result<SourceReadView, MemorySourceError>),
    >,
    /// What was read of the sources.
    pub reads: Seq<(AuthorizedSourceDescriptorView, Result<SourceReadView, MemorySourceError>)>,
    /// Whether the sources were still the same in the end.
    pub check: Result<(), MemorySourceError>,
    /// The repository that links lead to.
    pub resolver: Option<LocalRepositoryLinkResolverView>,
    /// What the store had been asked before the run.
    pub calls_before: Seq<StoreCall>,
    /// What the store was asked, and what it answered.
    pub calls: Seq<StoreCall>,
    /// How long the run took.
    pub duration_ms: u64,
}

/// The revision that a manifest stands for.
pub open spec fn revision_of(
    manifest: AuthorizedSourceManifestView,
    build_id: Seq<char>,
) -> MemoryRevisionView {
    MemoryRevisionView {
        id: manifest.revision(),
        project: manifest.project,
        source_set_digest: manifest.source_set_digest,
        policy_digest: manifest.policy_digest,
        memory_model_version: MEMORY_MODEL_VERSION,
        extractor_set_digest: manifest.extractor_set_digest,
        completed_by: build_id,
    }
}

/// What a run prepares to store, and what the store was asked for it.
pub open spec fn prepared(
    scope: IndexScope,
    replies: IndexReplies,
    asked: Seq<StoreCall>,
) -> Result<(MemoryCommitView, Seq<StoreCall>), MemoryIndexError> {
    match with_sources(
        no_sources(replies.reads_before, asked),
        scope,
        scope.manifest.sources,
        replies.reads,
        replies.calls,
    ) {
        Err(error) => Err(error),
        Ok(facts) => match (replies.check, replies.resolver) {
            (Err(error), _) => Err(MemoryIndexError::Source(error)),
            (Ok(_), None) => Err(MemoryIndexError::Links),
            (Ok(_), Some(resolver)) => linked_commit(
                scope,
                facts,
                resolver,
                replies.calls,
                replies.duration_ms,
            ),
        },
    }
}

/// A run that has begun its build: what it indexes, what its view showed then, and what the store was
/// asked.
pub struct BegunRun {
    pub scope: IndexScope,
    pub current: Option<PublishedMemoryRevisionView>,
    pub asked: Seq<StoreCall>,
}

/// What a view showed before a build was begun, and what the store was asked until then; or why the
/// build was not begun.
#[verifier::opaque]
pub open spec fn begun_build(
    view_name: Seq<char>,
    manifest: AuthorizedSourceManifestView,
    build_id: Seq<char>,
    before: Seq<StoreCall>,
    calls: Seq<StoreCall>,
) -> Result<
    (Option<PublishedMemoryRevisionView>, Seq<StoreCall>),
    (MemoryIndexError, Seq<StoreCall>),
> {
    let current = calls[before.len() as int]->View_2;
    let asked = before.push(StoreCall::View(manifest.project, view_name, current));
    match current {
        Err(error) => Err((MemoryIndexError::Store(error), asked)),
        Ok(current) => {
            let begun = calls[asked.len() as int]->Start_1;
            let asked = asked.push(
                StoreCall::Start(
                    MemoryBuildView {
                        id: build_id,
                        project: manifest.project,
                        prospective_revision_id: manifest.revision(),
                        state: MemoryBuildState::Building,
                    },
                    begun,
                ),
            );
            match begun {
                Err(error) => Err((MemoryIndexError::Store(error), asked)),
                Ok(_) => Ok((current, asked)),
            }
        },
    }
}

/// The run that has begun its build; or why it did not, and what the store was asked.
pub open spec fn begun_run(
    view_name: Seq<char>,
    full: bool,
    build_id: Seq<char>,
    indexed_at: Seq<char>,
    replies: IndexReplies,
) -> Result<BegunRun, (MemoryIndexError, Seq<StoreCall>)> {
    match replies.manifest {
        Err(error) => Err((MemoryIndexError::Source(error), replies.calls_before)),
        Ok(manifest) => if manifest.error() is Some {
            Err((MemoryIndexError::Identity(manifest.error()->0), replies.calls_before))
        } else {
            match begun_build(view_name, manifest, build_id, replies.calls_before, replies.calls) {
                Err(failure) => Err(failure),
                Ok((current, asked)) => Ok(
                    BegunRun {
                        scope: IndexScope {
                            manifest,
                            revision: revision_of(manifest, build_id),
                            indexed_at,
                            full,
                        },
                        current,
                        asked,
                    },
                ),
            }
        },
    }
}

/// What the store was asked in a run: all of it; or, where the run failed before there was anything
/// to store, what it was asked until the build began.
pub enum StoreAsked {
    All(Seq<StoreCall>),
    Begun(Seq<StoreCall>),
}

/// What a run comes to, and what the store was asked.
pub open spec fn indexed(
    view_name: Seq<char>,
    full: bool,
    build_id: Seq<char>,
    indexed_at: Seq<char>,
    replies: IndexReplies,
) -> (Result<MemoryIndexOutcomeView, MemoryIndexError>, StoreAsked) {
    match begun_run(view_name, full, build_id, indexed_at, replies) {
        Err((error, asked)) => (Err(error), StoreAsked::All(asked)),
        Ok(run) => match prepared(run.scope, replies, run.asked) {
            Err(error) => (Err(error), StoreAsked::Begun(run.asked)),
            Ok((commit, asked)) => {
                let (result, asked) = finished(
                    commit,
                    view_name,
                    version_of(run.current),
                    asked,
                    replies.calls,
                );
                (result, StoreAsked::All(asked))
            },
        },
    }
}

/// Whether the facts of all sources were put together.
pub open spec fn adds_up(scope: IndexScope, replies: IndexReplies, asked: Seq<StoreCall>) -> bool {
    with_sources(
        no_sources(replies.reads_before, asked),
        scope,
        scope.manifest.sources,
        replies.reads,
        replies.calls,
    ) is Ok
}

/// Whether the sources were compared with the manifest once more, exactly where their facts were put
/// together, and the project's repository was opened, exactly where the sources were still the same.
pub open spec fn checked_and_opened<S: MemorySource, T: MemoryStore, R: LinkResolvers>(
    before: MemoryIndexer<S, T, R>,
    after: MemoryIndexer<S, T, R>,
    scope: IndexScope,
    replies: IndexReplies,
    asked: Seq<StoreCall>,
) -> bool {
    let complete = adds_up(scope, replies, asked);
    &&& after.source.checks() == if complete {
        before.source.checks().push((scope.manifest, replies.check))
    } else {
        before.source.checks()
    }
    &&& after.links.opened() == if complete && replies.check is Ok {
        before.links.opened().push((scope.revision.project, replies.resolver))
    } else {
        before.links.opened()
    }
}

/// Indexes the sources of a project into a store.
pub struct MemoryIndexer<S, T, R> {
    pub source: S,
    pub store: T,
    pub links: R,
    pub view_name: MemoryViewName,
}

impl<S: MemorySource, T: MemoryStore, R: LinkResolvers> MemoryIndexer<S, T, R> {
    pub fn new(source: S, store: T, links: R) -> (indexer: Self)
        ensures
            indexer.source == source,
            indexer.store == store,
            indexer.links == links,
            indexer.view_name.deep_view() == PROJECT_VIEW@,
    {
        proof {
            reveal_strlit("project");
            crate::value::plain_text_is_bounded("project"@, crate::domain::MAX_ID_BYTES as nat, false);
        }
        MemoryIndexer { source, store, links, view_name: MemoryViewName::new("project").unwrap() }
    }

    fn prepare_commit(
        &mut self,
        manifest: &AuthorizedSourceManifest,
        revision: MemoryRevision,
        full: bool,
        indexed_at: &str,
        clock: &mut TimeLimit,
    ) -> (result: Result<MemoryCommit, MemoryIndexError>)
        requires
            old(self).store.ready(),
            revision.deep_view().project == manifest.deep_view().project,
        ensures
            final(self).store.ready(),
            final(self).view_name == old(self).view_name,
            final(self).source.manifests() == old(self).source.manifests(),
            begins(old(self).store.calls(), final(self).store.calls()),
            changes_nothing(old(self).store.calls(), final(self).store.calls()),
            result matches Ok(commit) ==> commit.deep_view().repository_links.len() == 1,
            result matches Ok(commit) ==> commit.metrics.duration_ms == ms_of(
                final(clock).drawn().last() as int,
            ) && final(clock).drawn().len() == old(clock).drawn().len() + 1,
            exists|replies: IndexReplies| #[trigger]
                heard_between(*old(self), *final(self), replies) && is_prepared(
                    IndexScope {
                        manifest: manifest.deep_view(),
                        revision: revision.deep_view(),
                        indexed_at: indexed_at@,
                        full,
                    },
                    replies,
                    old(self).store.calls(),
                    committed(result, final(self).store.calls()),
                ) && is_checked(
                    *old(self),
                    *final(self),
                    IndexScope {
                        manifest: manifest.deep_view(),
                        revision: revision.deep_view(),
                        indexed_at: indexed_at@,
                        full,
                    },
                    replies,
                    old(self).store.calls(),
                ),
    {
        let ghost scope = IndexScope {
            manifest: manifest.deep_view(),
            revision: revision.deep_view(),
            indexed_at: indexed_at@,
            full,
        };
        let ghost start = *self;
        let context = MemoryExtractionContext {
            project: manifest.project.copied(),
            revision_id: revision.id.copied(),
            build_id: revision.completed_by.copied(),
            indexed_at: indexed_at.to_owned(),
            max_entities_per_source: MAX_ENTITIES_PER_SOURCE,
            max_relationships_per_source: MAX_RELATIONSHIPS_PER_SOURCE,
            max_parser_duration_ms: MAX_PARSER_DURATION_MS,
            max_diagnostics: MAX_DIAGNOSTICS as u64,
        };
        proof {
            reveal(extraction_context);
        }
        let gathered = gather_sources(
            manifest,
            &revision,
            &context,
            full,
            &mut self.source,
            &mut self.store,
            Ghost(scope),
        );
        let ghost asked = self.store.calls();
        let ghost facts = added_up(gathered);
        let gathering = match gathered {
            Ok(gathering) => gathering,
            Err(error) => {
                proof {
                    let replies = replies_of(start, *self, Ok(()), None, 0);
                    facts_are_prepared(scope, replies, start.store.calls(), facts, asked, Err(error));
                    assert(heard_between(start, *self, replies));
                    facts_are_checked(start, *self, scope, replies, start.store.calls(), facts, asked);
                }
                return Err(error);
            },
        };
        let check = self.source.revalidate(manifest);
        match check {
            Ok(_) => {},
            Err(error) => {
                proof {
                    let replies = replies_of(start, *self, check, None, 0);
                    facts_are_prepared(
                        scope,
                        replies,
                        start.store.calls(),
                        facts,
                        asked,
                        Err(MemoryIndexError::Source(error)),
                    );
                    assert(heard_between(start, *self, replies));
                    facts_are_checked(start, *self, scope, replies, start.store.calls(), facts, asked);
                }
                return Err(MemoryIndexError::Source(error));
            },
        }
        let opened = self.links.open(&revision.project);
        let ghost answer = opened.deep_view();
        assert(self.links.opened().last().1 == answer);
        let resolver = match opened {
            Some(resolver) => resolver,
            None => {
                proof {
                    assert(answer is None);
                    let replies = replies_of(start, *self, check, None, 0);
                    facts_are_prepared(
                        scope,
                        replies,
                        start.store.calls(),
                        facts,
                        asked,
                        Err(MemoryIndexError::Links),
                    );
                    assert(heard_between(start, *self, replies));
                    facts_are_checked(start, *self, scope, replies, start.store.calls(), facts, asked);
                }
                return Err(MemoryIndexError::Links);
            },
        };
        assert(answer == Some(resolver.deep_view()));
        let result = link_commit(
            gathering,
            manifest,
            revision,
            &resolver,
            &mut self.store,
            indexed_at,
            clock,
            Ghost(scope),
        );
        proof {
            let duration_ms = choose|duration_ms: u64| #[trigger]
                comes_to(
                    scope,
                    gathering.facts(),
                    resolver.deep_view(),
                    self.store.calls(),
                    duration_ms,
                    committed(result, self.store.calls()),
                );
            let replies = replies_of(start, *self, check, Some(resolver.deep_view()), duration_ms);
            facts_are_prepared(
                scope,
                replies,
                start.store.calls(),
                facts,
                asked,
                committed(result, self.store.calls()),
            );
            assert(heard_between(start, *self, replies));
                    facts_are_checked(start, *self, scope, replies, start.store.calls(), facts, asked);
            begins_further(start.store.calls(), asked, self.store.calls());
            still_changes_nothing(start.store.calls(), asked, self.store.calls());
        }
        result
    }
}

/// What others said, with more that the store was asked.
pub open spec fn with_calls(replies: IndexReplies, calls: Seq<StoreCall>) -> IndexReplies {
    IndexReplies { calls, ..replies }
}

/// Whether this is what a run prepares to store, whatever the store is asked later.
#[verifier::opaque]
spec fn is_prepared(
    scope: IndexScope,
    replies: IndexReplies,
    asked: Seq<StoreCall>,
    result: Result<(MemoryCommitView, Seq<StoreCall>), MemoryIndexError>,
) -> bool {
    forall|more: Seq<StoreCall>|
        begins(replies.calls, more) ==> prepared(scope, #[trigger] with_calls(replies, more), asked)
            == result
}

/// Whether the sources were compared and the repository was opened as they had to be, whatever the
/// store is asked later.
#[verifier::opaque]
spec fn is_checked<S: MemorySource, T: MemoryStore, R: LinkResolvers>(
    before: MemoryIndexer<S, T, R>,
    after: MemoryIndexer<S, T, R>,
    scope: IndexScope,
    replies: IndexReplies,
    asked: Seq<StoreCall>,
) -> bool {
    forall|more: Seq<StoreCall>|
        begins(replies.calls, more) ==> checked_and_opened(
            before,
            after,
            scope,
            #[trigger] with_calls(replies, more),
            asked,
        )
}

/// Whether the sources were compared and the repository was opened follows from what the sources add
/// up to.
proof fn facts_are_checked<S: MemorySource, T: MemoryStore, R: LinkResolvers>(
    before: MemoryIndexer<S, T, R>,
    after: MemoryIndexer<S, T, R>,
    scope: IndexScope,
    replies: IndexReplies,
    asked: Seq<StoreCall>,
    gathered: Result<Facts, MemoryIndexError>,
    calls: Seq<StoreCall>,
)
    requires
        begins(calls, replies.calls),
        forall|
            reads: Seq<
                (AuthorizedSourceDescriptorView, Result<SourceReadView, MemorySourceError>),
            >,
            more: Seq<StoreCall>,
        |
            begins(replies.reads, reads) && begins(calls, more) ==> #[trigger] with_sources(
                no_sources(replies.reads_before, asked),
                scope,
                scope.manifest.sources,
                reads,
                more,
            ) == gathered,
        after.source.checks() == if gathered is Ok {
            before.source.checks().push((scope.manifest, replies.check))
        } else {
            before.source.checks()
        },
        after.links.opened() == if gathered is Ok && replies.check is Ok {
            before.links.opened().push((scope.revision.project, replies.resolver))
        } else {
            before.links.opened()
        },
    ensures
        is_checked(before, after, scope, replies, asked),
{
    reveal(is_checked);
    assert forall|more: Seq<StoreCall>| begins(replies.calls, more) implies checked_and_opened(
        before,
        after,
        scope,
        #[trigger] with_calls(replies, more),
        asked,
    ) by {
        begins_further(calls, replies.calls, more);
        assert(begins(replies.reads, replies.reads));
        assert(with_sources(
            no_sources(replies.reads_before, asked),
            scope,
            scope.manifest.sources,
            replies.reads,
            more,
        ) == gathered);
    }
}

/// What a run prepares follows from what its sources add up to.
proof fn facts_are_prepared(
    scope: IndexScope,
    replies: IndexReplies,
    asked: Seq<StoreCall>,
    gathered: Result<Facts, MemoryIndexError>,
    calls: Seq<StoreCall>,
    result: Result<(MemoryCommitView, Seq<StoreCall>), MemoryIndexError>,
)
    requires
        begins(calls, replies.calls),
        forall|
            reads: Seq<
                (AuthorizedSourceDescriptorView, Result<SourceReadView, MemorySourceError>),
            >,
            more: Seq<StoreCall>,
        |
            begins(replies.reads, reads) && begins(calls, more) ==> #[trigger] with_sources(
                no_sources(replies.reads_before, asked),
                scope,
                scope.manifest.sources,
                reads,
                more,
            ) == gathered,
        match gathered {
            Err(error) => result == Err::<(MemoryCommitView, Seq<StoreCall>), _>(error),
            Ok(facts) => match (replies.check, replies.resolver) {
                (Err(error), _) => result == Err::<(MemoryCommitView, Seq<StoreCall>), _>(
                    MemoryIndexError::Source(error),
                ),
                (Ok(_), None) => result == Err::<(MemoryCommitView, Seq<StoreCall>), _>(
                    MemoryIndexError::Links,
                ),
                (Ok(_), Some(resolver)) => comes_to(
                    scope,
                    facts,
                    resolver,
                    replies.calls,
                    replies.duration_ms,
                    result,
                ),
            },
        },
    ensures
        is_prepared(scope, replies, asked, result),
{
    reveal(is_prepared);
    assert forall|more: Seq<StoreCall>| begins(replies.calls, more) implies prepared(
        scope,
        #[trigger] with_calls(replies, more),
        asked,
    ) == result by {
        begins_further(calls, replies.calls, more);
        assert(begins(replies.reads, replies.reads));
        assert(with_sources(
            no_sources(replies.reads_before, asked),
            scope,
            scope.manifest.sources,
            replies.reads,
            more,
        ) == gathered);
    }
}

/// What begins the beginning begins the whole.
proof fn begins_further<A>(first: Seq<A>, second: Seq<A>, third: Seq<A>)
    requires
        begins(first, second),
        begins(second, third),
    ensures
        begins(first, third),
{
    assert forall|i: int| 0 <= i < first.len() implies #[trigger] third[i] == first[i] by {
        assert(third[i] == second[i]);
    }
}

/// Reads after reads change nothing.
proof fn still_changes_nothing(first: Seq<StoreCall>, second: Seq<StoreCall>, third: Seq<StoreCall>)
    requires
        begins(second, third),
        changes_nothing(first, second),
        changes_nothing(second, third),
    ensures
        changes_nothing(first, third),
{
    assert forall|i: int| first.len() <= i < third.len() implies match #[trigger] third[i] {
        StoreCall::Start(_, _) => false,
        StoreCall::Fail(_, _, _) => false,
        StoreCall::Complete(_, _) => false,
        StoreCall::Publish(_, _) => false,
        StoreCall::Supersede(_, _) => false,
        _ => true,
    } by {
        if i < second.len() {
            assert(third[i] == second[i]);
        }
    }
}

/// What others said between two moments of a run.
spec fn replies_of<S: MemorySource, T: MemoryStore, R: LinkResolvers>(
    before: MemoryIndexer<S, T, R>,
    after: MemoryIndexer<S, T, R>,
    check: Result<(), MemorySourceError>,
    resolver: Option<LocalRepositoryLinkResolverView>,
    duration_ms: u64,
) -> IndexReplies {
    IndexReplies {
        manifest: after.source.manifests().last(),
        reads_before: before.source.reads(),
        reads: after.source.reads(),
        check,
        resolver,
        calls_before: before.store.calls(),
        calls: after.store.calls(),
        duration_ms,
    }
}

/// Whether this is what was read and stored between two moments of a run.
pub open spec fn heard_between<S: MemorySource, T: MemoryStore, R: LinkResolvers>(
    before: MemoryIndexer<S, T, R>,
    after: MemoryIndexer<S, T, R>,
    replies: IndexReplies,
) -> bool {
    &&& replies.reads_before == before.source.reads()
    &&& replies.reads == after.source.reads()
    &&& replies.calls_before == before.store.calls()
    &&& replies.calls == after.store.calls()
}

/// Whether this is what others said in a run: the sources were listed once, and compared with that
/// list and linked to the project's repository as the run had to.
pub open spec fn replies_between<S: MemorySource, T: MemoryStore, R: LinkResolvers>(
    before: MemoryIndexer<S, T, R>,
    after: MemoryIndexer<S, T, R>,
    run: Result<BegunRun, (MemoryIndexError, Seq<StoreCall>)>,
    replies: IndexReplies,
) -> bool {
    &&& heard_between(before, after, replies)
    &&& after.source.manifests() == before.source.manifests().push(replies.manifest)
    &&& match run {
        Ok(run) => checked_and_opened(before, after, run.scope, replies, run.asked),
        Err(_) => after.source.checks() == before.source.checks() && after.links.opened()
            == before.links.opened(),
    }
}

/// Whether a run came out as it had to: its result, and all that the store was asked. Where the run
/// failed before there was anything to store, nothing was changed since the build began but that it
/// was ended.
pub open spec fn came_out(
    run: (Result<MemoryIndexOutcomeView, MemoryIndexError>, StoreAsked),
    build_id: Seq<char>,
    result: Result<MemoryIndexOutcomeView, MemoryIndexError>,
    calls: Seq<StoreCall>,
) -> bool {
    &&& run.0 == result
    &&& match run.1 {
        StoreAsked::All(asked) => calls == asked,
        StoreAsked::Begun(asked) => {
            &&& calls.len() > asked.len()
            &&& begins(asked, calls.drop_last())
            &&& changes_nothing(asked, calls.drop_last())
            &&& calls.last() is Fail
            &&& calls.last()->Fail_0 == build_id
            &&& calls.last()->Fail_1 == "build.failed"@
        },
    }
}

/// Whether a run went from one moment to another, given what others said in it.
#[verifier::opaque]
pub open spec fn ran<S: MemorySource, T: MemoryStore, R: LinkResolvers>(
    before: MemoryIndexer<S, T, R>,
    after: MemoryIndexer<S, T, R>,
    full: bool,
    build_id: Seq<char>,
    indexed_at: Seq<char>,
    result: Result<MemoryIndexOutcomeView, MemoryIndexError>,
    replies: IndexReplies,
) -> bool {
    let view_name = before.view_name.deep_view();
    &&& replies_between(
        before,
        after,
        begun_run(view_name, full, build_id, indexed_at, replies),
        replies,
    )
    &&& came_out(
        indexed(view_name, full, build_id, indexed_at, replies),
        build_id,
        result,
        after.store.calls(),
    )
}

impl<S: MemorySource, T: MemoryStore, R: LinkResolvers> MemoryIndexer<S, T, R> {
    /// Begins a build: gives the version of what the view shows.
    fn begin_build(
        &mut self,
        manifest: &AuthorizedSourceManifest,
        revision_id: &MemoryRevisionId,
        build_id: &MemoryBuildId,
    ) -> (result: Result<Option<MemoryPublicationVersion>, MemoryIndexError>)
        requires
            old(self).store.ready(),
            revision_id.deep_view() == manifest.deep_view().revision(),
        ensures
            final(self).store.ready(),
            final(self).view_name == old(self).view_name,
            final(self).source == old(self).source,
            final(self).links == old(self).links,
            begins(old(self).store.calls(), final(self).store.calls()),
            publishes_nothing(old(self).store.calls(), final(self).store.calls()),
            match result {
                Ok(expected) => stays_begun(
                    old(self).view_name.deep_view(),
                    manifest.deep_view(),
                    build_id.deep_view(),
                    old(self).store.calls(),
                    final(self).store.calls(),
                    expected.deep_view(),
                ),
                Err(error) => begun_build(
                    old(self).view_name.deep_view(),
                    manifest.deep_view(),
                    build_id.deep_view(),
                    old(self).store.calls(),
                    final(self).store.calls(),
                ) == Err::<(Option<PublishedMemoryRevisionView>, Seq<StoreCall>), _>(
                    (error, final(self).store.calls()),
                ),
            },
    {
        let ghost base = self.store.calls();
        proof {
            reveal(begun_build);
            reveal(stays_begun);
        }
        let shown = self.store.published_view(&manifest.project, &self.view_name);
        let ghost first = self.store.calls();
        assert(first[base.len() as int] == first.last());
        let expected = match shown {
            Ok(Some(view)) => Some(
                MemoryPublicationVersion { revision_id: view.revision_id, generation: view.generation },
            ),
            Ok(None) => None,
            Err(error) => {
                return Err(MemoryIndexError::Store(error));
            },
        };
        assert(expected.deep_view() == version_of(first.last()->View_2->Ok_0));
        let build = MemoryBuild {
            id: build_id.copied(),
            project: manifest.project.copied(),
            prospective_revision_id: revision_id.copied(),
            state: MemoryBuildState::Building,
        };
        let begun = self.store.start_build(&build);
        let ghost second = self.store.calls();
        assert(second[base.len() as int] == first[base.len() as int]);
        assert(second[first.len() as int] == second.last());
        match begun {
            Ok(_) => Ok(expected),
            Err(error) => Err(MemoryIndexError::Store(error)),
        }
    }

    /// Indexes the sources as they are now, in a build with a new name.
    pub fn index(
        &mut self,
        options: MemoryIndexOptions,
        build_id: MemoryBuildId,
        indexed_at: &str,
    ) -> (result: Result<MemoryIndexOutcome, MemoryIndexError>)
        requires
            old(self).store.ready(),
        ensures
            final(self).store.ready(),
            final(self).view_name == old(self).view_name,
            begins(old(self).store.calls(), final(self).store.calls()),
            result is Err ==> publishes_nothing(
                old(self).store.calls(),
                final(self).store.calls(),
            ),
            exists|replies: IndexReplies| #[trigger]
                ran(
                    *old(self),
                    *final(self),
                    options.full,
                    build_id.deep_view(),
                    indexed_at@,
                    outcome(result),
                    replies,
                ),
    {
        let ghost start = *self;
        let ghost base = self.store.calls();
        let ghost id = build_id.deep_view();
        let mut clock = TimeLimit::after_ms(u64::MAX);
        let listed = self.source.manifest();
        let ghost listing = outcome(listed);
        assert(self.source.manifests().last() == listing);
        let manifest = match listed {
            Ok(manifest) => manifest,
            Err(error) => {
                proof {
                    unbegun_run(
                        start,
                        *self,
                        options.full,
                        id,
                        indexed_at@,
                        listing,
                        MemoryIndexError::Source(error),
                    );
                }
                return Err(MemoryIndexError::Source(error));
            },
        };
        let revision = match MemoryRevision::from_manifest(&manifest, build_id.copied()) {
            Ok(revision) => revision,
            Err(error) => {
                proof {
                    unbegun_run(
                        start,
                        *self,
                        options.full,
                        id,
                        indexed_at@,
                        listing,
                        MemoryIndexError::Identity(error),
                    );
                }
                return Err(MemoryIndexError::Identity(error));
            },
        };
        assert(revision.deep_view() == revision_of(manifest.deep_view(), build_id.deep_view()));
        let begun = self.begin_build(&manifest, &revision.id, &build_id);
        let ghost second = self.store.calls();
        let expected = match begun {
            Ok(expected) => expected,
            Err(error) => {
                proof {
                    unbegun_run(start, *self, options.full, id, indexed_at@, listing, error);
                }
                return Err(error);
            },
        };
        let ghost revised = revision.deep_view();
        let ghost middle = *self;
        let commits = self.prepare_commit(&manifest, revision, options.full, indexed_at, &mut clock);
        let ghost after = *self;
        let ghost scope = IndexScope {
            manifest: manifest.deep_view(),
            revision: revised,
            indexed_at: indexed_at@,
            full: options.full,
        };
        let ghost heard = choose|replies: IndexReplies| #[trigger]
            heard_between(middle, after, replies) && is_prepared(
                scope,
                replies,
                second,
                committed(commits, after.store.calls()),
            ) && is_checked(middle, after, scope, replies, second);
        match commits {
            Err(error) => {
                proof {
                    reveal_strlit("build.failed");
                }
                let code = MemoryDiagnosticCode::new("build.failed").unwrap();
                let _ = self.store.fail_build(&build_id, &MemoryBuildFailure { code });
                proof {
                    assert(self.store.calls().drop_last() =~= after.store.calls());
                    failed_run(
                        start,
                        middle,
                        after,
                        *self,
                        scope,
                        id,
                        expected.deep_view(),
                        heard,
                        error,
                    );
                }
                Err(error)
            },
            Ok(commit) => {
                let ghost written = commit.deep_view();
                let result = finish(&mut self.store, commit, &self.view_name, expected);
                proof {
                    finished_run(
                        start,
                        middle,
                        after,
                        *self,
                        scope,
                        id,
                        expected.deep_view(),
                        heard,
                        written,
                        outcome(result),
                    );
                }
                result
            },
        }
    }
}

/// A run whose build was not begun came out as it had to.
proof fn unbegun_run<S: MemorySource, T: MemoryStore, R: LinkResolvers>(
    start: MemoryIndexer<S, T, R>,
    last: MemoryIndexer<S, T, R>,
    full: bool,
    id: Seq<char>,
    indexed_at: Seq<char>,
    listing: Result<AuthorizedSourceManifestView, MemorySourceError>,
    error: MemoryIndexError,
)
    requires
        last.source.manifests() == start.source.manifests().push(listing),
        last.source.reads() == start.source.reads(),
        last.source.checks() == start.source.checks(),
        last.links.opened() == start.links.opened(),
        match listing {
            Err(failure) => error == MemoryIndexError::Source(failure) && last.store.calls()
                == start.store.calls(),
            Ok(manifest) => match manifest.error() {
                Some(failure) => error == MemoryIndexError::Identity(failure)
                    && last.store.calls() == start.store.calls(),
                None => begun_build(
                    start.view_name.deep_view(),
                    manifest,
                    id,
                    start.store.calls(),
                    last.store.calls(),
                ) == Err::<(Option<PublishedMemoryRevisionView>, Seq<StoreCall>), _>(
                    (error, last.store.calls()),
                ),
            },
        },
    ensures
        exists|replies: IndexReplies| #[trigger]
            ran(start, last, full, id, indexed_at, Err(error), replies),
{
    reveal(ran);
    let replies = replies_of(start, last, Ok(()), None, 0);
    assert(replies.manifest == listing);
    assert(ran(start, last, full, id, indexed_at, Err(error), replies));
}

/// What others said in a whole run.
spec fn whole_run(
    heard: IndexReplies,
    manifest: Result<AuthorizedSourceManifestView, MemorySourceError>,
    base: Seq<StoreCall>,
    last: Seq<StoreCall>,
) -> IndexReplies {
    IndexReplies { manifest, calls_before: base, calls: last, ..heard }
}

/// What was prepared is prepared in the whole run.
proof fn preparation_holds(
    scope: IndexScope,
    heard: IndexReplies,
    manifest: Result<AuthorizedSourceManifestView, MemorySourceError>,
    base: Seq<StoreCall>,
    asked: Seq<StoreCall>,
    last: Seq<StoreCall>,
    result: Result<(MemoryCommitView, Seq<StoreCall>), MemoryIndexError>,
)
    requires
        is_prepared(scope, heard, asked, result),
        begins(heard.calls, last),
    ensures
        prepared(scope, whole_run(heard, manifest, base, last), asked) == result,
{
    reveal(is_prepared);
    assert(prepared(scope, with_calls(heard, last), asked) == result);
}

/// What was asked first stays asked first.
proof fn run_goes_on(
    base: Seq<StoreCall>,
    second: Seq<StoreCall>,
    third: Seq<StoreCall>,
    last: Seq<StoreCall>,
)
    requires
        begins(base, second),
        begins(second, third),
        begins(third, last),
    ensures
        begins(base, last),
        begins(second, last),
{
    begins_further(second, third, last);
    begins_further(base, second, last);
}

/// Whether a run has gone from its start over the beginning of its build and its preparation to its
/// end.
spec fn run_phases<S: MemorySource, T: MemoryStore, R: LinkResolvers>(
    start: MemoryIndexer<S, T, R>,
    middle: MemoryIndexer<S, T, R>,
    after: MemoryIndexer<S, T, R>,
    last: MemoryIndexer<S, T, R>,
    manifest: AuthorizedSourceManifestView,
) -> bool {
    &&& middle.source.manifests() == start.source.manifests().push(Ok(manifest))
    &&& middle.source.reads() == start.source.reads()
    &&& middle.source.checks() == start.source.checks()
    &&& middle.links.opened() == start.links.opened()
    &&& after.source.manifests() == middle.source.manifests()
    &&& last.source == after.source
    &&& last.links == after.links
    &&& begins(start.store.calls(), middle.store.calls())
    &&& begins(middle.store.calls(), after.store.calls())
    &&& begins(after.store.calls(), last.store.calls())
}

/// Whether a build was begun, whatever the store is asked later.
#[verifier::opaque]
spec fn stays_begun(
    view_name: Seq<char>,
    manifest: AuthorizedSourceManifestView,
    id: Seq<char>,
    before: Seq<StoreCall>,
    calls: Seq<StoreCall>,
    expected: Option<MemoryPublicationVersionView>,
) -> bool {
    forall|more: Seq<StoreCall>|
        begins(calls, more) ==> {
            let model = #[trigger] begun_build(view_name, manifest, id, before, more);
            model is Ok && model->Ok_0.1 == calls && version_of(model->Ok_0.0) == expected
        }
}

/// What was heard in a run whose build was begun.
proof fn run_is_heard<S: MemorySource, T: MemoryStore, R: LinkResolvers>(
    start: MemoryIndexer<S, T, R>,
    middle: MemoryIndexer<S, T, R>,
    after: MemoryIndexer<S, T, R>,
    last: MemoryIndexer<S, T, R>,
    scope: IndexScope,
    id: Seq<char>,
    expected: Option<MemoryPublicationVersionView>,
    heard: IndexReplies,
    result: Result<(MemoryCommitView, Seq<StoreCall>), MemoryIndexError>,
)
    requires
        run_phases(start, middle, after, last, scope.manifest),
        scope.manifest.error() is None,
        scope.revision == revision_of(scope.manifest, id),
        stays_begun(
            start.view_name.deep_view(),
            scope.manifest,
            id,
            start.store.calls(),
            middle.store.calls(),
            expected,
        ),
        heard_between(middle, after, heard),
        is_prepared(scope, heard, middle.store.calls(), result),
        is_checked(middle, after, scope, heard, middle.store.calls()),
    ensures
        ({
            let replies = whole_run(heard, Ok(scope.manifest), start.store.calls(), last.store.calls());
            let run = begun_run(
                start.view_name.deep_view(),
                scope.full,
                id,
                scope.indexed_at,
                replies,
            );
            &&& replies_between(start, last, run, replies)
            &&& run is Ok
            &&& run->Ok_0.scope == scope
            &&& run->Ok_0.asked == middle.store.calls()
            &&& version_of(run->Ok_0.current) == expected
            &&& prepared(scope, replies, middle.store.calls()) == result
        }),
{
    let calls = last.store.calls();
    let replies = whole_run(heard, Ok(scope.manifest), start.store.calls(), calls);
    run_goes_on(start.store.calls(), middle.store.calls(), after.store.calls(), calls);
    assert(begun_build(
        start.view_name.deep_view(),
        scope.manifest,
        id,
        start.store.calls(),
        calls,
    ) is Ok) by {
        reveal(stays_begun);
    }
    assert(version_of(
        begun_build(
            start.view_name.deep_view(),
            scope.manifest,
            id,
            start.store.calls(),
            calls,
        )->Ok_0.0,
    ) == expected && begun_build(
        start.view_name.deep_view(),
        scope.manifest,
        id,
        start.store.calls(),
        calls,
    )->Ok_0.1 == middle.store.calls()) by {
        reveal(stays_begun);
    }
    preparation_holds(
        scope,
        heard,
        Ok(scope.manifest),
        start.store.calls(),
        middle.store.calls(),
        calls,
        result,
    );
    assert(checked_and_opened(
        middle,
        after,
        scope,
        with_calls(heard, calls),
        middle.store.calls(),
    )) by {
        reveal(is_checked);
    }
}

/// A run that failed in its preparation came out as it had to.
proof fn failed_run<S: MemorySource, T: MemoryStore, R: LinkResolvers>(
    start: MemoryIndexer<S, T, R>,
    middle: MemoryIndexer<S, T, R>,
    after: MemoryIndexer<S, T, R>,
    last: MemoryIndexer<S, T, R>,
    scope: IndexScope,
    id: Seq<char>,
    expected: Option<MemoryPublicationVersionView>,
    heard: IndexReplies,
    error: MemoryIndexError,
)
    requires
        run_phases(start, middle, after, last, scope.manifest),
        scope.manifest.error() is None,
        scope.revision == revision_of(scope.manifest, id),
        stays_begun(
            start.view_name.deep_view(),
            scope.manifest,
            id,
            start.store.calls(),
            middle.store.calls(),
            expected,
        ),
        heard_between(middle, after, heard),
        is_prepared(scope, heard, middle.store.calls(), Err(error)),
        is_checked(middle, after, scope, heard, middle.store.calls()),
        changes_nothing(middle.store.calls(), after.store.calls()),
        publishes_nothing(start.store.calls(), middle.store.calls()),
        last.store.calls().drop_last() == after.store.calls(),
        last.store.calls().len() > 0,
        last.store.calls().last() is Fail,
        last.store.calls().last()->Fail_0 == id,
        last.store.calls().last()->Fail_1 == "build.failed"@,
    ensures
        exists|replies: IndexReplies| #[trigger]
            ran(start, last, scope.full, id, scope.indexed_at, Err(error), replies),
        begins(start.store.calls(), last.store.calls()),
        publishes_nothing(start.store.calls(), last.store.calls()),
{
    let calls = last.store.calls();
    let replies = whole_run(heard, Ok(scope.manifest), start.store.calls(), calls);
    reveal(ran);
    run_is_heard(start, middle, after, last, scope, id, expected, heard, Err(error));
    assert(ran(start, last, scope.full, id, scope.indexed_at, Err(error), replies));
    run_goes_on(start.store.calls(), middle.store.calls(), after.store.calls(), calls);
    run_publishes_nothing(start.store.calls(), middle.store.calls(), after.store.calls());
    assert forall|i: int| start.store.calls().len() <= i < calls.len() implies !is_publication(
        #[trigger] calls[i],
    ) by {
        if i < after.store.calls().len() {
            assert(calls[i] == after.store.calls()[i]);
        }
    }
}

/// Where nothing was published first, and nothing was changed then, nothing was published.
proof fn run_publishes_nothing(base: Seq<StoreCall>, second: Seq<StoreCall>, third: Seq<StoreCall>)
    requires
        begins(second, third),
        publishes_nothing(base, second),
        changes_nothing(second, third),
    ensures
        publishes_nothing(base, third),
{
    assert forall|i: int| base.len() <= i < third.len() implies !is_publication(#[trigger] third[i]) by {
        if i < second.len() {
            assert(third[i] == second[i]);
        }
    }
}

/// A run that had something to store came out as it had to.
proof fn finished_run<S: MemorySource, T: MemoryStore, R: LinkResolvers>(
    start: MemoryIndexer<S, T, R>,
    middle: MemoryIndexer<S, T, R>,
    after: MemoryIndexer<S, T, R>,
    last: MemoryIndexer<S, T, R>,
    scope: IndexScope,
    id: Seq<char>,
    expected: Option<MemoryPublicationVersionView>,
    heard: IndexReplies,
    commit: MemoryCommitView,
    result: Result<MemoryIndexOutcomeView, MemoryIndexError>,
)
    requires
        run_phases(start, middle, after, last, scope.manifest),
        scope.manifest.error() is None,
        scope.revision == revision_of(scope.manifest, id),
        stays_begun(
            start.view_name.deep_view(),
            scope.manifest,
            id,
            start.store.calls(),
            middle.store.calls(),
            expected,
        ),
        heard_between(middle, after, heard),
        is_prepared(
            scope,
            heard,
            middle.store.calls(),
            Ok((commit, after.store.calls())),
        ),
        is_checked(middle, after, scope, heard, middle.store.calls()),
        changes_nothing(middle.store.calls(), after.store.calls()),
        publishes_nothing(start.store.calls(), middle.store.calls()),
        (result, last.store.calls()) == finished(
            commit,
            start.view_name.deep_view(),
            expected,
            after.store.calls(),
            last.store.calls(),
        ),
        result is Err ==> publishes_nothing(after.store.calls(), last.store.calls()),
    ensures
        exists|replies: IndexReplies| #[trigger]
            ran(start, last, scope.full, id, scope.indexed_at, result, replies),
        begins(start.store.calls(), last.store.calls()),
        result is Err ==> publishes_nothing(start.store.calls(), last.store.calls()),
{
    let calls = last.store.calls();
    let replies = whole_run(heard, Ok(scope.manifest), start.store.calls(), calls);
    reveal(ran);
    run_is_heard(
        start,
        middle,
        after,
        last,
        scope,
        id,
        expected,
        heard,
        Ok((commit, after.store.calls())),
    );
    assert(ran(start, last, scope.full, id, scope.indexed_at, result, replies));
    run_goes_on(start.store.calls(), middle.store.calls(), after.store.calls(), calls);
    if result is Err {
        run_publishes_nothing(start.store.calls(), middle.store.calls(), after.store.calls());
        assert forall|i: int| start.store.calls().len() <= i < calls.len() implies !is_publication(
            #[trigger] calls[i],
        ) by {
            if i < after.store.calls().len() {
                assert(calls[i] == after.store.calls()[i]);
            }
        }
    }
}

/// A run that fails leaves every published view of its store as it was.
pub proof fn failed_runs_change_no_view(before: MemoryLedger, after: MemoryLedger)
    requires
        before.ready(),
        after.ready(),
        begins(before.calls(), after.calls()),
        publishes_nothing(before.calls(), after.calls()),
    ensures
        after.state().views == before.state().views,
{
    before.holds_together();
    after.holds_together();
    nothing_is_sound();
    only_publishing_changes_views(nothing_stored(), after.calls(), before.calls().len() as int);
    assert(after.calls().take(before.calls().len() as int) =~= before.calls());
}

/// What the view of a project shows, where it shows anything.
pub fn published_revision<T: MemoryStore>(store: &mut T, project: &ProjectRef) -> (result: Result<
    Option<PublishedMemoryRevision>,
    MemoryStoreError,
>)
    requires
        old(store).ready(),
    ensures
        final(store).ready(),
        final(store).calls() == old(store).calls().push(
            StoreCall::View(project.deep_view(), PROJECT_VIEW@, outcome(result)),
        ),
{
    proof {
        reveal_strlit("project");
        crate::value::plain_text_is_bounded("project"@, crate::domain::MAX_ID_BYTES as nat, false);
    }
    let view = MemoryViewName::new(PROJECT_VIEW).unwrap();
    store.published_view(project, &view)
}

/// Merging keeps all that was known as it was, and adds all that is new.
pub proof fn merging_keeps_everything(
    known: Map<Seq<char>, MemoryEntityView>,
    more: Seq<MemoryEntityView>,
)
    ensures
        merged_entities(known, more) matches Some(all) ==> {
            &&& forall|id: Seq<char>| #[trigger]
                known.contains_key(id) ==> all.contains_key(id) && all[id] == known[id]
            &&& forall|i: int|
                0 <= i < more.len() ==> all.contains_key((#[trigger] more[i]).id) && all[more[i].id]
                    == more[i]
            &&& forall|id: Seq<char>| #[trigger]
                all.contains_key(id) ==> known.contains_key(id) || exists|i: int|
                    0 <= i < more.len() && (#[trigger] more[i]).id == id
            &&& known.dom().finite() ==> all.dom().finite()
        },
    decreases more.len(),
{
    if more.len() > 0 {
        let before = more.drop_last();
        merging_keeps_everything(known, before);
        if let Some(all) = merged_entities(known, more) {
            let earlier = merged_entities(known, before)->0;
            assert(all =~= earlier.insert(more.last().id, more.last()));
            assert forall|i: int| 0 <= i < more.len() implies all.contains_key((#[trigger] more[i]).id)
                && all[more[i].id] == more[i] by {
                if i < before.len() {
                    assert(before[i] == more[i]);
                }
            }
            assert forall|id: Seq<char>| #[trigger] all.contains_key(id) implies known.contains_key(id)
                || exists|i: int| 0 <= i < more.len() && (#[trigger] more[i]).id == id by {
                if id == more.last().id {
                    assert(more[more.len() - 1].id == id);
                } else if !known.contains_key(id) {
                    let i = choose|i: int| 0 <= i < before.len() && (#[trigger] before[i]).id == id;
                    assert(more[i].id == id);
                }
            }
        }
    }
}

/// Merging relationships keeps all that was known as it was, and adds all that is new.
pub proof fn merging_keeps_every_relationship(
    known: Map<Seq<char>, MemoryRelationshipView>,
    more: Seq<MemoryRelationshipView>,
)
    ensures
        merged_relationships(known, more) matches Some(all) ==> {
            &&& forall|id: Seq<char>| #[trigger]
                known.contains_key(id) ==> all.contains_key(id) && all[id] == known[id]
            &&& forall|i: int|
                0 <= i < more.len() ==> all.contains_key((#[trigger] more[i]).id) && all[more[i].id]
                    == more[i]
            &&& forall|id: Seq<char>| #[trigger]
                all.contains_key(id) ==> known.contains_key(id) || exists|i: int|
                    0 <= i < more.len() && (#[trigger] more[i]).id == id
            &&& known.dom().finite() ==> all.dom().finite()
        },
    decreases more.len(),
{
    if more.len() > 0 {
        let before = more.drop_last();
        merging_keeps_every_relationship(known, before);
        if let Some(all) = merged_relationships(known, more) {
            let earlier = merged_relationships(known, before)->0;
            assert(all =~= earlier.insert(more.last().id, more.last()));
            assert forall|i: int| 0 <= i < more.len() implies all.contains_key((#[trigger] more[i]).id)
                && all[more[i].id] == more[i] by {
                if i < before.len() {
                    assert(before[i] == more[i]);
                }
            }
            assert forall|id: Seq<char>| #[trigger] all.contains_key(id) implies known.contains_key(id)
                || exists|i: int| 0 <= i < more.len() && (#[trigger] more[i]).id == id by {
                if id == more.last().id {
                    assert(more[more.len() - 1].id == id);
                } else if !known.contains_key(id) {
                    let i = choose|i: int| 0 <= i < before.len() && (#[trigger] before[i]).id == id;
                    assert(more[i].id == id);
                }
            }
        }
    }
}

/// Whether all facts belong to a revision, each under its name.
pub open spec fn facts_belong(facts: Facts, revision: MemoryRevisionView) -> bool {
    &&& facts.entities.dom().finite()
    &&& facts.relationships.dom().finite()
    &&& forall|id: Seq<char>| #[trigger]
        facts.entities.contains_key(id) ==> facts.entities[id].id == id && facts.entities[id].project
            == revision.project && facts.entities[id].memory_revision_id == revision.id
    &&& forall|id: Seq<char>| #[trigger]
        facts.relationships.contains_key(id) ==> facts.relationships[id].id == id
            && facts.relationships[id].project == revision.project
            && facts.relationships[id].memory_revision_id == revision.id
}

/// Whether the facts of a source belong to a revision.
pub open spec fn fragment_belongs(
    fragment: MemoryFragmentView,
    revision: MemoryRevisionView,
) -> bool {
    entities_belong(fragment.entities, revision) && relationships_belong(
        fragment.relationships,
        revision,
    )
}

/// A fragment of another revision belongs to this one once it is rebased, and nothing else of it
/// changes.
pub proof fn rebased_facts_belong(fragment: MemoryFragmentView, revision: MemoryRevisionView)
    ensures
        fragment_belongs(rebased(fragment, revision), revision),
        rebased(fragment, revision).entities.len() == fragment.entities.len(),
        rebased(fragment, revision).relationships.len() == fragment.relationships.len(),
        forall|i: int|
            0 <= i < fragment.entities.len() ==> (#[trigger] rebased(fragment, revision).entities[i])
                == (MemoryEntityView {
                project: revision.project,
                memory_revision_id: revision.id,
                ..fragment.entities[i]
            }),
{
    reveal(rebased);
}

proof fn fragment_keeps_belonging(
    facts: Facts,
    fragment: MemoryFragmentView,
    revision: MemoryRevisionView,
)
    requires
        facts_belong(facts, revision),
        fragment_belongs(fragment, revision),
    ensures
        with_fragment(facts, fragment) matches Ok(next) ==> facts_belong(next, revision),
{
    reveal(with_fragment);
    merging_keeps_everything(facts.entities, fragment.entities);
    merging_keeps_every_relationship(facts.relationships, fragment.relationships);
    if let Ok(next) = with_fragment(facts, fragment) {
        assert forall|id: Seq<char>| #[trigger] next.entities.contains_key(id) implies next.entities[id].id
            == id && next.entities[id].project == revision.project
            && next.entities[id].memory_revision_id == revision.id by {
            if !facts.entities.contains_key(id) {
                let i = choose|i: int|
                    0 <= i < fragment.entities.len() && (#[trigger] fragment.entities[i]).id == id;
                assert(next.entities[id] == fragment.entities[i]);
            }
        }
        assert forall|id: Seq<char>| #[trigger] next.relationships.contains_key(id) implies next.relationships[id].id
            == id && next.relationships[id].project == revision.project
            && next.relationships[id].memory_revision_id == revision.id by {
            if !facts.relationships.contains_key(id) {
                let i = choose|i: int|
                    0 <= i < fragment.relationships.len() && (#[trigger] fragment.relationships[i]).id
                        == id;
                assert(next.relationships[id] == fragment.relationships[i]);
            }
        }
    }
}

proof fn source_keeps_belonging(
    facts: Facts,
    scope: IndexScope,
    source: AuthorizedSourceDescriptorView,
    reads: Seq<(AuthorizedSourceDescriptorView, Result<SourceReadView, MemorySourceError>)>,
    calls: Seq<StoreCall>,
)
    requires
        facts_belong(facts, scope.revision),
        scope.manifest.project == scope.revision.project,
    ensures
        with_source(facts, scope, source, reads, calls) matches Ok(next) ==> facts_belong(
            next,
            scope.revision,
        ),
{
    reveal(with_read);
    if let Some(extractor) = first_reader(built_in(), source.category) {
        let reply = calls[facts.calls.len() as int]->Fragment_1;
        if !scope.full && reply is Ok && reply->Ok_0 is Some {
            let fragment = rebased(reply->Ok_0->0, scope.revision);
            rebased_facts_belong(reply->Ok_0->0, scope.revision);
            let asked = Facts {
                reused: facts.reused + 1,
                calls: facts.calls.push(
                    StoreCall::Fragment(cache_key(scope.manifest, source, extractor), reply),
                ),
                ..facts
            };
            fragment_keeps_belonging(asked, fragment, scope.revision);
        } else if reads[facts.reads.len() as int].1 is Ok {
            let read = reads[facts.reads.len() as int].1->Ok_0;
            let input = MemoryExtractionInputView {
                context: extraction_context(scope),
                source,
                content: read.content.bytes,
                document: read.document,
            };
            reveal(extraction_context);
            facts_belong_to_their_source(extractor, input);
            if let Ok(fragment) = extractor.facts(input) {
                assert(fragment_belongs(fragment, scope.revision));
                let kept = Facts {
                    extracted: facts.extracted + 1,
                    processed_bytes: saturated(
                        facts.processed_bytes,
                        read.content.bytes.len() as u64,
                    ),
                    cache_writes: facts.cache_writes.push(
                        CachedMemoryFragmentView {
                            key: cache_key(scope.manifest, source, extractor),
                            fragment,
                        },
                    ),
                    reads: facts.reads.push((source, reads[facts.reads.len() as int].1)),
                    calls: if scope.full {
                        facts.calls
                    } else {
                        facts.calls.push(
                            StoreCall::Fragment(cache_key(scope.manifest, source, extractor), reply),
                        )
                    },
                    ..facts
                };
                fragment_keeps_belonging(kept, fragment, scope.revision);
            }
        }
    }
}

/// All facts of a run belong to its revision, whether they were read anew or kept from before.
pub proof fn indexed_facts_belong(
    facts: Facts,
    scope: IndexScope,
    sources: Seq<AuthorizedSourceDescriptorView>,
    reads: Seq<(AuthorizedSourceDescriptorView, Result<SourceReadView, MemorySourceError>)>,
    calls: Seq<StoreCall>,
)
    requires
        facts_belong(facts, scope.revision),
        scope.manifest.project == scope.revision.project,
    ensures
        with_sources(facts, scope, sources, reads, calls) matches Ok(all) ==> facts_belong(
            all,
            scope.revision,
        ),
    decreases sources.len(),
{
    if sources.len() > 0 {
        source_keeps_belonging(facts, scope, sources[0], reads, calls);
        if let Ok(next) = with_source(facts, scope, sources[0], reads, calls) {
            indexed_facts_belong(next, scope, sources.skip(1), reads, calls);
        }
    }
}

/// What a run prepares is what a store takes: its facts belong to its revision, and no two of them
/// have one name.
pub proof fn prepared_commits_are_consistent(
    scope: IndexScope,
    replies: IndexReplies,
    asked: Seq<StoreCall>,
)
    requires
        scope.manifest.project == scope.revision.project,
    ensures
        prepared(scope, replies, asked) matches Ok((commit, _)) ==> {
            &&& commit.revision == scope.revision
            &&& entities_belong(commit.entities, commit.revision)
            &&& relationships_belong(commit.relationships, commit.revision)
            &&& entities_are_apart(commit.entities)
            &&& relationships_are_apart(commit.relationships)
        },
{
    reveal(linked_commit);
    let start = no_sources(replies.reads_before, asked);
    indexed_facts_belong(start, scope, scope.manifest.sources, replies.reads, replies.calls);
    if let Ok(facts) = with_sources(
        start,
        scope,
        scope.manifest.sources,
        replies.reads,
        replies.calls,
    ) {
        values_stand_under_keys(facts.entities);
        values_stand_under_keys(facts.relationships);
        let entities = values_in_order(facts.entities);
        let relationships = values_in_order(facts.relationships);
        let entity_ids = in_order(facts.entities.dom());
        let relationship_ids = in_order(facts.relationships.dom());
        assert forall|i: int, j: int| 0 <= i < j < entities.len() implies (#[trigger] entities[i]).id
            != (#[trigger] entities[j]).id by {
            text_order_is_strict(entity_ids[i], entity_ids[j]);
            assert(text_lt(entity_ids[i], entity_ids[j]));
        }
        assert forall|i: int, j: int| 0 <= i < j < relationships.len() implies (
        #[trigger] relationships[i]).id != (#[trigger] relationships[j]).id by {
            text_order_is_strict(relationship_ids[i], relationship_ids[j]);
            assert(text_lt(relationship_ids[i], relationship_ids[j]));
        }
    }
}

}
