//! The built-in extractors, and the identities of the facts that they make.
pub mod archive;
pub mod ownership;
pub mod reuse;
pub mod runtime;
pub mod specification;

use vstd::prelude::*;
use crate::diagnostics::{diagnostic_code, is_diagnostic_code};
use crate::digest::{is_sha256_text, sha256_of, text_digest, Digest};
use crate::domain::{
    MemoryConfidence, MemoryEntity, MemoryEntityData, MemoryEntityDataView, MemoryEntityId,
    MemoryEntityView, MemoryEvidenceLocator, MemoryEvidenceLocatorView, MemoryExtractorId,
    MemoryExtractorIdentity, MemoryExtractorIdentityView, MemoryFragment, MemoryFragmentView,
    MemoryIndexTimestamps, MemoryIndexTimestampsView, MemoryProvenance, MemoryProvenanceView,
    MemoryRelationship, MemoryRelationshipId, MemoryRelationshipKind, MemoryRelationshipTarget,
    MemoryRelationshipTargetView, MemoryRelationshipView, MemoryResolutionState,
    MemorySourceCategory, MemoryStatusToken, ProjectRef, ProjectRefView, MAX_ID_BYTES,
};
use crate::extractors::archive::ArchiveManifestExtractor;
use crate::extractors::runtime::RuntimeProvenanceExtractor;
use crate::extractors::specification::SpecificationExtractor;
use crate::json::{json_array, json_string, text_json, JsonArray, ToJson};
use crate::ports::{
    MemoryExtractionFailure, MemoryExtractionFailureView, MemoryExtractionInput,
    MemoryExtractionInputView, MemoryExtractor,
};
use crate::record::Record;
use crate::value::{is_plain, plain_text_is_bounded};
use crate::MEMORY_EXTRACTOR_CONTRACT_VERSION;

verus! {

/// Whether a text can name an extractor: visible ASCII characters, not too many.
pub open spec fn is_extractor_name(name: Seq<char>) -> bool {
    &&& 0 < name.len() <= MAX_ID_BYTES
    &&& forall|i: int| 0 <= i < name.len() ==> is_plain(#[trigger] name[i])
}

/// The identity of the extractor with this name, as it is now.
pub open spec fn extractor_model(name: Seq<char>) -> MemoryExtractorIdentityView {
    MemoryExtractorIdentityView {
        id: name,
        version: "0.1.0"@,
        contract_version: MEMORY_EXTRACTOR_CONTRACT_VERSION,
    }
}

/// The identity of the extractor with this name, as it is now.
pub fn extractor_identity(name: &str) -> (identity: MemoryExtractorIdentity)
    requires
        is_extractor_name(name@),
    ensures
        identity.deep_view() == extractor_model(name@),
{
    proof {
        plain_text_is_bounded(name@, MAX_ID_BYTES as nat, false);
        reveal_strlit("0.1.0");
        plain_text_is_bounded("0.1.0"@, MAX_ID_BYTES as nat, false);
    }
    let id = MemoryExtractorId::new(name).unwrap();
    let version = MemoryStatusToken::new("0.1.0").unwrap();
    MemoryExtractorIdentity::current(id, version)
}

/// The text whose digest identifies a fact: what it is, whose it is, and its key.
pub open spec fn identity_text(
    what: Seq<char>,
    project: ProjectRefView,
    key: Seq<char>,
) -> Seq<char> {
    json_array(seq![json_string(what), <ProjectRef as ToJson>::json(project), key])
}

/// The identity of the entity with this key, given as JSON text.
pub open spec fn entity_identity(project: ProjectRefView, key: Seq<char>) -> Seq<char> {
    "memory-entity:"@ + text_digest(identity_text("entity"@, project, key))
}

/// The identity of the relationship with this key, given as JSON text.
pub open spec fn relationship_identity(project: ProjectRefView, key: Seq<char>) -> Seq<char> {
    "memory-relationship:"@ + text_digest(identity_text("relationship"@, project, key))
}

fn identity_text_of(what: &str, project: &ProjectRef, key: String) -> (text: String)
    ensures
        text@ == identity_text(what@, project.deep_view(), key@),
{
    let list = JsonArray::new().item(text_json(what)).item(project.to_json()).item(key);
    assert(list.items() =~= seq![
        json_string(what@),
        <ProjectRef as ToJson>::json(project.deep_view()),
        key@,
    ]);
    list.finish()
}

/// The identity of the entity with this key, given as JSON text.
pub fn entity_id(project: &ProjectRef, key: String) -> (id: MemoryEntityId)
    ensures
        id.deep_view() == entity_identity(project.deep_view(), key@),
{
    let text = identity_text_of("entity", project, key);
    proof {
        reveal_strlit("memory-entity:");
    }
    MemoryEntityId::of_digest("memory-entity:", text.as_str())
}

/// The identity of the relationship with this key, given as JSON text.
pub fn relationship_id(project: &ProjectRef, key: String) -> (id: MemoryRelationshipId)
    ensures
        id.deep_view() == relationship_identity(project.deep_view(), key@),
{
    let text = identity_text_of("relationship", project, key);
    proof {
        reveal_strlit("memory-relationship:");
    }
    MemoryRelationshipId::of_digest("memory-relationship:", text.as_str())
}

/// Where a fact of a source comes from.
pub open spec fn provenance_model(
    input: MemoryExtractionInputView,
    name: Seq<char>,
    evidence: MemoryEvidenceLocatorView,
) -> MemoryProvenanceView {
    MemoryProvenanceView {
        source_category: input.source.category,
        source_locator: input.source.locator,
        source_fingerprint: input.source.fingerprint,
        extractor: extractor_model(name),
        evidence,
        resolution: MemoryResolutionState::Resolved,
        confidence: MemoryConfidence::Exact,
        timestamps: MemoryIndexTimestampsView {
            source_observed_at: input.context.indexed_at,
            indexed_at: input.context.indexed_at,
        },
    }
}

/// Where a fact of a source comes from.
pub fn provenance(
    input: &MemoryExtractionInput,
    name: &str,
    evidence: MemoryEvidenceLocator,
) -> (result: MemoryProvenance)
    requires
        is_extractor_name(name@),
    ensures
        result.deep_view() == provenance_model(input.deep_view(), name@, evidence.deep_view()),
{
    MemoryProvenance {
        source_category: input.source.category,
        source_locator: input.source.locator.copied(),
        source_fingerprint: input.source.fingerprint.copied(),
        extractor: extractor_identity(name),
        evidence,
        resolution: MemoryResolutionState::Resolved,
        confidence: MemoryConfidence::Exact,
        timestamps: MemoryIndexTimestamps {
            source_observed_at: input.context.indexed_at.clone(),
            indexed_at: input.context.indexed_at.clone(),
        },
    }
}

/// An entity of a source.
pub open spec fn entity_model(
    input: MemoryExtractionInputView,
    id: Seq<char>,
    data: MemoryEntityDataView,
    provenance: MemoryProvenanceView,
) -> MemoryEntityView {
    MemoryEntityView {
        project: input.context.project,
        memory_revision_id: input.context.revision_id,
        id,
        data,
        provenance,
    }
}

/// An entity of a source.
pub fn entity(
    input: &MemoryExtractionInput,
    id: MemoryEntityId,
    data: MemoryEntityData,
    provenance: MemoryProvenance,
) -> (result: MemoryEntity)
    ensures
        result.deep_view() == entity_model(
            input.deep_view(),
            id.deep_view(),
            data.deep_view(),
            provenance.deep_view(),
        ),
{
    MemoryEntity {
        project: input.context.project.copied(),
        memory_revision_id: input.context.revision_id.copied(),
        id,
        data,
        provenance,
    }
}

/// A relationship of a source, identified by what it is and by what it joins.
pub open spec fn relationship_model(
    input: MemoryExtractionInputView,
    what: Seq<char>,
    end: Seq<char>,
    kind: MemoryRelationshipKind,
    source: Seq<char>,
    target: MemoryRelationshipTargetView,
    provenance: MemoryProvenanceView,
) -> MemoryRelationshipView {
    MemoryRelationshipView {
        project: input.context.project,
        memory_revision_id: input.context.revision_id,
        id: relationship_identity(
            input.context.project,
            json_array(seq![json_string(what), json_string(source), json_string(end)]),
        ),
        kind,
        source,
        target,
        provenance,
    }
}

/// A relationship of a source, identified by what it is and by what it joins.
pub fn relationship(
    input: &MemoryExtractionInput,
    what: &str,
    end: &str,
    kind: MemoryRelationshipKind,
    source: MemoryEntityId,
    target: MemoryRelationshipTarget,
    provenance: MemoryProvenance,
) -> (result: MemoryRelationship)
    ensures
        result.deep_view() == relationship_model(
            input.deep_view(),
            what@,
            end@,
            kind,
            source.deep_view(),
            target.deep_view(),
            provenance.deep_view(),
        ),
{
    let key = JsonArray::new()
        .item(text_json(what))
        .item(text_json(source.as_str()))
        .item(text_json(end));
    assert(key.items() =~= seq![
        json_string(what@),
        json_string(source.deep_view()),
        json_string(end@),
    ]);
    MemoryRelationship {
        project: input.context.project.copied(),
        memory_revision_id: input.context.revision_id.copied(),
        id: relationship_id(&input.context.project, key.finish()),
        kind,
        source,
        target,
        provenance,
    }
}

/// The identity of an entity that a text tells apart from others of its sort.
pub open spec fn named_entity(
    project: ProjectRefView,
    what: Seq<char>,
    text: Seq<char>,
) -> Seq<char> {
    entity_identity(project, json_array(seq![json_string(what), json_string(text)]))
}

/// The identity of an entity that a text tells apart from others of its sort.
pub fn named_entity_id(project: &ProjectRef, what: &str, text: &str) -> (id: MemoryEntityId)
    ensures
        id.deep_view() == named_entity(project.deep_view(), what@, text@),
{
    let key = JsonArray::new().item(text_json(what)).item(text_json(text));
    assert(key.items() =~= seq![json_string(what@), json_string(text@)]);
    entity_id(project, key.finish())
}

/// That an extractor could not read a source.
pub open spec fn failure_model(name: Seq<char>, code: Seq<char>) -> MemoryExtractionFailureView {
    MemoryExtractionFailureView { extractor: extractor_model(name), code }
}

/// That an extractor could not read a source.
pub fn failure(name: &str, code: &str) -> (failure: MemoryExtractionFailure)
    requires
        is_extractor_name(name@),
        is_diagnostic_code(code@),
    ensures
        failure.deep_view() == failure_model(name@, code@),
{
    MemoryExtractionFailure { extractor: extractor_identity(name), code: diagnostic_code(code) }
}

/// No facts.
pub open spec fn no_facts() -> MemoryFragmentView {
    MemoryFragmentView { entities: Seq::empty(), relationships: Seq::empty() }
}

/// Facts with one more entity.
pub open spec fn with_entity(
    facts: MemoryFragmentView,
    entity: MemoryEntityView,
) -> MemoryFragmentView {
    MemoryFragmentView { entities: facts.entities.push(entity), ..facts }
}

/// Facts with one more relationship.
pub open spec fn with_relationship(
    facts: MemoryFragmentView,
    relationship: MemoryRelationshipView,
) -> MemoryFragmentView {
    MemoryFragmentView { relationships: facts.relationships.push(relationship), ..facts }
}

/// No facts.
pub fn empty_fragment() -> (fragment: MemoryFragment)
    ensures
        fragment.deep_view() == no_facts(),
{
    let fragment = MemoryFragment { entities: Vec::new(), relationships: Vec::new() };
    assert(fragment.deep_view().entities =~= Seq::empty());
    assert(fragment.deep_view().relationships =~= Seq::empty());
    fragment
}

/// Adds an entity to some facts.
pub fn add_entity(fragment: &mut MemoryFragment, entity: MemoryEntity)
    ensures
        final(fragment).deep_view() == with_entity(old(fragment).deep_view(), entity.deep_view()),
{
    let ghost before = fragment.entities.deep_view();
    fragment.entities.push(entity);
    assert(fragment.entities.deep_view() =~= before.push(entity.deep_view()));
}

/// Adds a relationship to some facts.
pub fn add_relationship(fragment: &mut MemoryFragment, relationship: MemoryRelationship)
    ensures
        final(fragment).deep_view() == with_relationship(
            old(fragment).deep_view(),
            relationship.deep_view(),
        ),
{
    let ghost before = fragment.relationships.deep_view();
    fragment.relationships.push(relationship);
    assert(fragment.relationships.deep_view() =~= before.push(relationship.deep_view()));
}

/// One of the built-in extractors.
#[derive(Debug, Clone, Copy)]
pub enum BuiltInExtractor {
    Specification(SpecificationExtractor),
    Archive(ArchiveManifestExtractor),
    Runtime(RuntimeProvenanceExtractor),
}

impl MemoryExtractor for BuiltInExtractor {
    open spec fn named(&self) -> MemoryExtractorIdentityView {
        match self {
            BuiltInExtractor::Specification(extractor) => extractor.named(),
            BuiltInExtractor::Archive(extractor) => extractor.named(),
            BuiltInExtractor::Runtime(extractor) => extractor.named(),
        }
    }

    open spec fn reads(&self, category: MemorySourceCategory) -> bool {
        match self {
            BuiltInExtractor::Specification(extractor) => extractor.reads(category),
            BuiltInExtractor::Archive(extractor) => extractor.reads(category),
            BuiltInExtractor::Runtime(extractor) => extractor.reads(category),
        }
    }

    open spec fn facts(&self, input: MemoryExtractionInputView) -> Result<
        MemoryFragmentView,
        MemoryExtractionFailureView,
    > {
        match self {
            BuiltInExtractor::Specification(extractor) => extractor.facts(input),
            BuiltInExtractor::Archive(extractor) => extractor.facts(input),
            BuiltInExtractor::Runtime(extractor) => extractor.facts(input),
        }
    }

    fn identity(&self) -> (identity: MemoryExtractorIdentity) {
        match self {
            BuiltInExtractor::Specification(extractor) => extractor.identity(),
            BuiltInExtractor::Archive(extractor) => extractor.identity(),
            BuiltInExtractor::Runtime(extractor) => extractor.identity(),
        }
    }

    fn supports(&self, category: MemorySourceCategory) -> (supported: bool) {
        match self {
            BuiltInExtractor::Specification(extractor) => extractor.supports(category),
            BuiltInExtractor::Archive(extractor) => extractor.supports(category),
            BuiltInExtractor::Runtime(extractor) => extractor.supports(category),
        }
    }

    fn extract(&self, input: &MemoryExtractionInput) -> (result: Result<
        MemoryFragment,
        MemoryExtractionFailure,
    >) {
        match self {
            BuiltInExtractor::Specification(extractor) => extractor.extract(input),
            BuiltInExtractor::Archive(extractor) => extractor.extract(input),
            BuiltInExtractor::Runtime(extractor) => extractor.extract(input),
        }
    }
}

/// The built-in extractors, in the order in which they are asked.
pub open spec fn built_in() -> Seq<BuiltInExtractor> {
    seq![
        BuiltInExtractor::Specification(SpecificationExtractor),
        BuiltInExtractor::Archive(ArchiveManifestExtractor),
        BuiltInExtractor::Runtime(RuntimeProvenanceExtractor),
    ]
}

/// The built-in extractors, in the order in which they are asked.
pub fn built_in_extractors() -> (extractors: Vec<BuiltInExtractor>)
    ensures
        extractors@ == built_in(),
{
    let mut extractors: Vec<BuiltInExtractor> = Vec::new();
    extractors.push(BuiltInExtractor::Specification(SpecificationExtractor));
    extractors.push(BuiltInExtractor::Archive(ArchiveManifestExtractor));
    extractors.push(BuiltInExtractor::Runtime(RuntimeProvenanceExtractor));
    assert(extractors@ =~= built_in());
    extractors
}

/// The identities of some extractors.
pub open spec fn identities(extractors: Seq<BuiltInExtractor>) -> Seq<MemoryExtractorIdentityView> {
    extractors.map_values(|extractor: BuiltInExtractor| extractor.named())
}

/// The digest of the built-in extractors: that of their identities in their order.
pub fn built_in_extractor_set_digest() -> (digest: Digest)
    ensures
        digest.deep_view() == sha256_of(
            <Vec<MemoryExtractorIdentity> as ToJson>::json(identities(built_in())),
        ),
        is_sha256_text(digest.deep_view().value),
{
    let extractors = built_in_extractors();
    let mut found: Vec<MemoryExtractorIdentity> = Vec::new();
    let mut at: usize = 0;
    while at < extractors.len()
        invariant
            at <= extractors.len(),
            found.deep_view() =~= identities(extractors@).take(at as int),
        decreases extractors.len() - at,
    {
        let ghost before = found.deep_view();
        let identity = extractors[at].identity();
        found.push(identity);
        assert(found.deep_view() =~= before.push(identity.deep_view()));
        at += 1;
    }
    assert(found.deep_view() =~= identities(built_in()));
    let json = found.to_json();
    Digest::of_text(json.as_str())
}

/// No two built-in extractors have the same name, and no category is read by two of them.
pub proof fn built_in_extractors_are_apart(i: int, j: int, category: MemorySourceCategory)
    requires
        0 <= i < j < built_in().len(),
    ensures
        built_in()[i].named().id != built_in()[j].named().id,
        !(built_in()[i].reads(category) && built_in()[j].reads(category)),
{
    reveal_strlit("ferrus.specification");
    reveal_strlit("ferrus.archive-manifest");
    reveal_strlit("ferrus.runtime-provenance");
    assert("ferrus.specification"@.len() == 20);
    assert("ferrus.archive-manifest"@.len() == 23);
    assert("ferrus.runtime-provenance"@.len() == 25);
}

}
