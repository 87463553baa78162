//! Whose the facts are that the built-in extractors make.
use vstd::prelude::*;
use crate::documents::{
    ArchiveSourceDocumentView, OutcomeSectionView, RuntimeSourceDocumentView,
    SpecMilestoneDocumentView,
    SpecOutcomeDocumentView, SpecStructureDocumentView,
};
use crate::domain::{
    MemoryConfidence, MemoryEntityView, MemoryFragmentView, MemoryProvenanceView,
    MemoryRelationshipView, MemoryResolutionState,
};
use crate::extractors::archive::{self, archive_entity, archive_facts};
use crate::extractors::runtime::{self, has_task, runtime_facts, with_check, with_run, with_task};
use crate::extractors::specification::{
    self, outcome_facts, source_entity, structure_facts, with_milestone, with_section,
    with_sections,
};
use crate::extractors::{named_entity, no_facts, with_entity, with_relationship, BuiltInExtractor};
use crate::ports::{MemoryExtractionInputView, MemoryExtractor};

verus! {

/// Whether a fact comes from a source, as it was read.
pub open spec fn comes_from(
    provenance: MemoryProvenanceView,
    input: MemoryExtractionInputView,
) -> bool {
    &&& provenance.source_category == input.source.category
    &&& provenance.source_locator == input.source.locator
    &&& provenance.source_fingerprint == input.source.fingerprint
    &&& provenance.resolution == MemoryResolutionState::Resolved
    &&& provenance.confidence == MemoryConfidence::Exact
}

/// Whether an entity belongs to the run that made it, and comes from its source.
pub open spec fn is_entity_of(entity: MemoryEntityView, input: MemoryExtractionInputView) -> bool {
    &&& entity.project == input.context.project
    &&& entity.memory_revision_id == input.context.revision_id
    &&& comes_from(entity.provenance, input)
}

/// Whether a relationship belongs to the run that made it, and comes from its source.
pub open spec fn is_relationship_of(
    relationship: MemoryRelationshipView,
    input: MemoryExtractionInputView,
) -> bool {
    &&& relationship.project == input.context.project
    &&& relationship.memory_revision_id == input.context.revision_id
    &&& comes_from(relationship.provenance, input)
}

/// Whether one of the facts is an entity with a name.
pub open spec fn knows(facts: MemoryFragmentView, id: Seq<char>) -> bool {
    exists|i: int| 0 <= i < facts.entities.len() && (#[trigger] facts.entities[i]).id == id
}

/// Whether facts belong to the run that made them and come from its source, and every relationship
/// among them starts at an entity among them.
pub open spec fn are_owned(facts: MemoryFragmentView, input: MemoryExtractionInputView) -> bool {
    &&& forall|i: int|
        0 <= i < facts.entities.len() ==> is_entity_of(#[trigger] facts.entities[i], input)
    &&& forall|i: int|
        0 <= i < facts.relationships.len() ==> is_relationship_of(
            #[trigger] facts.relationships[i],
            input,
        ) && knows(facts, facts.relationships[i].source)
}

proof fn entity_is_owned(
    facts: MemoryFragmentView,
    entity: MemoryEntityView,
    input: MemoryExtractionInputView,
)
    requires
        are_owned(facts, input),
        is_entity_of(entity, input),
    ensures
        are_owned(with_entity(facts, entity), input),
        knows(with_entity(facts, entity), entity.id),
        forall|id: Seq<char>| #[trigger] knows(facts, id) ==> knows(with_entity(facts, entity), id),
{
    let next = with_entity(facts, entity);
    let place = facts.entities.len() as int;
    assert(next.entities[place].id == entity.id);
    assert forall|id: Seq<char>| #[trigger] knows(facts, id) implies knows(next, id) by {
        let i = choose|i: int| 0 <= i < facts.entities.len() && (#[trigger] facts.entities[i]).id == id;
        assert(next.entities[i].id == id);
    }
    assert forall|i: int| 0 <= i < next.entities.len() implies is_entity_of(
        #[trigger] next.entities[i],
        input,
    ) by {
        if i < place {
            assert(next.entities[i] == facts.entities[i]);
        }
    }
}

proof fn relationship_is_owned(
    facts: MemoryFragmentView,
    relationship: MemoryRelationshipView,
    input: MemoryExtractionInputView,
)
    requires
        are_owned(facts, input),
        is_relationship_of(relationship, input),
        knows(facts, relationship.source),
    ensures
        are_owned(with_relationship(facts, relationship), input),
        forall|id: Seq<char>| #[trigger]
            knows(facts, id) ==> knows(with_relationship(facts, relationship), id),
{
    let next = with_relationship(facts, relationship);
    assert(next.entities == facts.entities);
    assert forall|id: Seq<char>| #[trigger] knows(facts, id) implies knows(next, id) by {
        let i = choose|i: int| 0 <= i < facts.entities.len() && (#[trigger] facts.entities[i]).id == id;
        assert(next.entities[i].id == id);
    }
    assert forall|i: int| 0 <= i < next.relationships.len() implies is_relationship_of(
        #[trigger] next.relationships[i],
        input,
    ) && knows(next, next.relationships[i].source) by {
        if i < facts.relationships.len() {
            assert(next.relationships[i] == facts.relationships[i]);
        }
    }
}

proof fn archive_tasks_are_owned(
    input: MemoryExtractionInputView,
    document: ArchiveSourceDocumentView,
    facts: MemoryFragmentView,
    count: int,
)
    requires
        are_owned(facts, input),
        knows(facts, named_entity(input.context.project, "archive"@, document.archive_id)),
    ensures
        archive::with_tasks(input, document, facts, count) matches Ok(found) ==> are_owned(found, input)
            && knows(found, named_entity(input.context.project, "archive"@, document.archive_id)),
    decreases count,
{
    if count > 0 {
        archive_tasks_are_owned(input, document, facts, count - 1);
        if let Ok(before) = archive::with_tasks(input, document, facts, count - 1) {
            if let Ok(after) = archive::with_tasks(input, document, facts, count) {
                relationship_is_owned(before, after.relationships.last(), input);
            }
        }
    }
}

proof fn archive_milestones_are_owned(
    input: MemoryExtractionInputView,
    document: ArchiveSourceDocumentView,
    facts: MemoryFragmentView,
    count: int,
)
    requires
        are_owned(facts, input),
        knows(facts, named_entity(input.context.project, "archive"@, document.archive_id)),
    ensures
        archive::with_milestones(input, document, facts, count) matches Ok(found) ==> are_owned(
            found,
            input,
        ) && knows(found, named_entity(input.context.project, "archive"@, document.archive_id)),
    decreases count,
{
    if count > 0 {
        archive_milestones_are_owned(input, document, facts, count - 1);
        if let Ok(before) = archive::with_milestones(input, document, facts, count - 1) {
            if let Ok(after) = archive::with_milestones(input, document, facts, count) {
                relationship_is_owned(before, after.relationships.last(), input);
            }
        }
    }
}

proof fn archive_facts_are_owned(
    input: MemoryExtractionInputView,
    document: ArchiveSourceDocumentView,
)
    ensures
        archive_facts(input, document) matches Ok(facts) ==> are_owned(facts, input),
{
    let first = with_entity(no_facts(), archive_entity(input, document));
    entity_is_owned(no_facts(), archive_entity(input, document), input);
    archive_tasks_are_owned(input, document, first, document.task_ids.len() as int);
    if let Ok(facts) = archive::with_tasks(input, document, first, document.task_ids.len() as int) {
        archive_milestones_are_owned(input, document, facts, document.milestone_ids.len() as int);
    }
}

proof fn task_is_owned(
    input: MemoryExtractionInputView,
    facts: MemoryFragmentView,
    task: crate::documents::RuntimeTaskDocumentView,
)
    requires
        are_owned(facts, input),
    ensures
        with_task(input, facts, task) matches Ok(found) ==> are_owned(found, input) && knows(
            found,
            named_entity(input.context.project, "task"@, task.id),
        ) && forall|id: Seq<char>| #[trigger] knows(facts, id) ==> knows(found, id),
{
    if let Ok(found) = with_task(input, facts, task) {
        let entity = found.entities.last();
        let known = with_entity(facts, entity);
        entity_is_owned(facts, entity, input);
        assert(knows(known, named_entity(input.context.project, "task"@, task.id)));
        if task.milestone_id is Some {
            relationship_is_owned(known, found.relationships.last(), input);
        }
    }
}

proof fn tasks_are_owned(
    input: MemoryExtractionInputView,
    facts: MemoryFragmentView,
    document: RuntimeSourceDocumentView,
    at: int,
)
    requires
        0 <= at,
        are_owned(facts, input),
        forall|i: int|
            0 <= i < at && i < document.tasks.len() ==> knows(
                facts,
                named_entity(input.context.project, "task"@, (#[trigger] document.tasks[i]).id),
            ),
    ensures
        runtime::with_tasks(input, facts, document, at) matches Ok(found) ==> are_owned(found, input)
            && forall|i: int|
            0 <= i < document.tasks.len() ==> knows(
                found,
                named_entity(input.context.project, "task"@, (#[trigger] document.tasks[i]).id),
            ),
    decreases document.tasks.len() - at,
{
    if at < document.tasks.len() {
        task_is_owned(input, facts, document.tasks[at]);
        if let Ok(next) = with_task(input, facts, document.tasks[at]) {
            tasks_are_owned(input, next, document, at + 1);
        }
    }
}

/// Whether facts know every task of a document.
spec fn knows_tasks(
    facts: MemoryFragmentView,
    input: MemoryExtractionInputView,
    document: RuntimeSourceDocumentView,
) -> bool {
    forall|i: int|
        0 <= i < document.tasks.len() ==> knows(
            facts,
            named_entity(input.context.project, "task"@, (#[trigger] document.tasks[i]).id),
        )
}

proof fn runs_are_owned(
    input: MemoryExtractionInputView,
    facts: MemoryFragmentView,
    document: RuntimeSourceDocumentView,
    at: int,
)
    requires
        0 <= at,
        are_owned(facts, input),
        knows_tasks(facts, input, document),
    ensures
        runtime::with_runs(input, facts, document, at) matches Ok(found) ==> are_owned(found, input),
    decreases document.runs.len() - at,
{
    if at < document.runs.len() {
        let run = document.runs[at];
        if let Ok(next) = with_run(input, facts, document.tasks, run) {
            let entity = next.entities.last();
            let known = with_entity(facts, entity);
            entity_is_owned(facts, entity, input);
            if has_task(document.tasks, run.task_id) {
                let i = choose|i: int|
                    0 <= i < document.tasks.len() && (#[trigger] document.tasks[i]).id == run.task_id;
                assert(knows(
                    facts,
                    named_entity(input.context.project, "task"@, document.tasks[i].id),
                ));
                relationship_is_owned(known, next.relationships.last(), input);
            }
            assert(knows_tasks(next, input, document)) by {
                assert forall|i: int| 0 <= i < document.tasks.len() implies knows(
                    next,
                    named_entity(input.context.project, "task"@, (#[trigger] document.tasks[i]).id),
                ) by {
                    assert(knows(
                        facts,
                        named_entity(input.context.project, "task"@, document.tasks[i].id),
                    ));
                }
            }
            runs_are_owned(input, next, document, at + 1);
        }
    }
}

proof fn checks_are_owned(
    input: MemoryExtractionInputView,
    facts: MemoryFragmentView,
    document: RuntimeSourceDocumentView,
    at: int,
)
    requires
        0 <= at,
        are_owned(facts, input),
    ensures
        runtime::with_checks(input, facts, document, at) matches Ok(found) ==> are_owned(found, input),
    decreases document.checks.len() - at,
{
    if at < document.checks.len() {
        let check = document.checks[at];
        if let Ok(next) = with_check(input, facts, document, check) {
            let entity = next.entities.last();
            let known = with_entity(facts, entity);
            entity_is_owned(facts, entity, input);
            if runtime::validated(input, document, check) is Some {
                relationship_is_owned(known, next.relationships.last(), input);
            }
            checks_are_owned(input, next, document, at + 1);
        }
    }
}

proof fn runtime_facts_are_owned(
    input: MemoryExtractionInputView,
    document: RuntimeSourceDocumentView,
)
    ensures
        runtime_facts(input, document) matches Ok(facts) ==> are_owned(facts, input),
{
    tasks_are_owned(input, no_facts(), document, 0);
    if let Ok(facts) = runtime::with_tasks(input, no_facts(), document, 0) {
        runs_are_owned(input, facts, document, 0);
        if let Ok(facts) = runtime::with_runs(input, facts, document, 0) {
            checks_are_owned(input, facts, document, 0);
        }
    }
}

proof fn milestones_are_owned(
    input: MemoryExtractionInputView,
    facts: MemoryFragmentView,
    milestones: Seq<SpecMilestoneDocumentView>,
    at: int,
)
    requires
        0 <= at,
        are_owned(facts, input),
        knows(facts, source_entity(input.context.project, "specification"@, input.source.locator)),
    ensures
        specification::with_milestones(input, facts, milestones, at) matches Some(found) ==> are_owned(
            found,
            input,
        ),
    decreases milestones.len() - at,
{
    if at < milestones.len() {
        if let Some(next) = with_milestone(input, facts, milestones[at]) {
            let entity = next.entities.last();
            let known = with_entity(facts, entity);
            entity_is_owned(facts, entity, input);
            relationship_is_owned(known, next.relationships.last(), input);
            milestones_are_owned(input, next, milestones, at + 1);
        }
    }
}

proof fn sections_are_owned(
    input: MemoryExtractionInputView,
    facts: MemoryFragmentView,
    sections: Seq<OutcomeSectionView>,
    at: int,
)
    requires
        0 <= at,
        are_owned(facts, input),
        knows(facts, source_entity(input.context.project, "outcome"@, input.source.locator)),
    ensures
        with_sections(input, facts, sections, at) matches Some(found) ==> are_owned(found, input),
    decreases sections.len() - at,
{
    if at < sections.len() {
        if let Some(next) = with_section(input, facts, sections, at) {
            let entity = next.entities.last();
            let known = with_entity(facts, entity);
            entity_is_owned(facts, entity, input);
            relationship_is_owned(known, next.relationships.last(), input);
            sections_are_owned(input, next, sections, at + 1);
        }
    }
}

proof fn structure_facts_are_owned(
    input: MemoryExtractionInputView,
    structure: SpecStructureDocumentView,
)
    ensures
        structure_facts(input, structure) matches Some(facts) ==> are_owned(facts, input),
{
    if structure.title is Some && structure.title_span is Some {
        let entity = crate::extractors::entity_model(
            input,
            source_entity(input.context.project, "specification"@, input.source.locator),
            crate::domain::MemoryEntityDataView::Specification { title: structure.title->0 },
            specification::span_provenance(input, structure.title_span->0),
        );
        entity_is_owned(no_facts(), entity, input);
        milestones_are_owned(input, with_entity(no_facts(), entity), structure.milestones, 0);
    }
}

proof fn outcome_facts_are_owned(
    input: MemoryExtractionInputView,
    document: SpecOutcomeDocumentView,
)
    ensures
        outcome_facts(input, document) matches Some(facts) ==> are_owned(facts, input),
{
    let outcome_id = source_entity(input.context.project, "outcome"@, input.source.locator);
    let spec_id = source_entity(input.context.project, "specification"@, input.source.locator);
    let provenance = specification::span_provenance(input, document.span);
    let entity = crate::extractors::entity_model(
        input,
        outcome_id,
        crate::domain::MemoryEntityDataView::Outcome { text: document.text },
        provenance,
    );
    let known = with_entity(no_facts(), entity);
    let relationship = crate::extractors::relationship_model(
        input,
        "concerns"@,
        spec_id,
        crate::domain::MemoryRelationshipKind::Concerns,
        outcome_id,
        crate::domain::MemoryRelationshipTargetView::MemoryEntity { entity_id: spec_id },
        provenance,
    );
    entity_is_owned(no_facts(), entity, input);
    relationship_is_owned(known, relationship, input);
    sections_are_owned(input, with_relationship(known, relationship), document.sections, 0);
}

/// The facts of a source belong to the project and the revision that they were made for, name their
/// source as it was read, and every relationship among them starts at an entity among them.
pub proof fn facts_belong_to_their_source(
    extractor: BuiltInExtractor,
    input: MemoryExtractionInputView,
)
    ensures
        extractor.facts(input) matches Ok(facts) ==> are_owned(facts, input),
{
    match extractor {
        BuiltInExtractor::Specification(_) => {
            let parsed = crate::documents::parsed(vstd::utf8::decode_utf8(input.content));
            structure_facts_are_owned(input, parsed.structure);
            if parsed.outcome is Some {
                outcome_facts_are_owned(input, parsed.outcome->0);
            }
        },
        BuiltInExtractor::Archive(_) => {
            if let crate::ports::SourceDocumentView::Archive(document) = input.document {
                archive_facts_are_owned(input, document);
            }
        },
        BuiltInExtractor::Runtime(_) => {
            if let crate::ports::SourceDocumentView::Runtime(document) = input.document {
                runtime_facts_are_owned(input, document);
            }
        },
    }
}

}
