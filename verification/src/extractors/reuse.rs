//! Why facts that were kept can stand for those of a new run.
use vstd::prelude::*;
use crate::documents::{
    parsed, ArchiveSourceDocumentView, OutcomeSectionView, RuntimeSourceDocumentView,
    SpecMilestoneDocumentView, SpecOutcomeDocumentView, SpecStructureDocumentView,
};
use crate::domain::{
    MemoryEntityDataView, MemoryEntityView, MemoryFragmentView, MemoryIndexTimestampsView,
    MemoryProvenanceView, MemoryRelationshipKind, MemoryRelationshipTargetView,
    MemoryRelationshipView, MemoryRevisionView,
};
use crate::extractors::archive::{self, archive_entity, archive_facts};
use crate::extractors::runtime::{self, runtime_facts, with_check, with_run, with_task};
use crate::extractors::specification::{
    self, outcome_facts, source_entity, span_provenance, structure_facts, with_milestone,
    with_section, with_sections,
};
use crate::extractors::{
    entity_model, no_facts, relationship_model, with_entity, with_relationship, BuiltInExtractor,
};
use crate::index::rebased;
use crate::ports::{
    MemoryExtractionContextView, MemoryExtractionInputView, MemoryExtractor, SourceDocumentView,
};

verus! {

/// Where a fact comes from, as a run at another time says it.
pub open spec fn dated(provenance: MemoryProvenanceView, at: Seq<char>) -> MemoryProvenanceView {
    MemoryProvenanceView {
        timestamps: MemoryIndexTimestampsView { source_observed_at: at, indexed_at: at },
        ..provenance
    }
}

/// An entity, as a run at another time says it.
pub open spec fn dated_entity(entity: MemoryEntityView, at: Seq<char>) -> MemoryEntityView {
    MemoryEntityView { provenance: dated(entity.provenance, at), ..entity }
}

/// A relationship, as a run at another time says it.
pub open spec fn dated_relationship(
    relationship: MemoryRelationshipView,
    at: Seq<char>,
) -> MemoryRelationshipView {
    MemoryRelationshipView { provenance: dated(relationship.provenance, at), ..relationship }
}

/// Facts, as a run at another time says them.
pub open spec fn dated_facts(facts: MemoryFragmentView, at: Seq<char>) -> MemoryFragmentView {
    MemoryFragmentView {
        entities: facts.entities.map_values(|entity: MemoryEntityView| dated_entity(entity, at)),
        relationships: facts.relationships.map_values(
            |relationship: MemoryRelationshipView| dated_relationship(relationship, at),
        ),
    }
}

/// The same source, read in another run.
pub open spec fn read_again(
    input: MemoryExtractionInputView,
    context: MemoryExtractionContextView,
) -> MemoryExtractionInputView {
    MemoryExtractionInputView { context, ..input }
}

/// An entity of one run, as it is in another.
spec fn carried_entity(
    entity: MemoryEntityView,
    context: MemoryExtractionContextView,
) -> MemoryEntityView {
    MemoryEntityView {
        project: context.project,
        memory_revision_id: context.revision_id,
        ..dated_entity(entity, context.indexed_at)
    }
}

/// A relationship of one run, as it is in another.
spec fn carried_relationship(
    relationship: MemoryRelationshipView,
    context: MemoryExtractionContextView,
) -> MemoryRelationshipView {
    MemoryRelationshipView {
        project: context.project,
        memory_revision_id: context.revision_id,
        ..dated_relationship(relationship, context.indexed_at)
    }
}

/// Facts of one run, as they are in another.
spec fn carried(
    facts: MemoryFragmentView,
    context: MemoryExtractionContextView,
) -> MemoryFragmentView {
    MemoryFragmentView {
        entities: facts.entities.map_values(
            |entity: MemoryEntityView| carried_entity(entity, context),
        ),
        relationships: facts.relationships.map_values(
            |relationship: MemoryRelationshipView| carried_relationship(relationship, context),
        ),
    }
}

spec fn carried_result<E>(
    result: Result<MemoryFragmentView, E>,
    context: MemoryExtractionContextView,
) -> Result<MemoryFragmentView, E> {
    match result {
        Ok(facts) => Ok(carried(facts, context)),
        Err(error) => Err(error),
    }
}

spec fn carried_option(
    result: Option<MemoryFragmentView>,
    context: MemoryExtractionContextView,
) -> Option<MemoryFragmentView> {
    match result {
        Some(facts) => Some(carried(facts, context)),
        None => None,
    }
}

proof fn entity_is_carried(
    facts: MemoryFragmentView,
    entity: MemoryEntityView,
    context: MemoryExtractionContextView,
)
    ensures
        carried(with_entity(facts, entity), context) == with_entity(
            carried(facts, context),
            carried_entity(entity, context),
        ),
{
    assert(carried(with_entity(facts, entity), context).entities =~= with_entity(
        carried(facts, context),
        carried_entity(entity, context),
    ).entities);
}

proof fn relationship_is_carried(
    facts: MemoryFragmentView,
    relationship: MemoryRelationshipView,
    context: MemoryExtractionContextView,
)
    ensures
        carried(with_relationship(facts, relationship), context) == with_relationship(
            carried(facts, context),
            carried_relationship(relationship, context),
        ),
{
    assert(carried(with_relationship(facts, relationship), context).relationships
        =~= with_relationship(
        carried(facts, context),
        carried_relationship(relationship, context),
    ).relationships);
}

proof fn nothing_is_carried(context: MemoryExtractionContextView)
    ensures
        carried(no_facts(), context) == no_facts(),
{
    assert(carried(no_facts(), context).entities =~= no_facts().entities);
    assert(carried(no_facts(), context).relationships =~= no_facts().relationships);
}

proof fn archive_tasks_are_carried(
    input: MemoryExtractionInputView,
    context: MemoryExtractionContextView,
    document: ArchiveSourceDocumentView,
    facts: MemoryFragmentView,
    count: int,
)
    requires
        context.project == input.context.project,
    ensures
        archive::with_tasks(read_again(input, context), document, carried(facts, context), count)
            == carried_result(archive::with_tasks(input, document, facts, count), context),
    decreases count,
{
    if count > 0 {
        archive_tasks_are_carried(input, context, document, facts, count - 1);
        if let Ok(before) = archive::with_tasks(input, document, facts, count - 1) {
            if let Ok(after) = archive::with_tasks(input, document, facts, count) {
                relationship_is_carried(before, after.relationships.last(), context);
            }
        }
    }
}

proof fn archive_milestones_are_carried(
    input: MemoryExtractionInputView,
    context: MemoryExtractionContextView,
    document: ArchiveSourceDocumentView,
    facts: MemoryFragmentView,
    count: int,
)
    requires
        context.project == input.context.project,
    ensures
        archive::with_milestones(read_again(input, context), document, carried(facts, context), count)
            == carried_result(archive::with_milestones(input, document, facts, count), context),
    decreases count,
{
    if count > 0 {
        archive_milestones_are_carried(input, context, document, facts, count - 1);
        if let Ok(before) = archive::with_milestones(input, document, facts, count - 1) {
            if let Ok(after) = archive::with_milestones(input, document, facts, count) {
                relationship_is_carried(before, after.relationships.last(), context);
            }
        }
    }
}

proof fn archive_facts_are_carried(
    input: MemoryExtractionInputView,
    context: MemoryExtractionContextView,
    document: ArchiveSourceDocumentView,
)
    requires
        context.project == input.context.project,
    ensures
        archive_facts(read_again(input, context), document) == carried_result(
            archive_facts(input, document),
            context,
        ),
{
    let entity = archive_entity(input, document);
    let first = with_entity(no_facts(), entity);
    nothing_is_carried(context);
    entity_is_carried(no_facts(), entity, context);
    assert(carried_entity(entity, context) == archive_entity(read_again(input, context), document));
    archive_tasks_are_carried(input, context, document, first, document.task_ids.len() as int);
    if let Ok(facts) = archive::with_tasks(input, document, first, document.task_ids.len() as int) {
        archive_milestones_are_carried(
            input,
            context,
            document,
            facts,
            document.milestone_ids.len() as int,
        );
    }
}

proof fn tasks_are_carried(
    input: MemoryExtractionInputView,
    context: MemoryExtractionContextView,
    facts: MemoryFragmentView,
    document: RuntimeSourceDocumentView,
    at: int,
)
    requires
        0 <= at,
        context.project == input.context.project,
    ensures
        runtime::with_tasks(read_again(input, context), carried(facts, context), document, at)
            == carried_result(runtime::with_tasks(input, facts, document, at), context),
    decreases document.tasks.len() - at,
{
    if at < document.tasks.len() {
        let task = document.tasks[at];
        if let Ok(next) = with_task(input, facts, task) {
            let entity = next.entities.last();
            entity_is_carried(facts, entity, context);
            if task.milestone_id is Some {
                relationship_is_carried(
                    with_entity(facts, entity),
                    next.relationships.last(),
                    context,
                );
            }
            assert(with_task(read_again(input, context), carried(facts, context), task) == Ok::<
                MemoryFragmentView,
                Seq<char>,
            >(carried(next, context)));
            tasks_are_carried(input, context, next, document, at + 1);
        }
    }
}

proof fn runs_are_carried(
    input: MemoryExtractionInputView,
    context: MemoryExtractionContextView,
    facts: MemoryFragmentView,
    document: RuntimeSourceDocumentView,
    at: int,
)
    requires
        0 <= at,
        context.project == input.context.project,
    ensures
        runtime::with_runs(read_again(input, context), carried(facts, context), document, at)
            == carried_result(runtime::with_runs(input, facts, document, at), context),
    decreases document.runs.len() - at,
{
    if at < document.runs.len() {
        let run = document.runs[at];
        if let Ok(next) = with_run(input, facts, document.tasks, run) {
            let entity = next.entities.last();
            entity_is_carried(facts, entity, context);
            if next.relationships.len() > facts.relationships.len() {
                relationship_is_carried(
                    with_entity(facts, entity),
                    next.relationships.last(),
                    context,
                );
            }
            assert(with_run(
                read_again(input, context),
                carried(facts, context),
                document.tasks,
                run,
            ) == Ok::<MemoryFragmentView, Seq<char>>(carried(next, context)));
            runs_are_carried(input, context, next, document, at + 1);
        }
    }
}

proof fn checks_are_carried(
    input: MemoryExtractionInputView,
    context: MemoryExtractionContextView,
    facts: MemoryFragmentView,
    document: RuntimeSourceDocumentView,
    at: int,
)
    requires
        0 <= at,
        context.project == input.context.project,
    ensures
        runtime::with_checks(read_again(input, context), carried(facts, context), document, at)
            == carried_result(runtime::with_checks(input, facts, document, at), context),
    decreases document.checks.len() - at,
{
    if at < document.checks.len() {
        let check = document.checks[at];
        if let Ok(next) = with_check(input, facts, document, check) {
            let entity = next.entities.last();
            entity_is_carried(facts, entity, context);
            if next.relationships.len() > facts.relationships.len() {
                relationship_is_carried(
                    with_entity(facts, entity),
                    next.relationships.last(),
                    context,
                );
            }
            assert(with_check(
                read_again(input, context),
                carried(facts, context),
                document,
                check,
            ) == Ok::<MemoryFragmentView, Seq<char>>(carried(next, context)));
            checks_are_carried(input, context, next, document, at + 1);
        }
    }
}

proof fn runtime_facts_are_carried(
    input: MemoryExtractionInputView,
    context: MemoryExtractionContextView,
    document: RuntimeSourceDocumentView,
)
    requires
        context.project == input.context.project,
    ensures
        runtime_facts(read_again(input, context), document) == carried_result(
            runtime_facts(input, document),
            context,
        ),
{
    nothing_is_carried(context);
    tasks_are_carried(input, context, no_facts(), document, 0);
    if let Ok(facts) = runtime::with_tasks(input, no_facts(), document, 0) {
        runs_are_carried(input, context, facts, document, 0);
        if let Ok(facts) = runtime::with_runs(input, facts, document, 0) {
            checks_are_carried(input, context, facts, document, 0);
        }
    }
}

proof fn milestones_are_carried(
    input: MemoryExtractionInputView,
    context: MemoryExtractionContextView,
    facts: MemoryFragmentView,
    milestones: Seq<SpecMilestoneDocumentView>,
    at: int,
)
    requires
        0 <= at,
        context.project == input.context.project,
    ensures
        specification::with_milestones(
            read_again(input, context),
            carried(facts, context),
            milestones,
            at,
        ) == carried_option(specification::with_milestones(input, facts, milestones, at), context),
    decreases milestones.len() - at,
{
    if at < milestones.len() {
        if let Some(next) = with_milestone(input, facts, milestones[at]) {
            let entity = next.entities.last();
            entity_is_carried(facts, entity, context);
            relationship_is_carried(with_entity(facts, entity), next.relationships.last(), context);
            assert(with_milestone(
                read_again(input, context),
                carried(facts, context),
                milestones[at],
            ) == Some(carried(next, context)));
            milestones_are_carried(input, context, next, milestones, at + 1);
        }
    }
}

proof fn sections_are_carried(
    input: MemoryExtractionInputView,
    context: MemoryExtractionContextView,
    facts: MemoryFragmentView,
    sections: Seq<OutcomeSectionView>,
    at: int,
)
    requires
        0 <= at,
        context.project == input.context.project,
    ensures
        with_sections(read_again(input, context), carried(facts, context), sections, at)
            == carried_option(with_sections(input, facts, sections, at), context),
    decreases sections.len() - at,
{
    if at < sections.len() {
        if let Some(next) = with_section(input, facts, sections, at) {
            let entity = next.entities.last();
            entity_is_carried(facts, entity, context);
            relationship_is_carried(with_entity(facts, entity), next.relationships.last(), context);
            assert(with_section(
                read_again(input, context),
                carried(facts, context),
                sections,
                at,
            ) == Some(carried(next, context)));
            sections_are_carried(input, context, next, sections, at + 1);
        }
    }
}

proof fn structure_facts_are_carried(
    input: MemoryExtractionInputView,
    context: MemoryExtractionContextView,
    structure: SpecStructureDocumentView,
)
    requires
        context.project == input.context.project,
    ensures
        structure_facts(read_again(input, context), structure) == carried_option(
            structure_facts(input, structure),
            context,
        ),
{
    if structure.title is Some && structure.title_span is Some {
        let entity = entity_model(
            input,
            source_entity(input.context.project, "specification"@, input.source.locator),
            MemoryEntityDataView::Specification { title: structure.title->0 },
            span_provenance(input, structure.title_span->0),
        );
        nothing_is_carried(context);
        entity_is_carried(no_facts(), entity, context);
        milestones_are_carried(
            input,
            context,
            with_entity(no_facts(), entity),
            structure.milestones,
            0,
        );
    }
}

proof fn outcome_facts_are_carried(
    input: MemoryExtractionInputView,
    context: MemoryExtractionContextView,
    document: SpecOutcomeDocumentView,
)
    requires
        context.project == input.context.project,
    ensures
        outcome_facts(read_again(input, context), document) == carried_option(
            outcome_facts(input, document),
            context,
        ),
{
    let outcome_id = source_entity(input.context.project, "outcome"@, input.source.locator);
    let spec_id = source_entity(input.context.project, "specification"@, input.source.locator);
    let provenance = span_provenance(input, document.span);
    let entity = entity_model(
        input,
        outcome_id,
        MemoryEntityDataView::Outcome { text: document.text },
        provenance,
    );
    let relationship = relationship_model(
        input,
        "concerns"@,
        spec_id,
        MemoryRelationshipKind::Concerns,
        outcome_id,
        MemoryRelationshipTargetView::MemoryEntity { entity_id: spec_id },
        provenance,
    );
    let known = with_entity(no_facts(), entity);
    nothing_is_carried(context);
    entity_is_carried(no_facts(), entity, context);
    relationship_is_carried(known, relationship, context);
    sections_are_carried(
        input,
        context,
        with_relationship(known, relationship),
        document.sections,
        0,
    );
}

proof fn facts_are_carried(
    extractor: BuiltInExtractor,
    input: MemoryExtractionInputView,
    context: MemoryExtractionContextView,
)
    requires
        context.project == input.context.project,
    ensures
        extractor.facts(read_again(input, context)) == carried_result(extractor.facts(input), context),
{
    match extractor {
        BuiltInExtractor::Specification(_) => {
            let document = parsed(vstd::utf8::decode_utf8(input.content));
            structure_facts_are_carried(input, context, document.structure);
            if document.outcome is Some {
                outcome_facts_are_carried(input, context, document.outcome->0);
            }
        },
        BuiltInExtractor::Archive(_) => {
            if let SourceDocumentView::Archive(document) = input.document {
                archive_facts_are_carried(input, context, document);
            }
        },
        BuiltInExtractor::Runtime(_) => {
            if let SourceDocumentView::Runtime(document) = input.document {
                runtime_facts_are_carried(input, context, document);
            }
        },
    }
}

proof fn moving_is_carrying(
    facts: MemoryFragmentView,
    context: MemoryExtractionContextView,
    revision: MemoryRevisionView,
)
    requires
        context.project == revision.project,
        context.revision_id == revision.id,
    ensures
        dated_facts(rebased(facts, revision), context.indexed_at) == carried(facts, context),
{
    reveal(rebased);
    let moved = dated_facts(rebased(facts, revision), context.indexed_at);
    assert(moved.entities =~= carried(facts, context).entities);
    assert(moved.relationships =~= carried(facts, context).relationships);
}

/// Facts that were kept stand for those of a new run: reading the same source again for another
/// revision of the project gives the kept facts, moved to that revision, and differs from them only in
/// the times it states. What could not be read before cannot be read then, for the same reason.
pub proof fn kept_facts_are_what_reading_gives(
    extractor: BuiltInExtractor,
    input: MemoryExtractionInputView,
    context: MemoryExtractionContextView,
    revision: MemoryRevisionView,
)
    requires
        context.project == input.context.project,
        context.project == revision.project,
        context.revision_id == revision.id,
    ensures
        extractor.facts(read_again(input, context)) == match extractor.facts(input) {
            Ok(facts) => Ok(dated_facts(rebased(facts, revision), context.indexed_at)),
            Err(failure) => Err(failure),
        },
{
    facts_are_carried(extractor, input, context);
    if let Ok(facts) = extractor.facts(input) {
        moving_is_carrying(facts, context, revision);
    }
}

}
