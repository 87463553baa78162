//! Which facts the sources of a project give.
use vstd::prelude::*;
use crate::documents::{
    ArchiveSourceDocumentView, OutcomeSectionKind, OutcomeSectionView, RuntimeCheckDocumentView,
    RuntimeRunDocumentView, RuntimeSourceDocumentView, RuntimeTaskDocumentView, SpecMilestoneDocumentView,
    SpecOutcomeDocumentView, SpecStructureDocumentView,
};
use crate::domain::{
    MemoryEntityDataView, MemoryEntityView, MemoryEvidenceLocatorView, MemoryFragmentView,
    MemoryRelationshipKind, MemoryRelationshipTargetView, MilestoneCompletion,
};
use crate::extractors::archive::{archive_facts, with_milestones as with_archived_milestones, with_tasks as with_archived_tasks};
use crate::extractors::runtime::{runtime_facts, with_check, with_checks, with_run, with_runs, with_task, with_tasks};
use crate::extractors::specification::{
    outcome_facts, source_entity, structure_facts, with_milestones, with_sections,
};
use crate::extractors::{named_entity, no_facts, with_entity};
use crate::ports::MemoryExtractionInputView;
use crate::value::is_bounded_text;

verus! {

/// Whether facts hold what others hold, in the same places, and perhaps more.
pub open spec fn grow_from(before: MemoryFragmentView, after: MemoryFragmentView) -> bool {
    &&& before.entities.len() <= after.entities.len()
    &&& before.relationships.len() <= after.relationships.len()
    &&& forall|i: int| 0 <= i < before.entities.len() ==> #[trigger] after.entities[i] == before.entities[i]
    &&& forall|i: int|
        0 <= i < before.relationships.len() ==> #[trigger] after.relationships[i] == before.relationships[i]
}

/// Whether a relationship of a kind joins an entity to a target.
pub open spec fn is_joined(
    facts: MemoryFragmentView,
    source: Seq<char>,
    kind: MemoryRelationshipKind,
    target: MemoryRelationshipTargetView,
) -> bool {
    exists|i: int|
        0 <= i < facts.relationships.len() && (#[trigger] facts.relationships[i]).source == source
            && facts.relationships[i].kind == kind && facts.relationships[i].target == target
}

proof fn growing_goes_on(first: MemoryFragmentView, second: MemoryFragmentView, third: MemoryFragmentView)
    requires
        grow_from(first, second),
        grow_from(second, third),
    ensures
        grow_from(first, third),
{
    assert forall|i: int| 0 <= i < first.entities.len() implies #[trigger] third.entities[i] == first.entities[i] by {
        assert(second.entities[i] == first.entities[i]);
        assert(third.entities[i] == second.entities[i]);
    }
    assert forall|i: int|
        0 <= i < first.relationships.len() implies #[trigger] third.relationships[i] == first.relationships[i] by {
        assert(second.relationships[i] == first.relationships[i]);
        assert(third.relationships[i] == second.relationships[i]);
    }
}

proof fn joins_stay(
    before: MemoryFragmentView,
    after: MemoryFragmentView,
    source: Seq<char>,
    kind: MemoryRelationshipKind,
    target: MemoryRelationshipTargetView,
)
    requires
        grow_from(before, after),
        is_joined(before, source, kind, target),
    ensures
        is_joined(after, source, kind, target),
{
    let i = choose|i: int|
        0 <= i < before.relationships.len() && (#[trigger] before.relationships[i]).source == source
            && before.relationships[i].kind == kind && before.relationships[i].target == target;
    assert(after.relationships[i] == before.relationships[i]);
}

/// Whether a relationship says that an entity is contained in another.
pub open spec fn contains_at(
    facts: MemoryFragmentView,
    entity: int,
    relationship: int,
    owner: Seq<char>,
) -> bool {
    &&& facts.relationships[relationship].kind == MemoryRelationshipKind::Contains
    &&& facts.relationships[relationship].source == owner
    &&& facts.relationships[relationship].target == (MemoryRelationshipTargetView::MemoryEntity {
        entity_id: facts.entities[entity].id,
    })
}

/// Whether an entity is a milestone as it stands in a specification.
pub open spec fn is_milestone(entity: MemoryEntityView, milestone: SpecMilestoneDocumentView) -> bool {
    &&& entity.data == MemoryEntityDataView::Milestone {
        milestone_id: milestone.id,
        title: milestone.title,
        completion: if milestone.completed {
            MilestoneCompletion::Complete
        } else {
            MilestoneCompletion::Pending
        },
    }
    &&& entity.provenance.evidence == MemoryEvidenceLocatorView::Span(milestone.span)
}

/// Whether an entity is such a milestone, contained in another entity.
spec fn is_contained_milestone(
    facts: MemoryFragmentView,
    entity: int,
    relationship: int,
    owner: Seq<char>,
    milestone: SpecMilestoneDocumentView,
) -> bool {
    is_milestone(facts.entities[entity], milestone) && contains_at(facts, entity, relationship, owner)
}

proof fn milestones_become_entities(
    input: MemoryExtractionInputView,
    facts: MemoryFragmentView,
    milestones: Seq<SpecMilestoneDocumentView>,
    at: int,
)
    requires
        0 <= at <= milestones.len(),
    ensures
        with_milestones(input, facts, milestones, at) matches Some(all) ==> {
            &&& grow_from(facts, all)
            &&& all.entities.len() == facts.entities.len() + milestones.len() - at
            &&& all.relationships.len() == facts.relationships.len() + milestones.len() - at
            &&& forall|i: int|
                at <= i < milestones.len() ==> is_contained_milestone(
                    all,
                    facts.entities.len() + i - at,
                    facts.relationships.len() + i - at,
                    source_entity(input.context.project, "specification"@, input.source.locator),
                    #[trigger] milestones[i],
                )
        },
        with_milestones(input, facts, milestones, at) is Some == (forall|i: int|
            at <= i < milestones.len() ==> is_bounded_text((#[trigger] milestones[i]).id, 512, false)
                && is_bounded_text(milestones[i].title, 1024, false)),
    decreases milestones.len() - at,
{
    if at < milestones.len() {
        let next = crate::extractors::specification::with_milestone(input, facts, milestones[at]);
        if let Some(more) = next {
            assert(grow_from(facts, more));
            milestones_become_entities(input, more, milestones, at + 1);
            let owner = source_entity(input.context.project, "specification"@, input.source.locator);
            if let Some(all) = with_milestones(input, facts, milestones, at) {
                growing_goes_on(facts, more, all);
                assert(all.entities[facts.entities.len() as int] == more.entities[facts.entities.len() as int]);
                assert(all.relationships[facts.relationships.len() as int]
                    == more.relationships[facts.relationships.len() as int]);
                assert forall|i: int| at <= i < milestones.len() implies is_contained_milestone(
                    all,
                    facts.entities.len() + i - at,
                    facts.relationships.len() + i - at,
                    source_entity(input.context.project, "specification"@, input.source.locator),
                    #[trigger] milestones[i],
                ) by {
                    let entity: int = facts.entities.len() + i - at;
                    let relationship: int = facts.relationships.len() + i - at;
                    if i > at {
                        assert(more.entities.len() + i - (at + 1) == entity);
                        assert(more.relationships.len() + i - (at + 1) == relationship);
                        assert(is_contained_milestone(all, entity, relationship, owner, milestones[i]));
                    } else {
                        assert(entity == facts.entities.len() && relationship == facts.relationships.len());
                        assert(all.entities[entity] == more.entities[entity]);
                        assert(all.relationships[relationship] == more.relationships[relationship]);
                        assert(contains_at(more, entity, relationship, owner));
                    }
                    assert(contains_at(all, entity, relationship, owner));
                }
            }
        } else {
            assert(!(is_bounded_text(milestones[at].id, 512, false) && is_bounded_text(
                milestones[at].title,
                1024,
                false,
            )));
        }
    }
}

/// A specification with a title becomes an entity with that title, each of its milestones an entity with
/// its id, its title and its state, each at the place where it stands, and the specification contains its
/// milestones. Nothing else comes of it. Where a title or an id is missing or too long, nothing does.
pub proof fn specifications_contain_their_milestones(
    input: MemoryExtractionInputView,
    structure: SpecStructureDocumentView,
)
    ensures
        structure_facts(input, structure) is Some == {
            &&& structure.title is Some && structure.title_span is Some && is_bounded_text(
                structure.title->0,
                1024,
                false,
            )
            &&& forall|i: int|
                0 <= i < structure.milestones.len() ==> is_bounded_text(
                    (#[trigger] structure.milestones[i]).id,
                    512,
                    false,
                ) && is_bounded_text(structure.milestones[i].title, 1024, false)
        },
        structure_facts(input, structure) matches Some(facts) ==> {
            &&& facts.entities.len() == structure.milestones.len() + 1
            &&& facts.relationships.len() == structure.milestones.len()
            &&& facts.entities[0].data == (MemoryEntityDataView::Specification { title: structure.title->0 })
            &&& facts.entities[0].provenance.evidence == MemoryEvidenceLocatorView::Span(structure.title_span->0)
            &&& forall|i: int|
                0 <= i < structure.milestones.len() ==> is_milestone(
                    facts.entities[i + 1],
                    #[trigger] structure.milestones[i],
                ) && contains_at(facts, i + 1, i, facts.entities[0].id)
        },
{
    if structure.title is Some && structure.title_span is Some {
        let start = with_entity(
            no_facts(),
            crate::extractors::entity_model(
                input,
                source_entity(input.context.project, "specification"@, input.source.locator),
                MemoryEntityDataView::Specification { title: structure.title->0 },
                crate::extractors::specification::span_provenance(input, structure.title_span->0),
            ),
        );
        milestones_become_entities(input, start, structure.milestones, 0);
        if let Some(facts) = structure_facts(input, structure) {
            assert(facts.entities[0] == start.entities[0]);
            assert forall|i: int| 0 <= i < structure.milestones.len() implies is_milestone(
                facts.entities[i + 1],
                #[trigger] structure.milestones[i],
            ) && contains_at(facts, i + 1, i, facts.entities[0].id) by {
                assert(start.entities.len() + i - 0 == i + 1);
                assert(start.relationships.len() + i - 0 == i);
                assert(is_contained_milestone(facts, i + 1, i, facts.entities[0].id, structure.milestones[i]));
            }
        }
    }
}

/// Whether an entity is what a section of an outcome says: a decision, a deviation, evidence or
/// follow-up work, with its text.
pub open spec fn is_section(entity: MemoryEntityView, section: OutcomeSectionView) -> bool {
    &&& section.kind == OutcomeSectionKind::Decision ==> entity.data == (MemoryEntityDataView::Decision {
        text: section.text,
    })
    &&& section.kind == OutcomeSectionKind::Deviation ==> entity.data == (MemoryEntityDataView::Deviation {
        text: section.text,
    })
    &&& section.kind == OutcomeSectionKind::Validation ==> entity.data
        == (MemoryEntityDataView::ValidationEvidence { text: Some(section.text), check_id: None, status: None })
    &&& section.kind == OutcomeSectionKind::FollowUp ==> entity.data == (MemoryEntityDataView::FollowUpWork {
        text: section.text,
        milestone_id: None,
    })
    &&& entity.provenance.evidence == MemoryEvidenceLocatorView::Span(section.span)
}

/// Whether an entity is such a section, contained in another entity.
spec fn is_contained_section(
    facts: MemoryFragmentView,
    entity: int,
    relationship: int,
    owner: Seq<char>,
    section: OutcomeSectionView,
) -> bool {
    is_section(facts.entities[entity], section) && contains_at(facts, entity, relationship, owner)
}

proof fn sections_become_entities(
    input: MemoryExtractionInputView,
    facts: MemoryFragmentView,
    sections: Seq<OutcomeSectionView>,
    at: int,
)
    requires
        0 <= at <= sections.len(),
    ensures
        with_sections(input, facts, sections, at) matches Some(all) ==> {
            &&& grow_from(facts, all)
            &&& all.entities.len() == facts.entities.len() + sections.len() - at
            &&& all.relationships.len() == facts.relationships.len() + sections.len() - at
            &&& forall|i: int|
                at <= i < sections.len() ==> is_contained_section(
                    all,
                    facts.entities.len() + i - at,
                    facts.relationships.len() + i - at,
                    source_entity(input.context.project, "outcome"@, input.source.locator),
                    #[trigger] sections[i],
                )
        },
        with_sections(input, facts, sections, at) is Some == (forall|i: int|
            at <= i < sections.len() ==> is_bounded_text((#[trigger] sections[i]).text, 65536, true)),
    decreases sections.len() - at,
{
    if at < sections.len() {
        let next = crate::extractors::specification::with_section(input, facts, sections, at);
        if let Some(more) = next {
            assert(grow_from(facts, more));
            sections_become_entities(input, more, sections, at + 1);
            let owner = source_entity(input.context.project, "outcome"@, input.source.locator);
            if let Some(all) = with_sections(input, facts, sections, at) {
                growing_goes_on(facts, more, all);
                assert(all.entities[facts.entities.len() as int] == more.entities[facts.entities.len() as int]);
                assert(all.relationships[facts.relationships.len() as int]
                    == more.relationships[facts.relationships.len() as int]);
                assert forall|i: int| at <= i < sections.len() implies is_contained_section(
                    all,
                    facts.entities.len() + i - at,
                    facts.relationships.len() + i - at,
                    source_entity(input.context.project, "outcome"@, input.source.locator),
                    #[trigger] sections[i],
                ) by {
                    let entity: int = facts.entities.len() + i - at;
                    let relationship: int = facts.relationships.len() + i - at;
                    if i > at {
                        assert(more.entities.len() + i - (at + 1) == entity);
                        assert(more.relationships.len() + i - (at + 1) == relationship);
                        assert(is_contained_section(all, entity, relationship, owner, sections[i]));
                    } else {
                        assert(entity == facts.entities.len() && relationship == facts.relationships.len());
                        assert(all.entities[entity] == more.entities[entity]);
                        assert(all.relationships[relationship] == more.relationships[relationship]);
                        assert(contains_at(more, entity, relationship, owner));
                    }
                    assert(contains_at(all, entity, relationship, owner));
                }
            }
        } else {
            assert(!is_bounded_text(sections[at].text, 65536, true));
        }
    }
}

/// An outcome becomes an entity with its text that concerns its specification and contains its sections,
/// each of them as what it is about. Nothing else comes of it. Where a text is too long, nothing does.
pub proof fn outcomes_contain_their_sections(
    input: MemoryExtractionInputView,
    document: SpecOutcomeDocumentView,
    structure: SpecStructureDocumentView,
)
    ensures
        outcome_facts(input, document) is Some == (is_bounded_text(document.text, 65536, true) && forall|i: int|
            0 <= i < document.sections.len() ==> is_bounded_text(
                (#[trigger] document.sections[i]).text,
                65536,
                true,
            )),
        outcome_facts(input, document) matches Some(facts) ==> {
            &&& facts.entities.len() == document.sections.len() + 1
            &&& facts.relationships.len() == document.sections.len() + 1
            &&& facts.entities[0].data == (MemoryEntityDataView::Outcome { text: document.text })
            &&& facts.entities[0].provenance.evidence == MemoryEvidenceLocatorView::Span(document.span)
            &&& facts.relationships[0].kind == MemoryRelationshipKind::Concerns
            &&& facts.relationships[0].source == facts.entities[0].id
            &&& structure_facts(input, structure) matches Some(known) ==> facts.relationships[0].target
                == (MemoryRelationshipTargetView::MemoryEntity { entity_id: known.entities[0].id })
            &&& forall|i: int|
                0 <= i < document.sections.len() ==> is_section(
                    facts.entities[i + 1],
                    #[trigger] document.sections[i],
                ) && contains_at(facts, i + 1, i + 1, facts.entities[0].id)
        },
{
    let project = input.context.project;
    let outcome_id = source_entity(project, "outcome"@, input.source.locator);
    let spec_id = source_entity(project, "specification"@, input.source.locator);
    let provenance = crate::extractors::specification::span_provenance(input, document.span);
    let start = crate::extractors::with_relationship(
        with_entity(
            no_facts(),
            crate::extractors::entity_model(
                input,
                outcome_id,
                MemoryEntityDataView::Outcome { text: document.text },
                provenance,
            ),
        ),
        crate::extractors::relationship_model(
            input,
            "concerns"@,
            spec_id,
            MemoryRelationshipKind::Concerns,
            outcome_id,
            MemoryRelationshipTargetView::MemoryEntity { entity_id: spec_id },
            provenance,
        ),
    );
    sections_become_entities(input, start, document.sections, 0);
    if let Some(known) = structure_facts(input, structure) {
        let first = with_entity(
            no_facts(),
            crate::extractors::entity_model(
                input,
                spec_id,
                MemoryEntityDataView::Specification { title: structure.title->0 },
                crate::extractors::specification::span_provenance(input, structure.title_span->0),
            ),
        );
        milestones_become_entities(input, first, structure.milestones, 0);
        assert(known.entities[0] == first.entities[0]);
    }
    if let Some(facts) = outcome_facts(input, document) {
        assert(facts.entities[0] == start.entities[0]);
        assert(facts.relationships[0] == start.relationships[0]);
        assert forall|i: int| 0 <= i < document.sections.len() implies is_section(
            facts.entities[i + 1],
            #[trigger] document.sections[i],
        ) && contains_at(facts, i + 1, i + 1, facts.entities[0].id) by {
            assert(start.entities.len() + i - 0 == i + 1);
            assert(start.relationships.len() + i - 0 == i + 1);
            assert(is_contained_section(facts, i + 1, i + 1, facts.entities[0].id, document.sections[i]));
        }
    }
}

proof fn archived_tasks_are_joined(
    input: MemoryExtractionInputView,
    document: ArchiveSourceDocumentView,
    facts: MemoryFragmentView,
    count: int,
)
    requires
        0 <= count <= document.task_ids.len(),
    ensures
        with_archived_tasks(input, document, facts, count) matches Ok(all) ==> {
            &&& all.entities == facts.entities
            &&& grow_from(facts, all)
            &&& all.relationships.len() == facts.relationships.len() + count
            &&& forall|i: int|
                0 <= i < count ==> (#[trigger] all.relationships[facts.relationships.len() + i]).kind
                    == MemoryRelationshipKind::Contains && all.relationships[facts.relationships.len() + i].source
                    == named_entity(input.context.project, "archive"@, document.archive_id)
                    && all.relationships[facts.relationships.len() + i].target
                    == (MemoryRelationshipTargetView::Task { task_id: document.task_ids[i] })
        },
    decreases count,
{
    if count > 0 {
        archived_tasks_are_joined(input, document, facts, count - 1);
        if let Ok(all) = with_archived_tasks(input, document, facts, count) {
            let before = with_archived_tasks(input, document, facts, count - 1)->Ok_0;
            assert(grow_from(before, all));
            growing_goes_on(facts, before, all);
            assert forall|i: int| 0 <= i < count implies (#[trigger] all.relationships[facts.relationships.len() + i]).kind
                == MemoryRelationshipKind::Contains && all.relationships[facts.relationships.len() + i].source
                == named_entity(input.context.project, "archive"@, document.archive_id)
                && all.relationships[facts.relationships.len() + i].target == (MemoryRelationshipTargetView::Task {
                task_id: document.task_ids[i],
            }) by {
                if i < count - 1 {
                    assert(all.relationships[facts.relationships.len() + i]
                        == before.relationships[facts.relationships.len() + i]);
                }
            }
        }
    }
}

proof fn archived_milestones_are_joined(
    input: MemoryExtractionInputView,
    document: ArchiveSourceDocumentView,
    facts: MemoryFragmentView,
    count: int,
)
    requires
        0 <= count <= document.milestone_ids.len(),
    ensures
        with_archived_milestones(input, document, facts, count) matches Ok(all) ==> {
            &&& all.entities == facts.entities
            &&& grow_from(facts, all)
            &&& all.relationships.len() == facts.relationships.len() + count
            &&& forall|i: int|
                0 <= i < count ==> (#[trigger] all.relationships[facts.relationships.len() + i]).kind
                    == MemoryRelationshipKind::Concerns && all.relationships[facts.relationships.len() + i].source
                    == named_entity(input.context.project, "archive"@, document.archive_id)
                    && all.relationships[facts.relationships.len() + i].target
                    == (MemoryRelationshipTargetView::Milestone { milestone_id: document.milestone_ids[i] })
        },
    decreases count,
{
    if count > 0 {
        archived_milestones_are_joined(input, document, facts, count - 1);
        if let Ok(all) = with_archived_milestones(input, document, facts, count) {
            let before = with_archived_milestones(input, document, facts, count - 1)->Ok_0;
            assert(grow_from(before, all));
            growing_goes_on(facts, before, all);
            assert forall|i: int| 0 <= i < count implies (#[trigger] all.relationships[facts.relationships.len() + i]).kind
                == MemoryRelationshipKind::Concerns && all.relationships[facts.relationships.len() + i].source
                == named_entity(input.context.project, "archive"@, document.archive_id)
                && all.relationships[facts.relationships.len() + i].target
                == (MemoryRelationshipTargetView::Milestone { milestone_id: document.milestone_ids[i] }) by {
                if i < count - 1 {
                    assert(all.relationships[facts.relationships.len() + i]
                        == before.relationships[facts.relationships.len() + i]);
                }
            }
        }
    }
}

/// An archive becomes one entity with what its manifest says, that contains each of its tasks and concerns
/// each of their milestones. Nothing else comes of it.
pub proof fn archives_contain_their_tasks(
    input: MemoryExtractionInputView,
    document: ArchiveSourceDocumentView,
)
    ensures
        archive_facts(input, document) matches Ok(facts) ==> {
            &&& facts.entities.len() == 1
            &&& facts.entities[0].data == MemoryEntityDataView::ArchiveReference {
                archive_id: document.archive_id,
                spec_path: document.spec_path,
                archived_at: document.archived_at,
                task_count: document.task_count,
                run_count: document.run_count,
            }
            &&& facts.entities[0].provenance.evidence == MemoryEvidenceLocatorView::Record(document.archive_id)
            &&& facts.relationships.len() == document.task_ids.len() + document.milestone_ids.len()
            &&& forall|i: int|
                0 <= i < document.task_ids.len() ==> (#[trigger] facts.relationships[i]).kind
                    == MemoryRelationshipKind::Contains && facts.relationships[i].source == facts.entities[0].id
                    && facts.relationships[i].target == (MemoryRelationshipTargetView::Task {
                    task_id: document.task_ids[i],
                })
            &&& forall|i: int|
                0 <= i < document.milestone_ids.len() ==> (#[trigger] facts.relationships[document.task_ids.len()
                    + i]).kind == MemoryRelationshipKind::Concerns && facts.relationships[document.task_ids.len()
                    + i].source == facts.entities[0].id && facts.relationships[document.task_ids.len() + i].target
                    == (MemoryRelationshipTargetView::Milestone { milestone_id: document.milestone_ids[i] })
        },
{
    let start = with_entity(no_facts(), crate::extractors::archive::archive_entity(input, document));
    archived_tasks_are_joined(input, document, start, document.task_ids.len() as int);
    if let Ok(tasks) = with_archived_tasks(input, document, start, document.task_ids.len() as int) {
        archived_milestones_are_joined(input, document, tasks, document.milestone_ids.len() as int);
        if let Ok(facts) = archive_facts(input, document) {
            assert forall|i: int| 0 <= i < document.task_ids.len() implies (#[trigger] facts.relationships[i]).kind
                == MemoryRelationshipKind::Contains && facts.relationships[i].source == facts.entities[0].id
                && facts.relationships[i].target == (MemoryRelationshipTargetView::Task {
                task_id: document.task_ids[i],
            }) by {
                assert(facts.relationships[i] == tasks.relationships[i]);
                assert(tasks.relationships[start.relationships.len() + i] == tasks.relationships[i]);
            }
        }
    }
}

/// Whether an entity refers to a task as it is recorded.
pub open spec fn is_task(entity: MemoryEntityView, task: RuntimeTaskDocumentView) -> bool {
    &&& entity.data == MemoryEntityDataView::TaskReference {
        task_id: task.id,
        milestone_id: task.milestone_id,
        status: task.status,
        baseline_snapshot_id: task.baseline_snapshot_id,
        repository_snapshot_id: task.repository_snapshot_id,
    }
    &&& entity.provenance.evidence == MemoryEvidenceLocatorView::Record(task.id)
}

/// Whether an entity refers to a run as it is recorded.
pub open spec fn is_run(entity: MemoryEntityView, run: RuntimeRunDocumentView) -> bool {
    &&& entity.data == MemoryEntityDataView::RunReference {
        run_id: run.id,
        task_id: run.task_id,
        status: run.status,
        check_ids: run.check_ids,
        baseline_snapshot_id: run.baseline_snapshot_id,
        repository_snapshot_id: run.repository_snapshot_id,
    }
    &&& entity.provenance.evidence == MemoryEvidenceLocatorView::Record(run.id)
}

/// Whether an entity is the evidence of a check as it is recorded.
pub open spec fn is_check(entity: MemoryEntityView, check: RuntimeCheckDocumentView) -> bool {
    &&& entity.data == MemoryEntityDataView::ValidationEvidence {
        text: None,
        check_id: Some(check.id),
        status: Some(check.status),
    }
    &&& entity.provenance.evidence == MemoryEvidenceLocatorView::Record(check.id)
}

proof fn tasks_become_entities(
    input: MemoryExtractionInputView,
    facts: MemoryFragmentView,
    document: RuntimeSourceDocumentView,
    at: int,
)
    requires
        0 <= at <= document.tasks.len(),
    ensures
        with_tasks(input, facts, document, at) matches Ok(all) ==> {
            &&& grow_from(facts, all)
            &&& all.entities.len() == facts.entities.len() + document.tasks.len() - at
            &&& forall|i: int|
                at <= i < document.tasks.len() ==> is_task(
                    all.entities[facts.entities.len() + i - at],
                    #[trigger] document.tasks[i],
                ) && all.entities[facts.entities.len() + i - at].id == named_entity(
                    input.context.project,
                    "task"@,
                    document.tasks[i].id,
                ) && (document.tasks[i].milestone_id matches Some(milestone) ==> is_joined(
                    all,
                    all.entities[facts.entities.len() + i - at].id,
                    MemoryRelationshipKind::Implements,
                    MemoryRelationshipTargetView::Milestone { milestone_id: milestone },
                ))
        },
    decreases document.tasks.len() - at,
{
    if at < document.tasks.len() {
        let task = document.tasks[at];
        if let Ok(more) = with_task(input, facts, task) {
            assert(grow_from(facts, more));
            tasks_become_entities(input, more, document, at + 1);
            if let Ok(all) = with_tasks(input, facts, document, at) {
                growing_goes_on(facts, more, all);
                assert(all.entities[facts.entities.len() as int] == more.entities[facts.entities.len() as int]);
                if let Some(milestone) = task.milestone_id {
                    let target = MemoryRelationshipTargetView::Milestone { milestone_id: milestone };
                    let source = more.entities[facts.entities.len() as int].id;
                    assert(more.relationships[facts.relationships.len() as int].source == source);
                    assert(is_joined(more, source, MemoryRelationshipKind::Implements, target));
                    joins_stay(more, all, source, MemoryRelationshipKind::Implements, target);
                }
                assert forall|i: int| at <= i < document.tasks.len() implies is_task(
                    all.entities[facts.entities.len() + i - at],
                    #[trigger] document.tasks[i],
                ) && all.entities[facts.entities.len() + i - at].id == named_entity(
                    input.context.project,
                    "task"@,
                    document.tasks[i].id,
                ) && (document.tasks[i].milestone_id matches Some(milestone) ==> is_joined(
                    all,
                    all.entities[facts.entities.len() + i - at].id,
                    MemoryRelationshipKind::Implements,
                    MemoryRelationshipTargetView::Milestone { milestone_id: milestone },
                )) by {
                    if i > at {
                        assert(more.entities.len() + i - (at + 1) == facts.entities.len() + i - at);
                    }
                }
            }
        }
    }
}

proof fn runs_become_entities(
    input: MemoryExtractionInputView,
    facts: MemoryFragmentView,
    document: RuntimeSourceDocumentView,
    at: int,
)
    requires
        0 <= at <= document.runs.len(),
    ensures
        with_runs(input, facts, document, at) matches Ok(all) ==> {
            &&& grow_from(facts, all)
            &&& all.entities.len() == facts.entities.len() + document.runs.len() - at
            &&& forall|i: int|
                at <= i < document.runs.len() ==> is_run(
                    all.entities[facts.entities.len() + i - at],
                    #[trigger] document.runs[i],
                ) && all.entities[facts.entities.len() + i - at].id == named_entity(
                    input.context.project,
                    "run"@,
                    document.runs[i].id,
                ) && (crate::extractors::runtime::has_task(document.tasks, document.runs[i].task_id) ==> is_joined(
                    all,
                    named_entity(input.context.project, "task"@, document.runs[i].task_id),
                    MemoryRelationshipKind::Contains,
                    MemoryRelationshipTargetView::MemoryEntity {
                        entity_id: all.entities[facts.entities.len() + i - at].id,
                    },
                ))
        },
    decreases document.runs.len() - at,
{
    if at < document.runs.len() {
        let run = document.runs[at];
        if let Ok(more) = with_run(input, facts, document.tasks, run) {
            assert(grow_from(facts, more));
            runs_become_entities(input, more, document, at + 1);
            if let Ok(all) = with_runs(input, facts, document, at) {
                growing_goes_on(facts, more, all);
                let id = more.entities[facts.entities.len() as int].id;
                assert(all.entities[facts.entities.len() as int] == more.entities[facts.entities.len() as int]);
                if crate::extractors::runtime::has_task(document.tasks, run.task_id) {
                    let target = MemoryRelationshipTargetView::MemoryEntity { entity_id: id };
                    let source = named_entity(input.context.project, "task"@, run.task_id);
                    assert(more.relationships[facts.relationships.len() as int].source == source);
                    assert(is_joined(more, source, MemoryRelationshipKind::Contains, target));
                    joins_stay(more, all, source, MemoryRelationshipKind::Contains, target);
                }
                assert forall|i: int| at <= i < document.runs.len() implies is_run(
                    all.entities[facts.entities.len() + i - at],
                    #[trigger] document.runs[i],
                ) && all.entities[facts.entities.len() + i - at].id == named_entity(
                    input.context.project,
                    "run"@,
                    document.runs[i].id,
                ) && (crate::extractors::runtime::has_task(document.tasks, document.runs[i].task_id) ==> is_joined(
                    all,
                    named_entity(input.context.project, "task"@, document.runs[i].task_id),
                    MemoryRelationshipKind::Contains,
                    MemoryRelationshipTargetView::MemoryEntity {
                        entity_id: all.entities[facts.entities.len() + i - at].id,
                    },
                )) by {
                    if i > at {
                        assert(more.entities.len() + i - (at + 1) == facts.entities.len() + i - at);
                    }
                }
            }
        }
    }
}

proof fn checks_become_entities(
    input: MemoryExtractionInputView,
    facts: MemoryFragmentView,
    document: RuntimeSourceDocumentView,
    at: int,
)
    requires
        0 <= at <= document.checks.len(),
    ensures
        with_checks(input, facts, document, at) matches Ok(all) ==> {
            &&& grow_from(facts, all)
            &&& all.entities.len() == facts.entities.len() + document.checks.len() - at
            &&& forall|i: int|
                at <= i < document.checks.len() ==> is_check(
                    all.entities[facts.entities.len() + i - at],
                    #[trigger] document.checks[i],
                ) && (crate::extractors::runtime::validated(input, document, document.checks[i]) matches Some(target)
                    ==> is_joined(
                    all,
                    all.entities[facts.entities.len() + i - at].id,
                    MemoryRelationshipKind::Validates,
                    MemoryRelationshipTargetView::MemoryEntity { entity_id: target },
                ))
        },
    decreases document.checks.len() - at,
{
    if at < document.checks.len() {
        let check = document.checks[at];
        if let Ok(more) = with_check(input, facts, document, check) {
            assert(grow_from(facts, more));
            checks_become_entities(input, more, document, at + 1);
            if let Ok(all) = with_checks(input, facts, document, at) {
                growing_goes_on(facts, more, all);
                let id = more.entities[facts.entities.len() as int].id;
                assert(all.entities[facts.entities.len() as int] == more.entities[facts.entities.len() as int]);
                if let Some(end) = crate::extractors::runtime::validated(input, document, check) {
                    let target = MemoryRelationshipTargetView::MemoryEntity { entity_id: end };
                    assert(more.relationships[facts.relationships.len() as int].source == id);
                    assert(is_joined(more, id, MemoryRelationshipKind::Validates, target));
                    joins_stay(more, all, id, MemoryRelationshipKind::Validates, target);
                }
                assert forall|i: int| at <= i < document.checks.len() implies is_check(
                    all.entities[facts.entities.len() + i - at],
                    #[trigger] document.checks[i],
                ) && (crate::extractors::runtime::validated(input, document, document.checks[i]) matches Some(target)
                    ==> is_joined(
                    all,
                    all.entities[facts.entities.len() + i - at].id,
                    MemoryRelationshipKind::Validates,
                    MemoryRelationshipTargetView::MemoryEntity { entity_id: target },
                )) by {
                    if i > at {
                        assert(more.entities.len() + i - (at + 1) == facts.entities.len() + i - at);
                    }
                }
            }
        }
    }
}

/// The runtime of a project becomes an entity for each task, each run and each check, as they are
/// recorded, and no other entity.
pub proof fn runtime_records_become_entities(
    input: MemoryExtractionInputView,
    document: RuntimeSourceDocumentView,
)
    ensures
        runtime_facts(input, document) matches Ok(facts) ==> {
            let runs_at = document.tasks.len();
            let checks_at = document.tasks.len() + document.runs.len();
            &&& facts.entities.len() == checks_at + document.checks.len()
            &&& forall|i: int|
                0 <= i < document.tasks.len() ==> is_task(facts.entities[i], #[trigger] document.tasks[i])
            &&& forall|i: int|
                0 <= i < document.runs.len() ==> is_run(facts.entities[runs_at + i], #[trigger] document.runs[i])
            &&& forall|i: int|
                0 <= i < document.checks.len() ==> is_check(
                    facts.entities[checks_at + i],
                    #[trigger] document.checks[i],
                )
        },
{
    if let Ok(facts) = runtime_facts(input, document) {
        runtime_goes_together(input, document);
    }
}

/// The facts of the runtime, step by step.
spec fn runtime_steps(
    input: MemoryExtractionInputView,
    document: RuntimeSourceDocumentView,
) -> (MemoryFragmentView, MemoryFragmentView) {
    let tasks = with_tasks(input, no_facts(), document, 0)->Ok_0;
    (tasks, with_runs(input, tasks, document, 0)->Ok_0)
}

proof fn runtime_goes_together(input: MemoryExtractionInputView, document: RuntimeSourceDocumentView)
    requires
        runtime_facts(input, document) is Ok,
    ensures
        ({
            let facts = runtime_facts(input, document)->Ok_0;
            let runs_at = document.tasks.len();
            let checks_at = document.tasks.len() + document.runs.len();
            &&& facts.entities.len() == checks_at + document.checks.len()
            &&& forall|i: int|
                0 <= i < document.tasks.len() ==> is_task(facts.entities[i], #[trigger] document.tasks[i])
                    && facts.entities[i].id == named_entity(input.context.project, "task"@, document.tasks[i].id)
                    && (document.tasks[i].milestone_id matches Some(milestone) ==> is_joined(
                    facts,
                    facts.entities[i].id,
                    MemoryRelationshipKind::Implements,
                    MemoryRelationshipTargetView::Milestone { milestone_id: milestone },
                ))
            &&& forall|i: int|
                0 <= i < document.runs.len() ==> is_run(facts.entities[runs_at + i], #[trigger] document.runs[i])
                    && facts.entities[runs_at + i].id == named_entity(
                    input.context.project,
                    "run"@,
                    document.runs[i].id,
                ) && (crate::extractors::runtime::has_task(document.tasks, document.runs[i].task_id) ==> is_joined(
                    facts,
                    named_entity(input.context.project, "task"@, document.runs[i].task_id),
                    MemoryRelationshipKind::Contains,
                    MemoryRelationshipTargetView::MemoryEntity { entity_id: facts.entities[runs_at + i].id },
                ))
            &&& forall|i: int|
                0 <= i < document.checks.len() ==> is_check(
                    facts.entities[checks_at + i],
                    #[trigger] document.checks[i],
                ) && (crate::extractors::runtime::validated(input, document, document.checks[i]) matches Some(target)
                    ==> is_joined(
                    facts,
                    facts.entities[checks_at + i].id,
                    MemoryRelationshipKind::Validates,
                    MemoryRelationshipTargetView::MemoryEntity { entity_id: target },
                ))
        }),
{
    let (tasks, runs) = runtime_steps(input, document);
    let facts = runtime_facts(input, document)->Ok_0;
    tasks_become_entities(input, no_facts(), document, 0);
    runs_become_entities(input, tasks, document, 0);
    checks_become_entities(input, runs, document, 0);
    growing_goes_on(tasks, runs, facts);
    let runs_at: int = document.tasks.len() as int;
    let checks_at: int = (document.tasks.len() + document.runs.len()) as int;
    assert forall|i: int| 0 <= i < document.tasks.len() implies is_task(facts.entities[i], #[trigger] document.tasks[i])
        && facts.entities[i].id == named_entity(input.context.project, "task"@, document.tasks[i].id) && (
    document.tasks[i].milestone_id matches Some(milestone) ==> is_joined(
        facts,
        facts.entities[i].id,
        MemoryRelationshipKind::Implements,
        MemoryRelationshipTargetView::Milestone { milestone_id: milestone },
    )) by {
        assert(no_facts().entities.len() + i - 0 == i);
        assert(facts.entities[i] == tasks.entities[i]);
        if let Some(milestone) = document.tasks[i].milestone_id {
            joins_stay(
                tasks,
                facts,
                tasks.entities[i].id,
                MemoryRelationshipKind::Implements,
                MemoryRelationshipTargetView::Milestone { milestone_id: milestone },
            );
        }
    }
    assert forall|i: int| 0 <= i < document.runs.len() implies is_run(
        facts.entities[runs_at + i],
        #[trigger] document.runs[i],
    ) && facts.entities[runs_at + i].id == named_entity(input.context.project, "run"@, document.runs[i].id) && (
    crate::extractors::runtime::has_task(document.tasks, document.runs[i].task_id) ==> is_joined(
        facts,
        named_entity(input.context.project, "task"@, document.runs[i].task_id),
        MemoryRelationshipKind::Contains,
        MemoryRelationshipTargetView::MemoryEntity { entity_id: facts.entities[runs_at + i].id },
    )) by {
        assert(tasks.entities.len() + i - 0 == runs_at + i);
        assert(facts.entities[runs_at + i] == runs.entities[runs_at + i]);
        if crate::extractors::runtime::has_task(document.tasks, document.runs[i].task_id) {
            joins_stay(
                runs,
                facts,
                named_entity(input.context.project, "task"@, document.runs[i].task_id),
                MemoryRelationshipKind::Contains,
                MemoryRelationshipTargetView::MemoryEntity { entity_id: runs.entities[runs_at + i].id },
            );
        }
    }
    assert forall|i: int| 0 <= i < document.checks.len() implies is_check(
        facts.entities[checks_at + i],
        #[trigger] document.checks[i],
    ) && (crate::extractors::runtime::validated(input, document, document.checks[i]) matches Some(target)
        ==> is_joined(
        facts,
        facts.entities[checks_at + i].id,
        MemoryRelationshipKind::Validates,
        MemoryRelationshipTargetView::MemoryEntity { entity_id: target },
    )) by {
        assert(runs.entities.len() + i - 0 == checks_at + i);
    }
}

/// A task implements its milestone.
pub proof fn tasks_implement_their_milestone(
    input: MemoryExtractionInputView,
    document: RuntimeSourceDocumentView,
    task: int,
    milestone: Seq<char>,
)
    requires
        runtime_facts(input, document) is Ok,
        0 <= task < document.tasks.len(),
        document.tasks[task].milestone_id == Some(milestone),
    ensures
        is_joined(
            runtime_facts(input, document)->Ok_0,
            runtime_facts(input, document)->Ok_0.entities[task].id,
            MemoryRelationshipKind::Implements,
            MemoryRelationshipTargetView::Milestone { milestone_id: milestone },
        ),
{
    runtime_goes_together(input, document);
    assert(document.tasks[task].milestone_id == Some(milestone));
}

/// A task contains its runs.
pub proof fn tasks_contain_their_runs(
    input: MemoryExtractionInputView,
    document: RuntimeSourceDocumentView,
    task: int,
    run: int,
)
    requires
        runtime_facts(input, document) is Ok,
        0 <= task < document.tasks.len(),
        0 <= run < document.runs.len(),
        document.runs[run].task_id == document.tasks[task].id,
    ensures
        is_joined(
            runtime_facts(input, document)->Ok_0,
            runtime_facts(input, document)->Ok_0.entities[task].id,
            MemoryRelationshipKind::Contains,
            MemoryRelationshipTargetView::MemoryEntity {
                entity_id: runtime_facts(input, document)->Ok_0.entities[document.tasks.len() + run].id,
            },
        ),
{
    runtime_goes_together(input, document);
    assert(document.tasks[task].id == document.runs[run].task_id);
    assert(crate::extractors::runtime::has_task(document.tasks, document.runs[run].task_id));
}

/// A check validates the run in which it was made, and where no such run is known, its task.
pub proof fn checks_validate_their_run_or_task(
    input: MemoryExtractionInputView,
    document: RuntimeSourceDocumentView,
    check: int,
    run: int,
    task: int,
)
    requires
        runtime_facts(input, document) is Ok,
        0 <= check < document.checks.len(),
    ensures
        0 <= run < document.runs.len() && document.checks[check].run_id == Some(document.runs[run].id) ==> is_joined(
            runtime_facts(input, document)->Ok_0,
            runtime_facts(input, document)->Ok_0.entities[document.tasks.len() + document.runs.len() + check].id,
            MemoryRelationshipKind::Validates,
            MemoryRelationshipTargetView::MemoryEntity {
                entity_id: runtime_facts(input, document)->Ok_0.entities[document.tasks.len() + run].id,
            },
        ),
        0 <= task < document.tasks.len() && document.checks[check].task_id == document.tasks[task].id && (
        forall|i: int|
            0 <= i < document.runs.len() ==> document.checks[check].run_id != Some(
                (#[trigger] document.runs[i]).id,
            )) ==> is_joined(
            runtime_facts(input, document)->Ok_0,
            runtime_facts(input, document)->Ok_0.entities[document.tasks.len() + document.runs.len() + check].id,
            MemoryRelationshipKind::Validates,
            MemoryRelationshipTargetView::MemoryEntity {
                entity_id: runtime_facts(input, document)->Ok_0.entities[task].id,
            },
        ),
{
    runtime_goes_together(input, document);
    let wanted = document.checks[check];
    if 0 <= run < document.runs.len() && wanted.run_id == Some(document.runs[run].id) {
        assert(document.runs[run].id == wanted.run_id->0);
        assert(crate::extractors::runtime::has_run(document.runs, wanted.run_id->0));
    }
    if 0 <= task < document.tasks.len() && wanted.task_id == document.tasks[task].id {
        assert(document.tasks[task].id == wanted.task_id);
        assert(crate::extractors::runtime::has_task(document.tasks, wanted.task_id));
    }
}

}
