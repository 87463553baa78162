//! Facts of specifications.
use vstd::prelude::*;
use crate::digest::{sha256_of, Digest, DigestView};
use crate::documents::{
    parse_spec_memory, parsed, OutcomeSection, OutcomeSectionKind, OutcomeSectionView,
    SpecMilestoneDocument, SpecMilestoneDocumentView, SpecOutcomeDocument, SpecOutcomeDocumentView,
    SpecStructureDocument, SpecStructureDocumentView,
};
use crate::domain::{
    MemoryEntityData, MemoryEntityDataView, MemoryEntityId, MemoryEvidenceLocator,
    MemoryEvidenceLocatorView, MemoryExtractorIdentity, MemoryExtractorIdentityView, MemoryFragment,
    MemoryFragmentView, MemoryProvenance, MemoryProvenanceView, MemoryRecordId,
    MemoryRelationshipKind, MemoryRelationshipTarget, MemoryRelationshipTargetView,
    MemorySourceCategory, MemorySourceLocator, MemorySourceLocatorView, MemoryText, MemoryTitle,
    MilestoneCompletion, ProjectRef, ProjectRefView, MAX_ID_BYTES, MAX_MEMORY_TEXT_BYTES,
    MAX_TITLE_BYTES,
};
use crate::extractors::{
    add_entity, add_relationship, empty_fragment, entity, entity_id, entity_identity, entity_model,
    extractor_identity, extractor_model, failure, failure_model, no_facts, provenance,
    provenance_model, relationship, relationship_model, with_entity, with_relationship,
};
use crate::json::{json_array, json_string, text_json, JsonArray, ToJson};
use crate::ports::{
    MemoryExtractionFailure, MemoryExtractionFailureView, MemoryExtractionInput,
    MemoryExtractionInputView, MemoryExtractor,
};
use crate::record::{outcome, Record};
use crate::repository::{SourceSpan, SourceSpanView};
use crate::text::utf8_text;
use crate::value::is_bounded_text;

verus! {

/// Makes facts out of specifications.
#[derive(Debug, Clone, Copy)]
pub struct SpecificationExtractor;

/// The identity of the entity that stands for a whole source.
pub open spec fn source_entity(
    project: ProjectRefView,
    what: Seq<char>,
    locator: MemorySourceLocatorView,
) -> Seq<char> {
    entity_identity(
        project,
        json_array(seq![json_string(what), <MemorySourceLocator as ToJson>::json(locator)]),
    )
}

/// The identity of a milestone of a source.
pub open spec fn milestone_entity(
    project: ProjectRefView,
    locator: MemorySourceLocatorView,
    id: Seq<char>,
) -> Seq<char> {
    entity_identity(
        project,
        json_array(
            seq![
                json_string("milestone"@),
                <MemorySourceLocator as ToJson>::json(locator),
                json_string(id),
            ],
        ),
    )
}

/// The digest of the text of a section.
pub open spec fn section_digest(text: Seq<char>) -> DigestView {
    sha256_of(json_string(text))
}

/// The identity of a section of an outcome: two sections of one kind with one text are told apart by
/// how many came before.
pub open spec fn section_entity(
    project: ProjectRefView,
    locator: MemorySourceLocatorView,
    section: OutcomeSectionView,
    occurrence: u64,
) -> Seq<char> {
    entity_identity(
        project,
        json_array(
            seq![
                json_string("outcome-section"@),
                <MemorySourceLocator as ToJson>::json(locator),
                <OutcomeSectionKind as ToJson>::json(section.kind),
                <Digest as ToJson>::json(section_digest(section.text)),
                <u64 as ToJson>::json(occurrence),
            ],
        ),
    )
}

fn source_entity_id(
    project: &ProjectRef,
    what: &str,
    locator: &MemorySourceLocator,
) -> (id: MemoryEntityId)
    ensures
        id.deep_view() == source_entity(project.deep_view(), what@, locator.deep_view()),
{
    let key = JsonArray::new().item(text_json(what)).item(locator.to_json());
    assert(key.items() =~= seq![
        json_string(what@),
        <MemorySourceLocator as ToJson>::json(locator.deep_view()),
    ]);
    entity_id(project, key.finish())
}

/// Where the facts of a specification come from.
pub open spec fn span_provenance(
    input: MemoryExtractionInputView,
    span: SourceSpanView,
) -> MemoryProvenanceView {
    provenance_model(input, "ferrus.specification"@, MemoryEvidenceLocatorView::Span(span))
}

/// What can be wrong with a specification.
pub proof fn specification_codes()
    ensures
        crate::extractors::is_extractor_name("ferrus.specification"@),
        crate::diagnostics::is_diagnostic_code("source.nonutf8"@),
        crate::diagnostics::is_diagnostic_code("spec.invalid"@),
        crate::diagnostics::is_diagnostic_code("outcome.invalid"@),
        crate::diagnostics::is_diagnostic_code("source.unsupported"@),
{
    reveal_strlit("ferrus.specification");
    reveal_strlit("source.nonutf8");
    reveal_strlit("spec.invalid");
    reveal_strlit("outcome.invalid");
    reveal_strlit("source.unsupported");
}

fn source_of(input: &MemoryExtractionInput, span: &SourceSpan) -> (result: MemoryProvenance)
    ensures
        result.deep_view() == span_provenance(input.deep_view(), span.deep_view()),
{
    proof {
        specification_codes();
    }
    provenance(input, "ferrus.specification", MemoryEvidenceLocator::Span(span.copied()))
}

/// The facts with one more milestone of a specification; none where the milestone has no proper id or
/// title.
pub open spec fn with_milestone(
    input: MemoryExtractionInputView,
    facts: MemoryFragmentView,
    milestone: SpecMilestoneDocumentView,
) -> Option<MemoryFragmentView> {
    let project = input.context.project;
    let locator = input.source.locator;
    let spec_id = source_entity(project, "specification"@, locator);
    let id = milestone_entity(project, locator, milestone.id);
    if !is_bounded_text(milestone.id, MAX_ID_BYTES as nat, false) || !is_bounded_text(
        milestone.title,
        MAX_TITLE_BYTES as nat,
        false,
    ) {
        None
    } else {
        Some(
            with_relationship(
                with_entity(
                    facts,
                    entity_model(
                        input,
                        id,
                        MemoryEntityDataView::Milestone {
                            milestone_id: milestone.id,
                            title: milestone.title,
                            completion: if milestone.completed {
                                MilestoneCompletion::Complete
                            } else {
                                MilestoneCompletion::Pending
                            },
                        },
                        span_provenance(input, milestone.span),
                    ),
                ),
                relationship_model(
                    input,
                    "contains"@,
                    id,
                    MemoryRelationshipKind::Contains,
                    spec_id,
                    MemoryRelationshipTargetView::MemoryEntity { entity_id: id },
                    span_provenance(input, milestone.span),
                ),
            ),
        )
    }
}

/// The facts with the milestones of a specification from one on.
pub open spec fn with_milestones(
    input: MemoryExtractionInputView,
    facts: MemoryFragmentView,
    milestones: Seq<SpecMilestoneDocumentView>,
    at: int,
) -> Option<MemoryFragmentView>
    decreases milestones.len() - at,
{
    if at >= milestones.len() {
        Some(facts)
    } else {
        match with_milestone(input, facts, milestones[at]) {
            Some(facts) => with_milestones(input, facts, milestones, at + 1),
            None => None,
        }
    }
}

/// The facts of the structure of a specification; none where it has no proper title, or a milestone
/// has none.
pub open spec fn structure_facts(
    input: MemoryExtractionInputView,
    structure: SpecStructureDocumentView,
) -> Option<MemoryFragmentView> {
    match (structure.title, structure.title_span) {
        (Some(title), Some(span)) => if is_bounded_text(title, MAX_TITLE_BYTES as nat, false) {
            with_milestones(
                input,
                with_entity(
                    no_facts(),
                    entity_model(
                        input,
                        source_entity(input.context.project, "specification"@, input.source.locator),
                        MemoryEntityDataView::Specification { title },
                        span_provenance(input, span),
                    ),
                ),
                structure.milestones,
                0,
            )
        } else {
            None
        },
        _ => None,
    }
}

fn add_milestone(
    input: &MemoryExtractionInput,
    fragment: MemoryFragment,
    milestone: &SpecMilestoneDocument,
) -> (result: Option<MemoryFragment>)
    ensures
        result.deep_view() == with_milestone(
            input.deep_view(),
            fragment.deep_view(),
            milestone.deep_view(),
        ),
{
    let milestone_id = match MemoryRecordId::new(milestone.id.as_str()) {
        Ok(milestone_id) => milestone_id,
        Err(_) => {
            return None;
        },
    };
    let title = match MemoryTitle::new(milestone.title.as_str()) {
        Ok(title) => title,
        Err(_) => {
            return None;
        },
    };
    let key = JsonArray::new()
        .item(text_json("milestone"))
        .item(input.source.locator.to_json())
        .item(text_json(milestone.id.as_str()));
    assert(key.items() =~= seq![
        json_string("milestone"@),
        <MemorySourceLocator as ToJson>::json(input.source.locator.deep_view()),
        json_string(milestone.id@),
    ]);
    let id = entity_id(&input.context.project, key.finish());
    let spec_id = source_entity_id(&input.context.project, "specification", &input.source.locator);
    let data = MemoryEntityData::Milestone {
        milestone_id,
        title,
        completion: if milestone.completed {
            MilestoneCompletion::Complete
        } else {
            MilestoneCompletion::Pending
        },
    };
    let mut fragment = fragment;
    add_entity(&mut fragment, entity(input, id.copied(), data, source_of(input, &milestone.span)));
    add_relationship(
        &mut fragment,
        relationship(
            input,
            "contains",
            id.as_str(),
            MemoryRelationshipKind::Contains,
            spec_id,
            MemoryRelationshipTarget::MemoryEntity { entity_id: id.copied() },
            source_of(input, &milestone.span),
        ),
    );
    Some(fragment)
}

fn extract_structure(
    input: &MemoryExtractionInput,
    structure: &SpecStructureDocument,
) -> (result: Option<MemoryFragment>)
    ensures
        result.deep_view() == structure_facts(input.deep_view(), structure.deep_view()),
{
    let title = match &structure.title {
        Some(title) => title,
        None => {
            return None;
        },
    };
    let span = match &structure.title_span {
        Some(span) => span,
        None => {
            return None;
        },
    };
    let title = match MemoryTitle::new(title.as_str()) {
        Ok(title) => title,
        Err(_) => {
            return None;
        },
    };
    let id = source_entity_id(&input.context.project, "specification", &input.source.locator);
    let mut fragment = empty_fragment();
    add_entity(
        &mut fragment,
        entity(input, id, MemoryEntityData::Specification { title }, source_of(input, span)),
    );
    let ghost first = fragment.deep_view();
    let ghost milestones = structure.deep_view().milestones;
    let mut at: usize = 0;
    while at < structure.milestones.len()
        invariant
            at <= structure.milestones.len(),
            milestones == structure.deep_view().milestones,
            with_milestones(input.deep_view(), first, milestones, 0) == with_milestones(
                input.deep_view(),
                fragment.deep_view(),
                milestones,
                at as int,
            ),
            structure_facts(input.deep_view(), structure.deep_view()) == with_milestones(
                input.deep_view(),
                first,
                milestones,
                0,
            ),
        decreases structure.milestones.len() - at,
    {
        assert(milestones[at as int] == structure.milestones@[at as int].deep_view());
        match add_milestone(input, fragment, &structure.milestones[at]) {
            Some(more) => {
                fragment = more;
            },
            None => {
                return None;
            },
        }
        at += 1;
    }
    Some(fragment)
}

/// How many of the first sections are of this kind and have this text.
pub open spec fn occurrences(
    sections: Seq<OutcomeSectionView>,
    section: OutcomeSectionView,
    count: int,
) -> nat
    decreases count,
{
    if count <= 0 {
        0
    } else {
        let other = sections[count - 1];
        occurrences(sections, section, count - 1) + if other.kind == section.kind && section_digest(
            other.text,
        ) == section_digest(section.text) {
            1nat
        } else {
            0nat
        }
    }
}

/// What a section of an outcome says.
pub open spec fn section_data(kind: OutcomeSectionKind, text: Seq<char>) -> MemoryEntityDataView {
    match kind {
        OutcomeSectionKind::Decision => MemoryEntityDataView::Decision { text },
        OutcomeSectionKind::Deviation => MemoryEntityDataView::Deviation { text },
        OutcomeSectionKind::Validation => MemoryEntityDataView::ValidationEvidence {
            text: Some(text),
            check_id: None,
            status: None,
        },
        OutcomeSectionKind::FollowUp => MemoryEntityDataView::FollowUpWork {
            text,
            milestone_id: None,
        },
    }
}

/// The facts with one more section of an outcome; none where its text is no proper one.
pub open spec fn with_section(
    input: MemoryExtractionInputView,
    facts: MemoryFragmentView,
    sections: Seq<OutcomeSectionView>,
    at: int,
) -> Option<MemoryFragmentView> {
    let project = input.context.project;
    let locator = input.source.locator;
    let section = sections[at];
    let outcome_id = source_entity(project, "outcome"@, locator);
    let id = section_entity(project, locator, section, occurrences(sections, section, at) as u64);
    if !is_bounded_text(section.text, MAX_MEMORY_TEXT_BYTES as nat, true) {
        None
    } else {
        Some(
            with_relationship(
                with_entity(
                    facts,
                    entity_model(
                        input,
                        id,
                        section_data(section.kind, section.text),
                        span_provenance(input, section.span),
                    ),
                ),
                relationship_model(
                    input,
                    "contains"@,
                    id,
                    MemoryRelationshipKind::Contains,
                    outcome_id,
                    MemoryRelationshipTargetView::MemoryEntity { entity_id: id },
                    span_provenance(input, section.span),
                ),
            ),
        )
    }
}

/// The facts with the sections of an outcome from one on.
pub open spec fn with_sections(
    input: MemoryExtractionInputView,
    facts: MemoryFragmentView,
    sections: Seq<OutcomeSectionView>,
    at: int,
) -> Option<MemoryFragmentView>
    decreases sections.len() - at,
{
    if at >= sections.len() {
        Some(facts)
    } else {
        match with_section(input, facts, sections, at) {
            Some(facts) => with_sections(input, facts, sections, at + 1),
            None => None,
        }
    }
}

/// The facts of an outcome: what it says as a whole, that it concerns its specification, and its
/// sections.
pub open spec fn outcome_facts(
    input: MemoryExtractionInputView,
    document: SpecOutcomeDocumentView,
) -> Option<MemoryFragmentView> {
    let project = input.context.project;
    let outcome_id = source_entity(project, "outcome"@, input.source.locator);
    let spec_id = source_entity(project, "specification"@, input.source.locator);
    if !is_bounded_text(document.text, MAX_MEMORY_TEXT_BYTES as nat, true) {
        None
    } else {
        with_sections(
            input,
            with_relationship(
                with_entity(
                    no_facts(),
                    entity_model(
                        input,
                        outcome_id,
                        MemoryEntityDataView::Outcome { text: document.text },
                        span_provenance(input, document.span),
                    ),
                ),
                relationship_model(
                    input,
                    "concerns"@,
                    spec_id,
                    MemoryRelationshipKind::Concerns,
                    outcome_id,
                    MemoryRelationshipTargetView::MemoryEntity { entity_id: spec_id },
                    span_provenance(input, document.span),
                ),
            ),
            document.sections,
            0,
        )
    }
}

fn count_occurrences(sections: &Vec<OutcomeSection>, at: usize) -> (count: u64)
    requires
        at < sections.len(),
    ensures
        count == occurrences(sections.deep_view(), sections.deep_view()[at as int], at as int),
{
    let ghost models = sections.deep_view();
    let section = &sections[at];
    assert(models[at as int] == section.deep_view());
    let json = text_json(section.text.as_str());
    let digest = Digest::of_text(json.as_str());
    let mut count: u64 = 0;
    let mut next: usize = 0;
    while next < at
        invariant
            next <= at < sections.len(),
            models == sections.deep_view(),
            section.deep_view() == models[at as int],
            digest.deep_view() == section_digest(section.text@),
            count == occurrences(models, models[at as int], next as int),
            count <= next,
        decreases at - next,
    {
        assert(models[next as int] == sections@[next as int].deep_view());
        let other = text_json(sections[next].text.as_str());
        if sections[next].kind == section.kind && Digest::of_text(other.as_str()).same(&digest) {
            count += 1;
        }
        next += 1;
    }
    count
}

fn add_section(
    input: &MemoryExtractionInput,
    fragment: MemoryFragment,
    sections: &Vec<OutcomeSection>,
    at: usize,
) -> (result: Option<MemoryFragment>)
    requires
        at < sections.len(),
    ensures
        result.deep_view() == with_section(
            input.deep_view(),
            fragment.deep_view(),
            sections.deep_view(),
            at as int,
        ),
{
    let section = &sections[at];
    assert(sections.deep_view()[at as int] == section.deep_view());
    let text = match MemoryText::new(section.text.as_str()) {
        Ok(text) => text,
        Err(_) => {
            return None;
        },
    };
    let occurrence = count_occurrences(sections, at);
    let json = text_json(section.text.as_str());
    let digest = Digest::of_text(json.as_str());
    let key = JsonArray::new()
        .item(text_json("outcome-section"))
        .item(input.source.locator.to_json())
        .item(section.kind.to_json())
        .item(digest.to_json())
        .item(occurrence.to_json());
    assert(key.items() =~= seq![
        json_string("outcome-section"@),
        <MemorySourceLocator as ToJson>::json(input.source.locator.deep_view()),
        <OutcomeSectionKind as ToJson>::json(section.kind),
        <Digest as ToJson>::json(section_digest(section.text@)),
        <u64 as ToJson>::json(occurrence),
    ]);
    let id = entity_id(&input.context.project, key.finish());
    let outcome_id = source_entity_id(&input.context.project, "outcome", &input.source.locator);
    let data = match section.kind {
        OutcomeSectionKind::Decision => MemoryEntityData::Decision { text },
        OutcomeSectionKind::Deviation => MemoryEntityData::Deviation { text },
        OutcomeSectionKind::Validation => MemoryEntityData::ValidationEvidence {
            text: Some(text),
            check_id: None,
            status: None,
        },
        OutcomeSectionKind::FollowUp => MemoryEntityData::FollowUpWork { text, milestone_id: None },
    };
    let mut fragment = fragment;
    add_entity(&mut fragment, entity(input, id.copied(), data, source_of(input, &section.span)));
    add_relationship(
        &mut fragment,
        relationship(
            input,
            "contains",
            id.as_str(),
            MemoryRelationshipKind::Contains,
            outcome_id,
            MemoryRelationshipTarget::MemoryEntity { entity_id: id.copied() },
            source_of(input, &section.span),
        ),
    );
    Some(fragment)
}

fn extract_outcome(
    input: &MemoryExtractionInput,
    document: &SpecOutcomeDocument,
) -> (result: Option<MemoryFragment>)
    ensures
        result.deep_view() == outcome_facts(input.deep_view(), document.deep_view()),
{
    let text = match MemoryText::new(document.text.as_str()) {
        Ok(text) => text,
        Err(_) => {
            return None;
        },
    };
    let outcome_id = source_entity_id(&input.context.project, "outcome", &input.source.locator);
    let spec_id = source_entity_id(&input.context.project, "specification", &input.source.locator);
    let mut fragment = empty_fragment();
    add_entity(
        &mut fragment,
        entity(
            input,
            outcome_id.copied(),
            MemoryEntityData::Outcome { text },
            source_of(input, &document.span),
        ),
    );
    add_relationship(
        &mut fragment,
        relationship(
            input,
            "concerns",
            spec_id.as_str(),
            MemoryRelationshipKind::Concerns,
            outcome_id,
            MemoryRelationshipTarget::MemoryEntity { entity_id: spec_id.copied() },
            source_of(input, &document.span),
        ),
    );
    let ghost first = fragment.deep_view();
    let ghost sections = document.deep_view().sections;
    let mut at: usize = 0;
    while at < document.sections.len()
        invariant
            at <= document.sections.len(),
            sections == document.deep_view().sections,
            with_sections(input.deep_view(), first, sections, 0) == with_sections(
                input.deep_view(),
                fragment.deep_view(),
                sections,
                at as int,
            ),
            outcome_facts(input.deep_view(), document.deep_view()) == with_sections(
                input.deep_view(),
                first,
                sections,
                0,
            ),
        decreases document.sections.len() - at,
    {
        match add_section(input, fragment, &document.sections, at) {
            Some(more) => {
                fragment = more;
            },
            None => {
                return None;
            },
        }
        at += 1;
    }
    Some(fragment)
}

fn wrong(code: &str) -> (result: MemoryExtractionFailure)
    requires
        crate::diagnostics::is_diagnostic_code(code@),
    ensures
        result.deep_view() == failure_model("ferrus.specification"@, code@),
{
    proof {
        specification_codes();
    }
    failure("ferrus.specification", code)
}

/// The facts of a specification's text; the code of what is wrong where there are none.
pub open spec fn text_facts(input: MemoryExtractionInputView, text: Seq<char>) -> Result<
    MemoryFragmentView,
    Seq<char>,
> {
    match input.source.category {
        MemorySourceCategory::SpecificationStructure => match structure_facts(
            input,
            parsed(text).structure,
        ) {
            Some(facts) => Ok(facts),
            None => Err("spec.invalid"@),
        },
        MemorySourceCategory::ApprovedOutcome => match parsed(text).outcome {
            Some(document) => match outcome_facts(input, document) {
                Some(facts) => Ok(facts),
                None => Err("outcome.invalid"@),
            },
            None => Err("outcome.invalid"@),
        },
        _ => Err("source.unsupported"@),
    }
}

impl MemoryExtractor for SpecificationExtractor {
    open spec fn named(&self) -> MemoryExtractorIdentityView {
        extractor_model("ferrus.specification"@)
    }

    open spec fn reads(&self, category: MemorySourceCategory) -> bool {
        category == MemorySourceCategory::SpecificationStructure || category
            == MemorySourceCategory::ApprovedOutcome
    }

    open spec fn facts(&self, input: MemoryExtractionInputView) -> Result<
        MemoryFragmentView,
        MemoryExtractionFailureView,
    > {
        if !vstd::utf8::valid_utf8(input.content) {
            Err(failure_model("ferrus.specification"@, "source.nonutf8"@))
        } else {
            match text_facts(input, vstd::utf8::decode_utf8(input.content)) {
                Ok(facts) => Ok(facts),
                Err(code) => Err(failure_model("ferrus.specification"@, code)),
            }
        }
    }

    fn identity(&self) -> (identity: MemoryExtractorIdentity) {
        proof {
            specification_codes();
        }
        extractor_identity("ferrus.specification")
    }

    fn supports(&self, category: MemorySourceCategory) -> (supported: bool) {
        category == MemorySourceCategory::SpecificationStructure || category
            == MemorySourceCategory::ApprovedOutcome
    }

    fn extract(&self, input: &MemoryExtractionInput) -> (result: Result<
        MemoryFragment,
        MemoryExtractionFailure,
    >) {
        proof {
            specification_codes();
        }
        let text = match utf8_text(input.content) {
            Some(text) => text,
            None => {
                return Err(wrong("source.nonutf8"));
            },
        };
        let document = parse_spec_memory(text.as_str());
        match input.source.category {
            MemorySourceCategory::SpecificationStructure => match extract_structure(
                input,
                &document.structure,
            ) {
                Some(fragment) => Ok(fragment),
                None => Err(wrong("spec.invalid")),
            },
            MemorySourceCategory::ApprovedOutcome => match &document.outcome {
                Some(outcome) => match extract_outcome(input, outcome) {
                    Some(fragment) => Ok(fragment),
                    None => Err(wrong("outcome.invalid")),
                },
                None => Err(wrong("outcome.invalid")),
            },
            _ => Err(wrong("source.unsupported")),
        }
    }
}

}
