//! Facts of archive manifests.
use vstd::prelude::*;
use crate::documents::{ArchiveSourceDocument, ArchiveSourceDocumentView};
use crate::domain::{
    MemoryEntityData, MemoryEntityDataView, MemoryEvidenceLocator, MemoryEvidenceLocatorView,
    MemoryExtractorIdentity, MemoryExtractorIdentityView, MemoryFragment, MemoryFragmentView,
    MemoryProvenance, MemoryProvenanceView, MemoryRecordId, MemoryRelationshipKind,
    MemoryRelationshipTarget, MemoryRelationshipTargetView, MemorySourceCategory,
    MemoryStatusToken, MAX_ID_BYTES,
};
use crate::extractors::{
    add_entity, add_relationship, empty_fragment, entity, entity_model, extractor_identity,
    extractor_model, failure, failure_model, named_entity, named_entity_id, no_facts, provenance,
    provenance_model, relationship, relationship_model, with_entity, with_relationship,
};
use crate::ports::{
    MemoryExtractionFailure, MemoryExtractionFailureView, MemoryExtractionInput,
    MemoryExtractionInputView, MemoryExtractor, SourceDocument, SourceDocumentView,
};
use crate::record::Record;
use crate::value::is_bounded_text;

verus! {

/// Makes facts out of archive manifests.
#[derive(Debug, Clone, Copy)]
pub struct ArchiveManifestExtractor;

/// Whether a text can be the id of a record.
pub open spec fn is_record_id(text: Seq<char>) -> bool {
    is_bounded_text(text, MAX_ID_BYTES as nat, false)
}

/// Where the facts of an archive come from.
pub open spec fn archive_provenance(
    input: MemoryExtractionInputView,
    archive_id: Seq<char>,
) -> MemoryProvenanceView {
    provenance_model(
        input,
        "ferrus.archive-manifest"@,
        MemoryEvidenceLocatorView::Record(archive_id),
    )
}

/// The entity that stands for an archive.
pub open spec fn archive_entity(
    input: MemoryExtractionInputView,
    document: ArchiveSourceDocumentView,
) -> crate::domain::MemoryEntityView {
    entity_model(
        input,
        named_entity(input.context.project, "archive"@, document.archive_id),
        MemoryEntityDataView::ArchiveReference {
            archive_id: document.archive_id,
            spec_path: document.spec_path,
            archived_at: document.archived_at,
            task_count: document.task_count,
            run_count: document.run_count,
        },
        archive_provenance(input, document.archive_id),
    )
}

/// The facts with a relationship from an archive to each of the first tasks; the code of what is
/// wrong where one of them is no id.
pub open spec fn with_tasks(
    input: MemoryExtractionInputView,
    document: ArchiveSourceDocumentView,
    facts: MemoryFragmentView,
    count: int,
) -> Result<MemoryFragmentView, Seq<char>>
    decreases count,
{
    if count <= 0 {
        Ok(facts)
    } else {
        match with_tasks(input, document, facts, count - 1) {
            Err(code) => Err(code),
            Ok(facts) => {
                let task_id = document.task_ids[count - 1];
                if is_record_id(task_id) {
                    Ok(
                        with_relationship(
                            facts,
                            relationship_model(
                                input,
                                "archive-task"@,
                                task_id,
                                MemoryRelationshipKind::Contains,
                                named_entity(input.context.project, "archive"@, document.archive_id),
                                MemoryRelationshipTargetView::Task { task_id },
                                archive_provenance(input, document.archive_id),
                            ),
                        ),
                    )
                } else {
                    Err("runtime.invalidtaskid"@)
                }
            },
        }
    }
}

/// The facts with a relationship from an archive to each of the first milestones; the code of what
/// is wrong where one of them is no id.
pub open spec fn with_milestones(
    input: MemoryExtractionInputView,
    document: ArchiveSourceDocumentView,
    facts: MemoryFragmentView,
    count: int,
) -> Result<MemoryFragmentView, Seq<char>>
    decreases count,
{
    if count <= 0 {
        Ok(facts)
    } else {
        match with_milestones(input, document, facts, count - 1) {
            Err(code) => Err(code),
            Ok(facts) => {
                let milestone_id = document.milestone_ids[count - 1];
                if is_record_id(milestone_id) {
                    Ok(
                        with_relationship(
                            facts,
                            relationship_model(
                                input,
                                "archive-milestone"@,
                                milestone_id,
                                MemoryRelationshipKind::Concerns,
                                named_entity(input.context.project, "archive"@, document.archive_id),
                                MemoryRelationshipTargetView::Milestone { milestone_id },
                                archive_provenance(input, document.archive_id),
                            ),
                        ),
                    )
                } else {
                    Err("runtime.invalidmilestoneid"@)
                }
            },
        }
    }
}

/// The facts of an archive; the code of what is wrong where there are none.
pub open spec fn archive_facts(
    input: MemoryExtractionInputView,
    document: ArchiveSourceDocumentView,
) -> Result<MemoryFragmentView, Seq<char>> {
    if !is_record_id(document.archive_id) {
        Err("archive.invalidid"@)
    } else if !is_bounded_text(document.archived_at, MAX_ID_BYTES as nat, false) {
        Err("archive.invalidtimestamp"@)
    } else {
        match with_tasks(
            input,
            document,
            with_entity(no_facts(), archive_entity(input, document)),
            document.task_ids.len() as int,
        ) {
            Err(code) => Err(code),
            Ok(facts) => with_milestones(
                input,
                document,
                facts,
                document.milestone_ids.len() as int,
            ),
        }
    }
}

/// What can be wrong with an archive.
pub proof fn archive_codes()
    ensures
        crate::extractors::is_extractor_name("ferrus.archive-manifest"@),
        crate::diagnostics::is_diagnostic_code("archive.invalid"@),
        crate::diagnostics::is_diagnostic_code("archive.invalidid"@),
        crate::diagnostics::is_diagnostic_code("archive.invalidtimestamp"@),
        crate::diagnostics::is_diagnostic_code("runtime.invalidtaskid"@),
        crate::diagnostics::is_diagnostic_code("runtime.invalidmilestoneid"@),
{
    reveal_strlit("ferrus.archive-manifest");
    reveal_strlit("archive.invalid");
    reveal_strlit("archive.invalidid");
    reveal_strlit("archive.invalidtimestamp");
    reveal_strlit("runtime.invalidtaskid");
    reveal_strlit("runtime.invalidmilestoneid");
}

fn wrong(code: &str) -> (result: MemoryExtractionFailure)
    requires
        crate::diagnostics::is_diagnostic_code(code@),
    ensures
        result.deep_view() == failure_model("ferrus.archive-manifest"@, code@),
{
    proof {
        archive_codes();
    }
    failure("ferrus.archive-manifest", code)
}

fn source_of(
    input: &MemoryExtractionInput,
    archive_id: &MemoryRecordId,
) -> (result: MemoryProvenance)
    ensures
        result.deep_view() == archive_provenance(input.deep_view(), archive_id.deep_view()),
{
    proof {
        archive_codes();
    }
    provenance(
        input,
        "ferrus.archive-manifest",
        MemoryEvidenceLocator::Record(archive_id.copied()),
    )
}

fn add_tasks(
    input: &MemoryExtractionInput,
    document: &ArchiveSourceDocument,
    archive_id: &MemoryRecordId,
    fragment: MemoryFragment,
) -> (result: Result<MemoryFragment, MemoryExtractionFailure>)
    requires
        archive_id.deep_view() == document.deep_view().archive_id,
    ensures
        match with_tasks(
            input.deep_view(),
            document.deep_view(),
            fragment.deep_view(),
            document.task_ids.len() as int,
        ) {
            Ok(facts) => result matches Ok(found) && found.deep_view() == facts,
            Err(code) => result matches Err(found) && found.deep_view() == failure_model(
                "ferrus.archive-manifest"@,
                code,
            ),
        },
{
    let ghost facts = fragment.deep_view();
    let ghost model = document.deep_view();
    let mut made_so_far = fragment;
    let mut at: usize = 0;
    while at < document.task_ids.len()
        invariant
            at <= document.task_ids.len(),
            model == document.deep_view(),
            facts == fragment.deep_view(),
            archive_id.deep_view() == model.archive_id,
            with_tasks(input.deep_view(), model, facts, at as int) == Ok::<_, Seq<char>>(
                made_so_far.deep_view(),
            ),
        decreases document.task_ids.len() - at,
    {
        assert(model.task_ids[at as int] == document.task_ids@[at as int]@);
        let task_id = match MemoryRecordId::new(document.task_ids[at].as_str()) {
            Ok(task_id) => task_id,
            Err(_) => {
                proof {
                    archive_codes();
                    stays_wrong(input.deep_view(), model, facts, at + 1, model.task_ids.len() as int);
                }
                return Err(wrong("runtime.invalidtaskid"));
            },
        };
        let source = named_entity_id(&input.context.project, "archive", document.archive_id.as_str());
        add_relationship(
            &mut made_so_far,
            relationship(
                input,
                "archive-task",
                document.task_ids[at].as_str(),
                MemoryRelationshipKind::Contains,
                source,
                MemoryRelationshipTarget::Task { task_id },
                source_of(input, archive_id),
            ),
        );
        at += 1;
    }
    Ok(made_so_far)
}

/// What was found wrong with the first tasks stays wrong.
proof fn stays_wrong(
    input: MemoryExtractionInputView,
    document: ArchiveSourceDocumentView,
    facts: MemoryFragmentView,
    count: int,
    more: int,
)
    requires
        0 <= count <= more,
        with_tasks(input, document, facts, count) is Err,
    ensures
        with_tasks(input, document, facts, more) == with_tasks(input, document, facts, count),
    decreases more,
{
    if count < more {
        stays_wrong(input, document, facts, count, more - 1);
    }
}

fn add_milestones(
    input: &MemoryExtractionInput,
    document: &ArchiveSourceDocument,
    archive_id: &MemoryRecordId,
    fragment: MemoryFragment,
) -> (result: Result<MemoryFragment, MemoryExtractionFailure>)
    requires
        archive_id.deep_view() == document.deep_view().archive_id,
    ensures
        match with_milestones(
            input.deep_view(),
            document.deep_view(),
            fragment.deep_view(),
            document.milestone_ids.len() as int,
        ) {
            Ok(facts) => result matches Ok(found) && found.deep_view() == facts,
            Err(code) => result matches Err(found) && found.deep_view() == failure_model(
                "ferrus.archive-manifest"@,
                code,
            ),
        },
{
    let ghost facts = fragment.deep_view();
    let ghost model = document.deep_view();
    let mut made_so_far = fragment;
    let mut at: usize = 0;
    while at < document.milestone_ids.len()
        invariant
            at <= document.milestone_ids.len(),
            model == document.deep_view(),
            facts == fragment.deep_view(),
            archive_id.deep_view() == model.archive_id,
            with_milestones(input.deep_view(), model, facts, at as int) == Ok::<_, Seq<char>>(
                made_so_far.deep_view(),
            ),
        decreases document.milestone_ids.len() - at,
    {
        assert(model.milestone_ids[at as int] == document.milestone_ids@[at as int]@);
        let milestone_id = match MemoryRecordId::new(document.milestone_ids[at].as_str()) {
            Ok(milestone_id) => milestone_id,
            Err(_) => {
                proof {
                    archive_codes();
                    milestones_stay_wrong(
                        input.deep_view(),
                        model,
                        facts,
                        at + 1,
                        model.milestone_ids.len() as int,
                    );
                }
                return Err(wrong("runtime.invalidmilestoneid"));
            },
        };
        let source = named_entity_id(&input.context.project, "archive", document.archive_id.as_str());
        add_relationship(
            &mut made_so_far,
            relationship(
                input,
                "archive-milestone",
                document.milestone_ids[at].as_str(),
                MemoryRelationshipKind::Concerns,
                source,
                MemoryRelationshipTarget::Milestone { milestone_id },
                source_of(input, archive_id),
            ),
        );
        at += 1;
    }
    Ok(made_so_far)
}

/// What was found wrong with the first milestones stays wrong.
proof fn milestones_stay_wrong(
    input: MemoryExtractionInputView,
    document: ArchiveSourceDocumentView,
    facts: MemoryFragmentView,
    count: int,
    more: int,
)
    requires
        0 <= count <= more,
        with_milestones(input, document, facts, count) is Err,
    ensures
        with_milestones(input, document, facts, more) == with_milestones(
            input,
            document,
            facts,
            count,
        ),
    decreases more,
{
    if count < more {
        milestones_stay_wrong(input, document, facts, count, more - 1);
    }
}

impl MemoryExtractor for ArchiveManifestExtractor {
    open spec fn named(&self) -> MemoryExtractorIdentityView {
        extractor_model("ferrus.archive-manifest"@)
    }

    open spec fn reads(&self, category: MemorySourceCategory) -> bool {
        category == MemorySourceCategory::ArchiveManifest
    }

    open spec fn facts(&self, input: MemoryExtractionInputView) -> Result<
        MemoryFragmentView,
        MemoryExtractionFailureView,
    > {
        match input.document {
            SourceDocumentView::Archive(document) => match archive_facts(input, document) {
                Ok(facts) => Ok(facts),
                Err(code) => Err(failure_model("ferrus.archive-manifest"@, code)),
            },
            _ => Err(failure_model("ferrus.archive-manifest"@, "archive.invalid"@)),
        }
    }

    fn identity(&self) -> (identity: MemoryExtractorIdentity) {
        proof {
            archive_codes();
        }
        extractor_identity("ferrus.archive-manifest")
    }

    fn supports(&self, category: MemorySourceCategory) -> (supported: bool) {
        category == MemorySourceCategory::ArchiveManifest
    }

    fn extract(&self, input: &MemoryExtractionInput) -> (result: Result<
        MemoryFragment,
        MemoryExtractionFailure,
    >) {
        proof {
            archive_codes();
        }
        let document = match input.document {
            SourceDocument::Archive(document) => document,
            _ => {
                return Err(wrong("archive.invalid"));
            },
        };
        let archive_id = match MemoryRecordId::new(document.archive_id.as_str()) {
            Ok(archive_id) => archive_id,
            Err(_) => {
                return Err(wrong("archive.invalidid"));
            },
        };
        let archived_at = match MemoryStatusToken::new(document.archived_at.as_str()) {
            Ok(archived_at) => archived_at,
            Err(_) => {
                return Err(wrong("archive.invalidtimestamp"));
            },
        };
        let id = named_entity_id(&input.context.project, "archive", document.archive_id.as_str());
        let data = MemoryEntityData::ArchiveReference {
            archive_id: archive_id.copied(),
            spec_path: document.spec_path.copied(),
            archived_at,
            task_count: document.task_count,
            run_count: document.run_count,
        };
        let mut fragment = empty_fragment();
        add_entity(&mut fragment, entity(input, id, data, source_of(input, &archive_id)));
        match add_tasks(input, document, &archive_id, fragment) {
            Ok(fragment) => add_milestones(input, document, &archive_id, fragment),
            Err(failure) => Err(failure),
        }
    }
}

}
