//! What is let out of the sources of a project, and what is answered of them.
use vstd::prelude::*;
use crate::content::{
    boundary_at_most, cut_content, described, evidence_bytes, known_sources, lets_out, permitted,
    requested, revalidated, verified_content, verified_read, KnownSources, SpecReadFailure,
};
use crate::digest::DigestView;
use crate::domain::{
    AuthorizedSourceDescriptorView, AuthorizedSourceManifestView, MemoryEvidenceLocatorView,
    MemorySourceCategory, MemorySourceLocatorView, ProjectRefView,
};
use crate::laws::lists::sorted_holds;
use crate::policy::{
    first_entry, in_category_order, MemoryContentAccess, MemoryPolicyView, MemorySourcePolicyStatusView,
    MemorySourcePolicyView,
};
use crate::ports::{MemorySourceContentView, MemorySourceError, SourceDocumentView, SourceReadView};
use crate::query::{MemoryContentRequestView, MemoryContentResponseView, MemoryQueryErrorView};
use crate::source::{
    bytes_fingerprint, fingerprint_of, record_bytes, SourceMaterial, SourceMaterialView, MAX_SOURCES,
    MAX_SPEC_BYTES,
};

verus! {

proof fn entries_are_found(entries: Seq<MemorySourcePolicyStatusView>, at: int)
    requires
        in_category_order(entries),
        0 <= at < entries.len(),
    ensures
        first_entry(entries, entries[at].category) == at,
    decreases entries.len(),
{
    if at > 0 {
        assert(entries[0].category.rank() < entries[at].category.rank());
        assert(entries[0].category != entries[at].category);
        let rest = entries.drop_first();
        assert(in_category_order(rest));
        assert(rest[at - 1] == entries[at]);
        entries_are_found(rest, at - 1);
    }
}

proof fn absent_entries_are_not_found(
    entries: Seq<MemorySourcePolicyStatusView>,
    category: MemorySourceCategory,
)
    requires
        forall|i: int| 0 <= i < entries.len() ==> (#[trigger] entries[i]).category != category,
    ensures
        first_entry(entries, category) == entries.len(),
    decreases entries.len(),
{
    if entries.len() > 0 {
        assert(entries[0].category != category);
        assert forall|i: int| 0 <= i < entries.drop_first().len() implies (
        #[trigger] entries.drop_first()[i]).category != category by {
            assert(entries.drop_first()[i] == entries[i + 1]);
        }
        absent_entries_are_not_found(entries.drop_first(), category);
    }
}

/// A policy that lists a category says of it what it lists.
pub proof fn policies_say_what_they_list(policy: MemoryPolicyView, at: int)
    requires
        in_category_order(policy.categories),
        0 <= at < policy.categories.len(),
    ensures
        policy.category(policy.categories[at].category) == Some(policy.categories[at].policy),
        policy.authorizes(policy.categories[at].category) == policy.categories[at].policy.enabled,
{
    entries_are_found(policy.categories, at);
}

/// A category that a policy does not list is not authorized, and nothing of it is let out.
pub proof fn unlisted_categories_are_closed(
    policy: MemoryPolicyView,
    category: MemorySourceCategory,
    evidence: Option<MemoryEvidenceLocatorView>,
)
    requires
        forall|i: int|
            0 <= i < policy.categories.len() ==> (#[trigger] policy.categories[i]).category != category,
    ensures
        !policy.authorizes(category),
        !lets_out(policy, category, evidence),
{
    absent_entries_are_not_found(policy.categories, category);
}

/// Of a category that is not enabled nothing is let out, and of one that gives only identities and
/// counts no content is.
pub proof fn closed_categories_let_nothing_out(
    policy: MemoryPolicyView,
    at: int,
    evidence: Option<MemoryEvidenceLocatorView>,
)
    requires
        in_category_order(policy.categories),
        0 <= at < policy.categories.len(),
        !policy.categories[at].policy.enabled || policy.categories[at].policy.content_access
            == MemoryContentAccess::IdentityAndCountsOnly,
    ensures
        !lets_out(policy, policy.categories[at].category, evidence),
{
    entries_are_found(policy.categories, at);
}

/// Of an enabled category whose bodies are open everything is let out.
pub proof fn open_bodies_are_let_out(
    policy: MemoryPolicyView,
    at: int,
    evidence: Option<MemoryEvidenceLocatorView>,
)
    requires
        in_category_order(policy.categories),
        0 <= at < policy.categories.len(),
        policy.categories[at].policy.enabled,
        policy.categories[at].policy.content_access == MemoryContentAccess::RawBody,
    ensures
        lets_out(policy, policy.categories[at].category, evidence),
{
    entries_are_found(policy.categories, at);
}

/// Of an enabled category that is open in parts, a span is let out and nothing else.
pub proof fn only_spans_of_curated_content_are_let_out(
    policy: MemoryPolicyView,
    at: int,
    evidence: Option<MemoryEvidenceLocatorView>,
)
    requires
        in_category_order(policy.categories),
        0 <= at < policy.categories.len(),
        policy.categories[at].policy.enabled,
        policy.categories[at].policy.content_access == MemoryContentAccess::StructureOnly
            || policy.categories[at].policy.content_access == MemoryContentAccess::CuratedSections,
    ensures
        lets_out(policy, policy.categories[at].category, evidence) <==> evidence is Some
            && evidence->0 is Span,
{
    entries_are_found(policy.categories, at);
}

/// A setting that is made is the one that holds.
pub proof fn settings_hold(
    policy: MemoryPolicyView,
    category: MemorySourceCategory,
    setting: MemorySourcePolicyView,
)
    requires
        in_category_order(policy.categories),
    ensures
        policy.with(category, setting).category(category) == Some(setting),
{
    let lower = |entry: MemorySourcePolicyStatusView| entry.category.rank() < category.rank();
    let below = policy.categories.filter(lower);
    let after = policy.with(category, setting).categories;
    assert(after[below.len() as int] == MemorySourcePolicyStatusView { category, policy: setting });
    assert forall|i: int| 0 <= i < below.len() implies (#[trigger] after[i]).category != category by {
        policy.categories.lemma_filter_pred(lower, i);
        assert(after[i] == below[i]);
        assert(lower(below[i]));
    }
    first_is_found(after, category, below.len() as int);
}

proof fn first_is_found(
    entries: Seq<MemorySourcePolicyStatusView>,
    category: MemorySourceCategory,
    at: int,
)
    requires
        0 <= at < entries.len(),
        entries[at].category == category,
        forall|i: int| 0 <= i < at ==> (#[trigger] entries[i]).category != category,
    ensures
        first_entry(entries, category) == at,
    decreases entries.len(),
{
    if at > 0 {
        assert(entries[0].category != category);
        let rest = entries.drop_first();
        assert forall|i: int| 0 <= i < at - 1 implies (#[trigger] rest[i]).category != category by {
            assert(rest[i] == entries[i + 1]);
        }
        assert(rest[at - 1] == entries[at]);
        first_is_found(rest, category, at - 1);
    }
}

proof fn requested_is_among(materials: Seq<SourceMaterialView>, request: MemoryContentRequestView)
    ensures
        requested(materials, request) matches Some(material) ==> materials.contains(material)
            && material.descriptor.category == request.source_category && material.descriptor.locator
            == request.locator && material.descriptor.fingerprint == request.expected_fingerprint,
        requested(materials, request) is None ==> forall|i: int|
            0 <= i < materials.len() ==> !((#[trigger] materials[i]).descriptor.category
                == request.source_category && materials[i].descriptor.locator == request.locator
                && materials[i].descriptor.fingerprint == request.expected_fingerprint),
    decreases materials.len(),
{
    if materials.len() > 0 {
        let rest = materials.skip(1);
        requested_is_among(rest, request);
        if let Some(material) = requested(rest, request) {
            let i = choose|i: int| 0 <= i < rest.len() && rest[i] == material;
            assert(materials[i + 1] == material);
        }
        assert(materials.contains(materials[0]));
        assert forall|i: int| 1 <= i < materials.len() implies #[trigger] materials[i] == rest[i - 1] by {}
    }
}

/// What is permitted is a source of the project and the revision asked for, with the category, the
/// place and the fingerprint that the request names.
pub proof fn permitted_sources_were_asked_for(known: KnownSources, request: MemoryContentRequestView)
    ensures
        permitted(known, request) matches Ok(material) ==> {
            &&& request.project == known.project
            &&& request.revision_id == known.manifest.revision()
            &&& known.materials.contains(material)
            &&& material.descriptor.category == request.source_category
            &&& material.descriptor.locator == request.locator
            &&& material.descriptor.fingerprint == request.expected_fingerprint
        },
{
    requested_is_among(known.materials, request);
}

/// Requests for another project are not authorized. Requests for another revision, or for a source
/// that is no longer there, meet changed content.
pub proof fn other_requests_are_refused(known: KnownSources, request: MemoryContentRequestView)
    ensures
        request.project != known.project ==> permitted(known, request) == Err::<SourceMaterialView, _>(
            MemoryQueryErrorView::SourceNotAuthorized,
        ),
        request.project == known.project && request.revision_id != known.manifest.revision()
            ==> permitted(known, request) == Err::<SourceMaterialView, _>(
            MemoryQueryErrorView::ContentChanged,
        ),
        request.project == known.project && request.revision_id == known.manifest.revision()
            && known.manifest.error() is None && lets_out(
            known.policy,
            request.source_category,
            request.evidence,
        ) && (forall|i: int|
            0 <= i < known.materials.len() ==> (#[trigger] known.materials[i]).descriptor.fingerprint
                != request.expected_fingerprint) ==> permitted(known, request) == Err::<
            SourceMaterialView,
            _,
        >(MemoryQueryErrorView::ContentChanged),
{
    requested_is_among(known.materials, request);
    if let Some(material) = requested(known.materials, request) {
        let i = choose|i: int| 0 <= i < known.materials.len() && known.materials[i] == material;
        assert(known.materials[i].descriptor.fingerprint == request.expected_fingerprint);
    }
}

/// A source of an open category can be asked for by what describes it.
pub proof fn open_sources_can_be_asked_for(
    known: KnownSources,
    request: MemoryContentRequestView,
    at: int,
    listed: int,
)
    requires
        0 <= at < known.materials.len(),
        request.project == known.project,
        known.manifest.error() is None,
        request.revision_id == known.manifest.revision(),
        request.source_category == known.materials[at].descriptor.category,
        request.locator == known.materials[at].descriptor.locator,
        request.expected_fingerprint == known.materials[at].descriptor.fingerprint,
        in_category_order(known.policy.categories),
        0 <= listed < known.policy.categories.len(),
        known.policy.categories[listed].category == request.source_category,
        known.policy.categories[listed].policy.enabled,
        known.policy.categories[listed].policy.content_access == MemoryContentAccess::RawBody || (
        known.policy.categories[listed].policy.content_access
            != MemoryContentAccess::IdentityAndCountsOnly && request.evidence is Some
            && request.evidence->0 is Span),
    ensures
        permitted(known, request) is Ok,
{
    entries_are_found(known.policy.categories, listed);
    requested_is_among(known.materials, request);
    assert(known.materials[at].descriptor.fingerprint == request.expected_fingerprint);
}

/// The content of a file is answered in time and only while the file has the fingerprint that it was
/// found with.
pub proof fn unchanged_files_are_answered(
    material: SourceMaterialView,
    bytes: Seq<u8>,
    late: bool,
    path: Seq<char>,
)
    requires
        material.document is Absent,
        material.descriptor.locator == (MemorySourceLocatorView::TrackedFile { path }),
        bytes.len() <= MAX_SPEC_BYTES,
    ensures
        verified_content(material, Ok(bytes), late) == Ok::<Seq<u8>, MemoryQueryErrorView>(bytes)
            <==> !late && fingerprint_of(material.descriptor.category, bytes) == Ok::<
            DigestView,
            MemorySourceError,
        >(material.descriptor.fingerprint),
        verified_read(Some(material), Ok(bytes)) == Ok::<SourceReadView, MemorySourceError>(
            SourceReadView {
                content: MemorySourceContentView { bytes },
                document: SourceDocumentView::Absent,
            },
        ) <==> fingerprint_of(material.descriptor.category, bytes) == Ok::<DigestView, MemorySourceError>(
            material.descriptor.fingerprint,
        ),
{
}

/// What is answered of a source that is no file is the text of its record, while the record has the
/// fingerprint that it was found with.
pub proof fn unchanged_records_are_answered(
    material: SourceMaterialView,
    file: Result<Seq<u8>, SpecReadFailure>,
)
    requires
        !(material.document is Absent),
    ensures
        bytes_fingerprint(record_bytes(material.document)) == material.descriptor.fingerprint ==> {
            &&& verified_content(material, file, false) == Ok::<Seq<u8>, MemoryQueryErrorView>(
                record_bytes(material.document),
            )
            &&& verified_read(Some(material), file) == Ok::<SourceReadView, MemorySourceError>(
                SourceReadView {
                    content: MemorySourceContentView { bytes: record_bytes(material.document) },
                    document: material.document,
                },
            )
        },
        bytes_fingerprint(record_bytes(material.document)) != material.descriptor.fingerprint ==> {
            &&& verified_content(material, file, false) == Err::<Seq<u8>, MemoryQueryErrorView>(
                MemoryQueryErrorView::ContentChanged,
            )
            &&& verified_read(Some(material), file) == Err::<SourceReadView, MemorySourceError>(
                MemorySourceError::RecordChanged,
            )
        },
{
}

/// A file that cannot be read is not answered, whatever stood in it before.
pub proof fn unread_files_are_not_answered(
    material: SourceMaterialView,
    failure: SpecReadFailure,
    late: bool,
)
    requires
        material.document is Absent,
    ensures
        verified_content(material, Err(failure), late) is Err,
        verified_read(Some(material), Err(failure)) is Err,
        verified_read(None, Err(failure)) == Err::<SourceReadView, MemorySourceError>(
            MemorySourceError::NotDiscovered,
        ),
{
}

/// A span is answered as the bytes between its ends, and in full where they are no more than may be
/// answered.
pub proof fn spans_are_cut_out(
    request: MemoryContentRequestView,
    fingerprint: DigestView,
    before: Seq<u8>,
    part: Seq<u8>,
    after: Seq<u8>,
)
    requires
        request.evidence is Some,
        request.evidence->0 is Span,
        request.evidence->0->Span_0.start.byte_offset == before.len(),
        request.evidence->0->Span_0.end.byte_offset == before.len() + part.len(),
        vstd::utf8::valid_utf8(part),
        part.len() <= request.max_bytes,
    ensures
        cut_content(request, fingerprint, before + part + after) == Ok::<_, MemoryQueryErrorView>(
            MemoryContentResponseView { verified_fingerprint: fingerprint, bytes: part, truncated: false },
        ),
{
    let bytes = before + part + after;
    assert(bytes.subrange(before.len() as int, (before.len() + part.len()) as int) =~= part);
    assert(evidence_bytes(request.evidence, bytes) == Some(part));
    vstd::utf8::is_char_boundary_start_end_of_seq(part);
    assert(boundary_at_most(part, part.len() as int) == part.len());
    assert(part.take(part.len() as int) =~= part);
}

/// A request that names no span is answered with the whole content.
pub proof fn whole_contents_are_answered(
    request: MemoryContentRequestView,
    fingerprint: DigestView,
    bytes: Seq<u8>,
)
    requires
        !(request.evidence is Some && request.evidence->0 is Span),
        vstd::utf8::valid_utf8(bytes),
        bytes.len() <= request.max_bytes,
    ensures
        cut_content(request, fingerprint, bytes) == Ok::<_, MemoryQueryErrorView>(
            MemoryContentResponseView { verified_fingerprint: fingerprint, bytes, truncated: false },
        ),
{
    vstd::utf8::is_char_boundary_start_end_of_seq(bytes);
    assert(boundary_at_most(bytes, bytes.len() as int) == bytes.len());
    assert(bytes.take(bytes.len() as int) =~= bytes);
}

proof fn boundary_is_the_last(bytes: Seq<u8>, place: int, other: int)
    requires
        0 <= other <= place,
        vstd::utf8::is_char_boundary(bytes, other),
    ensures
        other <= boundary_at_most(bytes, place),
    decreases place,
{
    if place > 0 && !vstd::utf8::is_char_boundary(bytes, place) {
        boundary_is_the_last(bytes, place - 1, other);
    }
}

/// No more is cut away than has to be: no longer beginning of the part that is made of whole
/// characters would be short enough.
pub proof fn answers_are_as_long_as_they_may_be(
    request: MemoryContentRequestView,
    fingerprint: DigestView,
    bytes: Seq<u8>,
    length: int,
)
    requires
        !(request.evidence is Some && request.evidence->0 is Span),
        vstd::utf8::valid_utf8(bytes),
        vstd::utf8::is_char_boundary(bytes, length),
        0 <= length <= bytes.len(),
        length <= request.max_bytes,
    ensures
        cut_content(request, fingerprint, bytes) is Ok,
        cut_content(request, fingerprint, bytes)->Ok_0.bytes.len() >= length,
{
    let place = if bytes.len() <= request.max_bytes {
        bytes.len() as int
    } else {
        request.max_bytes as int
    };
    boundary_is_the_last(bytes, place, length);
    boundary_is_within(bytes, place);
}

proof fn boundary_is_within(bytes: Seq<u8>, place: int)
    requires
        0 <= place,
    ensures
        0 <= boundary_at_most(bytes, place) <= place,
    decreases place,
{
    if place > 0 && !vstd::utf8::is_char_boundary(bytes, place) {
        boundary_is_within(bytes, place - 1);
    }
}

/// What is known of a project are the sources that were found, each once for each time it was found,
/// and the manifest describes them.
pub proof fn known_sources_are_those_found(
    project: ProjectRefView,
    directory: Seq<char>,
    policy: MemoryPolicyView,
    found: Seq<SourceMaterialView>,
    material: SourceMaterialView,
)
    ensures
        known_sources(project, directory, policy, found) matches Ok(known) ==> {
            &&& known.project == project
            &&& known.directory == directory
            &&& known.policy == policy
            &&& known.materials.contains(material) == found.contains(material)
            &&& known.manifest.project == project
            &&& known.manifest.sources.len() == known.materials.len()
            &&& forall|i: int|
                0 <= i < known.materials.len() ==> #[trigger] known.manifest.sources[i]
                    == known.materials[i].descriptor
        },
{
    sorted_holds::<SourceMaterial>(found, material);
}

/// Sources of another project, and too many sources, are refused.
pub proof fn foreign_sources_are_refused(
    project: ProjectRefView,
    directory: Seq<char>,
    policy: MemoryPolicyView,
    found: Seq<SourceMaterialView>,
    at: int,
)
    requires
        0 <= at < found.len(),
    ensures
        found.len() > MAX_SOURCES ==> known_sources(project, directory, policy, found) == Err::<
            KnownSources,
            _,
        >(MemorySourceError::TooManySources),
        found.len() <= MAX_SOURCES && found[at].descriptor.project != project ==> known_sources(
            project,
            directory,
            policy,
            found,
        ) == Err::<KnownSources, _>(MemorySourceError::ForeignSource),
{
    if found.len() <= MAX_SOURCES && found[at].descriptor.project != project {
        let materials = crate::sort::sorted::<SourceMaterial>(found);
        sorted_holds::<SourceMaterial>(found, found[at]);
        assert(found.contains(found[at]));
        let i = choose|i: int| 0 <= i < materials.len() && materials[i] == found[at];
        let bare = crate::content::bare_manifest(project, policy, materials, crate::content::blank_digest());
        assert(bare.sources[i] == found[at].descriptor);
        assert(!bare.owns_its_sources());
    }
}

/// Sources that are found as they were are still what their manifest says, and a manifest that says
/// anything else no longer holds.
pub proof fn manifests_hold_while_nothing_changes(
    known: KnownSources,
    found: Seq<SourceMaterialView>,
    manifest: AuthorizedSourceManifestView,
)
    requires
        known_sources(known.project, known.directory, known.policy, found) == Ok::<
            KnownSources,
            MemorySourceError,
        >(known),
    ensures
        revalidated(known, known.manifest, Ok(found)) == Ok::<(), MemorySourceError>(()),
        manifest != known.manifest ==> revalidated(known, manifest, Ok(found)) == Err::<(), _>(
            MemorySourceError::SourcesChanged,
        ),
{
}

/// A source is found again by what describes it, and by nothing else.
pub proof fn descriptors_find_their_source(
    materials: Seq<SourceMaterialView>,
    descriptor: AuthorizedSourceDescriptorView,
)
    ensures
        described(materials, descriptor) matches Some(material) ==> materials.contains(material)
            && material.descriptor == descriptor,
        described(materials, descriptor) is None ==> forall|i: int|
            0 <= i < materials.len() ==> (#[trigger] materials[i]).descriptor != descriptor,
    decreases materials.len(),
{
    if materials.len() > 0 {
        let rest = materials.skip(1);
        descriptors_find_their_source(rest, descriptor);
        if let Some(material) = described(rest, descriptor) {
            if rest.contains(material) {
                let i = choose|i: int| 0 <= i < rest.len() && rest[i] == material;
                assert(materials[i + 1] == material);
            }
        }
        assert(materials.contains(materials[0]));
        assert forall|i: int| 1 <= i < materials.len() implies #[trigger] materials[i] == rest[i - 1] by {}
    }
}

} // verus!
