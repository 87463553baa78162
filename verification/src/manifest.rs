//! The identity of a revision: what a manifest of authorized sources adds up to.
use vstd::prelude::*;
use crate::digest::{is_sha256_text, sha256_of, text_digest, Digest, DigestView};
use crate::domain::{
    AuthorizedSourceDescriptor, AuthorizedSourceDescriptorView, AuthorizedSourceManifest,
    AuthorizedSourceManifestView, MemoryBuildId, MemoryRevision, MemoryRevisionId,
    MemoryRevisionView, MemorySourceCategory, MemorySourceLocator, MemorySourceLocatorView, ProjectRef,
};
use crate::json::{json_array, json_object, JsonArray, JsonObject, ToJson};
use crate::record::Record;
use crate::sort::{sort, sorted, sorting_texts_ignores_their_order};
use crate::text::decimal;
use crate::MEMORY_MODEL_VERSION;

verus! {

/// Why a manifest has no identity.
#[derive(Debug, Clone, Copy, PartialEq, Eq, Structural)]
pub enum AuthorizedSourceManifestError {
    ProjectMismatch,
    SourceSetDigestMismatch,
}

impl AuthorizedSourceManifestError {
    /// What is wrong, in words.
    pub fn message(&self) -> (text: String)
        ensures
            text@ == match *self {
                AuthorizedSourceManifestError::ProjectMismatch =>
                    "authorized source belongs to another project"@,
                AuthorizedSourceManifestError::SourceSetDigestMismatch =>
                    "authorized source-set digest does not match the manifest"@,
            },
    {
        match self {
            AuthorizedSourceManifestError::ProjectMismatch =>
                "authorized source belongs to another project".to_owned(),
            AuthorizedSourceManifestError::SourceSetDigestMismatch =>
                "authorized source-set digest does not match the manifest".to_owned(),
        }
    }
}

impl AuthorizedSourceDescriptorView {
    /// What counts of a source for the identity of its set: not its length, and not who owns it.
    pub open spec fn canonical_members(self) -> Seq<(Seq<char>, Seq<char>)> {
        seq![
            ("category"@, <MemorySourceCategory as ToJson>::json(self.category)),
            ("locator"@, <MemorySourceLocator as ToJson>::json(self.locator)),
            ("fingerprint"@, <Digest as ToJson>::json(self.fingerprint)),
        ]
    }

    /// The JSON text of what counts of a source.
    pub open spec fn canonical(self) -> Seq<char> {
        json_object(self.canonical_members())
    }
}

/// The canonical texts of the sources, in the order of the sources.
pub open spec fn canonical_sources(sources: Seq<AuthorizedSourceDescriptorView>) -> Seq<Seq<char>> {
    sources.map_values(|source: AuthorizedSourceDescriptorView| source.canonical())
}

impl AuthorizedSourceManifestView {
    /// Whether every source belongs to the manifest's project.
    pub open spec fn owns_its_sources(self) -> bool {
        forall|i: int| 0 <= i < self.sources.len() ==> (#[trigger] self.sources[i]).project == self.project
    }

    /// The text whose digest stands for the set of sources.
    pub open spec fn source_set_text(self) -> Seq<char> {
        json_array(
            seq![
                <ProjectRef as ToJson>::json(self.project),
                json_array(sorted::<String>(canonical_sources(self.sources))),
            ],
        )
    }

    /// Whether the manifest states the digest that its sources have.
    pub open spec fn is_valid(self) -> bool {
        self.owns_its_sources() && self.source_set_digest == sha256_of(self.source_set_text())
    }

    /// The text whose digest stands for the revision.
    pub open spec fn revision_text(self) -> Seq<char> {
        json_array(
            seq![
                <ProjectRef as ToJson>::json(self.project),
                <Digest as ToJson>::json(self.source_set_digest),
                <Digest as ToJson>::json(self.policy_digest),
                decimal(MEMORY_MODEL_VERSION as nat),
                <Digest as ToJson>::json(self.extractor_set_digest),
            ],
        )
    }

    /// The identity of the revision that the manifest adds up to.
    pub open spec fn revision(self) -> Seq<char> {
        "memory:"@ + text_digest(self.revision_text())
    }

    /// What is wrong with the manifest, if anything.
    pub open spec fn error(self) -> Option<AuthorizedSourceManifestError> {
        if !self.owns_its_sources() {
            Some(AuthorizedSourceManifestError::ProjectMismatch)
        } else if !self.is_valid() {
            Some(AuthorizedSourceManifestError::SourceSetDigestMismatch)
        } else {
            None
        }
    }
}

/// What tells sources apart: their category, their place and their fingerprint.
pub open spec fn source_identities(
    sources: Seq<AuthorizedSourceDescriptorView>,
) -> Seq<(MemorySourceCategory, MemorySourceLocatorView, DigestView)> {
    sources.map_values(
        |source: AuthorizedSourceDescriptorView|
            (source.category, source.locator, source.fingerprint),
    )
}

/// The text of what counts of a source.
spec fn identity_text(identity: (MemorySourceCategory, MemorySourceLocatorView, DigestView)) -> Seq<
    char,
> {
    json_object(
        seq![
            ("category"@, <MemorySourceCategory as ToJson>::json(identity.0)),
            ("locator"@, <MemorySourceLocator as ToJson>::json(identity.1)),
            ("fingerprint"@, <Digest as ToJson>::json(identity.2)),
        ],
    )
}

/// The digest of a set of sources depends neither on the order of their discovery nor on anything but
/// their categories, their places and their fingerprints.
pub proof fn source_set_ignores_discovery_order(
    left: AuthorizedSourceManifestView,
    right: AuthorizedSourceManifestView,
)
    requires
        left.project == right.project,
        source_identities(left.sources).to_multiset() == source_identities(right.sources).to_multiset(),
    ensures
        left.source_set_text() == right.source_set_text(),
{
    let text = |identity: (MemorySourceCategory, MemorySourceLocatorView, DigestView)|
        identity_text(identity);
    mapped_multisets_agree(source_identities(left.sources), source_identities(right.sources), text);
    assert(canonical_sources(left.sources) =~= source_identities(left.sources).map_values(text));
    assert(canonical_sources(right.sources) =~= source_identities(right.sources).map_values(text));
    sorting_texts_ignores_their_order(canonical_sources(left.sources), canonical_sources(right.sources));
}

/// Mapping two arrangements of the same records gives two arrangements of the same results.
proof fn mapped_multisets_agree<A, B>(left: Seq<A>, right: Seq<A>, f: spec_fn(A) -> B)
    requires
        left.to_multiset() == right.to_multiset(),
    ensures
        left.map_values(f).to_multiset() == right.map_values(f).to_multiset(),
    decreases left.len(),
{
    broadcast use vstd::seq_lib::group_to_multiset_ensures;

    left.to_multiset_ensures();
    right.to_multiset_ensures();
    if left.len() == 0 {
        assert(left.map_values(f) =~= right.map_values(f));
    } else {
        let last = left.last();
        assert(left.contains(last));
        assert(left.to_multiset().contains(last));
        assert(right.contains(last));
        let at = choose|i: int| 0 <= i < right.len() && right[i] == last;
        let left_rest = left.drop_last();
        let right_rest = right.remove(at);
        assert(left =~= left_rest.push(last));
        assert(left.to_multiset() =~= left_rest.to_multiset().insert(last));
        assert(right_rest.insert(at, last) =~= right);
        assert(right_rest.to_multiset() =~= right.to_multiset().remove(last));
        assert(left_rest.to_multiset() =~= right_rest.to_multiset());
        mapped_multisets_agree(left_rest, right_rest, f);
        assert(left.map_values(f) =~= left_rest.map_values(f).push(f(last)));
        assert(right_rest.map_values(f) =~= right.map_values(f).remove(at));
        assert(right.map_values(f).to_multiset() =~= right_rest.map_values(f).to_multiset().insert(f(last)));
    }
}

/// Two manifests that own their sources, list the same ones in whatever order, and agree in their
/// digests, are both right or both wrong, and identify the same revision.
pub proof fn revision_ignores_discovery_order(
    left: AuthorizedSourceManifestView,
    right: AuthorizedSourceManifestView,
)
    requires
        left.project == right.project,
        left.policy_digest == right.policy_digest,
        left.source_set_digest == right.source_set_digest,
        left.extractor_set_digest == right.extractor_set_digest,
        left.owns_its_sources() == right.owns_its_sources(),
        source_identities(left.sources).to_multiset() == source_identities(right.sources).to_multiset(),
    ensures
        left.error() == right.error(),
        left.revision() == right.revision(),
{
    source_set_ignores_discovery_order(left, right);
}

fn canonical_source(source: &AuthorizedSourceDescriptor) -> (text: String)
    ensures
        text@ == source.deep_view().canonical(),
{
    let object = JsonObject::new().member("category", source.category.to_json()).member(
        "locator",
        source.locator.to_json(),
    ).member("fingerprint", source.fingerprint.to_json());
    assert(object.members() =~= source.deep_view().canonical_members());
    object.finish()
}

impl AuthorizedSourceManifest {
    /// The digest of the sources as they are listed, whatever their order.
    pub fn computed_source_set_digest(
        &self,
    ) -> (result: Result<Digest, AuthorizedSourceManifestError>)
        ensures
            match result {
                Ok(digest) => self.deep_view().owns_its_sources() && digest.deep_view() == sha256_of(
                    self.deep_view().source_set_text(),
                ),
                Err(error) => !self.deep_view().owns_its_sources() && error
                    == AuthorizedSourceManifestError::ProjectMismatch,
            },
    {
        let ghost sources = self.deep_view().sources;
        let mut texts: Vec<String> = Vec::new();
        let mut at: usize = 0;
        while at < self.sources.len()
            invariant
                at <= self.sources.len(),
                sources == self.sources.deep_view(),
                texts.deep_view() =~= canonical_sources(sources.take(at as int)),
                forall|i: int| 0 <= i < at ==> (#[trigger] sources[i]).project == self.project.deep_view(),
            decreases self.sources.len() - at,
        {
            let source = &self.sources[at];
            assert(sources[at as int] == source.deep_view());
            if !source.project.same(&self.project) {
                assert(self.deep_view().sources[at as int].project != self.deep_view().project);
                return Err(AuthorizedSourceManifestError::ProjectMismatch);
            }
            let ghost before = texts.deep_view();
            texts.push(canonical_source(source));
            assert(texts.deep_view() =~= before.push(sources[at as int].canonical()));
            assert(canonical_sources(sources.take(at + 1)) =~= canonical_sources(
                sources.take(at as int),
            ).push(sources[at as int].canonical()));
            at += 1;
        }
        assert(sources.take(at as int) =~= sources);
        let sorted_texts = sort(texts);
        let mut list = JsonArray::new();
        let mut at: usize = 0;
        while at < sorted_texts.len()
            invariant
                at <= sorted_texts.len(),
                list.items() =~= sorted_texts.deep_view().take(at as int),
            decreases sorted_texts.len() - at,
        {
            list = list.item(sorted_texts[at].clone());
            at += 1;
        }
        assert(sorted_texts.deep_view().take(at as int) =~= sorted_texts.deep_view());
        let pair = JsonArray::new().item(self.project.to_json()).item(list.finish());
        assert(json_array(pair.items()) == self.deep_view().source_set_text()) by {
            assert(pair.items() =~= seq![
                <ProjectRef as ToJson>::json(self.deep_view().project),
                json_array(sorted::<String>(canonical_sources(sources))),
            ]);
        }
        Ok(Digest::of_text(pair.finish().as_str()))
    }

    /// Whether the manifest states the digest that its sources have.
    pub fn validate(&self) -> (result: Result<(), AuthorizedSourceManifestError>)
        ensures
            match result {
                Ok(_) => self.deep_view().error() is None,
                Err(error) => self.deep_view().error() == Some(error),
            },
    {
        match self.computed_source_set_digest() {
            Err(error) => Err(error),
            Ok(digest) => if digest.same(&self.source_set_digest) {
                Ok(())
            } else {
                Err(AuthorizedSourceManifestError::SourceSetDigestMismatch)
            },
        }
    }

    /// The identity of the revision that the manifest adds up to.
    pub fn revision_id(&self) -> (result: Result<MemoryRevisionId, AuthorizedSourceManifestError>)
        ensures
            match result {
                Ok(id) => {
                    &&& self.deep_view().error() is None
                    &&& id.deep_view() == self.deep_view().revision()
                    &&& is_sha256_text(text_digest(self.deep_view().revision_text()))
                },
                Err(error) => self.deep_view().error() == Some(error),
            },
    {
        match self.validate() {
            Err(error) => Err(error),
            Ok(_) => {
                let list = JsonArray::new().item(self.project.to_json()).item(
                    self.source_set_digest.to_json(),
                ).item(self.policy_digest.to_json()).item(MEMORY_MODEL_VERSION.to_json()).item(
                    self.extractor_set_digest.to_json(),
                );
                assert(json_array(list.items()) == self.deep_view().revision_text()) by {
                    let view = self.deep_view();
                    assert(list.items() =~= seq![
                        <ProjectRef as ToJson>::json(view.project),
                        <Digest as ToJson>::json(view.source_set_digest),
                        <Digest as ToJson>::json(view.policy_digest),
                        decimal(MEMORY_MODEL_VERSION as nat),
                        <Digest as ToJson>::json(view.extractor_set_digest),
                    ]);
                }
                let text = list.finish();
                proof {
                    reveal_strlit("memory:");
                }
                Ok(MemoryRevisionId::of_digest("memory:", text.as_str()))
            },
        }
    }
}

impl MemoryRevision {
    /// The revision that a manifest adds up to, completed by a build.
    pub fn from_manifest(
        manifest: &AuthorizedSourceManifest,
        completed_by: MemoryBuildId,
    ) -> (result: Result<Self, AuthorizedSourceManifestError>)
        ensures
            match result {
                Ok(revision) => manifest.deep_view().error() is None && revision.deep_view() == (
                    MemoryRevisionView {
                        id: manifest.deep_view().revision(),
                        project: manifest.deep_view().project,
                        source_set_digest: manifest.deep_view().source_set_digest,
                        policy_digest: manifest.deep_view().policy_digest,
                        memory_model_version: MEMORY_MODEL_VERSION,
                        extractor_set_digest: manifest.deep_view().extractor_set_digest,
                        completed_by: completed_by.deep_view(),
                    }),
                Err(error) => manifest.deep_view().error() == Some(error),
            },
    {
        match manifest.revision_id() {
            Err(error) => Err(error),
            Ok(id) => Ok(
                MemoryRevision {
                    id,
                    project: manifest.project.copied(),
                    source_set_digest: manifest.source_set_digest.copied(),
                    policy_digest: manifest.policy_digest.copied(),
                    memory_model_version: MEMORY_MODEL_VERSION,
                    extractor_set_digest: manifest.extractor_set_digest.copied(),
                    completed_by,
                },
            ),
        }
    }
}

}
