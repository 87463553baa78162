//! Which sources may be read, and how much of each.
use vstd::prelude::*;
use crate::digest::{sha256_of, Digest};
use crate::domain::MemorySourceCategory;
use crate::federation::gathering::extend;
use crate::json::{json_object, json_string, text_json, JsonObject, ToJson};
use crate::record::Record;

verus! {

/// The version of the policy's own form.
pub const MEMORY_POLICY_SCHEMA_VERSION: u32 = 1;

/// How private a source is.
#[derive(Debug, Clone, Copy, PartialEq, Eq, PartialOrd, Ord, Hash, Structural)]
pub enum MemorySourceSensitivity {
    Curated,
    OperationalMetadata,
    Sensitive,
}

impl DeepView for MemorySourceSensitivity {
    type V = MemorySourceSensitivity;

    open spec fn deep_view(&self) -> MemorySourceSensitivity {
        *self
    }
}

impl MemorySourceSensitivity {
    /// The name in stored and transmitted records.
    pub open spec fn name(self) -> Seq<char> {
        match self {
            MemorySourceSensitivity::Curated => "curated"@,
            MemorySourceSensitivity::OperationalMetadata => "operational_metadata"@,
            MemorySourceSensitivity::Sensitive => "sensitive"@,
        }
    }

    /// The name in stored and transmitted records.
    pub fn as_str(self) -> (name: &'static str)
        ensures
            name@ == self.name(),
    {
        match self {
            MemorySourceSensitivity::Curated => "curated",
            MemorySourceSensitivity::OperationalMetadata => "operational_metadata",
            MemorySourceSensitivity::Sensitive => "sensitive",
        }
    }
}

impl Record for MemorySourceSensitivity {
    fn copied(&self) -> (copy: Self) {
        *self
    }

    fn same(&self, other: &Self) -> (same: bool) {
        *self == *other
    }
}

impl ToJson for MemorySourceSensitivity {
    open spec fn json(model: MemorySourceSensitivity) -> Seq<char> {
        json_string(model.name())
    }

    fn to_json(&self) -> (text: String) {
        text_json(self.as_str())
    }
}

/// How much of a source may be read.
#[derive(Debug, Clone, Copy, PartialEq, Eq, PartialOrd, Ord, Hash, Structural)]
pub enum MemoryContentAccess {
    StructureOnly,
    CuratedSections,
    IdentityAndCountsOnly,
    RawBody,
}

impl DeepView for MemoryContentAccess {
    type V = MemoryContentAccess;

    open spec fn deep_view(&self) -> MemoryContentAccess {
        *self
    }
}

impl MemoryContentAccess {
    /// The name in stored and transmitted records.
    pub open spec fn name(self) -> Seq<char> {
        match self {
            MemoryContentAccess::StructureOnly => "structure_only"@,
            MemoryContentAccess::CuratedSections => "curated_sections"@,
            MemoryContentAccess::IdentityAndCountsOnly => "identity_and_counts_only"@,
            MemoryContentAccess::RawBody => "raw_body"@,
        }
    }

    /// The name in stored and transmitted records.
    pub fn as_str(self) -> (name: &'static str)
        ensures
            name@ == self.name(),
    {
        match self {
            MemoryContentAccess::StructureOnly => "structure_only",
            MemoryContentAccess::CuratedSections => "curated_sections",
            MemoryContentAccess::IdentityAndCountsOnly => "identity_and_counts_only",
            MemoryContentAccess::RawBody => "raw_body",
        }
    }
}

impl Record for MemoryContentAccess {
    fn copied(&self) -> (copy: Self) {
        *self
    }

    fn same(&self, other: &Self) -> (same: bool) {
        *self == *other
    }
}

impl ToJson for MemoryContentAccess {
    open spec fn json(model: MemoryContentAccess) -> Seq<char> {
        json_string(model.name())
    }

    fn to_json(&self) -> (text: String) {
        text_json(self.as_str())
    }
}

/// What may be read of one category.
#[derive(Debug, PartialEq, Eq)]
pub struct MemorySourcePolicy {
    pub enabled: bool,
    pub sensitivity: MemorySourceSensitivity,
    pub content_access: MemoryContentAccess,
}

/// The model of [`MemorySourcePolicy`].
pub struct MemorySourcePolicyView {
    pub enabled: bool,
    pub sensitivity: MemorySourceSensitivity,
    pub content_access: MemoryContentAccess,
}

impl DeepView for MemorySourcePolicy {
    type V = MemorySourcePolicyView;

    open spec fn deep_view(&self) -> MemorySourcePolicyView {
        MemorySourcePolicyView {
            enabled: self.enabled.deep_view(),
            sensitivity: self.sensitivity.deep_view(),
            content_access: self.content_access.deep_view(),
        }
    }
}

impl Record for MemorySourcePolicy {
    fn copied(&self) -> (copy: Self) {
        MemorySourcePolicy {
            enabled: self.enabled.copied(),
            sensitivity: self.sensitivity.copied(),
            content_access: self.content_access.copied(),
        }
    }

    fn same(&self, other: &Self) -> (same: bool) {
        self.enabled.same(&other.enabled)
            && self.sensitivity.same(&other.sensitivity)
            && self.content_access.same(&other.content_access)
    }
}

impl Clone for MemorySourcePolicy {
    fn clone(&self) -> (copy: Self)
        ensures
            copy.deep_view() == self.deep_view(),
    {
        self.copied()
    }
}

impl MemorySourcePolicyView {
    /// The members of the JSON object.
    pub open spec fn members(self) -> Seq<(Seq<char>, Seq<char>)> {
        seq![
            ("enabled"@, <bool as ToJson>::json(self.enabled)),
            ("sensitivity"@, <MemorySourceSensitivity as ToJson>::json(self.sensitivity)),
            ("content_access"@, <MemoryContentAccess as ToJson>::json(self.content_access)),
        ]
    }
}

impl ToJson for MemorySourcePolicy {
    open spec fn json(model: MemorySourcePolicyView) -> Seq<char> {
        json_object(model.members())
    }

    fn to_json(&self) -> (text: String) {
        let object = JsonObject::new()
            .member("enabled", self.enabled.to_json())
            .member("sensitivity", self.sensitivity.to_json())
            .member("content_access", self.content_access.to_json());
        assert(object.members() =~= self.deep_view().members());
        object.finish()
    }
}

/// What may be read of which category.
#[derive(Debug, PartialEq, Eq)]
pub struct MemorySourcePolicyStatus {
    pub category: MemorySourceCategory,
    pub policy: MemorySourcePolicy,
}

/// The model of [`MemorySourcePolicyStatus`].
pub struct MemorySourcePolicyStatusView {
    pub category: MemorySourceCategory,
    pub policy: MemorySourcePolicyView,
}

impl DeepView for MemorySourcePolicyStatus {
    type V = MemorySourcePolicyStatusView;

    open spec fn deep_view(&self) -> MemorySourcePolicyStatusView {
        MemorySourcePolicyStatusView {
            category: self.category.deep_view(),
            policy: self.policy.deep_view(),
        }
    }
}

impl Record for MemorySourcePolicyStatus {
    fn copied(&self) -> (copy: Self) {
        MemorySourcePolicyStatus {
            category: self.category.copied(),
            policy: self.policy.copied(),
        }
    }

    fn same(&self, other: &Self) -> (same: bool) {
        self.category.same(&other.category)
            && self.policy.same(&other.policy)
    }
}

impl Clone for MemorySourcePolicyStatus {
    fn clone(&self) -> (copy: Self)
        ensures
            copy.deep_view() == self.deep_view(),
    {
        self.copied()
    }
}

impl MemorySourcePolicyStatusView {
    /// The members of the JSON object.
    pub open spec fn members(self) -> Seq<(Seq<char>, Seq<char>)> {
        seq![
            ("category"@, <MemorySourceCategory as ToJson>::json(self.category)),
            ("policy"@, <MemorySourcePolicy as ToJson>::json(self.policy)),
        ]
    }
}

impl ToJson for MemorySourcePolicyStatus {
    open spec fn json(model: MemorySourcePolicyStatusView) -> Seq<char> {
        json_object(model.members())
    }

    fn to_json(&self) -> (text: String) {
        let object = JsonObject::new()
            .member("category", self.category.to_json())
            .member("policy", self.policy.to_json());
        assert(object.members() =~= self.deep_view().members());
        object.finish()
    }
}

/// What may be read of each category. The categories stand in their order, each at most once.
#[derive(Debug, PartialEq, Eq)]
pub struct MemoryPolicy {
    pub schema_version: u32,
    categories: Vec<MemorySourcePolicyStatus>,
}

/// The model of [`MemoryPolicy`].
pub struct MemoryPolicyView {
    pub schema_version: u32,
    pub categories: Seq<MemorySourcePolicyStatusView>,
}

impl DeepView for MemoryPolicy {
    type V = MemoryPolicyView;

    closed spec fn deep_view(&self) -> MemoryPolicyView {
        MemoryPolicyView {
            schema_version: self.schema_version.deep_view(),
            categories: self.categories.deep_view(),
        }
    }
}

impl Record for MemoryPolicy {
    fn copied(&self) -> (copy: Self) {
        proof {
            use_type_invariant(self);
        }
        MemoryPolicy {
            schema_version: self.schema_version.copied(),
            categories: self.categories.copied(),
        }
    }

    fn same(&self, other: &Self) -> (same: bool) {
        self.schema_version.same(&other.schema_version)
            && self.categories.same(&other.categories)
    }
}

impl Clone for MemoryPolicy {
    fn clone(&self) -> (copy: Self)
        ensures
            copy.deep_view() == self.deep_view(),
    {
        self.copied()
    }
}

/// Whether the categories stand in their order, each at most once.
pub open spec fn in_category_order(entries: Seq<MemorySourcePolicyStatusView>) -> bool {
    forall|i: int, j: int|
        0 <= i < j < entries.len() ==> (#[trigger] entries[i]).category.rank() < (#[trigger] entries[j]).category.rank()
}

/// What may be read of a category by default.
pub open spec fn default_source_policy(category: MemorySourceCategory) -> MemorySourcePolicyView {
    match category {
        MemorySourceCategory::SpecificationStructure => MemorySourcePolicyView {
            enabled: true,
            sensitivity: MemorySourceSensitivity::Curated,
            content_access: MemoryContentAccess::StructureOnly,
        },
        MemorySourceCategory::ApprovedOutcome => MemorySourcePolicyView {
            enabled: true,
            sensitivity: MemorySourceSensitivity::Curated,
            content_access: MemoryContentAccess::CuratedSections,
        },
        MemorySourceCategory::ArchiveManifest | MemorySourceCategory::RuntimeProvenance => MemorySourcePolicyView {
            enabled: true,
            sensitivity: MemorySourceSensitivity::OperationalMetadata,
            content_access: MemoryContentAccess::IdentityAndCountsOnly,
        },
        _ => MemorySourcePolicyView {
            enabled: false,
            sensitivity: MemorySourceSensitivity::Sensitive,
            content_access: MemoryContentAccess::RawBody,
        },
    }
}

/// The default policy: every category, in order, with what may be read of it by default.
pub open spec fn default_policy() -> MemoryPolicyView {
    MemoryPolicyView {
        schema_version: MEMORY_POLICY_SCHEMA_VERSION,
        categories: MemorySourceCategory::ALL@.map_values(
            |category: MemorySourceCategory|
                MemorySourcePolicyStatusView { category, policy: default_source_policy(category) },
        ),
    }
}

fn default_category(category: MemorySourceCategory) -> (policy: MemorySourcePolicy)
    ensures
        policy.deep_view() == default_source_policy(category),
{
    match category {
        MemorySourceCategory::SpecificationStructure => MemorySourcePolicy {
            enabled: true,
            sensitivity: MemorySourceSensitivity::Curated,
            content_access: MemoryContentAccess::StructureOnly,
        },
        MemorySourceCategory::ApprovedOutcome => MemorySourcePolicy {
            enabled: true,
            sensitivity: MemorySourceSensitivity::Curated,
            content_access: MemoryContentAccess::CuratedSections,
        },
        MemorySourceCategory::ArchiveManifest | MemorySourceCategory::RuntimeProvenance => MemorySourcePolicy {
            enabled: true,
            sensitivity: MemorySourceSensitivity::OperationalMetadata,
            content_access: MemoryContentAccess::IdentityAndCountsOnly,
        },
        _ => MemorySourcePolicy {
            enabled: false,
            sensitivity: MemorySourceSensitivity::Sensitive,
            content_access: MemoryContentAccess::RawBody,
        },
    }
}

impl Default for MemoryPolicy {
    fn default() -> (policy: Self)
        ensures
            policy.deep_view() == default_policy(),
            in_category_order(policy.deep_view().categories),
    {
        let all = MemorySourceCategory::ALL;
        let mut categories: Vec<MemorySourcePolicyStatus> = Vec::new();
        let mut at: usize = 0;
        while at < 13
            invariant
                at <= 13,
                all@ == MemorySourceCategory::ALL@,
                all@.len() == 13,
                categories.deep_view() =~= default_policy().categories.take(at as int),
            decreases 13 - at,
        {
            let ghost before = categories.deep_view();
            let category = all[at];
            categories.push(
                MemorySourcePolicyStatus { category, policy: default_category(category) },
            );
            assert(categories.deep_view() =~= before.push(default_policy().categories[at as int]));
            at += 1;
        }
        assert(categories.deep_view() =~= default_policy().categories);
        assert(in_category_order(default_policy().categories)) by {
            assert forall|i: int|
                0 <= i < 13 implies (#[trigger] MemorySourceCategory::ALL@[i]).rank() == i by {
            }
        }
        MemoryPolicy { schema_version: MEMORY_POLICY_SCHEMA_VERSION, categories }
    }
}

impl MemoryPolicyView {
    /// The place of the first entry for a category, or the number of entries.
    pub open spec fn place(self, category: MemorySourceCategory) -> int {
        first_entry(self.categories, category)
    }

    /// What may be read of a category, where the policy says.
    pub open spec fn category(
        self,
        category: MemorySourceCategory,
    ) -> Option<MemorySourcePolicyView> {
        let place = self.place(category);
        if place < self.categories.len() {
            Some(self.categories[place].policy)
        } else {
            None
        }
    }

    /// Whether a category may be read at all.
    pub open spec fn authorizes(self, category: MemorySourceCategory) -> bool {
        match self.category(category) {
            Some(policy) => policy.enabled,
            None => false,
        }
    }

    /// The categories that may be read, in order.
    pub open spec fn authorized(self) -> Seq<MemorySourceCategory> {
        self.categories.filter(|entry: MemorySourcePolicyStatusView| entry.policy.enabled).map_values(
            |entry: MemorySourcePolicyStatusView| entry.category,
        )
    }

    /// The policy with something else said of a category.
    pub open spec fn with(
        self,
        category: MemorySourceCategory,
        policy: MemorySourcePolicyView,
    ) -> MemoryPolicyView {
        MemoryPolicyView {
            categories: self.categories.filter(
                |entry: MemorySourcePolicyStatusView| entry.category.rank() < category.rank(),
            ).push(MemorySourcePolicyStatusView { category, policy }) + self.categories.filter(
                |entry: MemorySourcePolicyStatusView| entry.category.rank() > category.rank(),
            ),
            ..self
        }
    }

    /// The members of the JSON object of categories.
    pub open spec fn category_members(self) -> Seq<(Seq<char>, Seq<char>)> {
        self.categories.map_values(
            |entry: MemorySourcePolicyStatusView|
                (entry.category.name(), <MemorySourcePolicy as ToJson>::json(entry.policy)),
        )
    }

    /// The members of the JSON object.
    pub open spec fn members(self) -> Seq<(Seq<char>, Seq<char>)> {
        seq![
            ("schema_version"@, <u32 as ToJson>::json(self.schema_version)),
            ("categories"@, json_object(self.category_members())),
        ]
    }
}

/// The place of the first entry for a category, or the number of entries.
pub open spec fn first_entry(
    entries: Seq<MemorySourcePolicyStatusView>,
    category: MemorySourceCategory,
) -> int
    decreases entries.len(),
{
    if entries.len() == 0 || entries[0].category == category {
        0
    } else {
        1 + first_entry(entries.drop_first(), category)
    }
}

proof fn first_entry_is_first(
    entries: Seq<MemorySourcePolicyStatusView>,
    category: MemorySourceCategory,
    at: int,
)
    requires
        0 <= at <= entries.len(),
        forall|i: int| 0 <= i < at ==> (#[trigger] entries[i]).category != category,
        at == entries.len() || entries[at].category == category,
    ensures
        first_entry(entries, category) == at,
    decreases entries.len(),
{
    if at > 0 {
        assert(entries[0].category != category);
        assert forall|i: int|
            0 <= i < at - 1 implies (#[trigger] entries.drop_first()[i]).category != category by {
            assert(entries[i + 1].category != category);
        }
        first_entry_is_first(entries.drop_first(), category, at - 1);
    }
}

impl ToJson for MemoryPolicy {
    open spec fn json(model: MemoryPolicyView) -> Seq<char> {
        json_object(model.members())
    }

    fn to_json(&self) -> (text: String) {
        let ghost entries = self.deep_view().category_members();
        let mut categories = JsonObject::new();
        let mut at: usize = 0;
        while at < self.categories.len()
            invariant
                at <= self.categories.len(),
                entries == self.deep_view().category_members(),
                categories.members() =~= entries.take(at as int),
            decreases self.categories.len() - at,
        {
            let entry = &self.categories[at];
            categories = categories.member(entry.category.as_str(), entry.policy.to_json());
            at += 1;
        }
        assert(entries.take(at as int) =~= entries);
        let object = JsonObject::new().member("schema_version", self.schema_version.to_json()).member(
            "categories",
            categories.finish(),
        );
        assert(object.members() =~= self.deep_view().members());
        object.finish()
    }
}

impl MemoryPolicy {
    #[verifier::type_invariant]
    spec fn ordered(self) -> bool {
        in_category_order(self.categories.deep_view())
    }

    /// What may be read of each category that the policy speaks of, in their order.
    pub fn categories(&self) -> (categories: &Vec<MemorySourcePolicyStatus>)
        ensures
            categories.deep_view() == self.deep_view().categories,
            in_category_order(categories.deep_view()),
    {
        proof {
            use_type_invariant(self);
        }
        &self.categories
    }

    /// Says what may be read of a category, in place of what was said of it.
    pub fn set(&mut self, category: MemorySourceCategory, policy: MemorySourcePolicy)
        ensures
            final(self).deep_view() == old(self).deep_view().with(category, policy.deep_view()),
    {
        broadcast use vstd::seq_lib::group_filter_ensures;

        proof {
            use_type_invariant(&*self);
            reveal(Seq::filter);
        }
        let ghost entries = self.categories.deep_view();
        let ghost before = |entry: MemorySourcePolicyStatusView| entry.category.rank() < category.rank();
        let ghost behind = |entry: MemorySourcePolicyStatusView| entry.category.rank() > category.rank();
        let place = category.place();
        let mut categories: Vec<MemorySourcePolicyStatus> = Vec::new();
        let mut rest: Vec<MemorySourcePolicyStatus> = Vec::new();
        let mut at: usize = 0;
        while at < self.categories.len()
            invariant
                at <= self.categories.len(),
                entries == self.categories.deep_view(),
                place == category.rank(),
                before == (|entry: MemorySourcePolicyStatusView| entry.category.rank() < category.rank()),
                behind == (|entry: MemorySourcePolicyStatusView| entry.category.rank() > category.rank()),
                categories.deep_view() =~= entries.take(at as int).filter(before),
                rest.deep_view() =~= entries.take(at as int).filter(behind),
            decreases self.categories.len() - at,
        {
            let ghost (first, last) = (categories.deep_view(), rest.deep_view());
            let entry = &self.categories[at];
            assert(entries[at as int] == entry.deep_view());
            assert(entries.take(at + 1).drop_last() =~= entries.take(at as int));
            proof {
                reveal(Seq::filter);
            }
            let here = entry.category.place();
            if here < place {
                categories.push(entry.copied());
                assert(categories.deep_view() =~= first.push(entry.deep_view()));
            } else if here > place {
                rest.push(entry.copied());
                assert(rest.deep_view() =~= last.push(entry.deep_view()));
            }
            at += 1;
        }
        assert(entries.take(at as int) =~= entries);
        let ghost first = categories.deep_view();
        categories.push(MemorySourcePolicyStatus { category, policy });
        let ghost with_new = categories.deep_view();
        assert(with_new =~= first.push(
            MemorySourcePolicyStatusView { category, policy: policy.deep_view() },
        ));
        extend(&mut categories, &rest);
        proof {
            ordered_parts(entries, before);
            ordered_parts(entries, behind);
            assert(in_category_order(categories.deep_view()));
        }
        self.categories = categories;
    }

    /// The digest of the policy.
    pub fn digest(&self) -> (digest: Digest)
        ensures
            digest.deep_view() == sha256_of(<MemoryPolicy as ToJson>::json(self.deep_view())),
    {
        Digest::of_text(self.to_json().as_str())
    }

    /// What may be read of a category, where the policy says.
    pub fn category(&self, category: MemorySourceCategory) -> (policy: Option<&MemorySourcePolicy>)
        ensures
            match policy {
                Some(policy) => self.deep_view().category(category) == Some(policy.deep_view()),
                None => self.deep_view().category(category) is None,
            },
    {
        let ghost entries = self.deep_view().categories;
        let mut at: usize = 0;
        while at < self.categories.len()
            invariant
                at <= self.categories.len(),
                entries == self.categories.deep_view(),
                forall|i: int| 0 <= i < at ==> (#[trigger] entries[i]).category != category,
            decreases self.categories.len() - at,
        {
            assert(entries[at as int] == self.categories@[at as int].deep_view());
            if self.categories[at].category == category {
                proof {
                    first_entry_is_first(entries, category, at as int);
                }
                return Some(&self.categories[at].policy);
            }
            at += 1;
        }
        proof {
            first_entry_is_first(entries, category, at as int);
        }
        None
    }

    /// Whether a category may be read at all.
    pub fn is_authorized(&self, category: MemorySourceCategory) -> (authorized: bool)
        ensures
            authorized == self.deep_view().authorizes(category),
            authorized == self.deep_view().authorized().contains(category),
    {
        proof {
            use_type_invariant(self);
            authorized_categories_are_listed(self.deep_view(), category);
        }
        match self.category(category) {
            Some(policy) => policy.enabled,
            None => false,
        }
    }

    /// The categories that may be read, in order.
    pub fn authorized_categories(&self) -> (categories: Vec<MemorySourceCategory>)
        ensures
            categories.deep_view() == self.deep_view().authorized(),
    {
        broadcast use vstd::seq_lib::group_filter_ensures;

        let ghost entries = self.deep_view().categories;
        let ghost enabled = |entry: MemorySourcePolicyStatusView| entry.policy.enabled;
        let ghost named = |entry: MemorySourcePolicyStatusView| entry.category;
        let mut categories: Vec<MemorySourceCategory> = Vec::new();
        let mut at: usize = 0;
        while at < self.categories.len()
            invariant
                at <= self.categories.len(),
                entries == self.categories.deep_view(),
                enabled == (|entry: MemorySourcePolicyStatusView| entry.policy.enabled),
                named == (|entry: MemorySourcePolicyStatusView| entry.category),
                categories.deep_view() =~= entries.take(at as int).filter(enabled).map_values(named),
            decreases self.categories.len() - at,
        {
            let ghost before = categories.deep_view();
            let entry = &self.categories[at];
            assert(entries[at as int] == entry.deep_view());
            assert(entries.take(at + 1) =~= entries.take(at as int).push(entries[at as int]));
            if entry.policy.enabled {
                categories.push(entry.category);
                assert(categories.deep_view() =~= before.push(entry.category));
            }
            proof {
                reveal(Seq::filter);
                assert(entries.take(at + 1).drop_last() =~= entries.take(at as int));
            }
            at += 1;
        }
        assert(entries.take(at as int) =~= entries);
        categories
    }
}

/// What is left of entries in order is in order, and among them.
proof fn ordered_parts(
    entries: Seq<MemorySourcePolicyStatusView>,
    wanted: spec_fn(MemorySourcePolicyStatusView) -> bool,
)
    requires
        in_category_order(entries),
    ensures
        in_category_order(entries.filter(wanted)),
        forall|i: int|
            0 <= i < entries.filter(wanted).len() ==> wanted(#[trigger] entries.filter(wanted)[i])
                && entries.contains(entries.filter(wanted)[i]),
    decreases entries.len(),
{
    reveal(Seq::filter);
    if entries.len() > 0 {
        let rest = entries.drop_last();
        ordered_parts(rest, wanted);
        let kept = rest.filter(wanted);
        assert forall|i: int| 0 <= i < entries.filter(wanted).len() implies wanted(
            #[trigger] entries.filter(wanted)[i],
        ) && entries.contains(entries.filter(wanted)[i]) by {
            if i < kept.len() {
                assert(entries.filter(wanted)[i] == kept[i]);
                let j = choose|j: int| 0 <= j < rest.len() && rest[j] == kept[i];
                assert(entries[j] == kept[i]);
            } else {
                assert(entries[entries.len() - 1] == entries.filter(wanted)[i]);
            }
        }
        assert forall|i: int, j: int|
            0 <= i < j < entries.filter(wanted).len() implies (#[trigger] entries.filter(wanted)[i]).category.rank()
            < (#[trigger] entries.filter(wanted)[j]).category.rank() by {
            let left = entries.filter(wanted)[i];
            assert(left == kept[i]);
            if j < kept.len() {
                assert(entries.filter(wanted)[j] == kept[j]);
            } else {
                let k = choose|k: int| 0 <= k < rest.len() && rest[k] == left;
                assert(entries[k] == left);
                assert(entries[entries.len() - 1] == entries.filter(wanted)[j]);
            }
        }
    }
}

/// A category may be read exactly where the policy speaks of it and allows it, and exactly where it is
/// listed among those that may be read.
pub proof fn authorized_categories_are_listed(policy: MemoryPolicyView, category: MemorySourceCategory)
    requires
        in_category_order(policy.categories),
    ensures
        policy.authorizes(category) == policy.authorized().contains(category),
        policy.authorizes(category) == (policy.category(category) is Some
            && policy.category(category)->0.enabled),
{
    let entries = policy.categories;
    let enabled = |entry: MemorySourcePolicyStatusView| entry.policy.enabled;
    let kept = entries.filter(enabled);
    ordered_parts(entries, enabled);
    let place = policy.place(category);
    entry_place(entries, category);
    if policy.authorizes(category) {
        assert(entries.contains(entries[place]) && enabled(entries[place]));
        kept_entry(entries, enabled, place);
        let i = choose|i: int| 0 <= i < kept.len() && kept[i] == entries[place];
        assert(policy.authorized()[i] == category);
    }
    if policy.authorized().contains(category) {
        let i = choose|i: int| 0 <= i < policy.authorized().len() && policy.authorized()[i] == category;
        assert(kept[i].category == category);
        let j = choose|j: int| 0 <= j < entries.len() && entries[j] == kept[i];
        assert(j == place) by {
            if place < j {
                assert(entries[place].category.rank() < entries[j].category.rank());
            }
        }
    }
}

/// An entry that is wanted is kept.
proof fn kept_entry(
    entries: Seq<MemorySourcePolicyStatusView>,
    wanted: spec_fn(MemorySourcePolicyStatusView) -> bool,
    at: int,
)
    requires
        0 <= at < entries.len(),
        wanted(entries[at]),
    ensures
        entries.filter(wanted).contains(entries[at]),
    decreases entries.len(),
{
    reveal(Seq::filter);
    let rest = entries.drop_last();
    if at < rest.len() {
        kept_entry(rest, wanted, at);
        let i = choose|i: int| 0 <= i < rest.filter(wanted).len() && rest.filter(wanted)[i] == rest[at];
        assert(entries.filter(wanted)[i] == entries[at]);
    } else {
        assert(entries.filter(wanted)[rest.filter(wanted).len() as int] == entries[at]);
    }
}

/// The place of a category: that of the first entry for it.
proof fn entry_place(entries: Seq<MemorySourcePolicyStatusView>, category: MemorySourceCategory)
    ensures
        0 <= first_entry(entries, category) <= entries.len(),
        first_entry(entries, category) < entries.len() ==> entries[first_entry(entries, category)].category
            == category,
        forall|i: int| 0 <= i < first_entry(entries, category) ==> (#[trigger] entries[i]).category
            != category,
    decreases entries.len(),
{
    if entries.len() > 0 && entries[0].category != category {
        let rest = entries.drop_first();
        entry_place(rest, category);
        assert forall|i: int| 0 <= i < first_entry(entries, category) implies (#[trigger] entries[i]).category
            != category by {
            if i > 0 {
                assert(rest[i - 1].category != category);
            }
        }
    }
}

/// By default the curated sources and the bounded metadata may be read, and nothing else.
pub proof fn default_policy_authorizes_curated_content_and_metadata(category: MemorySourceCategory)
    ensures
        default_policy().authorizes(category) == (category
            == MemorySourceCategory::SpecificationStructure || category
            == MemorySourceCategory::ApprovedOutcome || category
            == MemorySourceCategory::ArchiveManifest || category
            == MemorySourceCategory::RuntimeProvenance),
        default_policy().category(category) == Some(default_source_policy(category)),
{
    let entries = default_policy().categories;
    let at = category.rank() as int;
    assert(MemorySourceCategory::ALL@[at] == category);
    assert forall|i: int| 0 <= i < at implies (#[trigger] entries[i]).category != category by {
        assert(MemorySourceCategory::ALL@[i].rank() == i);
    }
    first_entry_is_first(entries, category, at);
}

}
