//! Following relationships from some entities, breadth first and within a budget.
use vstd::prelude::*;
use crate::budget::{saturated, saturating_sum, EffectiveBudget};
use crate::deadline::{begins, is_up, Deadline};
use crate::diagnostics::{diagnostic_code, MemoryDiagnosticCode};
use crate::domain::{
    MemoryEntity, MemoryEntityView, MemoryRelationship, MemoryRelationshipTarget,
    MemoryRelationshipTargetView, MemoryRelationshipView,
};
use crate::json::{byte_len, serialized_len, ToJson};
use crate::order::{
    in_order, listed, text_before, text_order_is_strict, values_in_order, OrderedMap,
};
use crate::query::{MemoryContextPolicy, MemoryContextPolicyView, MemoryTruncationReason};
use crate::record::Record;
use crate::repository::EdgeDirection;
use crate::seeds::{is_visible, resolution_visible};
use crate::sort::{
    dedup, deduplicated, sort, sorted, sorting_orders_and_keeps, text_key, Identified, SortKey,
    Sortable,
};

verus! {

/// How many entities, and how many relationships, a context may gather.
pub const MAX_CONTEXT_CANDIDATES: usize = 4_096;

/// Whether one more entity would be too many. An entity that is already there is not one more.
pub fn context_candidate_limit_reached(selected: usize, neighbor_selected: bool) -> (reached: bool)
    ensures
        reached == (selected >= MAX_CONTEXT_CANDIDATES && !neighbor_selected),
{
    selected >= MAX_CONTEXT_CANDIDATES && !neighbor_selected
}

/// An entity whose relationships are still to be followed, and how far it is from the seeds.
#[derive(Debug, PartialEq, Eq)]
pub struct Visit {
    pub id: String,
    pub depth: u32,
}

/// The model of [`Visit`].
pub struct VisitView {
    pub id: Seq<char>,
    pub depth: u32,
}

impl DeepView for Visit {
    type V = VisitView;

    open spec fn deep_view(&self) -> VisitView {
        VisitView {
            id: self.id.deep_view(),
            depth: self.depth.deep_view(),
        }
    }
}

impl Record for Visit {
    fn copied(&self) -> (copy: Self) {
        Visit {
            id: self.id.copied(),
            depth: self.depth.copied(),
        }
    }

    fn same(&self, other: &Self) -> (same: bool) {
        self.id.same(&other.id)
            && self.depth.same(&other.depth)
    }
}

impl Clone for Visit {
    fn clone(&self) -> (copy: Self)
        ensures
            copy.deep_view() == self.deep_view(),
    {
        self.copied()
    }
}

/// How far a selected entity is from the seeds, and why it was selected.
#[derive(Debug, PartialEq, Eq)]
pub struct Selection {
    pub depth: u32,
    pub reasons: Vec<MemoryDiagnosticCode>,
}

/// The model of [`Selection`].
pub struct SelectionView {
    pub depth: u32,
    pub reasons: Seq<Seq<char>>,
}

impl DeepView for Selection {
    type V = SelectionView;

    open spec fn deep_view(&self) -> SelectionView {
        SelectionView {
            depth: self.depth.deep_view(),
            reasons: self.reasons.deep_view(),
        }
    }
}

impl Record for Selection {
    fn copied(&self) -> (copy: Self) {
        Selection {
            depth: self.depth.copied(),
            reasons: self.reasons.copied(),
        }
    }

    fn same(&self, other: &Self) -> (same: bool) {
        self.depth.same(&other.depth)
            && self.reasons.same(&other.reasons)
    }
}

impl Clone for Selection {
    fn clone(&self) -> (copy: Self)
        ensures
            copy.deep_view() == self.deep_view(),
    {
        self.copied()
    }
}

/// An entity of a context.
#[derive(Debug, PartialEq, Eq)]
pub struct ContextCandidate {
    pub entity: MemoryEntity,
    pub depth: u32,
    pub selection_reasons: Vec<MemoryDiagnosticCode>,
}

/// The model of [`ContextCandidate`].
pub struct ContextCandidateView {
    pub entity: MemoryEntityView,
    pub depth: u32,
    pub selection_reasons: Seq<Seq<char>>,
}

impl DeepView for ContextCandidate {
    type V = ContextCandidateView;

    open spec fn deep_view(&self) -> ContextCandidateView {
        ContextCandidateView {
            entity: self.entity.deep_view(),
            depth: self.depth.deep_view(),
            selection_reasons: self.selection_reasons.deep_view(),
        }
    }
}

impl Record for ContextCandidate {
    fn copied(&self) -> (copy: Self) {
        ContextCandidate {
            entity: self.entity.copied(),
            depth: self.depth.copied(),
            selection_reasons: self.selection_reasons.copied(),
        }
    }

    fn same(&self, other: &Self) -> (same: bool) {
        self.entity.same(&other.entity)
            && self.depth.same(&other.depth)
            && self.selection_reasons.same(&other.selection_reasons)
    }
}

impl Clone for ContextCandidate {
    fn clone(&self) -> (copy: Self)
        ensures
            copy.deep_view() == self.deep_view(),
    {
        self.copied()
    }
}

/// Candidates are ordered by their distance, then by their kind, then by their id.
impl Sortable for ContextCandidate {
    open spec fn key(model: ContextCandidateView) -> SortKey {
        SortKey {
            first: model.depth as int,
            second: model.entity.data.kind().rank() as int,
            text: model.entity.id,
            third: 0,
            fourth: 0,
        }
    }

    fn before(&self, other: &Self) -> (before: bool) {
        let left = self.entity.data.kind().place();
        let right = other.entity.data.kind().place();
        if self.depth != other.depth {
            self.depth < other.depth
        } else if left != right {
            left < right
        } else {
            proof {
                text_order_is_strict(self.entity.id.deep_view(), other.entity.id.deep_view());
            }
            text_before(self.entity.id.as_str(), other.entity.id.as_str())
        }
    }
}

/// Codes are ordered by their text.
impl Sortable for MemoryDiagnosticCode {
    open spec fn key(model: Seq<char>) -> SortKey {
        text_key(model)
    }

    fn before(&self, other: &Self) -> (before: bool) {
        proof {
            text_order_is_strict(self.deep_view(), other.deep_view());
        }
        text_before(self.as_str(), other.as_str())
    }
}

impl Identified for MemoryDiagnosticCode {
    open spec fn identity(model: Seq<char>) -> Seq<char> {
        model
    }

    fn same_identity(&self, other: &Self) -> (same: bool) {
        self.same(other)
    }
}

/// A way from one entity to another: the other, and the place of the relationship.
#[derive(Debug, Clone, PartialEq, Eq)]
pub struct Edge {
    pub neighbor: String,
    pub relationship: usize,
}

/// The model of [`Edge`].
pub struct EdgeView {
    pub neighbor: Seq<char>,
    pub relationship: int,
}

impl DeepView for Edge {
    type V = EdgeView;

    open spec fn deep_view(&self) -> EdgeView {
        EdgeView { neighbor: self.neighbor@, relationship: self.relationship as int }
    }
}

impl Record for Edge {
    fn copied(&self) -> (copy: Self) {
        Edge { neighbor: self.neighbor.clone(), relationship: self.relationship }
    }

    fn same(&self, other: &Self) -> (same: bool) {
        self.neighbor == other.neighbor && self.relationship == other.relationship
    }
}

/// Edges are ordered by the entity that they lead to.
impl Sortable for Edge {
    open spec fn key(model: EdgeView) -> SortKey {
        text_key(model.neighbor)
    }

    fn before(&self, other: &Self) -> (before: bool) {
        proof {
            text_order_is_strict(self.neighbor@, other.neighbor@);
        }
        text_before(self.neighbor.as_str(), other.neighbor.as_str())
    }
}

/// The entity that a relationship points at, where a policy follows the relationship.
pub open spec fn followed(
    relationship: MemoryRelationshipView,
    policy: MemoryContextPolicyView,
) -> Option<Seq<char>> {
    if policy.relationship_kinds.len() > 0 && !policy.relationship_kinds.contains(relationship.kind) {
        None
    } else if !is_visible(relationship.provenance.resolution, policy) {
        None
    } else {
        match relationship.target {
            MemoryRelationshipTargetView::MemoryEntity { entity_id } => Some(entity_id),
            _ => None,
        }
    }
}

/// The edges from an entity, in the order of their relationships.
pub open spec fn edges_from(
    relationships: Seq<MemoryRelationshipView>,
    policy: MemoryContextPolicyView,
    id: Seq<char>,
) -> Seq<EdgeView>
    decreases relationships.len(),
{
    if relationships.len() == 0 {
        Seq::empty()
    } else {
        let rest = edges_from(relationships.drop_last(), policy, id);
        let at = relationships.len() - 1;
        let source = relationships.last().source;
        match followed(relationships.last(), policy) {
            None => rest,
            Some(target) => {
                let outgoing = if policy.direction != EdgeDirection::Incoming && source == id {
                    rest.push(EdgeView { neighbor: target, relationship: at })
                } else {
                    rest
                };
                if policy.direction != EdgeDirection::Outgoing && target == id {
                    outgoing.push(EdgeView { neighbor: source, relationship: at })
                } else {
                    outgoing
                }
            },
        }
    }
}

/// The edges from an entity, in the order of the entities that they lead to and then of their
/// relationships.
pub open spec fn neighbors(
    relationships: Seq<MemoryRelationshipView>,
    policy: MemoryContextPolicyView,
    id: Seq<char>,
) -> Seq<EdgeView> {
    sorted::<Edge>(edges_from(relationships, policy, id))
}

fn follow(
    relationship: &MemoryRelationship,
    policy: &MemoryContextPolicy,
) -> (target: Option<String>)
    ensures
        target.deep_view() == followed(relationship.deep_view(), policy.deep_view()),
{
    if policy.relationship_kinds.len() > 0 && !contains_kind(policy, relationship) {
        return None;
    }
    if !resolution_visible(relationship.provenance.resolution, policy) {
        return None;
    }
    match &relationship.target {
        MemoryRelationshipTarget::MemoryEntity { entity_id } => Some(entity_id.as_str().to_owned()),
        _ => None,
    }
}

fn contains_kind(policy: &MemoryContextPolicy, relationship: &MemoryRelationship) -> (found: bool)
    ensures
        found == policy.deep_view().relationship_kinds.contains(relationship.deep_view().kind),
{
    let mut at: usize = 0;
    while at < policy.relationship_kinds.len()
        invariant
            at <= policy.relationship_kinds.len(),
            forall|i: int|
                0 <= i < at ==> policy.relationship_kinds.deep_view()[i] != relationship.kind,
        decreases policy.relationship_kinds.len() - at,
    {
        if policy.relationship_kinds[at] == relationship.kind {
            assert(policy.relationship_kinds.deep_view()[at as int] == relationship.kind);
            return true;
        }
        at += 1;
    }
    false
}

/// Whether a map lists the edges of the first relationships.
spec fn lists_edges(
    map: Map<Seq<char>, Seq<EdgeView>>,
    relationships: Seq<MemoryRelationshipView>,
    policy: MemoryContextPolicyView,
) -> bool {
    forall|id: Seq<char>| #[trigger] listed(map, id) == edges_from(relationships, policy, id)
}

fn adjacency(
    relationships: &Vec<MemoryRelationship>,
    policy: &MemoryContextPolicy,
) -> (map: OrderedMap<Vec<Edge>>)
    ensures
        map.well_formed(),
        lists_edges(map.deep_view(), relationships.deep_view(), policy.deep_view()),
{
    let mut map: OrderedMap<Vec<Edge>> = OrderedMap::new();
    let mut at: usize = 0;
    while at < relationships.len()
        invariant
            at <= relationships.len(),
            map.well_formed(),
            lists_edges(
                map.deep_view(),
                relationships.deep_view().take(at as int),
                policy.deep_view(),
            ),
        decreases relationships.len() - at,
    {
        let relationship = &relationships[at];
        let ghost before = map.deep_view();
        let ghost known = relationships.deep_view().take(at as int);
        let ghost next = relationships.deep_view().take(at + 1);
        assert(next.drop_last() =~= known);
        assert(next.last() == relationship.deep_view());
        if let Some(target) = follow(relationship, policy) {
            let source = relationship.source.as_str().to_owned();
            if policy.direction != EdgeDirection::Incoming {
                map.push(source.clone(), Edge { neighbor: target.clone(), relationship: at });
            }
            let ghost middle = map.deep_view();
            if policy.direction != EdgeDirection::Outgoing {
                map.push(target, Edge { neighbor: source, relationship: at });
            }
            assert forall|id: Seq<char>| #[trigger] listed(map.deep_view(), id) == edges_from(
                next,
                policy.deep_view(),
                id,
            ) by {
                assert(listed(before, id) == edges_from(known, policy.deep_view(), id));
                assert(listed(middle, id) == listed(middle, id));
            }
        } else {
            assert forall|id: Seq<char>| #[trigger] listed(map.deep_view(), id) == edges_from(
                next,
                policy.deep_view(),
                id,
            ) by {
                assert(listed(before, id) == edges_from(known, policy.deep_view(), id));
            }
        }
        at += 1;
    }
    assert(relationships.deep_view().take(at as int) =~= relationships.deep_view());
    map
}

/// How far following relationships has come: the entities whose relationships are still to be
/// followed, what was selected, the size of the selected relationships, how deep it went, why it
/// ended early, and how many answers of the deadline are known.
#[verifier::ext_equal]
pub struct Traversal {
    pub queue: Seq<VisitView>,
    pub selected: Map<Seq<char>, SelectionView>,
    pub relationships: Map<Seq<char>, MemoryRelationshipView>,
    pub bytes: u64,
    pub explored_depth: u32,
    pub truncation: Option<MemoryTruncationReason>,
    pub at: int,
}

/// The same, ended early.
pub open spec fn stopped(state: Traversal, reason: MemoryTruncationReason) -> Traversal {
    Traversal { truncation: Some(reason), ..state }
}

/// Selects the entity at the end of an edge, unless there are too many.
pub open spec fn with_neighbor(state: Traversal, neighbor: Seq<char>, depth: u32) -> Traversal {
    if state.selected.contains_key(neighbor) {
        state
    } else if state.selected.dom().len() >= MAX_CONTEXT_CANDIDATES {
        stopped(state, MemoryTruncationReason::Results)
    } else {
        Traversal {
            selected: state.selected.insert(
                neighbor,
                SelectionView {
                    depth: (depth + 1) as u32,
                    reasons: Seq::empty().push("context.relationship"@),
                },
            ),
            queue: state.queue.push(VisitView { id: neighbor, depth: (depth + 1) as u32 }),
            ..state
        }
    }
}

/// How many relationships are selected at most: as many as there are candidates, or as there are
/// results, where those are more. It is no smaller than the number of candidates, so that the pages behind
/// the first one can show what does not fit there.
pub open spec fn relationship_cap(budget: EffectiveBudget) -> int {
    if budget.max_results > MAX_CONTEXT_CANDIDATES {
        budget.max_results as int
    } else {
        MAX_CONTEXT_CANDIDATES as int
    }
}

fn most_relationships(budget: EffectiveBudget) -> (most: u64)
    ensures
        most == relationship_cap(budget),
{
    if budget.max_results as u64 > MAX_CONTEXT_CANDIDATES as u64 {
        budget.max_results as u64
    } else {
        MAX_CONTEXT_CANDIDATES as u64
    }
}

/// Follows one edge from an entity at some depth: the relationship is selected where it still fits,
/// then the entity at the other end.
pub open spec fn with_edge(
    state: Traversal,
    edge: EdgeView,
    depth: u32,
    relationships: Seq<MemoryRelationshipView>,
    budget: EffectiveBudget,
    answers: Seq<u64>,
) -> Traversal {
    if state.truncation is Some {
        state
    } else if is_up(answers[state.at]) {
        stopped(Traversal { at: state.at + 1, ..state }, MemoryTruncationReason::Duration)
    } else {
        let asked = Traversal { at: state.at + 1, ..state };
        let relationship = relationships[edge.relationship];
        let size = byte_len(<MemoryRelationship as ToJson>::json(relationship)) as u64;
        if state.relationships.contains_key(relationship.id) {
            with_neighbor(asked, edge.neighbor, depth)
        } else if state.relationships.dom().len() >= relationship_cap(budget) {
            stopped(asked, MemoryTruncationReason::Results)
        } else if saturated(state.bytes, size) > budget.max_bytes {
            stopped(asked, MemoryTruncationReason::Bytes)
        } else {
            with_neighbor(
                Traversal {
                    relationships: state.relationships.insert(relationship.id, relationship),
                    bytes: saturated(state.bytes, size),
                    ..asked
                },
                edge.neighbor,
                depth,
            )
        }
    }
}

/// Follows the first edges of an entity at some depth.
pub open spec fn with_edges(
    state: Traversal,
    edges: Seq<EdgeView>,
    count: int,
    depth: u32,
    relationships: Seq<MemoryRelationshipView>,
    budget: EffectiveBudget,
    answers: Seq<u64>,
) -> Traversal
    decreases count,
{
    if count <= 0 {
        state
    } else {
        with_edge(
            with_edges(state, edges, count - 1, depth, relationships, budget, answers),
            edges[count - 1],
            depth,
            relationships,
            budget,
            answers,
        )
    }
}

/// Whether following relationships has come to its end.
pub open spec fn is_finished(state: Traversal) -> bool {
    state.truncation is Some || state.queue.len() == 0
}

/// Follows the relationships of the first entity in the queue.
pub open spec fn next_visit(
    state: Traversal,
    relationships: Seq<MemoryRelationshipView>,
    policy: MemoryContextPolicyView,
    budget: EffectiveBudget,
    answers: Seq<u64>,
) -> Traversal {
    if is_finished(state) {
        state
    } else {
        let visit = state.queue[0];
        let popped = Traversal { queue: state.queue.skip(1), at: state.at + 1, ..state };
        if is_up(answers[state.at]) {
            stopped(popped, MemoryTruncationReason::Duration)
        } else {
            let explored = Traversal {
                explored_depth: if visit.depth > state.explored_depth {
                    visit.depth
                } else {
                    state.explored_depth
                },
                ..popped
            };
            if visit.depth >= budget.max_depth {
                explored
            } else {
                let edges = neighbors(relationships, policy, visit.id);
                with_edges(
                    explored,
                    edges,
                    edges.len() as int,
                    visit.depth,
                    relationships,
                    budget,
                    answers,
                )
            }
        }
    }
}

/// Follows the relationships of the first so many entities in the queue.
pub open spec fn visits(
    state: Traversal,
    count: nat,
    relationships: Seq<MemoryRelationshipView>,
    policy: MemoryContextPolicyView,
    budget: EffectiveBudget,
    answers: Seq<u64>,
) -> Traversal
    decreases count,
{
    if count == 0 {
        state
    } else {
        next_visit(
            visits(state, (count - 1) as nat, relationships, policy, budget, answers),
            relationships,
            policy,
            budget,
            answers,
        )
    }
}

/// Follows relationships to the end.
pub open spec fn traversed(
    state: Traversal,
    relationships: Seq<MemoryRelationshipView>,
    policy: MemoryContextPolicyView,
    budget: EffectiveBudget,
    answers: Seq<u64>,
) -> Traversal {
    visits(
        state,
        choose|count: nat|
            is_finished(#[trigger] visits(state, count, relationships, policy, budget, answers)),
        relationships,
        policy,
        budget,
        answers,
    )
}

/// Once at the end, no visit changes anything.
pub proof fn end_is_stable(
    state: Traversal,
    count: nat,
    more: nat,
    relationships: Seq<MemoryRelationshipView>,
    policy: MemoryContextPolicyView,
    budget: EffectiveBudget,
    answers: Seq<u64>,
)
    requires
        count <= more,
        is_finished(visits(state, count, relationships, policy, budget, answers)),
    ensures
        visits(state, more, relationships, policy, budget, answers) == visits(
            state,
            count,
            relationships,
            policy,
            budget,
            answers,
        ),
    decreases more,
{
    if count < more {
        end_is_stable(state, count, (more - 1) as nat, relationships, policy, budget, answers);
    }
}

/// Wherever the end is reached, it is the same.
pub proof fn end_is_reached(
    state: Traversal,
    count: nat,
    relationships: Seq<MemoryRelationshipView>,
    policy: MemoryContextPolicyView,
    budget: EffectiveBudget,
    answers: Seq<u64>,
)
    requires
        is_finished(visits(state, count, relationships, policy, budget, answers)),
    ensures
        traversed(state, relationships, policy, budget, answers) == visits(
            state,
            count,
            relationships,
            policy,
            budget,
            answers,
        ),
{
    let other = choose|count: nat|
        is_finished(#[trigger] visits(state, count, relationships, policy, budget, answers));
    if count <= other {
        end_is_stable(state, count, other, relationships, policy, budget, answers);
    } else {
        end_is_stable(state, other, count, relationships, policy, budget, answers);
    }
}

/// Following relationships, as it goes on.
struct Walk {
    queue: Vec<Visit>,
    head: usize,
    selected: OrderedMap<Selection>,
    relationships: OrderedMap<MemoryRelationship>,
    bytes: u64,
    explored_depth: u32,
    truncation: Option<MemoryTruncationReason>,
}

impl Walk {
    spec fn well_formed(self) -> bool {
        &&& self.head <= self.queue.len()
        &&& self.selected.well_formed()
        &&& self.relationships.well_formed()
    }

    spec fn state(self, at: int) -> Traversal {
        Traversal {
            queue: self.queue.deep_view().skip(self.head as int),
            selected: self.selected.deep_view(),
            relationships: self.relationships.deep_view(),
            bytes: self.bytes,
            explored_depth: self.explored_depth,
            truncation: self.truncation,
            at,
        }
    }

    /// What shrinks with every visit: an entity may join the queue only while there is room.
    spec fn measure(self) -> int {
        self.queue.len() - self.head + 2 * self.room()
    }

    spec fn room(self) -> int {
        if self.selected.deep_view().dom().len() < MAX_CONTEXT_CANDIDATES {
            MAX_CONTEXT_CANDIDATES - self.selected.deep_view().dom().len()
        } else {
            0
        }
    }

    fn add_neighbor(&mut self, neighbor: &String, depth: u32, at: Ghost<int>)
        requires
            old(self).well_formed(),
            old(self).truncation is None,
            depth < u32::MAX,
        ensures
            final(self).well_formed(),
            final(self).state(at@) == with_neighbor(old(self).state(at@), neighbor@, depth),
            final(self).measure() <= old(self).measure(),
    {
        let ghost start = *self;
        let known = self.selected.contains(neighbor.as_str());
        if known {
            return;
        }
        if context_candidate_limit_reached(self.selected.len(), known) {
            self.truncation = Some(MemoryTruncationReason::Results);
            return;
        }
        proof {
            reveal_strlit("context.relationship");
        }
        let mut reasons: Vec<MemoryDiagnosticCode> = Vec::new();
        reasons.push(diagnostic_code("context.relationship"));
        assert(reasons.deep_view() =~= Seq::empty().push("context.relationship"@));
        self.selected.insert(neighbor.clone(), Selection { depth: depth + 1, reasons });
        self.queue.push(Visit { id: neighbor.clone(), depth: depth + 1 });
        assert(self.queue.deep_view().skip(self.head as int) =~= start.queue.deep_view().skip(
            start.head as int,
        ).push(VisitView { id: neighbor@, depth: (depth + 1) as u32 }));
    }

    fn follow_edge<D: Deadline>(
        &mut self,
        edge: &Edge,
        depth: u32,
        relationships: &Vec<MemoryRelationship>,
        budget: EffectiveBudget,
        deadline: &mut D,
    )
        requires
            old(self).well_formed(),
            old(self).truncation is None,
            depth < u32::MAX,
            edge.relationship < relationships.len(),
        ensures
            final(self).well_formed(),
            final(self).measure() <= old(self).measure(),
            begins(old(deadline).answers(), final(deadline).answers()),
            forall|all: Seq<u64>|
                begins(final(deadline).answers(), all) ==> final(self).state(
                    final(deadline).answers().len() as int,
                ) == #[trigger] with_edge(
                    old(self).state(old(deadline).answers().len() as int),
                    edge.deep_view(),
                    depth,
                    relationships.deep_view(),
                    budget,
                    all,
                ),
    {
        let ghost start = *self;
        let ghost asked_from = deadline.answers().len() as int;
        let expired = deadline.expired();
        assert forall|all: Seq<u64>|
            begins(deadline.answers(), all) implies is_up(all[asked_from]) == expired by {
            assert(all[asked_from] == deadline.answers()[asked_from]);
        }
        if expired {
            self.truncation = Some(MemoryTruncationReason::Duration);
            return;
        }
        let relationship = &relationships[edge.relationship];
        assert(relationships.deep_view()[edge.relationship as int] == relationship.deep_view());
        if !self.relationships.contains(relationship.id.as_str()) {
            if self.relationships.len() as u64 >= most_relationships(budget) {
                self.truncation = Some(MemoryTruncationReason::Results);
                return;
            }
            let total = saturating_sum(self.bytes, serialized_len(relationship));
            if total > budget.max_bytes {
                self.truncation = Some(MemoryTruncationReason::Bytes);
                return;
            }
            self.bytes = total;
            self.relationships.insert(relationship.id.as_str().to_owned(), relationship.copied());
        }
        self.add_neighbor(&edge.neighbor, depth, Ghost(deadline.answers().len() as int));
    }

    fn follow_edges<D: Deadline>(
        &mut self,
        edges: &Vec<Edge>,
        depth: u32,
        relationships: &Vec<MemoryRelationship>,
        budget: EffectiveBudget,
        deadline: &mut D,
    )
        requires
            old(self).well_formed(),
            old(self).truncation is None,
            depth < u32::MAX,
            forall|i: int| 0 <= i < edges.len() ==> (#[trigger] edges@[i]).relationship < relationships.len(),
        ensures
            final(self).well_formed(),
            final(self).measure() <= old(self).measure(),
            begins(old(deadline).answers(), final(deadline).answers()),
            forall|all: Seq<u64>|
                begins(final(deadline).answers(), all) ==> final(self).state(
                    final(deadline).answers().len() as int,
                ) == #[trigger] with_edges(
                    old(self).state(old(deadline).answers().len() as int),
                    edges.deep_view(),
                    edges.len() as int,
                    depth,
                    relationships.deep_view(),
                    budget,
                    all,
                ),
    {
        let ghost start = self.state(deadline.answers().len() as int);
        let ghost models = edges.deep_view();
        let ghost known = relationships.deep_view();
        let mut at: usize = 0;
        while at < edges.len()
            invariant
                at <= edges.len(),
                models == edges.deep_view(),
                known == relationships.deep_view(),
                start == old(self).state(old(deadline).answers().len() as int),
                self.well_formed(),
                self.truncation is None,
                self.measure() <= old(self).measure(),
                depth < u32::MAX,
                forall|i: int|
                    0 <= i < edges.len() ==> (#[trigger] edges@[i]).relationship < relationships.len(),
                begins(old(deadline).answers(), deadline.answers()),
                forall|all: Seq<u64>|
                    begins(deadline.answers(), all) ==> self.state(deadline.answers().len() as int)
                        == #[trigger] with_edges(start, models, at as int, depth, known, budget, all),
            decreases edges.len() - at,
        {
            let ghost before = *self;
            let ghost answered = deadline.answers();
            assert(models[at as int] == edges@[at as int].deep_view());
            self.follow_edge(&edges[at], depth, relationships, budget, deadline);
            assert forall|all: Seq<u64>| begins(deadline.answers(), all) implies self.state(
                deadline.answers().len() as int,
            ) == #[trigger] with_edges(start, models, at + 1, depth, known, budget, all) by {
                assert(begins(answered, all));
                assert(before.state(answered.len() as int) == with_edges(
                    start,
                    models,
                    at as int,
                    depth,
                    known,
                    budget,
                    all,
                ));
                assert(self.state(deadline.answers().len() as int) == with_edge(
                    before.state(answered.len() as int),
                    models[at as int],
                    depth,
                    known,
                    budget,
                    all,
                ));
            }
            at += 1;
            if self.truncation.is_some() {
                proof {
                    assert forall|all: Seq<u64>| begins(deadline.answers(), all) implies self.state(
                        deadline.answers().len() as int,
                    ) == #[trigger] with_edges(
                        start,
                        models,
                        models.len() as int,
                        depth,
                        known,
                        budget,
                        all,
                    ) by {
                        stopped_edges_change_nothing(
                            start,
                            models,
                            at as int,
                            models.len() as int,
                            depth,
                            known,
                            budget,
                            all,
                        );
                    }
                }
                return;
            }
        }
    }
}

/// Once ended early, no edge changes anything.
proof fn stopped_edges_change_nothing(
    state: Traversal,
    edges: Seq<EdgeView>,
    count: int,
    more: int,
    depth: u32,
    relationships: Seq<MemoryRelationshipView>,
    budget: EffectiveBudget,
    answers: Seq<u64>,
)
    requires
        0 <= count <= more,
        with_edges(state, edges, count, depth, relationships, budget, answers).truncation is Some,
    ensures
        with_edges(state, edges, more, depth, relationships, budget, answers) == with_edges(
            state,
            edges,
            count,
            depth,
            relationships,
            budget,
            answers,
        ),
    decreases more,
{
    if count < more {
        stopped_edges_change_nothing(
            state,
            edges,
            count,
            more - 1,
            depth,
            relationships,
            budget,
            answers,
        );
    }
}

/// The edges from an entity point at relationships that are there.
proof fn edges_are_in_range(
    relationships: Seq<MemoryRelationshipView>,
    policy: MemoryContextPolicyView,
    id: Seq<char>,
)
    ensures
        forall|i: int|
            0 <= i < edges_from(relationships, policy, id).len() ==> 0 <= (#[trigger] edges_from(
                relationships,
                policy,
                id,
            )[i]).relationship < relationships.len(),
    decreases relationships.len(),
{
    if relationships.len() > 0 {
        let rest = edges_from(relationships.drop_last(), policy, id);
        let edges = edges_from(relationships, policy, id);
        edges_are_in_range(relationships.drop_last(), policy, id);
        assert forall|i: int| 0 <= i < edges.len() implies 0 <= (#[trigger] edges[i]).relationship
            < relationships.len() by {
            if i < rest.len() {
                assert(edges[i] == rest[i]);
            }
        }
    }
}

/// The same holds of the edges in their order.
proof fn neighbors_are_in_range(
    relationships: Seq<MemoryRelationshipView>,
    policy: MemoryContextPolicyView,
    id: Seq<char>,
)
    ensures
        forall|i: int|
            0 <= i < neighbors(relationships, policy, id).len() ==> 0 <= (#[trigger] neighbors(
                relationships,
                policy,
                id,
            )[i]).relationship < relationships.len(),
{
    broadcast use vstd::seq_lib::group_to_multiset_ensures;

    let edges = edges_from(relationships, policy, id);
    let ordered = neighbors(relationships, policy, id);
    edges_are_in_range(relationships, policy, id);
    sorting_orders_and_keeps::<Edge>(edges);
    assert forall|i: int| 0 <= i < ordered.len() implies 0 <= (#[trigger] ordered[i]).relationship
        < relationships.len() by {
        assert(ordered.to_multiset().contains(ordered[i]));
        assert(edges.to_multiset().contains(ordered[i]));
        let j = choose|j: int| 0 <= j < edges.len() && edges[j] == ordered[i];
        assert(edges[j].relationship < relationships.len());
    }
}

/// Where following relationships starts: at those of the ids that are entities, in their order.
pub open spec fn started(
    ids: Seq<Seq<char>>,
    reasons: Map<Seq<char>, Seq<Seq<char>>>,
    entities: Map<Seq<char>, MemoryEntityView>,
    at: int,
) -> Traversal
    decreases ids.len(),
{
    if ids.len() == 0 {
        Traversal {
            queue: Seq::empty(),
            selected: Map::empty(),
            relationships: Map::empty(),
            bytes: 0,
            explored_depth: 0,
            truncation: None,
            at,
        }
    } else {
        let rest = started(ids.drop_last(), reasons, entities, at);
        let id = ids.last();
        if entities.contains_key(id) {
            Traversal {
                queue: rest.queue.push(VisitView { id, depth: 0 }),
                selected: rest.selected.insert(
                    id,
                    SelectionView { depth: 0, reasons: listed(reasons, id) },
                ),
                ..rest
            }
        } else {
            rest
        }
    }
}

fn start(
    reasons: &OrderedMap<Vec<MemoryDiagnosticCode>>,
    entities: &OrderedMap<MemoryEntity>,
    at: Ghost<int>,
) -> (walk: Walk)
    requires
        reasons.well_formed(),
        entities.well_formed(),
    ensures
        walk.well_formed(),
        walk.truncation is None,
        walk.state(at@) == started(
            in_order(reasons.deep_view().dom()),
            reasons.deep_view(),
            entities.deep_view(),
            at@,
        ),
{
    let mut walk = Walk {
        queue: Vec::new(),
        head: 0,
        selected: OrderedMap::new(),
        relationships: OrderedMap::new(),
        bytes: 0,
        explored_depth: 0,
        truncation: None,
    };
    let ids = reasons.keys();
    let mut next: usize = 0;
    assert(walk.queue.deep_view().skip(0) =~= Seq::<VisitView>::empty());
    while next < ids.len()
        invariant
            next <= ids.len(),
            ids.deep_view() == in_order(reasons.deep_view().dom()),
            ids.deep_view().to_set() == reasons.deep_view().dom(),
            reasons.well_formed(),
            entities.well_formed(),
            walk.well_formed(),
            walk.truncation is None,
            walk.head == 0,
            walk.state(at@) == started(
                ids.deep_view().take(next as int),
                reasons.deep_view(),
                entities.deep_view(),
                at@,
            ),
        decreases ids.len() - next,
    {
        let id = &ids[next];
        proof {
            let taken = ids.deep_view().take(next + 1);
            assert(taken.drop_last() =~= ids.deep_view().take(next as int));
            assert(taken.last() == id@);
            assert(ids.deep_view()[next as int] == id@);
            assert(ids.deep_view().to_set().contains(id@));
        }
        if entities.contains(id.as_str()) {
            if let Some(codes) = reasons.get(id.as_str()) {
                let ghost before = walk.queue.deep_view();
                walk.selected.insert(id.clone(), Selection { depth: 0, reasons: codes.copied() });
                walk.queue.push(Visit { id: id.clone(), depth: 0 });
                assert(walk.queue.deep_view() =~= before.push(VisitView { id: id@, depth: 0 }));
                assert(walk.queue.deep_view().skip(0) =~= walk.queue.deep_view());
                assert(before.skip(0) =~= before);
            }
        }
        next += 1;
    }
    assert(ids.deep_view().take(next as int) =~= ids.deep_view());
    walk
}

fn traverse<D: Deadline>(
    walk: &mut Walk,
    relationships: &Vec<MemoryRelationship>,
    policy: &MemoryContextPolicy,
    budget: EffectiveBudget,
    deadline: &mut D,
)
    requires
        old(walk).well_formed(),
        old(walk).truncation is None,
    ensures
        final(walk).well_formed(),
        begins(old(deadline).answers(), final(deadline).answers()),
        forall|all: Seq<u64>|
            begins(final(deadline).answers(), all) ==> final(walk).state(
                final(deadline).answers().len() as int,
            ) == #[trigger] traversed(
                old(walk).state(old(deadline).answers().len() as int),
                relationships.deep_view(),
                policy.deep_view(),
                budget,
                all,
            ),
{
    let ghost begun = walk.state(deadline.answers().len() as int);
    let ghost models = relationships.deep_view();
    let ghost shown = policy.deep_view();
    let mut count: Ghost<nat> = Ghost(0);
    let edges = adjacency(relationships, policy);
    while walk.head < walk.queue.len() && walk.truncation.is_none()
        invariant
            models == relationships.deep_view(),
            shown == policy.deep_view(),
            begun == old(walk).state(old(deadline).answers().len() as int),
            edges.well_formed(),
            lists_edges(edges.deep_view(), models, shown),
            walk.well_formed(),
            begins(old(deadline).answers(), deadline.answers()),
            forall|all: Seq<u64>|
                begins(deadline.answers(), all) ==> walk.state(deadline.answers().len() as int)
                    == #[trigger] visits(begun, count@, models, shown, budget, all),
        decreases walk.measure(),
    {
        let ghost before = *walk;
        let ghost answered = deadline.answers();
        visit(walk, &edges, relationships, policy, budget, deadline);
        assert forall|all: Seq<u64>| begins(deadline.answers(), all) implies walk.state(
            deadline.answers().len() as int,
        ) == #[trigger] visits(begun, (count@ + 1) as nat, models, shown, budget, all) by {
            assert(begins(answered, all));
            assert(before.state(answered.len() as int) == visits(begun, count@, models, shown, budget, all));
            assert(walk.state(deadline.answers().len() as int) == next_visit(
                before.state(answered.len() as int),
                models,
                shown,
                budget,
                all,
            ));
        }
        count = Ghost((count@ + 1) as nat);
    }
    proof {
        assert forall|all: Seq<u64>| begins(deadline.answers(), all) implies walk.state(
            deadline.answers().len() as int,
        ) == #[trigger] traversed(begun, models, shown, budget, all) by {
            assert(is_finished(visits(begun, count@, models, shown, budget, all)));
            end_is_reached(begun, count@, models, shown, budget, all);
        }
    }
}

fn visit<D: Deadline>(
    walk: &mut Walk,
    edges: &OrderedMap<Vec<Edge>>,
    relationships: &Vec<MemoryRelationship>,
    policy: &MemoryContextPolicy,
    budget: EffectiveBudget,
    deadline: &mut D,
)
    requires
        edges.well_formed(),
        lists_edges(edges.deep_view(), relationships.deep_view(), policy.deep_view()),
        old(walk).well_formed(),
        old(walk).head < old(walk).queue.len(),
        old(walk).truncation is None,
    ensures
        final(walk).well_formed(),
        final(walk).measure() < old(walk).measure(),
        begins(old(deadline).answers(), final(deadline).answers()),
        forall|all: Seq<u64>|
            begins(final(deadline).answers(), all) ==> final(walk).state(
                final(deadline).answers().len() as int,
            ) == #[trigger] next_visit(
                old(walk).state(old(deadline).answers().len() as int),
                relationships.deep_view(),
                policy.deep_view(),
                budget,
                all,
            ),
{
    let ghost before = *walk;
    let ghost asked_from = deadline.answers().len() as int;
    let id = walk.queue[walk.head].id.clone();
    let depth = walk.queue[walk.head].depth;
    walk.head = walk.head + 1;
    assert(walk.queue.deep_view().skip(walk.head as int) =~= before.queue.deep_view().skip(
        before.head as int,
    ).skip(1));
    assert(before.queue.deep_view().skip(before.head as int)[0] == (VisitView { id: id@, depth }));
    let expired = deadline.expired();
    assert forall|all: Seq<u64>|
        begins(deadline.answers(), all) implies is_up(all[asked_from]) == expired by {
        assert(all[asked_from] == deadline.answers()[asked_from]);
    }
    if expired {
        walk.truncation = Some(MemoryTruncationReason::Duration);
        return;
    }
    if depth > walk.explored_depth {
        walk.explored_depth = depth;
    }
    if depth >= budget.max_depth {
        return;
    }
    let found: Vec<Edge> = match edges.get(id.as_str()) {
        Some(found) => found.copied(),
        None => Vec::new(),
    };
    assert(found.deep_view() =~= listed(edges.deep_view(), id@));
    let ordered = sort(found);
    proof {
        neighbors_are_in_range(relationships.deep_view(), policy.deep_view(), id@);
        assert(ordered.deep_view() == neighbors(relationships.deep_view(), policy.deep_view(), id@));
        assert forall|i: int| 0 <= i < ordered.len() implies (#[trigger] ordered@[i]).relationship
            < relationships.len() by {
            assert(ordered.deep_view()[i].relationship == ordered@[i].relationship);
        }
    }
    walk.follow_edges(&ordered, depth, relationships, budget, deadline);
}

/// The candidates among the selected ids: those that are entities, each with its reasons in order
/// and once each.
pub open spec fn candidates_among(
    ids: Seq<Seq<char>>,
    selected: Map<Seq<char>, SelectionView>,
    entities: Map<Seq<char>, MemoryEntityView>,
) -> Seq<ContextCandidateView>
    decreases ids.len(),
{
    if ids.len() == 0 {
        Seq::empty()
    } else {
        let rest = candidates_among(ids.drop_last(), selected, entities);
        let id = ids.last();
        if entities.contains_key(id) {
            rest.push(
                ContextCandidateView {
                    entity: entities[id],
                    depth: selected[id].depth,
                    selection_reasons: deduplicated::<MemoryDiagnosticCode>(
                        sorted::<MemoryDiagnosticCode>(selected[id].reasons),
                    ),
                },
            )
        } else {
            rest
        }
    }
}

fn candidates(
    selected: &OrderedMap<Selection>,
    entities: &OrderedMap<MemoryEntity>,
) -> (result: Vec<ContextCandidate>)
    requires
        selected.well_formed(),
        entities.well_formed(),
    ensures
        result.deep_view() == sorted::<ContextCandidate>(
            candidates_among(
                in_order(selected.deep_view().dom()),
                selected.deep_view(),
                entities.deep_view(),
            ),
        ),
{
    let ids = selected.keys();
    let mut result: Vec<ContextCandidate> = Vec::new();
    let mut next: usize = 0;
    assert(result.deep_view() =~= candidates_among(
        ids.deep_view().take(0),
        selected.deep_view(),
        entities.deep_view(),
    ));
    while next < ids.len()
        invariant
            next <= ids.len(),
            ids.deep_view() == in_order(selected.deep_view().dom()),
            ids.deep_view().to_set() == selected.deep_view().dom(),
            selected.well_formed(),
            entities.well_formed(),
            result.deep_view() == candidates_among(
                ids.deep_view().take(next as int),
                selected.deep_view(),
                entities.deep_view(),
            ),
        decreases ids.len() - next,
    {
        let id = &ids[next];
        proof {
            let taken = ids.deep_view().take(next + 1);
            assert(taken.drop_last() =~= ids.deep_view().take(next as int));
            assert(taken.last() == id@);
            assert(ids.deep_view()[next as int] == id@);
            assert(ids.deep_view().to_set().contains(id@));
        }
        if let Some(entity) = entities.get(id.as_str()) {
            if let Some(selection) = selected.get(id.as_str()) {
                let ghost before = result.deep_view();
                let reasons = sort(selection.reasons.copied());
                let candidate = ContextCandidate {
                    entity: entity.copied(),
                    depth: selection.depth,
                    selection_reasons: dedup(&reasons),
                };
                result.push(candidate);
                assert(result.deep_view() =~= before.push(candidate.deep_view()));
            }
        }
        next += 1;
    }
    assert(ids.deep_view().take(next as int) =~= ids.deep_view());
    sort(result)
}

/// What a context is made of: entities, relationships, how deep it goes and why it ends early.
pub struct ContextAssembly {
    pub candidates: Vec<ContextCandidate>,
    pub relationships: Vec<MemoryRelationship>,
    pub explored_depth: u32,
    pub truncation: Option<MemoryTruncationReason>,
}

/// The model of [`ContextAssembly`].
pub struct ContextAssemblyView {
    pub candidates: Seq<ContextCandidateView>,
    pub relationships: Seq<MemoryRelationshipView>,
    pub explored_depth: u32,
    pub truncation: Option<MemoryTruncationReason>,
}

impl DeepView for ContextAssembly {
    type V = ContextAssemblyView;

    open spec fn deep_view(&self) -> ContextAssemblyView {
        ContextAssemblyView {
            candidates: self.candidates.deep_view(),
            relationships: self.relationships.deep_view(),
            explored_depth: self.explored_depth,
            truncation: self.truncation,
        }
    }
}

/// What following relationships has gathered.
pub open spec fn gathered(
    state: Traversal,
    entities: Map<Seq<char>, MemoryEntityView>,
) -> ContextAssemblyView {
    ContextAssemblyView {
        candidates: sorted::<ContextCandidate>(
            candidates_among(in_order(state.selected.dom()), state.selected, entities),
        ),
        relationships: values_in_order(state.relationships),
        explored_depth: state.explored_depth,
        truncation: state.truncation,
    }
}

/// Where following relationships from the seeds' ids ends.
pub open spec fn walked(
    reasons: Map<Seq<char>, Seq<Seq<char>>>,
    entities: Map<Seq<char>, MemoryEntityView>,
    relationships: Seq<MemoryRelationshipView>,
    policy: MemoryContextPolicyView,
    budget: EffectiveBudget,
    answers: Seq<u64>,
    at: int,
) -> Traversal {
    traversed(
        started(in_order(reasons.dom()), reasons, entities, at),
        relationships,
        policy,
        budget,
        answers,
    )
}

/// Gathers what a context is made of, from the ids at which the seeds start.
pub fn assemble<D: Deadline>(
    reasons: &OrderedMap<Vec<MemoryDiagnosticCode>>,
    entities: &OrderedMap<MemoryEntity>,
    relationships: &Vec<MemoryRelationship>,
    policy: &MemoryContextPolicy,
    budget: EffectiveBudget,
    deadline: &mut D,
) -> (assembly: ContextAssembly)
    requires
        reasons.well_formed(),
        entities.well_formed(),
    ensures
        begins(old(deadline).answers(), final(deadline).answers()),
        forall|all: Seq<u64>|
            begins(final(deadline).answers(), all) ==> {
                let end = #[trigger] walked(
                    reasons.deep_view(),
                    entities.deep_view(),
                    relationships.deep_view(),
                    policy.deep_view(),
                    budget,
                    all,
                    old(deadline).answers().len() as int,
                );
                &&& assembly.deep_view() == gathered(end, entities.deep_view())
                &&& end.at == final(deadline).answers().len()
            },
{
    let ghost asked_from = deadline.answers().len() as int;
    let mut walk = start(reasons, entities, Ghost(asked_from));
    traverse(&mut walk, relationships, policy, budget, deadline);
    let candidates = candidates(&walk.selected, entities);
    let explored_depth = walk.explored_depth;
    let truncation = walk.truncation;
    let relationships = walk.relationships.into_values();
    ContextAssembly { candidates, relationships, explored_depth, truncation }
}

}
