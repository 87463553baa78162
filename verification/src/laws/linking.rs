//! Which places in the repository the memory is linked to, and whether they are still there.
use vstd::prelude::*;
use crate::digest::DigestView;
use crate::domain::{
    MemoryEntityDataView, MemoryEntityView, MemoryRelationshipKind, MemoryRelationshipTargetView,
    MemoryRelationshipView, MemoryResolutionState, MemoryRevisionView, MemorySourceLocatorView, ProjectRefView,
};
use crate::laws::lists::{push_holds, sum_holds};
use crate::laws::searching::says;
use crate::laws::texts::{is_blank, is_tight, trimming_takes_the_space_around};
use crate::links::{
    changes, differing_paths, entity_proposals, file_map, has_file, keyed_nodes,
    link_state_diagnostics, linked, listed_files, local_target, milestone_entities,
    milestone_entity, nodes_with_key, reference_in, referenced_paths, referenced_symbols,
    references, refers, refers_at, snapshot_target, symbol_nodes_of, task_proposals,
    unavailability, ChangedPathView, ExplicitRepositoryReferenceView, GraphOpening,
    LinkCandidateView, LocalRepositoryLinkResolverView, LocalSnapshotView,
};
use crate::order::{in_order, in_order_holds};
use crate::repository::{is_repo_path, FactEvidenceView, GraphNodeView, RepositoryRefView};
use crate::text::split_at_each;
use crate::value::is_bounded_text;

verus! {

/// Code that names a path behind its mark refers to the path, and code that names a symbol behind its
/// mark to the symbol, with space around or without.
pub proof fn marked_code_refers(before: Seq<char>, gap: Seq<char>, named: Seq<char>, behind: Seq<char>)
    requires
        is_blank(before),
        is_blank(gap),
        is_blank(behind),
        named.len() > 0,
        is_tight(named),
        !(before + "path:"@ + gap + named + behind).contains('\n') && !(before + "path:"@ + gap + named
            + behind).contains('\r'),
        !(before + "symbol:"@ + gap + named + behind).contains('\n') && !(before + "symbol:"@ + gap + named
            + behind).contains('\r'),
    ensures
        reference_in(before + "path:"@ + gap + named + behind) == if is_repo_path(named) {
            Some(ExplicitRepositoryReferenceView::Path(named))
        } else {
            None
        },
        reference_in(before + "symbol:"@ + gap + named + behind) == if is_bounded_text(named, 512, false) {
            Some(ExplicitRepositoryReferenceView::Symbol(named))
        } else {
            None
        },
{
    reveal_strlit("path:");
    reveal_strlit("symbol:");
    let none = Seq::<char>::empty();
    let path = "path:"@ + gap + named;
    let symbol = "symbol:"@ + gap + named;
    assert(before + "path:"@ + gap + named + behind =~= before + path + behind);
    assert(before + "symbol:"@ + gap + named + behind =~= before + symbol + behind);
    assert(path[0] == 'p' && path.last() == named.last());
    assert(symbol[0] == 's' && symbol.last() == named.last());
    trimming_takes_the_space_around(before, path, behind);
    trimming_takes_the_space_around(before, symbol, behind);
    assert("path:"@.is_prefix_of(path)) by {
        assert(path.take("path:"@.len() as int) =~= "path:"@);
    }
    assert("symbol:"@.is_prefix_of(symbol)) by {
        assert(symbol.take("symbol:"@.len() as int) =~= "symbol:"@);
    }
    assert(!"path:"@.is_prefix_of(symbol)) by {
        assert(symbol.take("path:"@.len() as int)[0] == 's');
    }
    assert(path.skip("path:"@.len() as int) =~= gap + named + none);
    assert(symbol.skip("symbol:"@.len() as int) =~= gap + named + none);
    trimming_takes_the_space_around(gap, named, none);
    assert(!"symbol:"@.is_prefix_of(path)) by {
        if path.len() >= "symbol:"@.len() {
            assert(path.take("symbol:"@.len() as int)[0] == 'p');
        }
    }
}

/// Code with a line end refers to nothing, and neither does code without one of the marks.
pub proof fn other_code_refers_to_nothing(code: Seq<char>)
    ensures
        code.contains('\n') || code.contains('\r') ==> reference_in(code) is None,
        !"path:"@.is_prefix_of(crate::text::trimmed(code)) && !"symbol:"@.is_prefix_of(crate::text::trimmed(code))
            ==> reference_in(code) is None,
        reference_in(code) matches Some(ExplicitRepositoryReferenceView::Path(path)) ==> is_repo_path(path),
{
}

/// A text splits at a separator into what stands before it and what stands behind it.
pub proof fn splitting_goes_on_behind_a_separator(left: Seq<char>, separator: char, right: Seq<char>)
    ensures
        split_at_each(left.push(separator) + right, separator) == split_at_each(left, separator) + split_at_each(
            right,
            separator,
        ),
        split_at_each(right, separator).len() > 0,
    decreases right.len(),
{
    let all = left.push(separator) + right;
    let before = split_at_each(left, separator);
    if right.len() == 0 {
        assert(all =~= left.push(separator));
        assert(all.drop_last() =~= left);
        assert(before.push(Seq::empty()) =~= before + seq![Seq::<char>::empty()]);
    } else {
        let rest = right.drop_last();
        splitting_goes_on_behind_a_separator(left, separator, rest);
        assert(all.drop_last() =~= left.push(separator) + rest);
        assert(all.last() == right.last());
        let parts = split_at_each(rest, separator);
        if right.last() == separator {
            assert((before + parts).push(Seq::empty()) =~= before + parts.push(Seq::empty()));
        } else {
            assert((before + parts).drop_last() =~= before + parts.drop_last());
            assert((before + parts).last() == parts.last());
            assert((before + parts.drop_last()).push(parts.last().push(right.last())) =~= before
                + parts.drop_last().push(parts.last().push(right.last())));
        }
    }
}

proof fn references_are_finite(parts: Seq<Seq<char>>)
    ensures
        referenced_paths(parts).finite(),
        referenced_symbols(parts).finite(),
{
    let paths = parts.map_values(
        |part: Seq<char>|
            match reference_in(part) {
                Some(ExplicitRepositoryReferenceView::Path(path)) => path,
                _ => Seq::empty(),
            },
    );
    let symbols = parts.map_values(
        |part: Seq<char>|
            match reference_in(part) {
                Some(ExplicitRepositoryReferenceView::Symbol(key)) => key,
                _ => Seq::empty(),
            },
    );
    vstd::seq_lib::seq_to_set_is_finite(paths);
    vstd::seq_lib::seq_to_set_is_finite(symbols);
    assert(referenced_paths(parts).subset_of(paths.to_set())) by {
        assert forall|path: Seq<char>| referenced_paths(parts).contains(path) implies paths.to_set().contains(path) by {
            let at = choose|at: int| refers_at(parts, at, ExplicitRepositoryReferenceView::Path(path));
            assert(paths[at] == path);
        }
    }
    assert(referenced_symbols(parts).subset_of(symbols.to_set())) by {
        assert forall|key: Seq<char>|
            referenced_symbols(parts).contains(key) implies symbols.to_set().contains(key) by {
            let at = choose|at: int| refers_at(parts, at, ExplicitRepositoryReferenceView::Symbol(key));
            assert(symbols[at] == key);
        }
    }
    vstd::set_lib::lemma_len_subset(referenced_paths(parts), paths.to_set());
    vstd::set_lib::lemma_len_subset(referenced_symbols(parts), symbols.to_set());
}

proof fn ordered_holds(keys: Set<Seq<char>>, key: Seq<char>)
    requires
        keys.finite(),
    ensures
        in_order(keys).contains(key) == keys.contains(key),
{
    keys.lemma_to_seq_to_set_id();
    in_order_holds(keys.to_seq());
    assert(in_order(keys).to_set().contains(key) == keys.contains(key));
}

proof fn references_hold(text: Seq<char>, reference: ExplicitRepositoryReferenceView)
    ensures
        references(text).contains(reference) == refers(split_at_each(text, '`'), reference),
{
    let parts = split_at_each(text, '`');
    references_are_finite(parts);
    let paths = in_order(referenced_paths(parts)).map_values(
        |path: Seq<char>| ExplicitRepositoryReferenceView::Path(path),
    );
    let symbols = in_order(referenced_symbols(parts)).map_values(
        |key: Seq<char>| ExplicitRepositoryReferenceView::Symbol(key),
    );
    sum_holds(paths, symbols, reference);
    match reference {
        ExplicitRepositoryReferenceView::Path(path) => {
            ordered_holds(referenced_paths(parts), path);
            let order = in_order(referenced_paths(parts));
            if order.contains(path) {
                let i = choose|i: int| 0 <= i < order.len() && order[i] == path;
                assert(paths[i] == reference);
            }
            if paths.contains(reference) {
                let i = choose|i: int| 0 <= i < paths.len() && paths[i] == reference;
                assert(order[i] == path);
            }
        },
        ExplicitRepositoryReferenceView::Symbol(key) => {
            ordered_holds(referenced_symbols(parts), key);
            let order = in_order(referenced_symbols(parts));
            if order.contains(key) {
                let i = choose|i: int| 0 <= i < order.len() && order[i] == key;
                assert(symbols[i] == reference);
            }
            if symbols.contains(reference) {
                let i = choose|i: int| 0 <= i < symbols.len() && symbols[i] == reference;
                assert(order[i] == key);
            }
        },
    }
}

/// Code between back quotes is looked into, wherever in a text it stands.
pub proof fn quoted_code_is_looked_into(
    before: Seq<char>,
    code: Seq<char>,
    behind: Seq<char>,
    reference: ExplicitRepositoryReferenceView,
)
    requires
        !code.contains('`'),
        split_at_each(before, '`').len() % 2 == 1,
        reference_in(code) == Some(reference),
    ensures
        references(before.push('`') + code.push('`') + behind).contains(reference),
{
    let text = before.push('`') + code.push('`') + behind;
    let rest = code.push('`') + behind;
    assert(text =~= before.push('`') + rest);
    splitting_goes_on_behind_a_separator(before, '`', rest);
    splitting_goes_on_behind_a_separator(code, '`', behind);
    crate::laws::texts::splitting_parts_at_the_separator(Seq::empty(), '`', code);
    let parts = split_at_each(text, '`');
    let at = split_at_each(before, '`').len() as int;
    assert(parts[at] == code);
    assert(refers_at(parts, at, reference));
    references_hold(text, reference);
}

/// Where nothing is quoted, nothing is referred to.
pub proof fn unquoted_text_refers_to_nothing(text: Seq<char>, reference: ExplicitRepositoryReferenceView)
    requires
        !text.contains('`'),
    ensures
        !references(text).contains(reference),
{
    crate::laws::texts::splitting_parts_at_the_separator(Seq::empty(), '`', text);
    references_hold(text, reference);
}

/// A snapshot holds the files of its nodes.
pub proof fn snapshots_hold_the_files_of_their_nodes(nodes: Seq<GraphNodeView>, path: Seq<char>)
    ensures
        file_map(nodes).contains_key(path) == exists|i: int|
            0 <= i < nodes.len() && (#[trigger] nodes[i]).provenance.evidence is Some
                && nodes[i].provenance.evidence->0.path == path,
    decreases nodes.len(),
{
    if nodes.len() > 0 {
        let rest = nodes.drop_last();
        snapshots_hold_the_files_of_their_nodes(rest, path);
        assert(nodes[nodes.len() - 1] == nodes.last());
        if file_map(rest).contains_key(path) {
            let i = choose|i: int|
                0 <= i < rest.len() && (#[trigger] rest[i]).provenance.evidence is Some
                    && rest[i].provenance.evidence->0.path == path;
            assert(nodes[i] == rest[i]);
        }
        if exists|i: int|
            0 <= i < nodes.len() && (#[trigger] nodes[i]).provenance.evidence is Some
                && nodes[i].provenance.evidence->0.path == path {
            let i = choose|i: int|
                0 <= i < nodes.len() && (#[trigger] nodes[i]).provenance.evidence is Some
                    && nodes[i].provenance.evidence->0.path == path;
            if i < rest.len() {
                assert(rest[i] == nodes[i]);
            }
        }
    }
}

proof fn listed_files_hold(files: Seq<FactEvidenceView>, path: Seq<char>)
    ensures
        listed_files(files).contains_key(path) == exists|i: int|
            0 <= i < files.len() && (#[trigger] files[i]).path == path,
    decreases files.len(),
{
    if files.len() > 0 {
        let rest = files.drop_last();
        listed_files_hold(rest, path);
        assert(files[files.len() - 1] == files.last());
        if listed_files(rest).contains_key(path) {
            let i = choose|i: int| 0 <= i < rest.len() && (#[trigger] rest[i]).path == path;
            assert(files[i] == rest[i]);
        }
        if exists|i: int| 0 <= i < files.len() && (#[trigger] files[i]).path == path {
            let i = choose|i: int| 0 <= i < files.len() && (#[trigger] files[i]).path == path;
            if i < rest.len() {
                assert(rest[i] == files[i]);
            }
        }
    }
}

proof fn nodes_of_key_hold(nodes: Seq<GraphNodeView>, key: Seq<char>, at: int)
    requires
        0 <= at < nodes.len(),
        nodes[at].semantic_key == Some(key),
        forall|i: int| 0 <= i < nodes.len() && i != at ==> (#[trigger] nodes[i]).semantic_key != Some(key),
    ensures
        nodes_with_key(nodes, key) == seq![nodes[at].id],
    decreases nodes.len(),
{
    let rest = nodes.drop_last();
    assert forall|i: int| 0 <= i < rest.len() implies #[trigger] rest[i] == nodes[i] by {}
    assert(nodes[nodes.len() - 1] == nodes.last());
    if at < rest.len() {
        nodes_of_key_hold(rest, key, at);
    } else {
        no_node_has_key(rest, key);
        assert(Seq::<Seq<char>>::empty().push(nodes[at].id) =~= seq![nodes[at].id]);
    }
}

proof fn no_node_has_key(nodes: Seq<GraphNodeView>, key: Seq<char>)
    requires
        forall|i: int| 0 <= i < nodes.len() ==> (#[trigger] nodes[i]).semantic_key != Some(key),
    ensures
        nodes_with_key(nodes, key) == Seq::<Seq<char>>::empty(),
    decreases nodes.len(),
{
    if nodes.len() > 0 {
        assert(nodes[nodes.len() - 1] == nodes.last());
        assert forall|i: int| 0 <= i < nodes.drop_last().len() implies (#[trigger] nodes.drop_last()[i]).semantic_key
            != Some(key) by {
            assert(nodes.drop_last()[i] == nodes[i]);
        }
        no_node_has_key(nodes.drop_last(), key);
    }
}

proof fn two_nodes_have_key(nodes: Seq<GraphNodeView>, key: Seq<char>, first: int, second: int)
    requires
        0 <= first < second < nodes.len(),
        nodes[first].semantic_key == Some(key),
        nodes[second].semantic_key == Some(key),
    ensures
        nodes_with_key(nodes, key).len() > 1,
    decreases nodes.len(),
{
    let rest = nodes.drop_last();
    if second < rest.len() {
        assert(rest[first] == nodes[first] && rest[second] == nodes[second]);
        two_nodes_have_key(rest, key, first, second);
    } else {
        assert(rest[first] == nodes[first]);
        one_node_has_key(rest, key, first);
    }
}

proof fn one_node_has_key(nodes: Seq<GraphNodeView>, key: Seq<char>, at: int)
    requires
        0 <= at < nodes.len(),
        nodes[at].semantic_key == Some(key),
    ensures
        nodes_with_key(nodes, key).len() > 0,
    decreases nodes.len(),
{
    let rest = nodes.drop_last();
    if at < rest.len() {
        assert(rest[at] == nodes[at]);
        one_node_has_key(rest, key, at);
    }
}

/// A reference to a path is resolved in the current snapshot where a node of it stands in this file; else
/// it is stale where the file is known from where the reference comes from; else it is unresolved.
pub proof fn paths_are_resolved_where_they_are(
    candidate: LinkCandidateView,
    repository: RepositoryRefView,
    snapshot_id: Seq<char>,
    nodes: Seq<GraphNodeView>,
    snapshots: Map<Seq<char>, Map<Seq<char>, DigestView>>,
    path: Seq<char>,
)
    requires
        candidate.reference == ExplicitRepositoryReferenceView::Path(path),
    ensures
        ({
            let here = exists|i: int|
                0 <= i < nodes.len() && (#[trigger] nodes[i]).provenance.evidence is Some
                    && nodes[i].provenance.evidence->0.path == path;
            let there = candidate.origin_snapshot_id is Some && snapshots.contains_key(
                candidate.origin_snapshot_id->0,
            ) && snapshots[candidate.origin_snapshot_id->0].contains_key(path);
            let link = snapshot_target(candidate, repository, snapshot_id, nodes, snapshots);
            &&& here ==> link.resolution == MemoryResolutionState::Resolved && link.target
                == (MemoryRelationshipTargetView::RepositoryPath { repository, path, snapshot_id: Some(snapshot_id) })
            &&& !here && there ==> link.resolution == MemoryResolutionState::Stale && link.target
                == (MemoryRelationshipTargetView::RepositoryPath {
                repository,
                path,
                snapshot_id: candidate.origin_snapshot_id,
            })
            &&& !here && !there ==> link.resolution == MemoryResolutionState::Unresolved && link.target
                == (MemoryRelationshipTargetView::RepositoryPath { repository, path, snapshot_id: None })
        }),
{
    snapshots_hold_the_files_of_their_nodes(nodes, path);
}

/// A reference to a symbol is resolved to the one node of the current snapshot that carries its key; where
/// none does, or several, it is unresolved and names the symbol.
pub proof fn symbols_are_resolved_to_their_node(
    candidate: LinkCandidateView,
    repository: RepositoryRefView,
    snapshot_id: Seq<char>,
    nodes: Seq<GraphNodeView>,
    snapshots: Map<Seq<char>, Map<Seq<char>, DigestView>>,
    key: Seq<char>,
    first: int,
    second: int,
)
    requires
        candidate.reference == ExplicitRepositoryReferenceView::Symbol(key),
    ensures
        ({
            let link = snapshot_target(candidate, repository, snapshot_id, nodes, snapshots);
            &&& (0 <= first < nodes.len() && nodes[first].semantic_key == Some(key) && forall|i: int|
                0 <= i < nodes.len() && i != first ==> (#[trigger] nodes[i]).semantic_key != Some(key))
                ==> link.resolution == MemoryResolutionState::Resolved && link.target
                == (MemoryRelationshipTargetView::RepositoryNode {
                repository,
                snapshot_id,
                node_id: nodes[first].id,
                semantic_key: Some(key),
            })
            &&& (forall|i: int| 0 <= i < nodes.len() ==> (#[trigger] nodes[i]).semantic_key != Some(key))
                ==> link.resolution == MemoryResolutionState::Unresolved && link.target
                == (MemoryRelationshipTargetView::RepositorySymbol {
                repository,
                semantic_key: key,
                snapshot_id: None,
            })
            &&& (0 <= first < second < nodes.len() && nodes[first].semantic_key == Some(key)
                && nodes[second].semantic_key == Some(key)) ==> link.resolution
                == MemoryResolutionState::Unresolved && link.target
                == (MemoryRelationshipTargetView::RepositorySymbol {
                repository,
                semantic_key: key,
                snapshot_id: None,
            })
        }),
{
    if 0 <= first < nodes.len() && nodes[first].semantic_key == Some(key) && (forall|i: int|
        0 <= i < nodes.len() && i != first ==> (#[trigger] nodes[i]).semantic_key != Some(key)) {
        nodes_of_key_hold(nodes, key, first);
    }
    if forall|i: int| 0 <= i < nodes.len() ==> (#[trigger] nodes[i]).semantic_key != Some(key) {
        no_node_has_key(nodes, key);
    }
    if 0 <= first < second < nodes.len() && nodes[first].semantic_key == Some(key) && nodes[second].semantic_key
        == Some(key) {
        two_nodes_have_key(nodes, key, first, second);
    }
}

/// Whether a file stands in a snapshot that is known.
pub open spec fn stands_in_snapshot(snapshots: Seq<LocalSnapshotView>, id: Seq<char>, path: Seq<char>) -> bool {
    exists|i: int, j: int|
        0 <= i < snapshots.len() && snapshots[i].id == id && 0 <= j < snapshots[i].files.len() && (
        #[trigger] snapshots[i].files[j]).path == path
}

proof fn files_stand_in_snapshots(snapshots: Seq<LocalSnapshotView>, id: Seq<char>, path: Seq<char>)
    ensures
        has_file(snapshots, id, path) == stands_in_snapshot(snapshots, id, path),
{
    if has_file(snapshots, id, path) {
        let i = choose|i: int| crate::links::file_stands_at(snapshots, i, id, path);
        listed_files_hold(snapshots[i].files, path);
        let j = choose|j: int|
            0 <= j < snapshots[i].files.len() && (#[trigger] snapshots[i].files[j]).path == path;
        assert(snapshots[i].files[j].path == path);
    }
    if stands_in_snapshot(snapshots, id, path) {
        let (i, j) = choose|i: int, j: int|
            0 <= i < snapshots.len() && snapshots[i].id == id && 0 <= j < snapshots[i].files.len() && (
            #[trigger] snapshots[i].files[j]).path == path;
        listed_files_hold(snapshots[i].files, path);
        assert(snapshots[i].files[j].path == path);
        assert(crate::links::file_stands_at(snapshots, i, id, path));
    }
}

/// In the repository here, a reference to a path is resolved where the current snapshot has this file; else
/// stale where the snapshot that it comes from has it; else it keeps pointing, as stale, at what it was
/// found at before; else it is unresolved.
pub proof fn local_paths_are_resolved_where_they_are(
    resolver: LocalRepositoryLinkResolverView,
    candidate: LinkCandidateView,
    previous: Option<MemoryRelationshipView>,
    path: Seq<char>,
)
    requires
        candidate.reference == ExplicitRepositoryReferenceView::Path(path),
    ensures
        ({
            let current = resolver.repository_snapshot_id;
            let origin = candidate.origin_snapshot_id;
            let here = current is Some && stands_in_snapshot(resolver.snapshots, current->0, path);
            let there = origin is Some && stands_in_snapshot(resolver.snapshots, origin->0, path);
            let before = previous is Some && previous->0.provenance.resolution != MemoryResolutionState::Unresolved;
            let link = local_target(resolver, candidate, previous);
            &&& here ==> link.resolution == MemoryResolutionState::Resolved && link.target
                == (MemoryRelationshipTargetView::RepositoryPath {
                repository: resolver.repository,
                path,
                snapshot_id: current,
            })
            &&& !here && there ==> link.resolution == MemoryResolutionState::Stale && link.target
                == (MemoryRelationshipTargetView::RepositoryPath {
                repository: resolver.repository,
                path,
                snapshot_id: origin,
            })
            &&& !here && !there && before ==> link.resolution == MemoryResolutionState::Stale && link.target
                == previous->0.target
            &&& !here && !there && !before ==> link.resolution == MemoryResolutionState::Unresolved && link.target
                == (MemoryRelationshipTargetView::RepositoryPath {
                repository: resolver.repository,
                path,
                snapshot_id: None,
            })
        }),
{
    if let Some(current) = resolver.repository_snapshot_id {
        files_stand_in_snapshots(resolver.snapshots, current, path);
    }
    if let Some(origin) = candidate.origin_snapshot_id {
        files_stand_in_snapshots(resolver.snapshots, origin, path);
    }
}

/// Whether a node of a snapshot carries a key.
pub open spec fn carries_key(snapshots: Seq<LocalSnapshotView>, id: Seq<char>, key: Seq<char>, node: Seq<char>) -> bool {
    exists|i: int, j: int|
        0 <= i < snapshots.len() && snapshots[i].id == id && 0 <= j < snapshots[i].symbols.len() && (
        #[trigger] snapshots[i].symbols[j]).semantic_key == key && snapshots[i].symbols[j].node_id == node
}

proof fn keyed_nodes_hold(symbols: Seq<crate::links::SymbolNodeView>, key: Seq<char>, node: Seq<char>)
    ensures
        keyed_nodes(symbols, key).contains(node) == exists|j: int|
            0 <= j < symbols.len() && (#[trigger] symbols[j]).semantic_key == key && symbols[j].node_id == node,
    decreases symbols.len(),
{
    if symbols.len() > 0 {
        let rest = symbols.drop_last();
        keyed_nodes_hold(rest, key, node);
        let before = keyed_nodes(rest, key);
        push_holds(before, symbols.last().node_id, node);
        assert(symbols[symbols.len() - 1] == symbols.last());
        if before.contains(node) {
            let j = choose|j: int|
                0 <= j < rest.len() && (#[trigger] rest[j]).semantic_key == key && rest[j].node_id == node;
            assert(symbols[j] == rest[j]);
        }
        if exists|j: int|
            0 <= j < symbols.len() && (#[trigger] symbols[j]).semantic_key == key && symbols[j].node_id == node {
            let j = choose|j: int|
                0 <= j < symbols.len() && (#[trigger] symbols[j]).semantic_key == key && symbols[j].node_id == node;
            if j < rest.len() {
                assert(rest[j] == symbols[j]);
            }
        }
    }
}

proof fn symbol_nodes_hold(snapshots: Seq<LocalSnapshotView>, id: Seq<char>, key: Seq<char>, node: Seq<char>)
    ensures
        symbol_nodes_of(snapshots, id, key).contains(node) == carries_key(snapshots, id, key, node),
    decreases snapshots.len(),
{
    if snapshots.len() > 0 {
        let rest = snapshots.drop_last();
        let last = snapshots.last();
        symbol_nodes_hold(rest, id, key, node);
        keyed_nodes_hold(last.symbols, key, node);
        sum_holds(symbol_nodes_of(rest, id, key), keyed_nodes(last.symbols, key), node);
        if carries_key(rest, id, key, node) {
            let (i, j) = choose|i: int, j: int|
                0 <= i < rest.len() && rest[i].id == id && 0 <= j < rest[i].symbols.len() && (
                #[trigger] rest[i].symbols[j]).semantic_key == key && rest[i].symbols[j].node_id == node;
            assert(snapshots[i] == rest[i]);
            assert(snapshots[i].symbols[j].semantic_key == key);
        }
        if last.id == id && keyed_nodes(last.symbols, key).contains(node) {
            let j = choose|j: int|
                0 <= j < last.symbols.len() && (#[trigger] last.symbols[j]).semantic_key == key
                    && last.symbols[j].node_id == node;
            assert(snapshots[snapshots.len() - 1].symbols[j].semantic_key == key);
        }
        if carries_key(snapshots, id, key, node) {
            let (i, j) = choose|i: int, j: int|
                0 <= i < snapshots.len() && snapshots[i].id == id && 0 <= j < snapshots[i].symbols.len() && (
                #[trigger] snapshots[i].symbols[j]).semantic_key == key && snapshots[i].symbols[j].node_id == node;
            if i < rest.len() {
                assert(rest[i] == snapshots[i]);
                assert(rest[i].symbols[j].semantic_key == key);
            } else {
                assert(last.symbols[j].semantic_key == key);
            }
        }
    }
}

/// In the repository here, a reference to a symbol that is resolved points at a node of the current
/// snapshot that carries its key; one that is stale points at a node of the snapshot that it comes from
/// which carries its key, or at what it was found at before; and where several nodes of the current
/// snapshot carry the key, it is unresolved there.
pub proof fn local_symbols_point_at_their_node(
    resolver: LocalRepositoryLinkResolverView,
    candidate: LinkCandidateView,
    previous: Option<MemoryRelationshipView>,
    key: Seq<char>,
)
    requires
        candidate.reference == ExplicitRepositoryReferenceView::Symbol(key),
    ensures
        ({
            let link = local_target(resolver, candidate, previous);
            let current = resolver.repository_snapshot_id;
            let origin = candidate.origin_snapshot_id;
            let before = previous is Some && previous->0.provenance.resolution != MemoryResolutionState::Unresolved;
            &&& link.resolution == MemoryResolutionState::Resolved ==> current is Some && (
            link.target matches MemoryRelationshipTargetView::RepositoryNode {
                repository,
                snapshot_id,
                node_id,
                semantic_key,
            } && repository == resolver.repository && snapshot_id == current->0 && semantic_key == Some(key)
                && carries_key(resolver.snapshots, current->0, key, node_id))
            &&& link.resolution == MemoryResolutionState::Stale ==> (before && link.target == previous->0.target) || (
            origin is Some && (link.target matches MemoryRelationshipTargetView::RepositoryNode {
                repository,
                snapshot_id,
                node_id,
                semantic_key,
            } && repository == resolver.repository && snapshot_id == origin->0 && semantic_key == Some(key)
                && carries_key(resolver.snapshots, origin->0, key, node_id)))
            &&& link.resolution == MemoryResolutionState::Unresolved ==> (
            link.target matches MemoryRelationshipTargetView::RepositorySymbol { repository, semantic_key, .. }
                && repository == resolver.repository && semantic_key == key)
            &&& (current is Some && exists|node: Seq<char>, other: Seq<char>|
                node != other && #[trigger] carries_key(resolver.snapshots, current->0, key, node)
                    && #[trigger] carries_key(resolver.snapshots, current->0, key, other)) ==> link.resolution
                == MemoryResolutionState::Unresolved
        }),
{
    let current = resolver.repository_snapshot_id;
    let origin = candidate.origin_snapshot_id;
    if current is Some {
        let here = symbol_nodes_of(resolver.snapshots, current->0, key);
        if here.len() > 0 {
            symbol_nodes_hold(resolver.snapshots, current->0, key, here[0]);
            assert(here.contains(here[0]));
        }
        if exists|node: Seq<char>, other: Seq<char>|
            node != other && #[trigger] carries_key(resolver.snapshots, current->0, key, node)
                && #[trigger] carries_key(resolver.snapshots, current->0, key, other) {
            let (node, other) = choose|node: Seq<char>, other: Seq<char>|
                node != other && #[trigger] carries_key(resolver.snapshots, current->0, key, node)
                    && #[trigger] carries_key(resolver.snapshots, current->0, key, other);
            symbol_nodes_hold(resolver.snapshots, current->0, key, node);
            symbol_nodes_hold(resolver.snapshots, current->0, key, other);
            let i = choose|i: int| 0 <= i < here.len() && here[i] == node;
            let j = choose|j: int| 0 <= j < here.len() && here[j] == other;
            assert(i != j);
        }
    }
    if origin is Some {
        let there = symbol_nodes_of(resolver.snapshots, origin->0, key);
        if there.len() > 0 {
            symbol_nodes_hold(resolver.snapshots, origin->0, key, there[0]);
            assert(there.contains(there[0]));
        }
    }
}

/// Whether a link is proposed from an entity to a place in the repository.
pub open spec fn is_proposed(
    proposed: Seq<LinkCandidateView>,
    source: Seq<char>,
    kind: MemoryRelationshipKind,
    reference: ExplicitRepositoryReferenceView,
    origin: Option<Seq<char>>,
) -> bool {
    exists|i: int|
        0 <= i < proposed.len() && (#[trigger] proposed[i]).source == source && proposed[i].kind == kind
            && proposed[i].reference == reference && proposed[i].origin_snapshot_id == origin
}

proof fn proposed_in_sum(
    left: Seq<LinkCandidateView>,
    right: Seq<LinkCandidateView>,
    source: Seq<char>,
    kind: MemoryRelationshipKind,
    reference: ExplicitRepositoryReferenceView,
    origin: Option<Seq<char>>,
)
    ensures
        is_proposed(left, source, kind, reference, origin) || is_proposed(right, source, kind, reference, origin)
            ==> is_proposed(left + right, source, kind, reference, origin),
{
    if is_proposed(left, source, kind, reference, origin) {
        let i = choose|i: int|
            0 <= i < left.len() && (#[trigger] left[i]).source == source && left[i].kind == kind && left[i].reference
                == reference && left[i].origin_snapshot_id == origin;
        assert((left + right)[i] == left[i]);
    }
    if is_proposed(right, source, kind, reference, origin) {
        let i = choose|i: int|
            0 <= i < right.len() && (#[trigger] right[i]).source == source && right[i].kind == kind
                && right[i].reference == reference && right[i].origin_snapshot_id == origin;
        assert((left + right)[left.len() + i] == right[i]);
    }
}

/// An entity concerns the file that it was read from, and an archive concerns its specification.
pub proof fn entities_concern_their_file(
    project: ProjectRefView,
    entity: MemoryEntityView,
    milestones: Map<Seq<char>, Seq<char>>,
    snapshots: Map<Seq<char>, Map<Seq<char>, DigestView>>,
)
    ensures
        entity.provenance.source_locator matches MemorySourceLocatorView::TrackedFile { path } ==> is_proposed(
            entity_proposals(project, entity, milestones, snapshots),
            entity.id,
            MemoryRelationshipKind::Concerns,
            ExplicitRepositoryReferenceView::Path(path),
            None,
        ),
        entity.data matches MemoryEntityDataView::ArchiveReference { spec_path, .. } ==> is_proposed(
            entity_proposals(project, entity, milestones, snapshots),
            entity.id,
            MemoryRelationshipKind::Concerns,
            ExplicitRepositoryReferenceView::Path(spec_path),
            None,
        ),
{
    let followed = crate::links::tracked_proposals(project, entity);
    let archived = crate::links::archive_proposals(project, entity);
    let text = crate::links::text_proposals(project, entity);
    let changed = crate::links::change_proposals(project, entity, milestones, snapshots);
    let kind = MemoryRelationshipKind::Concerns;
    if let MemorySourceLocatorView::TrackedFile { path } = entity.provenance.source_locator {
        let reference = ExplicitRepositoryReferenceView::Path(path);
        assert(followed[0].source == entity.id);
        assert(is_proposed(followed, entity.id, kind, reference, None));
        proposed_in_sum(followed, archived, entity.id, kind, reference, None);
        proposed_in_sum(followed + archived, text, entity.id, kind, reference, None);
        proposed_in_sum(followed + archived + text, changed, entity.id, kind, reference, None);
    }
    if let MemoryEntityDataView::ArchiveReference { spec_path, .. } = entity.data {
        let reference = ExplicitRepositoryReferenceView::Path(spec_path);
        assert(archived[0].source == entity.id);
        assert(is_proposed(archived, entity.id, kind, reference, None));
        proposed_in_sum(followed, archived, entity.id, kind, reference, None);
        proposed_in_sum(followed + archived, text, entity.id, kind, reference, None);
        proposed_in_sum(followed + archived + text, changed, entity.id, kind, reference, None);
    }
}

/// An entity touches every place that its curated text refers to.
pub proof fn entities_touch_what_their_text_refers_to(
    project: ProjectRefView,
    entity: MemoryEntityView,
    milestones: Map<Seq<char>, Seq<char>>,
    snapshots: Map<Seq<char>, Map<Seq<char>, DigestView>>,
    words: Seq<char>,
    reference: ExplicitRepositoryReferenceView,
)
    requires
        says(entity, words),
        references(words).contains(reference),
    ensures
        is_proposed(
            entity_proposals(project, entity, milestones, snapshots),
            entity.id,
            MemoryRelationshipKind::Touches,
            reference,
            None,
        ),
{
    let followed = crate::links::tracked_proposals(project, entity);
    let archived = crate::links::archive_proposals(project, entity);
    let text = crate::links::text_proposals(project, entity);
    let changed = crate::links::change_proposals(project, entity, milestones, snapshots);
    let kind = MemoryRelationshipKind::Touches;
    let i = choose|i: int| 0 <= i < references(words).len() && references(words)[i] == reference;
    assert(text[i].reference == reference && text[i].source == entity.id);
    assert(is_proposed(text, entity.id, kind, reference, None));
    proposed_in_sum(followed + archived, text, entity.id, kind, reference, None);
    proposed_in_sum(followed + archived + text, changed, entity.id, kind, reference, None);
}

/// A path is changed between two snapshots that are known where it is in one alone or has another content
/// in each, and where it then is: in the later one if it is there.
pub proof fn changed_paths_differ(
    baseline: Seq<char>,
    view: Seq<char>,
    snapshots: Map<Seq<char>, Map<Seq<char>, DigestView>>,
    path: Seq<char>,
)
    requires
        snapshots.contains_key(baseline),
        snapshots.contains_key(view),
        snapshots[baseline].dom().finite(),
        snapshots[view].dom().finite(),
    ensures
        ({
            let before = snapshots[baseline];
            let after = snapshots[view];
            let found = changes(Some(baseline), Some(view), snapshots);
            let differs = before.contains_key(path) != after.contains_key(path) || (before.contains_key(path)
                && before[path] != after[path]);
            &&& found is Some
            &&& found->0.contains(ChangedPathView { path, origin_snapshot_id: view }) == (differs && after.contains_key(
                path,
            ))
            &&& baseline != view ==> found->0.contains(ChangedPathView { path, origin_snapshot_id: baseline }) == (
            differs && !after.contains_key(path))
        }),
{
    let before = snapshots[baseline];
    let after = snapshots[view];
    let differing = differing_paths(before, after);
    vstd::set_lib::lemma_len_subset(differing, before.dom().union(after.dom()));
    ordered_holds(differing, path);
    let order = in_order(differing);
    let found = changes(Some(baseline), Some(view), snapshots)->0;
    assert(differing.contains(path) == (before.contains_key(path) != after.contains_key(path) || (
    before.contains_key(path) && before[path] != after[path])));
    if order.contains(path) {
        let i = choose|i: int| 0 <= i < order.len() && order[i] == path;
        assert(found[i].path == path);
        if after.contains_key(path) {
            assert(found[i] == (ChangedPathView { path, origin_snapshot_id: view }));
        } else {
            assert(found[i] == (ChangedPathView { path, origin_snapshot_id: baseline }));
        }
    }
    if found.contains(ChangedPathView { path, origin_snapshot_id: view }) {
        let i = choose|i: int|
            0 <= i < found.len() && found[i] == (ChangedPathView { path, origin_snapshot_id: view });
        assert(order[i] == path);
        assert(order.contains(path));
        if !after.contains_key(path) {
            assert(baseline == view);
        }
    }
    if found.contains(ChangedPathView { path, origin_snapshot_id: baseline }) {
        let i = choose|i: int|
            0 <= i < found.len() && found[i] == (ChangedPathView { path, origin_snapshot_id: baseline });
        assert(order[i] == path);
        assert(order.contains(path));
    }
}

proof fn task_changes_are_proposed(
    project: ProjectRefView,
    entity: MemoryEntityView,
    task_id: Seq<char>,
    milestone: Option<Seq<char>>,
    changed: Seq<ChangedPathView>,
    at: int,
)
    requires
        0 <= at < changed.len(),
    ensures
        is_proposed(
            task_proposals(project, entity, task_id, milestone, changed),
            entity.id,
            MemoryRelationshipKind::Touches,
            ExplicitRepositoryReferenceView::Path(changed[at].path),
            Some(changed[at].origin_snapshot_id),
        ),
        milestone matches Some(id) ==> is_proposed(
            task_proposals(project, entity, task_id, milestone, changed),
            id,
            MemoryRelationshipKind::Touches,
            ExplicitRepositoryReferenceView::Path(changed[at].path),
            Some(changed[at].origin_snapshot_id),
        ),
    decreases changed.len(),
{
    let rest = changed.drop_last();
    let before = task_proposals(project, entity, task_id, milestone, rest);
    let all = task_proposals(project, entity, task_id, milestone, changed);
    let new = all.skip(before.len() as int);
    assert(all =~= before + new);
    let kind = MemoryRelationshipKind::Touches;
    let reference = ExplicitRepositoryReferenceView::Path(changed[at].path);
    let origin = Some(changed[at].origin_snapshot_id);
    if at < rest.len() {
        assert(rest[at] == changed[at]);
        task_changes_are_proposed(project, entity, task_id, milestone, rest, at);
    } else {
        assert(new[0].source == entity.id);
        assert(is_proposed(new, entity.id, kind, reference, origin));
        if let Some(id) = milestone {
            assert(new[1].source == id);
            assert(is_proposed(new, id, kind, reference, origin));
        }
    }
    proposed_in_sum(before, new, entity.id, kind, reference, origin);
    if let Some(id) = milestone {
        proposed_in_sum(before, new, id, kind, reference, origin);
    }
}

/// A task touches what changed from its first snapshot to its last one, and so does its milestone, where
/// it is known; a run touches what changed in it.
pub proof fn tasks_and_runs_touch_what_changed(
    project: ProjectRefView,
    entity: MemoryEntityView,
    milestones: Map<Seq<char>, Seq<char>>,
    snapshots: Map<Seq<char>, Map<Seq<char>, DigestView>>,
    baseline: Option<Seq<char>>,
    view: Option<Seq<char>>,
    at: int,
)
    requires
        changes(baseline, view, snapshots) is Some,
        0 <= at < changes(baseline, view, snapshots)->0.len(),
    ensures
        ({
            let changed = changes(baseline, view, snapshots)->0[at];
            let reference = ExplicitRepositoryReferenceView::Path(changed.path);
            let origin = Some(changed.origin_snapshot_id);
            let proposed = entity_proposals(project, entity, milestones, snapshots);
            &&& entity.data matches MemoryEntityDataView::TaskReference {
                milestone_id,
                baseline_snapshot_id,
                repository_snapshot_id,
                ..
            } ==> baseline_snapshot_id == baseline && repository_snapshot_id == view ==> is_proposed(
                proposed,
                entity.id,
                MemoryRelationshipKind::Touches,
                reference,
                origin,
            ) && (milestone_id is Some && milestones.contains_key(milestone_id->0) ==> is_proposed(
                proposed,
                milestones[milestone_id->0],
                MemoryRelationshipKind::Touches,
                reference,
                origin,
            ))
            &&& entity.data matches MemoryEntityDataView::RunReference {
                baseline_snapshot_id,
                repository_snapshot_id,
                ..
            } ==> baseline_snapshot_id == baseline && repository_snapshot_id == view ==> is_proposed(
                proposed,
                entity.id,
                MemoryRelationshipKind::Touches,
                reference,
                origin,
            )
        }),
{
    let list = changes(baseline, view, snapshots)->0;
    let changed = list[at];
    let reference = ExplicitRepositoryReferenceView::Path(changed.path);
    let origin = Some(changed.origin_snapshot_id);
    let kind = MemoryRelationshipKind::Touches;
    let first = crate::links::tracked_proposals(project, entity) + crate::links::archive_proposals(project, entity)
        + crate::links::text_proposals(project, entity);
    let last = crate::links::change_proposals(project, entity, milestones, snapshots);
    match entity.data {
        MemoryEntityDataView::TaskReference {
            task_id,
            milestone_id,
            status,
            baseline_snapshot_id,
            repository_snapshot_id,
        } => {
            if baseline_snapshot_id == baseline && repository_snapshot_id == view {
                let milestone = milestone_entity(milestone_id, milestones);
                task_changes_are_proposed(project, entity, task_id, milestone, list, at);
                proposed_in_sum(first, last, entity.id, kind, reference, origin);
                if milestone is Some {
                    proposed_in_sum(first, last, milestone->0, kind, reference, origin);
                }
            }
        },
        MemoryEntityDataView::RunReference { baseline_snapshot_id, repository_snapshot_id, .. } => {
            if baseline_snapshot_id == baseline && repository_snapshot_id == view {
                assert(last[at].source == entity.id);
                assert(is_proposed(last, entity.id, kind, reference, origin));
                proposed_in_sum(first, last, entity.id, kind, reference, origin);
            }
        },
        _ => {},
    }
}

/// A milestone is known by its own id as the last entity that is this milestone.
pub proof fn milestones_are_known_by_their_id(entities: Seq<MemoryEntityView>, at: int)
    requires
        0 <= at < entities.len(),
        entities[at].data is Milestone,
        forall|i: int|
            at < i < entities.len() ==> ((#[trigger] entities[i]).data matches MemoryEntityDataView::Milestone {
                milestone_id,
                ..
            } ==> milestone_id != entities[at].data->Milestone_milestone_id),
    ensures
        milestone_entities(entities).contains_key(entities[at].data->Milestone_milestone_id),
        milestone_entities(entities)[entities[at].data->Milestone_milestone_id] == entities[at].id,
    decreases entities.len(),
{
    let rest = entities.drop_last();
    if at < rest.len() {
        assert(rest[at] == entities[at]);
        assert forall|i: int| at < i < rest.len() implies ((#[trigger] rest[i]).data matches MemoryEntityDataView::Milestone {
            milestone_id,
            ..
        } ==> milestone_id != rest[at].data->Milestone_milestone_id) by {
            assert(rest[i] == entities[i]);
        }
        milestones_are_known_by_their_id(rest, at);
        assert(entities[entities.len() - 1] == entities.last());
    }
}

/// A link belongs to its revision, starts at its entity and ends at its target, says how it was resolved,
/// and else has the provenance of the fact that it comes from.
pub proof fn links_keep_what_they_come_from(
    revision: MemoryRevisionView,
    candidate: LinkCandidateView,
    link: crate::links::LinkTargetView,
    indexed_at: Seq<char>,
)
    ensures
        ({
            let made = linked(revision, candidate, link, indexed_at);
            &&& made.project == revision.project
            &&& made.memory_revision_id == revision.id
            &&& made.id == candidate.id
            &&& made.source == candidate.source
            &&& made.kind == candidate.kind
            &&& made.target == link.target
            &&& made.provenance.resolution == link.resolution
            &&& made.provenance.source_category == candidate.provenance.source_category
            &&& made.provenance.source_locator == candidate.provenance.source_locator
            &&& made.provenance.source_fingerprint == candidate.provenance.source_fingerprint
            &&& made.provenance.evidence == candidate.provenance.evidence
            &&& made.provenance.timestamps.indexed_at == indexed_at
            &&& made.provenance.timestamps.source_observed_at == candidate.provenance.timestamps.source_observed_at
        }),
{
}

/// Every link that is not resolved is told of, with its entity, and no link that is.
pub proof fn unresolved_links_are_told_of(revision: MemoryRevisionView, relationship: MemoryRelationshipView)
    ensures
        ({
            let told = link_state_diagnostics(revision, relationship);
            &&& (told.len() == 0) == (relationship.provenance.resolution == MemoryResolutionState::Resolved)
            &&& told.len() > 0 ==> told.len() == 1 && told[0].entity_id == Some(relationship.source)
                && told[0].relationship_id == Some(relationship.id) && told[0].revision_id == revision.id
            &&& relationship.provenance.resolution == MemoryResolutionState::Stale ==> told[0].code == "link.stale"@
            &&& relationship.provenance.resolution == MemoryResolutionState::Unresolved ==> told[0].code
                == "link.unresolved"@
        }),
{
}

/// A graph without anything published is not built; one that cannot be read is unavailable; and one that
/// is published is neither.
pub proof fn graphs_say_why_they_cannot_be_linked(opening: GraphOpening)
    ensures
        unavailability(opening) is None == opening is Published,
        (unavailability(opening) == Some("link.repository.notbuilt"@)) == (opening is Unpublished || opening is Absent),
        (unavailability(opening) == Some("link.repository.unavailable"@)) == !(opening is Published
            || opening is Unpublished || opening is Absent),
{
    reveal_strlit("link.repository.notbuilt");
    reveal_strlit("link.repository.unavailable");
    assert("link.repository.notbuilt"@.len() != "link.repository.unavailable"@.len());
}

}
