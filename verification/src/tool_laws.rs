//! Properties of the tool state that hold across requests.

use vstd::prelude::*;
use crate::ids::ToolId;
use crate::tool_state::{Tool, ToolStateModel, spec_select, selection_list, select_candidates, apply_selects,
    deselect_outputs, spec_open_dialog, spec_close_dialog, spec_close_all_dialogs, spec_detach,
    spec_release_children, spec_step, list_or_empty, spec_remove_tool, restore_fold, replaced_record,
    restorable, same_group, remove_core, location_of, owner_of_tool, to_sink, replaced_records, replaced_by, drop_replaced, notify_all, ToolState, ToolStateOutput, select_outputs,
    IconId, Position};
use crate::ids::ProgramId;
use crate::lists::{seq_without, lemma_without_contains, lemma_without_no_dup, lemma_push_contains};

verus! {

/// Each of the listed tools has a group, and no two of them share one.
pub open spec fn distinct_groups(m: ToolStateModel, ts: Seq<u128>) -> bool {
    &&& forall|i: int| 0 <= i < ts.len() ==> m.group_of.dom().contains(#[trigger] ts[i])
    &&& forall|i: int, j: int| 0 <= i < ts.len() && 0 <= j < ts.len() && i != j
        ==> m.group_of[ts[i]] != m.group_of[ts[j]]
}

/// Whether a group is the group of one of the listed tools.
pub open spec fn is_listed_group(m: ToolStateModel, ts: Seq<u128>, g: u128) -> bool {
    exists|i: int| 0 <= i < ts.len() && m.group_of[ts[i]].0 == g
}

/// Selecting the candidates of a list of tools with distinct groups makes each listed tool the
/// selected tool of its group and leaves every other group as it was.
proof fn lemma_select_fold(m: ToolStateModel, ts: Seq<u128>)
    requires
        distinct_groups(m, ts),
    ensures
        ({
            let s = apply_selects(m.selection, m.selection_order, select_candidates(m, ts)).0;
            &&& forall|i: int| 0 <= i < ts.len() ==> s.dom().contains(#[trigger] m.group_of[ts[i]].0)
                && s[m.group_of[ts[i]].0] == ToolId(ts[i])
            &&& forall|g: u128| !is_listed_group(m, ts, g) ==> (#[trigger] s.dom().contains(g) <==> m.selection.dom().contains(g))
                && (s.dom().contains(g) ==> s[g] == m.selection[g])
        }),
    decreases ts.len(),
{
    if ts.len() > 0 {
        let pre = ts.drop_last();
        assert(distinct_groups(m, pre)) by {
            assert forall|i: int, j: int| 0 <= i < pre.len() && 0 <= j < pre.len() && i != j
                implies m.group_of[pre[i]] != m.group_of[pre[j]] by {
                assert(pre[i] == ts[i] && pre[j] == ts[j]);
            }
            assert forall|i: int| 0 <= i < pre.len() implies m.group_of.dom().contains(#[trigger] pre[i]) by {
                assert(pre[i] == ts[i]);
            }
        }
        lemma_select_fold(m, pre);
        let u = ts.last();
        let n = ts.len() - 1;
        assert(ts[n] == u);
        let gu = m.group_of[u].0;
        let s0 = apply_selects(m.selection, m.selection_order, select_candidates(m, pre)).0;
        let s = apply_selects(m.selection, m.selection_order, select_candidates(m, ts)).0;
        assert(!is_listed_group(m, pre, gu)) by {
            if is_listed_group(m, pre, gu) {
                let i = choose|i: int| 0 <= i < pre.len() && m.group_of[pre[i]].0 == gu;
                assert(pre[i] == ts[i]);
                assert(m.group_of[ts[i]] == m.group_of[ts[n]]);
            }
        }
        let candidate = m.group_of.dom().contains(u) && !(m.selection.dom().contains(gu) && m.selection[gu].0 == u);
        if candidate {
            assert(select_candidates(m, ts) == select_candidates(m, pre).push((gu, u)));
            assert(select_candidates(m, ts).drop_last() =~= select_candidates(m, pre));
            assert(s == s0.insert(gu, ToolId(u)));
        } else {
            assert(s == s0);
            assert(m.selection[gu] == ToolId(u));
        }
        assert forall|i: int| 0 <= i < ts.len() implies s.dom().contains(#[trigger] m.group_of[ts[i]].0)
            && s[m.group_of[ts[i]].0] == ToolId(ts[i]) by {
            if i < n {
                assert(pre[i] == ts[i]);
                assert(m.group_of[ts[i]] != m.group_of[ts[n]]);
                assert(s0.dom().contains(m.group_of[pre[i]].0));
            }
        }
        assert forall|g: u128| !is_listed_group(m, ts, g) implies (#[trigger] s.dom().contains(g) <==> m.selection.dom().contains(g))
            && (s.dom().contains(g) ==> s[g] == m.selection[g]) by {
            assert(g != gu) by {
                if g == gu {
                    assert(m.group_of[ts[n]].0 == g);
                }
            }
            assert(!is_listed_group(m, pre, g)) by {
                if is_listed_group(m, pre, g) {
                    let i = choose|i: int| 0 <= i < pre.len() && m.group_of[pre[i]].0 == g;
                    assert(pre[i] == ts[i]);
                }
            }
        }
    }
}

/// The selection of a group as an option.
pub open spec fn selection_of(sel: Map<u128, ToolId>, g: u128) -> Option<ToolId> {
    if sel.dom().contains(g) { Some(sel[g]) } else { None }
}

/// Restoring earlier selections never touches a group whose selected tool is one of the listed
/// tools, and any other group either keeps its selection or takes the earlier selection recorded
/// for it by one of the entries.
proof fn lemma_restore_fold(m: ToolStateModel, ts: Seq<u128>, sel: Map<u128, ToolId>, order: Seq<u128>,
    es: Seq<(u128, Option<ToolId>)>)
    ensures
        ({
            let r = restore_fold(m, ts, sel, order, es).0;
            &&& forall|g: u128| #[trigger] sel.dom().contains(g) && ts.contains(sel[g].0)
                ==> r.dom().contains(g) && r[g] == sel[g]
            &&& forall|g: u128| #[trigger] selection_of(r, g) != selection_of(sel, g)
                ==> exists|k: int| 0 <= k < es.len() && m.group_of.dom().contains(#[trigger] es[k].0)
                    && m.group_of[es[k].0].0 == g && selection_of(r, g) == es[k].1 && restorable(m, g, es[k].1)
        }),
    decreases es.len(),
{
    if es.len() > 0 {
        let pre = es.drop_last();
        lemma_restore_fold(m, ts, sel, order, pre);
        let s0 = restore_fold(m, ts, sel, order, pre).0;
        let r = restore_fold(m, ts, sel, order, es).0;
        let n = es.len() - 1;
        let (j, prev) = es.last();
        assert(es[n] == es.last());
        assert forall|g: u128| #[trigger] sel.dom().contains(g) && ts.contains(sel[g].0)
            implies r.dom().contains(g) && r[g] == sel[g] by {
            assert(s0.dom().contains(g) && s0[g] == sel[g]);
        }
        assert forall|g: u128| #[trigger] selection_of(r, g) != selection_of(sel, g)
            implies exists|k: int| 0 <= k < es.len() && m.group_of.dom().contains(#[trigger] es[k].0)
                && m.group_of[es[k].0].0 == g && selection_of(r, g) == es[k].1 && restorable(m, g, es[k].1) by {
            if selection_of(r, g) == selection_of(s0, g) {
                let k = choose|k: int| 0 <= k < pre.len() && m.group_of.dom().contains(#[trigger] pre[k].0)
                    && m.group_of[pre[k].0].0 == g && selection_of(s0, g) == pre[k].1 && restorable(m, g, pre[k].1);
                assert(es[k] == pre[k]);
            } else {
                assert(m.group_of.dom().contains(es[n].0) && m.group_of[es[n].0].0 == g);
            }
        }
    }
}

/// Selecting a tool makes it the selected tool of its group, and each tool joined to it the
/// selected tool of its own group. Every other group keeps its selection, unless a tool that
/// this replaces was a main tool: such a group can go back to the selection it had before that
/// main tool was selected.
/// (Stated where the tool and its joined tools have groups that are all different.)
pub proof fn law_select_selects_tool_and_joined(m: ToolStateModel, t: ToolId)
    requires
        distinct_groups(m, selection_list(m, t.0)),
    ensures
        ({
            let ts = selection_list(m, t.0);
            let after = spec_select(m, t).0;
            let record = replaced_record(m, t.0);
            &&& forall|i: int| 0 <= i < ts.len() ==> after.selection.dom().contains(#[trigger] m.group_of[ts[i]].0)
                && after.selection[m.group_of[ts[i]].0] == ToolId(ts[i])
            &&& forall|g: u128| !is_listed_group(m, ts, g) && #[trigger] selection_of(after.selection, g) != selection_of(m.selection, g)
                ==> exists|k: int| 0 <= k < record.len() && m.group_of.dom().contains(#[trigger] record[k].0)
                    && m.group_of[record[k].0].0 == g && selection_of(after.selection, g) == record[k].1
        }),
{
    let ts = selection_list(m, t.0);
    assert(ts[0] == t.0);
    assert(m.group_of.dom().contains(ts[0]));
    lemma_select_fold(m, ts);
    let (sel, order) = apply_selects(m.selection, m.selection_order, select_candidates(m, ts));
    let record = replaced_record(m, t.0);
    lemma_restore_fold(m, ts, sel, order, record);
    let after = spec_select(m, t).0;
    assert(after.selection == restore_fold(m, ts, sel, order, record).0);
    assert forall|i: int| 0 <= i < ts.len() implies after.selection.dom().contains(#[trigger] m.group_of[ts[i]].0)
        && after.selection[m.group_of[ts[i]].0] == ToolId(ts[i]) by {
        let g = m.group_of[ts[i]].0;
        assert(sel.dom().contains(g) && sel[g] == ToolId(ts[i]));
        assert(ts.contains(sel[g].0));
    }
    assert forall|g: u128| !is_listed_group(m, ts, g) && #[trigger] selection_of(after.selection, g) != selection_of(m.selection, g)
        implies exists|k: int| 0 <= k < record.len() && m.group_of.dom().contains(#[trigger] record[k].0)
            && m.group_of[record[k].0].0 == g && selection_of(after.selection, g) == record[k].1 by {
        assert(selection_of(sel, g) == selection_of(m.selection, g));
    }
}

/// With every listed tool already selected in its group, there is nothing to select or deselect.
proof fn lemma_nothing_to_select(m: ToolStateModel, ts: Seq<u128>)
    requires
        forall|i: int| 0 <= i < ts.len() ==> m.group_of.dom().contains(#[trigger] ts[i])
            && m.selection.dom().contains(m.group_of[ts[i]].0)
            && m.selection[m.group_of[ts[i]].0] == ToolId(ts[i]),
    ensures
        select_candidates(m, ts) == Seq::<(u128, u128)>::empty(),
        deselect_outputs(m, ts) == Seq::<crate::tool_state::ToolStateOutput>::empty(),
    decreases ts.len(),
{
    if ts.len() > 0 {
        let pre = ts.drop_last();
        assert forall|i: int| 0 <= i < pre.len() implies m.group_of.dom().contains(#[trigger] pre[i])
            && m.selection.dom().contains(m.group_of[pre[i]].0)
            && m.selection[m.group_of[pre[i]].0] == ToolId(pre[i]) by {
            assert(pre[i] == ts[i]);
        }
        lemma_nothing_to_select(m, pre);
        let n = ts.len() - 1;
        assert(ts[n] == ts.last());
        assert(deselect_outputs(m, ts) =~= deselect_outputs(m, pre));
    }
}

/// When no listed tool replaces anything, there is no record to restore and none is dropped.
proof fn lemma_nothing_replaced(m: ToolStateModel, ts: Seq<u128>, r: Map<u128, Seq<(u128, Option<ToolId>)>>)
    requires
        forall|i: int| 0 <= i < ts.len() ==> #[trigger] replaced_by(m, ts[i]) is None,
    ensures
        replaced_records(m, ts) == Seq::<(u128, Option<ToolId>)>::empty(),
        drop_replaced(m, r, ts) == r,
    decreases ts.len(),
{
    if ts.len() > 0 {
        let pre = ts.drop_last();
        assert forall|i: int| 0 <= i < pre.len() implies #[trigger] replaced_by(m, pre[i]) is None by {
            assert(pre[i] == ts[i]);
        }
        lemma_nothing_replaced(m, pre, r);
        assert(replaced_by(m, ts[ts.len() - 1]) is None);
        assert(replaced_records(m, ts) =~= Seq::<(u128, Option<ToolId>)>::empty());
    }
}

/// With no records kept, there is no record to restore and dropping leaves none.
proof fn lemma_no_records(m: ToolStateModel, ts: Seq<u128>)
    requires
        m.restore == Map::<u128, Seq<(u128, Option<ToolId>)>>::empty(),
    ensures
        replaced_records(m, ts) == Seq::<(u128, Option<ToolId>)>::empty(),
        drop_replaced(m, m.restore, ts) == Map::<u128, Seq<(u128, Option<ToolId>)>>::empty(),
    decreases ts.len(),
{
    if ts.len() > 0 {
        lemma_no_records(m, ts.drop_last());
        assert(replaced_records(m, ts) =~= Seq::<(u128, Option<ToolId>)>::empty());
        assert(drop_replaced(m, m.restore, ts) =~= Map::<u128, Seq<(u128, Option<ToolId>)>>::empty());
    }
}

/// Selecting the same tool twice: the second request changes nothing and sends nothing.
/// (Stated where the tool and its joined tools have groups that are all different.)
pub proof fn law_select_twice_is_quiet(m: ToolStateModel, t: ToolId)
    requires
        distinct_groups(m, selection_list(m, t.0)),
    ensures
        spec_select(spec_select(m, t).0, t) == (spec_select(m, t).0, Seq::<crate::tool_state::ToolStateOutput>::empty()),
{
    let ts = selection_list(m, t.0);
    let m2 = spec_select(m, t).0;
    law_select_selects_tool_and_joined(m, t);
    assert(ts[0] == t.0);
    assert(m2.group_of == m.group_of && m2.joined == m.joined);
    assert(selection_list(m2, t.0) == ts);
    assert forall|i: int| 0 <= i < ts.len() implies m2.group_of.dom().contains(#[trigger] ts[i])
        && m2.selection.dom().contains(m2.group_of[ts[i]].0)
        && m2.selection[m2.group_of[ts[i]].0] == ToolId(ts[i]) by {
        assert(m.group_of.dom().contains(ts[i]));
    }
    lemma_nothing_to_select(m2, ts);
    assert forall|i: int| 0 <= i < ts.len() implies #[trigger] replaced_by(m2, ts[i]) is None by {
        assert(m.group_of.dom().contains(ts[i]));
    }
    lemma_nothing_replaced(m2, ts, m2.restore);
    let r = spec_select(m2, t);
    assert(r.1 =~= Seq::<crate::tool_state::ToolStateOutput>::empty());
    assert(r.0 =~= m2);
}

/// Opening a closed dialog and then closing it leaves the open dialogs as they were.
pub proof fn law_close_undoes_open(m: ToolStateModel, t: ToolId)
    requires
        m.tools.contains(t.0),
        !m.open_dialogs.contains(t.0),
    ensures
        spec_close_dialog(spec_open_dialog(m, t).0, t).0.open_dialogs == m.open_dialogs,
        spec_open_dialog(m, t).0.open_dialogs.contains(t.0),
{
    let s = m.open_dialogs.push(t.0);
    let n = m.open_dialogs.len() as int;
    assert(s[n] == t.0);
    assert(s.contains(t.0));
    assert forall|i: int| 0 <= i < n implies s[i] != t.0 by {
        assert(s[i] == m.open_dialogs[i]);
    }
    assert(s.index_of(t.0) == n) by {
        let k = s.index_of(t.0);
        assert(s[k] == t.0);
        assert(0 <= k < s.len());
    }
    assert(s.remove(n) =~= m.open_dialogs);
}

/// After closing every dialog, no dialog is open.
pub proof fn law_close_all_leaves_none_open(m: ToolStateModel)
    ensures
        spec_close_all_dialogs(m).0.open_dialogs.len() == 0,
{
}


/// The joins are consistent: a joined tool's main tool lists it, and every listed tool names
/// that main tool as its parent; no main tool has an empty list or lists a tool twice.
pub open spec fn joins_consistent(m: ToolStateModel) -> bool {
    &&& forall|j: u128| #[trigger] m.join_parent.dom().contains(j)
        ==> m.joined.dom().contains(m.join_parent[j].0) && m.joined[m.join_parent[j].0].contains(j)
    &&& forall|p: u128| #[trigger] m.joined.dom().contains(p)
        ==> m.joined[p].len() > 0 && m.joined[p].no_duplicates()
            && (forall|i: int| 0 <= i < m.joined[p].len()
                ==> m.join_parent.dom().contains(#[trigger] m.joined[p][i]) && m.join_parent[m.joined[p][i]].0 == p)
}

/// In consistent joins, a tool listed by a main tool has that main tool as its parent.
proof fn lemma_listed_has_parent(m: ToolStateModel, p: u128, x: u128)
    requires
        joins_consistent(m),
        m.joined.dom().contains(p),
        m.joined[p].contains(x),
    ensures
        m.join_parent.dom().contains(x),
        m.join_parent[x].0 == p,
{
    let i = choose|i: int| 0 <= i < m.joined[p].len() && m.joined[p][i] == x;
    assert(m.join_parent.dom().contains(m.joined[p][i]));
}

/// Taking a tool out of its join keeps the joins consistent, and the tool is then joined to nothing.
proof fn lemma_detach(m: ToolStateModel, t: u128)
    requires
        joins_consistent(m),
    ensures
        joins_consistent(spec_detach(m, t)),
        !spec_detach(m, t).join_parent.dom().contains(t),
        forall|p: u128| #[trigger] spec_detach(m, t).joined.dom().contains(p) ==> !spec_detach(m, t).joined[p].contains(t),
        forall|p: u128| #[trigger] spec_detach(m, t).joined.dom().contains(p) ==> m.joined.dom().contains(p),
        m.joined.dom().contains(t) && !(m.join_parent.dom().contains(t) && m.join_parent[t].0 == t)
            ==> spec_detach(m, t).joined.dom().contains(t) && spec_detach(m, t).joined[t] == m.joined[t],
{
    let d = spec_detach(m, t);
    if m.join_parent.dom().contains(t) {
        let pt = m.join_parent[t].0;
        let rest = seq_without(m.joined[pt], t);
        lemma_without_no_dup(m.joined[pt], t);
        assert forall|j: u128| #[trigger] d.join_parent.dom().contains(j)
            implies d.joined.dom().contains(d.join_parent[j].0) && d.joined[d.join_parent[j].0].contains(j) by {
            let p = m.join_parent[j].0;
            if p == pt {
                lemma_without_contains(m.joined[pt], t, j);
            }
        }
        assert forall|p: u128| #[trigger] d.joined.dom().contains(p)
            implies d.joined[p].len() > 0 && d.joined[p].no_duplicates()
                && (forall|i: int| 0 <= i < d.joined[p].len()
                    ==> d.join_parent.dom().contains(#[trigger] d.joined[p][i]) && d.join_parent[d.joined[p][i]].0 == p) by {
            if p == pt {
                assert forall|i: int| 0 <= i < rest.len()
                    implies d.join_parent.dom().contains(#[trigger] rest[i]) && d.join_parent[rest[i]].0 == p by {
                    assert(rest.contains(rest[i]));
                    lemma_without_contains(m.joined[pt], t, rest[i]);
                    lemma_listed_has_parent(m, pt, rest[i]);
                }
            } else {
                assert forall|i: int| 0 <= i < d.joined[p].len()
                    implies d.join_parent.dom().contains(#[trigger] d.joined[p][i]) && d.join_parent[d.joined[p][i]].0 == p by {
                    assert(m.join_parent.dom().contains(m.joined[p][i]));
                }
            }
        }
        assert forall|p: u128| #[trigger] d.joined.dom().contains(p) implies !d.joined[p].contains(t) by {
            if p == pt {
                lemma_without_contains(m.joined[pt], t, t);
            } else if m.joined[p].contains(t) {
                lemma_listed_has_parent(m, p, t);
            }
        }
    } else {
        assert forall|p: u128| #[trigger] d.joined.dom().contains(p) implies !d.joined[p].contains(t) by {
            if m.joined[p].contains(t) {
                lemma_listed_has_parent(m, p, t);
            }
        }
    }
}

/// Releasing the tools joined to a tool keeps the joins consistent; the tool is then no main tool.
proof fn lemma_release_children(m: ToolStateModel, t: u128)
    requires
        joins_consistent(m),
    ensures
        joins_consistent(spec_release_children(m, t)),
        !spec_release_children(m, t).joined.dom().contains(t),
        spec_release_children(m, t).join_parent.dom().subset_of(m.join_parent.dom()),
        forall|p: u128| #[trigger] spec_release_children(m, t).joined.dom().contains(p)
            ==> m.joined.dom().contains(p) && spec_release_children(m, t).joined[p] == m.joined[p],
{
    let r = spec_release_children(m, t);
    if m.joined.dom().contains(t) {
        let kids = m.joined[t];
        assert forall|j: u128| #[trigger] r.join_parent.dom().contains(j)
            implies r.joined.dom().contains(r.join_parent[j].0) && r.joined[r.join_parent[j].0].contains(j) by {
            let p = m.join_parent[j].0;
            assert(!kids.to_set().contains(j));
            if p == t {
                assert(kids.contains(j));
            }
        }
        assert forall|p: u128| #[trigger] r.joined.dom().contains(p)
            implies r.joined[p].len() > 0 && r.joined[p].no_duplicates()
                && (forall|i: int| 0 <= i < r.joined[p].len()
                    ==> r.join_parent.dom().contains(#[trigger] r.joined[p][i]) && r.join_parent[r.joined[p][i]].0 == p) by {
            assert forall|i: int| 0 <= i < r.joined[p].len()
                implies r.join_parent.dom().contains(#[trigger] r.joined[p][i]) && r.join_parent[r.joined[p][i]].0 == p by {
                let e = m.joined[p][i];
                assert(m.join_parent.dom().contains(e) && m.join_parent[e].0 == p);
                if kids.to_set().contains(e) {
                    assert(kids.contains(e));
                    lemma_listed_has_parent(m, t, e);
                }
            }
        }
    }
}

/// Joining a tool to a main tool keeps the joins consistent.
proof fn lemma_join(m: ToolStateModel, main: crate::ids::ToolId, j: crate::ids::ToolId)
    requires
        joins_consistent(m),
    ensures
        joins_consistent(crate::tool_state::spec_join_tools(m, main, j).0),
{
    if m.tools.contains(main.0) && m.tools.contains(j.0) && !same_group(m, main.0, j.0) {
        let d = spec_detach(m, j.0);
        lemma_detach(m, j.0);
        let l0 = list_or_empty(d.joined, main.0);
        let l = l0.push(j.0);
        let r = crate::tool_state::spec_join_tools(m, main, j).0;
        assert(!l0.contains(j.0));
        assert(l.no_duplicates()) by {
            if d.joined.dom().contains(main.0) {
                assert(l0.no_duplicates());
            }
            assert forall|a: int, b: int| 0 <= a < l.len() && 0 <= b < l.len() && a != b implies l[a] != l[b] by {
                if a == l0.len() as int {
                    assert(l0.contains(l0[b]));
                } else if b == l0.len() as int {
                    assert(l0.contains(l0[a]));
                }
            }
        }
        assert forall|x: u128| #[trigger] r.join_parent.dom().contains(x)
            implies r.joined.dom().contains(r.join_parent[x].0) && r.joined[r.join_parent[x].0].contains(x) by {
            if x == j.0 {
                assert(l[l0.len() as int] == j.0);
            } else {
                let p = d.join_parent[x].0;
                if p == main.0 {
                    lemma_push_contains(l0, j.0, x);
                }
            }
        }
        assert forall|p: u128| #[trigger] r.joined.dom().contains(p)
            implies r.joined[p].len() > 0 && r.joined[p].no_duplicates()
                && (forall|i: int| 0 <= i < r.joined[p].len()
                    ==> r.join_parent.dom().contains(#[trigger] r.joined[p][i]) && r.join_parent[r.joined[p][i]].0 == p) by {
            if p == main.0 {
                assert forall|i: int| 0 <= i < l.len()
                    implies r.join_parent.dom().contains(#[trigger] l[i]) && r.join_parent[l[i]].0 == p by {
                    if i < l0.len() {
                        assert(l[i] == l0[i]);
                        assert(d.joined.dom().contains(main.0));
                        assert(d.join_parent.dom().contains(d.joined[main.0][i]));
                        assert(l0.contains(l0[i]));
                    }
                }
            } else {
                assert forall|i: int| 0 <= i < r.joined[p].len()
                    implies r.join_parent.dom().contains(#[trigger] r.joined[p][i]) && r.join_parent[r.joined[p][i]].0 == p by {
                    let e = d.joined[p][i];
                    assert(d.join_parent.dom().contains(e));
                    assert(d.joined[p].contains(e));
                }
            }
        }
    }
}

/// Every request keeps the joins consistent.
pub proof fn law_step_keeps_joins_consistent(m: ToolStateModel, req: Tool)
    requires
        joins_consistent(m),
    ensures
        joins_consistent(spec_step(m, req).0),
{
    match req {
        Tool::JoinTools(main, j) => { lemma_join(m, main, j); },
        Tool::DisconnectTool(t) => {
            lemma_detach(m, t.0);
            lemma_release_children(spec_detach(m, t.0), t.0);
        },
        Tool::RemoveTool(t) => {
            let ty = if m.type_of.dom().contains(t.0) { Some(m.type_of[t.0]) } else { None };
            let m1 = ToolStateModel {
                type_of: m.type_of.remove(t.0),
                group_of: m.group_of.remove(t.0),
                names: m.names.remove(t.0),
                icons: m.icons.remove(t.0),
                tools: m.tools.remove(t.0),
                location_sink: m.location_sink.remove(t.0),
                ..m
            };
            assert(joins_consistent(m1));
            lemma_detach(m1, t.0);
            lemma_release_children(spec_detach(m1, t.0), t.0);
        },
        _ => {},
    }
}

/// After a tool is removed it is in no join: neither joined to a tool nor a main tool.
pub proof fn law_removed_tool_leaves_joins(m: ToolStateModel, t: crate::ids::ToolId)
    requires
        joins_consistent(m),
    ensures
        ({
            let r = spec_remove_tool(m, t).0;
            &&& !r.join_parent.dom().contains(t.0)
            &&& !r.joined.dom().contains(t.0)
            &&& forall|p: u128| #[trigger] r.joined.dom().contains(p) ==> !r.joined[p].contains(t.0)
            &&& !r.tools.contains(t.0)
            &&& !r.group_of.dom().contains(t.0)
            &&& !r.type_of.dom().contains(t.0)
            &&& !r.names.dom().contains(t.0)
            &&& !r.icons.dom().contains(t.0)
            &&& !r.location_sink.dom().contains(t.0)
            &&& !r.location_target.dom().contains(t.0)
        }),
{
    let m1 = ToolStateModel {
        type_of: m.type_of.remove(t.0),
        group_of: m.group_of.remove(t.0),
        names: m.names.remove(t.0),
        icons: m.icons.remove(t.0),
        tools: m.tools.remove(t.0),
        location_sink: m.location_sink.remove(t.0),
        ..m
    };
    assert(joins_consistent(m1));
    lemma_detach(m1, t.0);
    let d = spec_detach(m1, t.0);
    lemma_release_children(d, t.0);
}

/// Every selected tool belongs to the group it is selected in.
pub open spec fn selection_consistent(m: ToolStateModel) -> bool {
    forall|g: u128| #[trigger] m.selection.dom().contains(g)
        ==> m.group_of.dom().contains(m.selection[g].0) && m.group_of[m.selection[g].0].0 == g
}

/// The candidates of a selection each name a tool of the group they are for.
proof fn lemma_candidates_in_group(m: ToolStateModel, ts: Seq<u128>)
    ensures
        forall|i: int| 0 <= i < select_candidates(m, ts).len() ==>
            m.group_of.dom().contains(#[trigger] select_candidates(m, ts)[i].1)
            && m.group_of[select_candidates(m, ts)[i].1].0 == select_candidates(m, ts)[i].0,
    decreases ts.len(),
{
    if ts.len() > 0 {
        let pre = ts.drop_last();
        lemma_candidates_in_group(m, pre);
        let rest = select_candidates(m, pre);
        let c = select_candidates(m, ts);
        let u = ts.last();
        assert forall|i: int| 0 <= i < c.len() implies
            m.group_of.dom().contains(#[trigger] c[i].1) && m.group_of[c[i].1].0 == c[i].0 by {
            if i < rest.len() {
                assert(c[i] == rest[i]);
                assert(m.group_of.dom().contains(rest[i].1));
            } else {
                assert(c == rest.push((m.group_of[u].0, u)));
            }
        }
    }
}

/// Selecting candidates that each name a tool of their group keeps the selection consistent.
proof fn lemma_apply_selects_consistent(m: ToolStateModel, cs: Seq<(u128, u128)>)
    requires
        selection_consistent(m),
        forall|i: int| 0 <= i < cs.len() ==> m.group_of.dom().contains(#[trigger] cs[i].1) && m.group_of[cs[i].1].0 == cs[i].0,
    ensures
        selection_consistent(ToolStateModel { selection: apply_selects(m.selection, m.selection_order, cs).0, ..m }),
    decreases cs.len(),
{
    if cs.len() > 0 {
        let pre = cs.drop_last();
        assert forall|i: int| 0 <= i < pre.len() implies m.group_of.dom().contains(#[trigger] pre[i].1) && m.group_of[pre[i].1].0 == pre[i].0 by {
            assert(pre[i] == cs[i]);
        }
        lemma_apply_selects_consistent(m, pre);
        let n = cs.len() - 1;
        assert(cs[n] == cs.last());
        let (g, u) = cs.last();
        assert(m.group_of.dom().contains(cs[n].1));
        let s0 = apply_selects(m.selection, m.selection_order, pre).0;
        let s1 = apply_selects(m.selection, m.selection_order, cs).0;
        assert(s1 == s0.insert(g, crate::ids::ToolId(u)));
        assert forall|k: u128| #[trigger] s1.dom().contains(k)
            implies m.group_of.dom().contains(s1[k].0) && m.group_of[s1[k].0].0 == k by {
            if k != g {
                assert(s0.dom().contains(k));
                assert(selection_consistent(ToolStateModel { selection: s0, ..m }));
                assert(ToolStateModel { selection: s0, ..m }.selection.dom().contains(k));
            }
        }
    }
}
/// Restoring earlier selections keeps the selection consistent (only tools still in the group are restored).
proof fn lemma_restore_consistent(m: ToolStateModel, ts: Seq<u128>, sel: Map<u128, crate::ids::ToolId>, order: Seq<u128>,
    es: Seq<(u128, Option<crate::ids::ToolId>)>)
    requires
        selection_consistent(ToolStateModel { selection: sel, ..m }),
    ensures
        selection_consistent(ToolStateModel { selection: restore_fold(m, ts, sel, order, es).0, ..m }),
    decreases es.len(),
{
    if es.len() > 0 {
        lemma_restore_consistent(m, ts, sel, order, es.drop_last());
        let s0 = restore_fold(m, ts, sel, order, es.drop_last()).0;
        let r = restore_fold(m, ts, sel, order, es).0;
        assert forall|g: u128| #[trigger] r.dom().contains(g)
            implies m.group_of.dom().contains(r[g].0) && m.group_of[r[g].0].0 == g by {
            if r[g] != s0[g] || !s0.dom().contains(g) {
            } else {
                assert(ToolStateModel { selection: s0, ..m }.selection.dom().contains(g));
            }
        }
    }
}

/// Every request keeps each selected tool in the group it is selected in, as long as a tool
/// that is created or duplicated gets an identifier that no tool has.
pub proof fn law_step_keeps_selection_consistent(m: ToolStateModel, req: Tool)
    requires
        selection_consistent(m),
        match req {
            Tool::CreateTool(_, _, t) => !m.group_of.dom().contains(t.0),
            Tool::DuplicateTool(_, to) => !m.group_of.dom().contains(to.0),
            _ => true,
        },
    ensures
        selection_consistent(spec_step(m, req).0),
{
    match req {
        Tool::Select(t) => {
            if m.group_of.dom().contains(t.0) {
                let ts = selection_list(m, t.0);
                lemma_candidates_in_group(m, ts);
                lemma_apply_selects_consistent(m, select_candidates(m, ts));
                let (s1, o1) = apply_selects(m.selection, m.selection_order, select_candidates(m, ts));
                lemma_restore_consistent(m, ts, s1, o1, replaced_record(m, t.0));
                let s2 = restore_fold(m, ts, s1, o1, replaced_record(m, t.0)).0;
                let r = spec_step(m, req).0;
                assert(r.selection == s2 && r.group_of == m.group_of);
                assert forall|g: u128| #[trigger] r.selection.dom().contains(g)
                    implies r.group_of.dom().contains(r.selection[g].0) && r.group_of[r.selection[g].0].0 == g by {
                    assert(ToolStateModel { selection: s2, ..m }.selection.dom().contains(g));
                }
            }
        },
        Tool::RemoveTool(t) => {
            lemma_remove_consistent(m, t);
        },
        _ => {},
    }
}

/// Once a tool is removed, no group has it selected.
pub proof fn law_removed_tool_not_selected(m: ToolStateModel, t: crate::ids::ToolId)
    requires
        selection_consistent(m),
    ensures
        forall|g: u128| #[trigger] spec_remove_tool(m, t).0.selection.dom().contains(g)
            ==> spec_remove_tool(m, t).0.selection[g] != t,
{
    lemma_remove_consistent(m, t);
    let r = spec_remove_tool(m, t).0;
    assert forall|g: u128| #[trigger] r.selection.dom().contains(g) implies r.selection[g] != t by {
        assert(r.group_of.dom().contains(r.selection[g].0));
    }
}

/// Removing a tool keeps the selection consistent, and the tool has no group afterwards.
proof fn lemma_remove_consistent(m: ToolStateModel, t: crate::ids::ToolId)
    requires
        selection_consistent(m),
    ensures
        selection_consistent(spec_remove_tool(m, t).0),
        !spec_remove_tool(m, t).0.group_of.dom().contains(t.0),
{
    let (mr, outs, record) = remove_core(m, t);
    assert forall|g: u128| #[trigger] mr.selection.dom().contains(g)
        implies mr.group_of.dom().contains(mr.selection[g].0) && mr.group_of[mr.selection[g].0].0 == g by {
        assert(m.selection.dom().contains(g));
        assert(m.group_of.dom().contains(m.selection[g].0));
    }
    assert(ToolStateModel { selection: mr.selection, ..mr } == mr);
    lemma_restore_consistent(mr, Seq::empty(), mr.selection, mr.selection_order, record);
    let r = spec_remove_tool(m, t).0;
    let s2 = restore_fold(mr, Seq::empty(), mr.selection, mr.selection_order, record).0;
    assert forall|g: u128| #[trigger] r.selection.dom().contains(g)
        implies r.group_of.dom().contains(r.selection[g].0) && r.group_of[r.selection[g].0].0 == g by {
        assert(ToolStateModel { selection: s2, ..mr }.selection.dom().contains(g));
    }
}
/// Without joins there are no restore records, and every request but `JoinTools` keeps it so.
pub proof fn law_no_records_without_joins(m: ToolStateModel, req: Tool)
    requires
        m.joined == Map::<u128, Seq<u128>>::empty(),
        m.restore == Map::<u128, Seq<(u128, Option<ToolId>)>>::empty(),
        !(req is JoinTools),
    ensures
        spec_step(m, req).0.joined == Map::<u128, Seq<u128>>::empty(),
        spec_step(m, req).0.restore == Map::<u128, Seq<(u128, Option<ToolId>)>>::empty(),
{
    match req {
        Tool::Select(t) => {
            if m.group_of.dom().contains(t.0) {
                lemma_no_records(m, selection_list(m, t.0));
                let r = spec_step(m, req).0;
                assert(r.restore =~= Map::<u128, Seq<(u128, Option<ToolId>)>>::empty());
            }
        },
        Tool::RemoveTool(t) => {
            let r = spec_step(m, req).0;
            assert(r.joined =~= Map::<u128, Seq<u128>>::empty());
            assert(r.restore =~= Map::<u128, Seq<(u128, Option<ToolId>)>>::empty());
        },
        Tool::DisconnectTool(t) => {
            let r = spec_step(m, req).0;
            assert(r.joined =~= Map::<u128, Seq<u128>>::empty());
        },
        _ => {},
    }
}

/// Selecting a tool that is not a main tool, with no restore records: a tool already selected
/// in its group sends nothing; otherwise the group's previous selection, if any, is deselected
/// first, then the tool is selected, and it becomes the group's only selection. (So, over any
/// run of requests without `JoinTools`, each group has at most one selected tool and a `Select`
/// goes out only right after the `Deselect` of the tool it replaces.)
pub proof fn law_select_deselects_previous_first(m: ToolStateModel, t: ToolId)
    requires
        m.group_of.dom().contains(t.0),
        !m.joined.dom().contains(t.0),
        m.restore == Map::<u128, Seq<(u128, Option<ToolId>)>>::empty(),
    ensures
        ({
            let g = m.group_of[t.0].0;
            let (after, out) = spec_select(m, t);
            &&& after.selection == m.selection.insert(g, t)
            &&& out == (if m.selection.dom().contains(g) && m.selection[g] == t {
                    Seq::<ToolStateOutput>::empty()
                } else if m.selection.dom().contains(g) {
                    notify_all(m, m.selection[g].0, ToolState::Deselect(m.selection[g]))
                        + notify_all(m, t.0, ToolState::Select(t))
                } else {
                    notify_all(m, t.0, ToolState::Select(t))
                })
        }),
{
    let g = m.group_of[t.0].0;
    let ts = selection_list(m, t.0);
    assert(ts =~= seq![t.0]);
    assert(ts.drop_last() =~= Seq::<u128>::empty());
    let cs = select_candidates(m, ts);
    assert(ts.last() == t.0);
    assert(select_candidates(m, ts.drop_last()) =~= Seq::<(u128, u128)>::empty());
    assert(deselect_outputs(m, ts.drop_last()) =~= Seq::<ToolStateOutput>::empty());
    assert(m.selection.dom().contains(g) ==> (m.selection[g].0 == t.0 <==> m.selection[g] == t));
    lemma_no_records(m, ts);
    assert(replaced_record(m, t.0) =~= Seq::<(u128, Option<ToolId>)>::empty());
    if m.selection.dom().contains(g) && m.selection[g] == t {
        assert(cs =~= Seq::<(u128, u128)>::empty());
        assert(m.selection.insert(g, t) =~= m.selection);
    } else {
        assert(cs =~= seq![(g, t.0)]);
        assert(cs.drop_last() =~= Seq::<(u128, u128)>::empty());
        assert(select_outputs(m, cs.drop_last()) =~= Seq::<ToolStateOutput>::empty());
        assert(cs.last() == (g, t.0));
        assert(select_outputs(m, cs) =~= notify_all(m, t.0, ToolState::Select(t)));
        assert(apply_selects(m.selection, m.selection_order, cs.drop_last()) == (m.selection, m.selection_order));
        assert(apply_selects(m.selection, m.selection_order, cs).0 == m.selection.insert(g, t));
    }
    let (sel, order) = apply_selects(m.selection, m.selection_order, cs);
    assert(restore_fold(m, ts, sel, order, replaced_record(m, t.0)).0 == sel);
    let (after, out) = spec_select(m, t);
    assert(after.selection =~= m.selection.insert(g, t));
    assert(out =~= (if m.selection.dom().contains(g) && m.selection[g] == t {
            Seq::<ToolStateOutput>::empty()
        } else if m.selection.dom().contains(g) {
            notify_all(m, m.selection[g].0, ToolState::Deselect(m.selection[g]))
                + notify_all(m, t.0, ToolState::Select(t))
        } else {
            notify_all(m, t.0, ToolState::Select(t))
        }));
}

/// Restoring never touches a group that no entry's tool belongs to.
proof fn lemma_restore_skips_group(m: ToolStateModel, ts: Seq<u128>, sel: Map<u128, ToolId>, order: Seq<u128>,
    es: Seq<(u128, Option<ToolId>)>, g: u128)
    requires
        forall|k: int| 0 <= k < es.len() && m.group_of.dom().contains(#[trigger] es[k].0) ==> m.group_of[es[k].0].0 != g,
    ensures
        selection_of(restore_fold(m, ts, sel, order, es).0, g) == selection_of(sel, g),
    decreases es.len(),
{
    if es.len() > 0 {
        let pre = es.drop_last();
        assert forall|k: int| 0 <= k < pre.len() && m.group_of.dom().contains(#[trigger] pre[k].0) implies m.group_of[pre[k].0].0 != g by {
            assert(pre[k] == es[k]);
        }
        lemma_restore_skips_group(m, ts, sel, order, pre, g);
        let n = es.len() - 1;
        assert(es[n] == es.last());
    }
}

/// Removing the selected tool of a group hands the group to the group's default, when the default
/// is another tool of that group: the removal is announced (to the tool's location, the owner of
/// its type and the subscribers), then the default's selection, and the default is the group's
/// selection afterwards, so the next selection in the group deselects it first. (Stated where the
/// removed tool's restore record names no other tool of its own group, as joins only link tools of
/// different groups.)
pub proof fn law_removed_selected_tool_gives_way_to_default(m: ToolStateModel, t: ToolId)
    requires
        m.group_of.dom().contains(t.0),
        m.selection.dom().contains(m.group_of[t.0].0),
        m.selection[m.group_of[t.0].0] == t,
        m.default_for_group.dom().contains(m.group_of[t.0].0),
        m.default_for_group[m.group_of[t.0].0] != t,
        m.group_of.dom().contains(m.default_for_group[m.group_of[t.0].0].0),
        m.group_of[m.default_for_group[m.group_of[t.0].0].0] == m.group_of[t.0],
        m.restore.dom().contains(t.0) ==> forall|k: int| 0 <= k < m.restore[t.0].len()
            && m.group_of.dom().contains(#[trigger] m.restore[t.0][k].0) && m.restore[t.0][k].0 != t.0
            ==> m.group_of[m.restore[t.0][k].0] != m.group_of[t.0],
    ensures
        ({
            let g = m.group_of[t.0].0;
            let d = m.default_for_group[g];
            let (after, out) = spec_remove_tool(m, t);
            let told = to_sink(location_of(m, t.0), ToolState::RemoveTool(t))
                + to_sink(owner_of_tool(m, t.0), ToolState::RemoveTool(t))
                + seq![ToolStateOutput::ToSubscribers(ToolState::RemoveTool(t)), ToolStateOutput::ToSubscribers(ToolState::Select(d))]
                + to_sink(location_of(m, t.0), ToolState::Select(d))
                + to_sink(owner_of_tool(m, t.0), ToolState::Select(d));
            &&& after.selection.dom().contains(g)
            &&& after.selection[g] == d
            &&& !after.tools.contains(t.0)
            &&& out.len() >= told.len()
            &&& out.subrange(0, told.len() as int) == told
        }),
{
    let g = m.group_of[t.0].0;
    let d = m.default_for_group[g];
    let (mr, outs, record) = remove_core(m, t);
    assert(mr.selection.dom().contains(g) && mr.selection[g] == d);
    assert forall|k: int| 0 <= k < record.len() && mr.group_of.dom().contains(#[trigger] record[k].0)
        implies mr.group_of[record[k].0].0 != g by {
        assert(record == m.restore[t.0]);
        assert(record[k].0 != t.0);
    }
    lemma_restore_skips_group(mr, Seq::empty(), mr.selection, mr.selection_order, record, g);
    let (after, out) = spec_remove_tool(m, t);
    assert(selection_of(after.selection, g) == selection_of(mr.selection, g));
    let told = to_sink(location_of(m, t.0), ToolState::RemoveTool(t))
        + to_sink(owner_of_tool(m, t.0), ToolState::RemoveTool(t))
        + seq![ToolStateOutput::ToSubscribers(ToolState::RemoveTool(t)), ToolStateOutput::ToSubscribers(ToolState::Select(d))]
        + to_sink(location_of(m, t.0), ToolState::Select(d))
        + to_sink(owner_of_tool(m, t.0), ToolState::Select(d));
    assert(outs =~= told);
    assert(out.subrange(0, told.len() as int) =~= told);
}

/// Setting the icon of an existing tool stores it, and the program that shows the tool (if it is
/// shown anywhere) is sent the new icon; nothing else is sent. Setting the icon of a tool that
/// does not exist changes nothing and sends nothing.
pub proof fn law_set_icon_tells_location(m: ToolStateModel, t: ToolId, icon: IconId)
    ensures
        ({
            let (after, out) = spec_step(m, Tool::SetToolIcon(t, icon));
            &&& m.icons.dom().contains(t.0) ==> after.icons.dom().contains(t.0) && after.icons[t.0] == icon
            &&& m.icons.dom().contains(t.0) && m.location_sink.dom().contains(t.0) && m.location_sink[t.0] is Some
                ==> out == seq![ToolStateOutput::ToProgram(m.location_sink[t.0]->0, ToolState::SetIcon(t, icon))]
            &&& m.icons.dom().contains(t.0) && !(m.location_sink.dom().contains(t.0) && m.location_sink[t.0] is Some)
                ==> out.len() == 0
            &&& !m.icons.dom().contains(t.0) ==> after == m && out.len() == 0
        }),
{
}

/// A tool placed in a program is shown there: setting its icon afterwards sends the icon to that
/// program.
pub proof fn law_icon_goes_where_tool_is_shown(m: ToolStateModel, t: ToolId, p: ProgramId, pos: Position, icon: IconId)
    requires
        m.location_sink.dom().contains(t.0),
        m.icons.dom().contains(t.0),
    ensures
        spec_step(spec_step(m, Tool::SetToolLocation(t, p, pos)).0, Tool::SetToolIcon(t, icon)).1
            == seq![ToolStateOutput::ToProgram(p, ToolState::SetIcon(t, icon))],
{
    let m2 = spec_step(m, Tool::SetToolLocation(t, p, pos)).0;
    assert(m2.location_sink[t.0] == Some(p));
    law_set_icon_tells_location(m2, t, icon);
}

} // verus!
