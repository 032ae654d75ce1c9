//! Taking hidden and disabled entries out of a menu tree.
//!
//! A child that is hidden (or disabled) is taken out with everything below
//! it; a child that stays keeps its place among its siblings and is
//! filtered in the same way, at every depth.
use vstd::prelude::*;

use crate::menu_node::{MenuNode, NodeModel, node_model};

verus! {

/// Whether a child stays: it is not hidden unless hidden entries are asked
/// for, and not disabled unless disabled entries are asked for.
pub open spec fn kept(c: NodeModel, hidden: bool, disabled: bool) -> bool {
    &&& !(!hidden && c.visible == Some(false))
    &&& !(!disabled && c.enabled == Some(false))
}

/// The positions of the children that stay, in increasing order.
pub open spec fn kept_positions(cs: Seq<NodeModel>, hidden: bool, disabled: bool) -> Seq<int>
    decreases cs.len(),
{
    if cs.len() == 0 {
        Seq::empty()
    } else {
        let rest = kept_positions(cs.drop_last(), hidden, disabled);
        if kept(cs.last(), hidden, disabled) {
            rest.push(cs.len() - 1)
        } else {
            rest
        }
    }
}

/// A filtered node: the children that stay, in their order, each filtered
/// in turn.
pub open spec fn filtered(n: NodeModel, hidden: bool, disabled: bool) -> NodeModel
    decreases n,
{
    let o = kept_positions(n.children, hidden, disabled);
    NodeModel {
        children: Seq::new(
            o.len(),
            |j: int|
                if 0 <= o[j] < n.children.len() {
                    filtered(n.children[o[j]], hidden, disabled)
                } else {
                    n
                },
        ),
        ..n
    }
}

/// The models of a list of nodes.
pub open spec fn models(v: Seq<MenuNode>) -> Seq<NodeModel> {
    Seq::new(v.len(), |i: int| node_model(v[i]))
}

proof fn lemma_children_models(n: MenuNode)
    ensures
        node_model(n).children == models(n.children@),
{
    assert(node_model(n).children =~= models(n.children@));
}

proof fn lemma_kept_positions_facts(cs: Seq<NodeModel>, hidden: bool, disabled: bool)
    ensures
        forall|j: int| 0 <= j < kept_positions(cs, hidden, disabled).len()
            ==> 0 <= #[trigger] kept_positions(cs, hidden, disabled)[j] < cs.len()
                && kept(cs[kept_positions(cs, hidden, disabled)[j]], hidden, disabled),
        forall|a: int, b: int| 0 <= a < b < kept_positions(cs, hidden, disabled).len()
            ==> kept_positions(cs, hidden, disabled)[a] < kept_positions(cs, hidden, disabled)[b],
        forall|t: int| #[trigger] kept_positions(cs, hidden, disabled).contains(t)
            <==> (0 <= t < cs.len() && kept(cs[t], hidden, disabled)),
    decreases cs.len(),
{
    if cs.len() > 0 {
        let pre = cs.drop_last();
        lemma_kept_positions_facts(pre, hidden, disabled);
        let r = kept_positions(pre, hidden, disabled);
        let kp = kept_positions(cs, hidden, disabled);
        assert forall|j: int| 0 <= j < kp.len() implies 0 <= #[trigger] kp[j] < cs.len()
            && kept(cs[kp[j]], hidden, disabled) by {
            if j < r.len() {
                assert(kp[j] == r[j]);
                assert(pre[r[j]] == cs[r[j]]);
            }
        }
        assert forall|t: int| #[trigger] kp.contains(t) <==> (0 <= t < cs.len() && kept(cs[t], hidden, disabled)) by {
            if kp.contains(t) {
                let w = choose|w: int| 0 <= w < kp.len() && kp[w] == t;
                assert(0 <= kp[w] < cs.len() && kept(cs[kp[w]], hidden, disabled));
            }
            if 0 <= t < cs.len() && kept(cs[t], hidden, disabled) {
                if t == cs.len() - 1 {
                    assert(kp[r.len() as int] == t);
                } else {
                    assert(pre[t] == cs[t]);
                    assert(r.contains(t));
                    let w = choose|w: int| 0 <= w < r.len() && r[w] == t;
                    assert(kp[w] == t);
                }
            }
        }
    }
}

proof fn lemma_kept_positions_step(cs: Seq<NodeModel>, k: int, hidden: bool, disabled: bool)
    requires
        0 <= k < cs.len(),
    ensures
        kept_positions(cs.take(k + 1), hidden, disabled) == if kept(cs[k], hidden, disabled) {
            kept_positions(cs.take(k), hidden, disabled).push(k)
        } else {
            kept_positions(cs.take(k), hidden, disabled)
        },
{
    assert(cs.take(k + 1).drop_last() =~= cs.take(k));
}

proof fn lemma_kept_positions_all(cs: Seq<NodeModel>, hidden: bool, disabled: bool)
    requires
        forall|i: int| 0 <= i < cs.len() ==> kept(#[trigger] cs[i], hidden, disabled),
    ensures
        kept_positions(cs, hidden, disabled) == Seq::new(cs.len(), |i: int| i),
    decreases cs.len(),
{
    if cs.len() > 0 {
        let pre = cs.drop_last();
        assert forall|i: int| 0 <= i < pre.len() implies kept(#[trigger] pre[i], hidden, disabled) by {
            assert(pre[i] == cs[i]);
        }
        lemma_kept_positions_all(pre, hidden, disabled);
        assert(kept(cs[cs.len() - 1], hidden, disabled));
        assert(kept_positions(cs, hidden, disabled) =~= Seq::new(cs.len(), |i: int| i));
    }
}

fn kept_exec(c: &MenuNode, hidden: bool, disabled: bool) -> (r: bool)
    ensures
        r == kept(node_model(*c), hidden, disabled),
{
    let is_hidden = match c.visible {
        Some(false) => !hidden,
        _ => false,
    };
    let is_disabled = match c.enabled {
        Some(false) => !disabled,
        _ => false,
    };
    !is_hidden && !is_disabled
}

impl MenuNode {
    /// Takes hidden entries (unless `hidden`) and disabled entries (unless
    /// `disabled`) out of the menu below `root`, at every depth.
    ///
    /// The entries that stay keep their order; each is filtered in the same
    /// way.
    pub fn filter_nodes(root: &mut MenuNode, hidden: bool, disabled: bool)
        ensures
            final(root)@ == filtered(old(root)@, hidden, disabled),
        decreases old(root)@,
    {
        let ghost orig = models(root.children@);
        proof {
            lemma_children_models(*root);
        }
        let mut rest: Vec<MenuNode> = Vec::new();
        std::mem::swap(&mut rest, &mut root.children);
        let n = rest.len();
        let mut k: usize = 0;
        assert(orig.take(0) =~= Seq::<NodeModel>::empty());
        while k < n
            invariant
                n == orig.len(),
                k <= n,
                orig == old(root)@.children,
                rest@.len() == n - k,
                forall|q: int| 0 <= q < rest@.len() ==> node_model(#[trigger] rest@[q]) == orig[k + q],
                root.children@.len() == kept_positions(orig.take(k as int), hidden, disabled).len(),
                forall|j: int| 0 <= j < root.children@.len() ==> node_model(#[trigger] root.children@[j])
                    == filtered(orig[kept_positions(orig.take(k as int), hidden, disabled)[j]], hidden, disabled),
                root.id == old(root).id,
                root.label == old(root).label,
                root.enabled == old(root).enabled,
                root.visible == old(root).visible,
                root.toggle_type == old(root).toggle_type,
                root.toggle_state == old(root).toggle_state,
            decreases n - k,
        {
            let ghost before = root.children@;
            let ghost kp = kept_positions(orig.take(k as int), hidden, disabled);
            proof {
                lemma_kept_positions_step(orig, k as int, hidden, disabled);
            }
            assert(node_model(rest@[0]) == orig[k as int]);
            let ghost waiting = rest@;
            let mut c = rest.remove(0);
            assert forall|q: int| 0 <= q < rest@.len() implies node_model(#[trigger] rest@[q]) == orig[k + 1 + q] by {
                assert(rest@[q] == waiting[q + 1]);
            }
            if kept_exec(&c, hidden, disabled) {
                assert(decreases_to!(old(root)@ => old(root)@.children[k as int]));
                MenuNode::filter_nodes(&mut c, hidden, disabled);
                root.children.push(c);
                assert forall|j: int| 0 <= j < root.children@.len() implies node_model(#[trigger] root.children@[j])
                    == filtered(orig[kp.push(k as int)[j]], hidden, disabled) by {
                    if j < before.len() {
                        assert(root.children@[j] == before[j]);
                    }
                }
            }
            k = k + 1;
        }
        proof {
            assert(orig.take(n as int) =~= orig);
            lemma_kept_positions_facts(orig, hidden, disabled);
            lemma_children_models(*root);
            assert(node_model(*root).children =~= filtered(old(root)@, hidden, disabled).children);
        }
    }
}

/// Asking for hidden and for disabled entries leaves a menu as it is.
pub proof fn law_filter_keeping_all_is_identity(n: NodeModel)
    ensures
        filtered(n, true, true) == n,
    decreases n,
{
    let cs = n.children;
    lemma_kept_positions_all(cs, true, true);
    let f = filtered(n, true, true);
    assert forall|j: int| 0 <= j < cs.len() implies #[trigger] f.children[j] == cs[j] by {
        law_filter_keeping_all_is_identity(cs[j]);
    }
    assert(f.children =~= cs);
}

/// The children of a filtered node are exactly the children that stay, in
/// the order they had, each filtered in turn.
pub proof fn law_filter_keeps_the_kept_children_in_order(n: NodeModel, hidden: bool, disabled: bool)
    ensures
        forall|a: int, b: int| 0 <= a < b < kept_positions(n.children, hidden, disabled).len()
            ==> kept_positions(n.children, hidden, disabled)[a] < kept_positions(n.children, hidden, disabled)[b],
        forall|t: int| #[trigger] kept_positions(n.children, hidden, disabled).contains(t)
            <==> (0 <= t < n.children.len() && kept(n.children[t], hidden, disabled)),
        filtered(n, hidden, disabled).children.len() == kept_positions(n.children, hidden, disabled).len(),
        forall|j: int| 0 <= j < filtered(n, hidden, disabled).children.len()
            ==> #[trigger] filtered(n, hidden, disabled).children[j]
                == filtered(n.children[kept_positions(n.children, hidden, disabled)[j]], hidden, disabled),
{
    lemma_kept_positions_facts(n.children, hidden, disabled);
}

/// Every node at every depth below `m` stays under the filter.
pub open spec fn kept_everywhere_below(m: NodeModel, hidden: bool, disabled: bool) -> bool
    decreases m,
{
    forall|i: int| 0 <= i < m.children.len() ==> kept(#[trigger] m.children[i], hidden, disabled)
        && kept_everywhere_below(m.children[i], hidden, disabled)
}

/// After filtering, no hidden entry (unless `hidden`) and no disabled entry
/// (unless `disabled`) is left at any depth.
pub proof fn law_filter_clears_every_depth(n: NodeModel, hidden: bool, disabled: bool)
    ensures
        kept_everywhere_below(filtered(n, hidden, disabled), hidden, disabled),
    decreases n,
{
    let f = filtered(n, hidden, disabled);
    let o = kept_positions(n.children, hidden, disabled);
    lemma_kept_positions_facts(n.children, hidden, disabled);
    assert forall|i: int| 0 <= i < f.children.len() implies kept(#[trigger] f.children[i], hidden, disabled)
        && kept_everywhere_below(f.children[i], hidden, disabled) by {
        law_filter_clears_every_depth(n.children[o[i]], hidden, disabled);
    }
}

/// Filtering a menu a second time changes nothing.
pub proof fn law_filter_is_idempotent(n: NodeModel, hidden: bool, disabled: bool)
    ensures
        filtered(filtered(n, hidden, disabled), hidden, disabled) == filtered(n, hidden, disabled),
    decreases n,
{
    let f = filtered(n, hidden, disabled);
    let o = kept_positions(n.children, hidden, disabled);
    lemma_kept_positions_facts(n.children, hidden, disabled);
    assert forall|i: int| 0 <= i < f.children.len() implies kept(#[trigger] f.children[i], hidden, disabled) by {
        assert(0 <= o[i] < n.children.len() && kept(n.children[o[i]], hidden, disabled));
        assert(f.children[i] == filtered(n.children[o[i]], hidden, disabled));
    }
    lemma_kept_positions_all(f.children, hidden, disabled);
    let ff = filtered(f, hidden, disabled);
    assert forall|j: int| 0 <= j < f.children.len() implies #[trigger] ff.children[j] == f.children[j] by {
        law_filter_is_idempotent(n.children[o[j]], hidden, disabled);
    }
    assert(ff.children =~= f.children);
}


/// A child stays under the filter exactly when it is not hidden (`visible`
/// is `Some(false)`) unless `hidden` is set, and not disabled (`enabled` is
/// `Some(false)`) unless `disabled` is set; nothing else about it matters.
/// So no child of a filtered node is hidden or disabled against the flags.
pub proof fn law_filter_removes_exactly_hidden_and_disabled(n: NodeModel, hidden: bool, disabled: bool)
    ensures
        forall|t: int| 0 <= t < n.children.len() ==> (#[trigger] kept_positions(n.children, hidden, disabled).contains(t)
            <==> ((hidden || n.children[t].visible != Some(false))
                && (disabled || n.children[t].enabled != Some(false)))),
        forall|j: int| 0 <= j < filtered(n, hidden, disabled).children.len() ==> {
            &&& (hidden || (#[trigger] filtered(n, hidden, disabled).children[j]).visible != Some(false))
            &&& (disabled || filtered(n, hidden, disabled).children[j].enabled != Some(false))
        },
{
    lemma_kept_positions_facts(n.children, hidden, disabled);
    let o = kept_positions(n.children, hidden, disabled);
    assert forall|j: int| 0 <= j < filtered(n, hidden, disabled).children.len() implies {
        &&& (hidden || (#[trigger] filtered(n, hidden, disabled).children[j]).visible != Some(false))
        &&& (disabled || filtered(n, hidden, disabled).children[j].enabled != Some(false))
    } by {
        assert(0 <= o[j] < n.children.len() && kept(n.children[o[j]], hidden, disabled));
        assert(filtered(n, hidden, disabled).children[j] == filtered(n.children[o[j]], hidden, disabled));
    }
}

/// No entry at any depth below `m` is hidden (unless `hidden`) or disabled
/// (unless `disabled`).
pub open spec fn clean_below(m: NodeModel, hidden: bool, disabled: bool) -> bool
    decreases m,
{
    forall|i: int| 0 <= i < m.children.len() ==> {
        &&& (hidden || (#[trigger] m.children[i]).visible != Some(false))
        &&& (disabled || m.children[i].enabled != Some(false))
        &&& clean_below(m.children[i], hidden, disabled)
    }
}

/// After filtering, no entry at any depth is hidden (`visible` is
/// `Some(false)`) unless `hidden`, or disabled (`enabled` is `Some(false)`)
/// unless `disabled`.
pub proof fn law_filter_leaves_nothing_hidden_or_disabled(n: NodeModel, hidden: bool, disabled: bool)
    ensures
        clean_below(filtered(n, hidden, disabled), hidden, disabled),
    decreases n,
{
    let f = filtered(n, hidden, disabled);
    let o = kept_positions(n.children, hidden, disabled);
    lemma_kept_positions_facts(n.children, hidden, disabled);
    assert forall|i: int| 0 <= i < f.children.len() implies {
        &&& (hidden || (#[trigger] f.children[i]).visible != Some(false))
        &&& (disabled || f.children[i].enabled != Some(false))
        &&& clean_below(f.children[i], hidden, disabled)
    } by {
        assert(0 <= o[i] < n.children.len() && kept(n.children[o[i]], hidden, disabled));
        law_filter_leaves_nothing_hidden_or_disabled(n.children[o[i]], hidden, disabled);
    }
}

} // verus!
