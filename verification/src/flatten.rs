//! Scope flattener: takes ownership of the scope tree and produces the
//! flat, ordered variable table.
//!
//! The traversal is a pre-order walk: a scope's entries are visited in
//! declaration order, and a nested scope's variables appear in place of
//! the scope itself. The order is therefore deterministic: it is the
//! order of the `$var` declarations in the file.

use vstd::prelude::*;
use crate::model::{ScopeItem, ScopeItemV, ScopeNode, ScopeNodeV, VarV, Variable, deep_items};

verus! {

/// The pre-order flattening of a sequence of scope items.
pub open spec fn flat_items(items: Seq<ScopeItemV>) -> Seq<VarV>
    decreases items,
{
    if items.len() == 0 {
        Seq::empty()
    } else {
        flat_one(items[0]) + flat_items(items.subrange(1, items.len() as int))
    }
}

/// The pre-order flattening of one scope item: a variable is itself; a
/// nested scope contributes its own flattening.
pub open spec fn flat_one(item: ScopeItemV) -> Seq<VarV>
    decreases item,
{
    match item {
        ScopeItemV::Var(v) => seq![v],
        ScopeItemV::Scope(s) => flat_items(s.items),
    }
}

/// The flat variable table of a whole scope tree.
pub open spec fn spec_flatten(root: ScopeNodeV) -> Seq<VarV> {
    flat_items(root.items)
}

/// Appends the pre-order flattening of `node` to `out`, consuming the
/// node.
fn flatten_node(node: ScopeNode, out: &mut Vec<Variable>)
    ensures
        final(out)@.map_values(|v: Variable| v@) == old(out)@.map_values(|v: Variable| v@)
            + flat_items(node.deep().items),
    decreases node,
{
    let ScopeNode { name: _, mut items } = node;
    let ghost mut j: int = 0;
    proof {
        assert(node.deep().items == deep_items(node.items@));
    }
    while items.len() > 0
        invariant
            0 <= j,
            j + items@.len() == node.items@.len(),
            items@ =~= node.items@.subrange(j, node.items@.len() as int),
            out@.map_values(|v: Variable| v@) + flat_items(deep_items(items@))
                =~= old(out)@.map_values(|v: Variable| v@) + flat_items(deep_items(node.items@)),
        decreases items@.len(),
    {
        let ghost items_before = items@;
        let item = items.remove(0);
        proof {
            assert(item == node.items@[j]);
            assert(decreases_to!(node => node.items));
            assert(decreases_to!(node.items => node.items@[j]));
            assert(deep_items(items_before) == seq![item.deep()] + deep_items(items_before.subrange(
                1,
                items_before.len() as int,
            )));
            assert(items@ =~= items_before.subrange(1, items_before.len() as int));
            assert(flat_items(deep_items(items_before)) == flat_one(item.deep()) + flat_items(
                deep_items(items@),
            )) by {
                let tail = deep_items(items_before.subrange(1, items_before.len() as int));
                let whole = seq![item.deep()] + tail;
                assert(whole[0] == item.deep());
                assert(whole.subrange(1, whole.len() as int) =~= tail);
                assert(flat_items(whole) == flat_one(whole[0]) + flat_items(
                    whole.subrange(1, whole.len() as int),
                ));
            }
        }
        match item {
            ScopeItem::Var(v) => {
                let ghost vv = v@;
                out.push(v);
                proof {
                    assert(flat_one(ScopeItemV::Var(vv)) =~= seq![vv]);
                    assert(out@.map_values(|v: Variable| v@) + flat_items(deep_items(items@))
                        =~= old(out)@.map_values(|v: Variable| v@) + flat_items(
                        deep_items(node.items@),
                    ));
                }
            }
            ScopeItem::Scope(s) => {
                proof {
                    assert(decreases_to!(node.items@[j] => s));
                    assert(flat_one(ScopeItemV::Scope(s.deep())) == flat_items(s.deep().items));
                }
                flatten_node(s, out);
                proof {
                    assert(out@.map_values(|v: Variable| v@) + flat_items(deep_items(items@))
                        =~= old(out)@.map_values(|v: Variable| v@) + flat_items(
                        deep_items(node.items@),
                    ));
                }
            }
        }
        proof {
            j = j + 1;
        }
    }
    proof {
        assert(deep_items(items@) =~= Seq::<ScopeItemV>::empty());
        assert(flat_items(Seq::<ScopeItemV>::empty()) =~= Seq::<VarV>::empty());
        assert(out@.map_values(|v: Variable| v@) =~= old(out)@.map_values(|v: Variable| v@)
            + flat_items(deep_items(node.items@)));
    }
}

/// Flattens the scope tree into the ordered variable table, consuming
/// the tree. The result is exactly [`spec_flatten`] of the tree's view.
pub fn flatten(root: ScopeNode) -> (r: Vec<Variable>)
    ensures
        r@.map_values(|v: Variable| v@) == spec_flatten(root.deep()),
{
    let ghost rootv = root.deep();
    let mut out: Vec<Variable> = Vec::new();
    flatten_node(root, &mut out);
    proof {
        assert(out@.map_values(|v: Variable| v@) =~= spec_flatten(rootv));
    }
    out
}

} // verus!
