//! Properties that hold of the view options across their operations.
use vstd::prelude::*;

use crate::resources::{
    lemma_resource_at_index, lemma_resource_index, resource_at, ResourceDescriptor,
    ResourcePurity, RESOURCE_COUNT,
};
use crate::view_options::{
    all_visible_entry, none_visible_entry, purity_index, target_contains, LegendItem,
    ViewOptionsModel, ViewOptionsTarget, ENTRY_LEN, FRACKING_INDEX,
};

verus! {

broadcast use {lemma_resource_index, lemma_resource_at_index};

/// A target that covers a single kind of node of a single resource.
pub open spec fn is_leaf_target(t: ViewOptionsTarget) -> bool {
    t is ResourceWithPurity || t is ResourceFrackingNodes
}

/// Every target contains itself.
pub proof fn law_contains_reflexive(t: ViewOptionsTarget)
    ensures
        target_contains(t, t),
{
}

/// Containment of targets is transitive.
pub proof fn law_contains_transitive(a: ViewOptionsTarget, b: ViewOptionsTarget, c: ViewOptionsTarget)
    requires
        target_contains(a, b),
        target_contains(b, c),
    ensures
        target_contains(a, c),
{
}

/// A flag that matters for a resource is set exactly when the resource is
/// fully shown, whenever the resource is fully shown or fully hidden.
proof fn lemma_resource_flag(m: ViewOptionsModel, r: ResourceDescriptor, j: int)
    requires
        m.valid(),
        m.relevant_start(r) <= j < m.relevant_end(r),
        m.resource_visibility(r) is Some,
    ensures
        m.entry_visible(r, j) == (m.resource_visibility(r) == Some(true)),
{
    if m.visible_items.dom().contains(r) {
        let e = m.visible_items[r];
        if m.resource_visibility(r) == Some(true) {
            assert(e[j]);
        } else {
            if e[j] {
                assert(exists|k: int| m.relevant_start(r) <= k < m.relevant_end(r) && #[trigger] e[k]);
            }
        }
    }
}

/// The flag of a single-kind target lies among the flags that matter for its
/// resource when the world has items of that target.
proof fn lemma_leaf_flag_relevant(m: ViewOptionsModel, u: ViewOptionsTarget)
    requires
        is_leaf_target(u),
        m.target_exists(u),
    ensures
        ({
            let (r, j) = leaf_flag(u);
            m.relevant_start(r) <= j < m.relevant_end(r)
        }),
{
}

/// The resource and flag position that a single-kind target stands for.
pub open spec fn leaf_flag(u: ViewOptionsTarget) -> (ResourceDescriptor, int) {
    match u {
        ViewOptionsTarget::ResourceWithPurity(r, p) => (r, purity_index(p)),
        ViewOptionsTarget::ResourceFrackingNodes(r) => (r, FRACKING_INDEX as int),
        _ => (ResourceDescriptor::OreIron, 0),
    }
}

/// A fully shown target has every part that exists in the world shown, and a
/// fully hidden target has every such part hidden.
pub proof fn law_full_visibility_reaches_parts(
    m: ViewOptionsModel,
    t: ViewOptionsTarget,
    u: ViewOptionsTarget,
)
    requires
        m.valid(),
        target_contains(t, u),
        is_leaf_target(u),
        m.target_exists(u),
        m.target_visibility(t) is Some,
    ensures
        m.target_visibility(u) == m.target_visibility(t),
{
    let (r, j) = leaf_flag(u);
    lemma_leaf_flag_relevant(m, u);
    assert(m.target_visibility(u) == Some(m.entry_visible(r, j)));
    match t {
        ViewOptionsTarget::All => {
            assert(m.resource_visibility(r) == m.target_visibility(t));
            lemma_resource_flag(m, r, j);
        },
        ViewOptionsTarget::Resource(x) => {
            lemma_resource_flag(m, r, j);
        },
        ViewOptionsTarget::Purity(p) => {
            assert(m.existing_node_resources.contains(r));
        },
        ViewOptionsTarget::FrackingNodes => {
            assert(m.existing_fracking_resources.contains(r));
        },
        _ => {},
    }
}

/// Hiding a target leaves it fully hidden, except that a node kind of which
/// the world has no nodes at all counts as fully shown.
pub proof fn law_hide_then_read(m: ViewOptionsModel, t: ViewOptionsTarget)
    requires
        m.valid(),
        t is Purity ==> !m.existing_node_resources.is_empty(),
        t is FrackingNodes ==> !m.existing_fracking_resources.is_empty(),
    ensures
        m.with_target_visible(t, false).target_visibility(t) == Some(false),
{
    let m2 = m.with_target_visible(t, false);
    match t {
        ViewOptionsTarget::All => {
            assert forall|r: ResourceDescriptor| #[trigger]
                m2.resource_visibility(r) == Some(false) by {}
        },
        ViewOptionsTarget::Purity(p) => {
            let r = m.existing_node_resources.choose();
            assert(m.existing_node_resources.contains(r));
            assert(!m2.entry_visible(r, purity_index(p)));
            assert forall|x: ResourceDescriptor| #[trigger]
                m2.existing_node_resources.contains(x) implies !m2.entry_visible(x, purity_index(p)) by {
                if m.visible_items.dom().contains(x) {
                    assert(m2.visible_items[x] == m.visible_items[x].update(purity_index(p), false));
                }
            }
        },
        ViewOptionsTarget::FrackingNodes => {
            let r = m.existing_fracking_resources.choose();
            assert(m.existing_fracking_resources.contains(r));
            assert(!m2.entry_visible(r, FRACKING_INDEX as int));
            assert forall|x: ResourceDescriptor| #[trigger]
                m2.existing_fracking_resources.contains(x) implies !m2.entry_visible(x, FRACKING_INDEX as int) by {
                if m.visible_items.dom().contains(x) {
                    assert(m2.visible_items[x] == m.visible_items[x].update(FRACKING_INDEX as int, false));
                }
            }
        },
        _ => {},
    }
}

/// Showing a target either leaves the state as it was or shows the target
/// fully.
pub proof fn law_show_then_read(m: ViewOptionsModel, t: ViewOptionsTarget)
    requires
        m.valid(),
    ensures
        m.with_target_visible(t, true) == m || m.with_target_visible(t, true).target_visibility(t)
            == Some(true),
{
    let m2 = m.with_target_visible(t, true);
    if m2 != m {
        match t {
            ViewOptionsTarget::All => {
                assert forall|r: ResourceDescriptor| #[trigger]
                    m2.resource_visibility(r) == Some(true) by {
                    assert(m2.visible_items[r] == all_visible_entry());
                    assert forall|j: int|
                        m2.relevant_start(r) <= j < m2.relevant_end(r) implies #[trigger] m2.visible_items[r][j] by {}
                }
            },
            ViewOptionsTarget::Resource(r) => {
                assert(m2.visible_items[r] == all_visible_entry());
                assert forall|j: int|
                    m2.relevant_start(r) <= j < m2.relevant_end(r) implies #[trigger] m2.visible_items[r][j] by {}
            },
            ViewOptionsTarget::Purity(p) => {
                assert forall|x: ResourceDescriptor| #[trigger]
                    m2.existing_node_resources.contains(x) implies m2.entry_visible(x, purity_index(p)) by {
                    assert(m2.visible_items.dom().contains(x));
                }
            },
            ViewOptionsTarget::FrackingNodes => {
                assert forall|x: ResourceDescriptor| #[trigger]
                    m2.existing_fracking_resources.contains(x) implies m2.entry_visible(x, FRACKING_INDEX as int) by {
                    assert(m2.visible_items.dom().contains(x));
                }
            },
            _ => {},
        }
    }
}

/// Showing or hiding a target leaves the visibility of every single-kind
/// target outside it unchanged, and never touches the world outline or what
/// the world is known to hold.
pub proof fn law_set_keeps_other_parts(
    m: ViewOptionsModel,
    t: ViewOptionsTarget,
    visible: bool,
    u: ViewOptionsTarget,
)
    requires
        m.valid(),
        is_leaf_target(u),
        !target_contains(t, u),
    ensures
        m.with_target_visible(t, visible).target_visibility(u) == m.target_visibility(u),
        m.with_target_visible(t, visible).world_outline_visible == m.world_outline_visible,
        m.with_target_visible(t, visible).existing_node_resources == m.existing_node_resources,
        m.with_target_visible(t, visible).existing_fracking_resources
            == m.existing_fracking_resources,
{
    let m2 = m.with_target_visible(t, visible);
    let (r, j) = leaf_flag(u);
    assert(m.target_visibility(u) == Some(m.entry_visible(r, j)));
    assert(m2.target_visibility(u) == Some(m2.entry_visible(r, j)));
    match t {
        ViewOptionsTarget::Purity(p) => {
            if m.visible_items.dom().contains(r) {
                assert(m2.visible_items[r][j] == m.visible_items[r][j]);
            } else if m2.visible_items.dom().contains(r) {
                assert(m2.visible_items[r] == none_visible_entry().update(purity_index(p), true));
            }
        },
        ViewOptionsTarget::FrackingNodes => {
            if m.visible_items.dom().contains(r) {
                assert(m2.visible_items[r][j] == m.visible_items[r][j]);
            } else if m2.visible_items.dom().contains(r) {
                assert(m2.visible_items[r] == none_visible_entry().update(FRACKING_INDEX as int, true));
            }
        },
        ViewOptionsTarget::ResourceWithPurity(x, p) => {
            if x == r && m2 != m {
                if m.visible_items.dom().contains(r) {
                    assert(m2.visible_items[r][j] == m.visible_items[r][j]);
                } else {
                    assert(m2.visible_items[r] == none_visible_entry().update(purity_index(p), visible));
                }
            }
        },
        ViewOptionsTarget::ResourceFrackingNodes(x) => {
            if x == r && m2 != m {
                if m.visible_items.dom().contains(r) {
                    assert(m2.visible_items[r][j] == m.visible_items[r][j]);
                } else {
                    assert(m2.visible_items[r] == none_visible_entry().update(FRACKING_INDEX as int, visible));
                }
            }
        },
        _ => {},
    }
}

/// The hidden resource entries among the first `n` resources are those
/// resources that are fully hidden.
proof fn lemma_hidden_prefix_contains(m: ViewOptionsModel, n: nat, item: LegendItem)
    requires
        n <= RESOURCE_COUNT,
    ensures
        m.hidden_resources_prefix(n).contains(item) == (match item {
            LegendItem::Resource(r) => r.idx() < n && m.resource_visibility(r) == Some(false),
            _ => false,
        }),
    decreases n,
{
    if n > 0 {
        lemma_hidden_prefix_contains(m, (n - 1) as nat, item);
        let prev = m.hidden_resources_prefix((n - 1) as nat);
        let cur = resource_at(n - 1);
        if m.resource_visibility(cur) == Some(false) {
            lemma_push_contains(prev, LegendItem::Resource(cur), item);
        }
    }
}

/// The legend's hidden entries are exactly the fully hidden resources, plus
/// the geysers and the world outline where they are hidden.
pub proof fn law_hidden_items_contents(m: ViewOptionsModel, item: LegendItem)
    ensures
        m.hidden_items().contains(item) == (match item {
            LegendItem::Resource(r) => m.resource_visibility(r) == Some(false),
            LegendItem::Geysers => !m.geysers_visible,
            LegendItem::WorldOutline => !m.world_outline_visible,
        }),
{
    let base = m.hidden_resources_prefix(RESOURCE_COUNT as nat);
    lemma_hidden_prefix_contains(m, RESOURCE_COUNT as nat, item);
    lemma_push_contains(base, LegendItem::Geysers, item);
    let with_geysers = if m.geysers_visible {
        base
    } else {
        base.push(LegendItem::Geysers)
    };
    lemma_push_contains(with_geysers, LegendItem::WorldOutline, item);
}

/// A pushed sequence contains exactly the old items and the new one.
proof fn lemma_push_contains(s: Seq<LegendItem>, x: LegendItem, item: LegendItem)
    ensures
        s.push(x).contains(item) == (s.contains(item) || item == x),
{
    if item == x {
        assert(s.push(x)[s.len() as int] == item);
    }
    if s.contains(item) {
        let k = choose|k: int| 0 <= k < s.len() && s[k] == item;
        assert(s.push(x)[k] == item);
    }
    if s.push(x).contains(item) {
        let k = choose|k: int| 0 <= k < s.len() + 1 && s.push(x)[k] == item;
        if k < s.len() {
            assert(s[k] == item);
        }
    }
}

/// Two states that agree on the geysers and on each resource agree on the
/// visibility of everything.
proof fn lemma_all_visibility_by_resources(a: ViewOptionsModel, b: ViewOptionsModel)
    requires
        a.geysers_visible == b.geysers_visible,
        forall|r: ResourceDescriptor|
            #![trigger b.resource_visibility(r)]
            #![trigger a.resource_visibility(r)]
            b.resource_visibility(r) == a.resource_visibility(r),
    ensures
        b.all_visibility() == a.all_visibility(),
{
    assert((forall|r: ResourceDescriptor| #[trigger] b.resource_visibility(r) == Some(true))
        == (forall|r: ResourceDescriptor| #[trigger] a.resource_visibility(r) == Some(true))) by {
        if forall|r: ResourceDescriptor| #[trigger] a.resource_visibility(r) == Some(true) {
            assert forall|r: ResourceDescriptor| #[trigger] b.resource_visibility(r) == Some(true) by {
                assert(a.resource_visibility(r) == Some(true));
            }
        }
    }
    assert((forall|r: ResourceDescriptor| #[trigger] b.resource_visibility(r) == Some(false))
        == (forall|r: ResourceDescriptor| #[trigger] a.resource_visibility(r) == Some(false))) by {
        if forall|r: ResourceDescriptor| #[trigger] a.resource_visibility(r) == Some(false) {
            assert forall|r: ResourceDescriptor| #[trigger] b.resource_visibility(r) == Some(false) by {
                assert(a.resource_visibility(r) == Some(false));
            }
        }
    }
}

/// Taking over the legend entries that the options themselves would hide
/// changes the visibility of nothing that exists in the world, nor of the
/// geysers or the world outline.
pub proof fn law_legend_round_trip(m: ViewOptionsModel, t: ViewOptionsTarget)
    requires
        m.valid(),
        m.target_exists(t),
    ensures
        m.with_legend_hidden(m.hidden_items()).target_visibility(t) == m.target_visibility(t),
        m.with_legend_hidden(m.hidden_items()).world_outline_visible == m.world_outline_visible,
        m.with_legend_hidden(m.hidden_items()).geysers_visible == m.geysers_visible,
{
    let h = m.hidden_items();
    let m2 = m.with_legend_hidden(h);
    law_hidden_items_contents(m, LegendItem::Geysers);
    law_hidden_items_contents(m, LegendItem::WorldOutline);
    assert forall|r: ResourceDescriptor| #[trigger]
        m2.resource_visibility(r) == m.resource_visibility(r) by {
        law_hidden_items_contents(m, LegendItem::Resource(r));
    }
    assert forall|r: ResourceDescriptor, j: int|
        m.relevant_start(r) <= j < m.relevant_end(r) implies #[trigger] m2.entry_visible(r, j)
        == m.entry_visible(r, j) by {
        law_hidden_items_contents(m, LegendItem::Resource(r));
        if m.resource_visibility(r) == Some(false) {
            lemma_resource_flag(m, r, j);
        }
    }
    match t {
        ViewOptionsTarget::All => {
            lemma_all_visibility_by_resources(m, m2);
        },
        ViewOptionsTarget::Purity(p) => {
            assert forall|x: ResourceDescriptor| #[trigger]
                m.existing_node_resources.contains(x) implies m2.entry_visible(x, purity_index(p))
                == m.entry_visible(x, purity_index(p)) by {
                assert(m.relevant_start(x) <= purity_index(p) < m.relevant_end(x));
            }
        },
        ViewOptionsTarget::FrackingNodes => {
            assert forall|x: ResourceDescriptor| #[trigger]
                m.existing_fracking_resources.contains(x) implies m2.entry_visible(x, FRACKING_INDEX as int)
                == m.entry_visible(x, FRACKING_INDEX as int) by {
                assert(m.relevant_start(x) <= FRACKING_INDEX < m.relevant_end(x));
            }
        },
        ViewOptionsTarget::ResourceWithPurity(r, p) => {
            assert(m.relevant_start(r) <= purity_index(p) < m.relevant_end(r));
        },
        ViewOptionsTarget::ResourceFrackingNodes(r) => {
            assert(m.relevant_start(r) <= FRACKING_INDEX < m.relevant_end(r));
        },
        _ => {},
    }
}

/// With every resource's entry fully set and the geysers shown, every target
/// is fully shown, whatever the world holds; a fresh state is such a state.
pub proof fn law_everything_shown(m: ViewOptionsModel, t: ViewOptionsTarget)
    requires
        m.visible_items == ViewOptionsModel::initial().visible_items,
        m.geysers_visible,
    ensures
        m.target_visibility(t) == Some(true),
{
    assert forall|r: ResourceDescriptor| #[trigger] m.resource_visibility(r) == Some(true) by {
        assert forall|j: int| m.relevant_start(r) <= j < m.relevant_end(r) implies #[trigger] m.visible_items[r][j] by {}
    }
}

/// After taking over a legend's hidden entries, the legend that the options
/// produce hides the geysers and the world outline exactly as that legend
/// did, hides every resource it hid, and shows every resource it showed that
/// had no entry before.
pub proof fn law_legend_apply_then_read(m: ViewOptionsModel, h: Seq<LegendItem>, r: ResourceDescriptor)
    ensures
        m.with_legend_hidden(h).hidden_items().contains(LegendItem::Geysers) == h.contains(LegendItem::Geysers),
        m.with_legend_hidden(h).hidden_items().contains(LegendItem::WorldOutline) == h.contains(
            LegendItem::WorldOutline,
        ),
        h.contains(LegendItem::Resource(r)) ==> m.with_legend_hidden(h).hidden_items().contains(
            LegendItem::Resource(r),
        ),
        !h.contains(LegendItem::Resource(r)) && !m.visible_items.dom().contains(r) ==> !m.with_legend_hidden(
            h,
        ).hidden_items().contains(LegendItem::Resource(r)),
{
    let m2 = m.with_legend_hidden(h);
    law_hidden_items_contents(m2, LegendItem::Geysers);
    law_hidden_items_contents(m2, LegendItem::WorldOutline);
    law_hidden_items_contents(m2, LegendItem::Resource(r));
    if !h.contains(LegendItem::Resource(r)) && !m.visible_items.dom().contains(r) {
        assert(m2.visible_items[r] == all_visible_entry());
        assert forall|j: int| m2.relevant_start(r) <= j < m2.relevant_end(r) implies #[trigger] m2.visible_items[r][j] by {}
    }
}

/// The single-kind target of flag position `j` of resource `r`.
pub open spec fn leaf_at(r: ResourceDescriptor, j: int) -> ViewOptionsTarget {
    if j == 0 {
        ViewOptionsTarget::ResourceWithPurity(r, ResourcePurity::Impure)
    } else if j == 1 {
        ViewOptionsTarget::ResourceWithPurity(r, ResourcePurity::Normal)
    } else if j == 2 {
        ViewOptionsTarget::ResourceWithPurity(r, ResourcePurity::Pure)
    } else {
        ViewOptionsTarget::ResourceFrackingNodes(r)
    }
}

/// A resource, purity or well target that is neither fully shown nor fully
/// hidden has a shown part and a hidden part among the parts that exist in
/// the world.
pub proof fn law_partial_visibility_is_mixed(m: ViewOptionsModel, t: ViewOptionsTarget)
    requires
        m.valid(),
        t is Resource || t is Purity || t is FrackingNodes,
        m.target_visibility(t) is None,
    ensures
        exists|u: ViewOptionsTarget|
            is_leaf_target(u) && target_contains(t, u) && m.target_exists(u) && #[trigger] m.target_visibility(u)
                == Some(true),
        exists|u: ViewOptionsTarget|
            is_leaf_target(u) && target_contains(t, u) && m.target_exists(u) && #[trigger] m.target_visibility(u)
                == Some(false),
{
    match t {
        ViewOptionsTarget::Resource(r) => {
            let e = m.visible_items[r];
            let lo = m.relevant_start(r);
            let hi = m.relevant_end(r);
            let j = choose|j: int| lo <= j < hi && #[trigger] e[j];
            let k = choose|k: int| lo <= k < hi && !#[trigger] e[k];
            assert(m.target_visibility(leaf_at(r, j)) == Some(true));
            assert(m.target_visibility(leaf_at(r, k)) == Some(false));
        },
        ViewOptionsTarget::Purity(p) => {
            let set = m.existing_node_resources;
            let a = choose|r: ResourceDescriptor| #[trigger] set.contains(r) && m.entry_visible(r, purity_index(p));
            let b = choose|r: ResourceDescriptor| #[trigger] set.contains(r) && !m.entry_visible(r, purity_index(p));
            assert(m.target_visibility(ViewOptionsTarget::ResourceWithPurity(a, p)) == Some(true));
            assert(m.target_visibility(ViewOptionsTarget::ResourceWithPurity(b, p)) == Some(false));
        },
        ViewOptionsTarget::FrackingNodes => {
            let set = m.existing_fracking_resources;
            let a = choose|r: ResourceDescriptor| #[trigger] set.contains(r) && m.entry_visible(r, FRACKING_INDEX as int);
            let b = choose|r: ResourceDescriptor| #[trigger] set.contains(r) && !m.entry_visible(r, FRACKING_INDEX as int);
            assert(m.target_visibility(ViewOptionsTarget::ResourceFrackingNodes(a)) == Some(true));
            assert(m.target_visibility(ViewOptionsTarget::ResourceFrackingNodes(b)) == Some(false));
        },
        _ => {},
    }
}

/// The whole map is fully shown only while the geysers are shown, and fully
/// hidden only while they are hidden; and it is fully shown or hidden only
/// when every resource is.
pub proof fn law_all_visibility_covers_geysers(m: ViewOptionsModel, r: ResourceDescriptor)
    ensures
        m.target_visibility(ViewOptionsTarget::All) == Some(true) ==> m.geysers_visible,
        m.target_visibility(ViewOptionsTarget::All) == Some(false) ==> !m.geysers_visible,
        m.target_visibility(ViewOptionsTarget::All) is Some ==> m.target_visibility(
            ViewOptionsTarget::Resource(r),
        ) == m.target_visibility(ViewOptionsTarget::All),
        m.target_visibility(ViewOptionsTarget::All) is Some ==> m.target_visibility(
            ViewOptionsTarget::Geysers,
        ) == m.target_visibility(ViewOptionsTarget::All),
{
}

/// Only showing or hiding everything, or the geysers themselves, changes
/// whether the geysers are shown; setting the geysers gives them exactly the
/// requested visibility; hiding everything hides them, and showing
/// everything never hides them.
pub proof fn law_geysers_only_change_with_their_targets(
    m: ViewOptionsModel,
    t: ViewOptionsTarget,
    visible: bool,
)
    ensures
        t != ViewOptionsTarget::All && t != ViewOptionsTarget::Geysers ==> m.with_target_visible(
            t,
            visible,
        ).geysers_visible == m.geysers_visible,
        m.with_target_visible(ViewOptionsTarget::Geysers, visible).geysers_visible == visible,
        m.with_target_visible(ViewOptionsTarget::Geysers, visible).visible_items == m.visible_items,
        !m.with_target_visible(ViewOptionsTarget::All, false).geysers_visible,
        m.with_target_visible(ViewOptionsTarget::All, true) == m || m.with_target_visible(
            ViewOptionsTarget::All,
            true,
        ).geysers_visible,
        m.geysers_visible ==> m.with_target_visible(ViewOptionsTarget::All, true).geysers_visible,
{
}

/// A resource, purity or well target whose existing parts are all shown (or
/// all hidden), with at least one such part, is fully shown (or fully
/// hidden).
pub proof fn law_parts_decide_visibility(m: ViewOptionsModel, t: ViewOptionsTarget, b: bool, w: ViewOptionsTarget)
    requires
        m.valid(),
        t is Resource || t is Purity || t is FrackingNodes,
        is_leaf_target(w) && target_contains(t, w) && m.target_exists(w),
        forall|u: ViewOptionsTarget|
            is_leaf_target(u) && target_contains(t, u) && m.target_exists(u) ==> #[trigger] m.target_visibility(u) == Some(b),
    ensures
        m.target_visibility(t) == Some(b),
{
    assert(m.target_visibility(w) == Some(b));
    match t {
        ViewOptionsTarget::Resource(r) => {
            let lo = m.relevant_start(r);
            let hi = m.relevant_end(r);
            let (wr, wj) = leaf_flag(w);
            assert(lo <= wj < hi);
            assert forall|j: int| lo <= j < hi implies m.entry_visible(r, j) == b by {
                assert(m.target_visibility(leaf_at(r, j)) == Some(b));
            }
            if b {
                assert(m.entry_visible(r, wj));
                assert forall|j: int| lo <= j < hi implies #[trigger] m.visible_items[r][j] by {
                    assert(m.entry_visible(r, j));
                }
            } else if m.visible_items.dom().contains(r) {
                assert(!(forall|j: int| lo <= j < hi ==> #[trigger] m.visible_items[r][j])) by {
                    assert(!m.entry_visible(r, wj));
                }
                assert(!(exists|j: int| lo <= j < hi && #[trigger] m.visible_items[r][j])) by {
                    assert forall|j: int| lo <= j < hi implies !#[trigger] m.visible_items[r][j] by {
                        assert(!m.entry_visible(r, j));
                    }
                }
            }
        },
        ViewOptionsTarget::Purity(p) => {
            let (wr, wj) = leaf_flag(w);
            assert(m.existing_node_resources.contains(wr));
            assert forall|x: ResourceDescriptor| #[trigger] m.existing_node_resources.contains(x) implies m.entry_visible(x, purity_index(p)) == b by {
                assert(m.target_visibility(ViewOptionsTarget::ResourceWithPurity(x, p)) == Some(b));
            }
            if !b {
                assert(!m.entry_visible(wr, purity_index(p)));
            }
        },
        ViewOptionsTarget::FrackingNodes => {
            let (wr, wj) = leaf_flag(w);
            assert(m.existing_fracking_resources.contains(wr));
            assert forall|x: ResourceDescriptor| #[trigger] m.existing_fracking_resources.contains(x) implies m.entry_visible(x, FRACKING_INDEX as int) == b by {
                assert(m.target_visibility(ViewOptionsTarget::ResourceFrackingNodes(x)) == Some(b));
            }
            if !b {
                assert(!m.entry_visible(wr, FRACKING_INDEX as int));
            }
        },
        _ => {},
    }
}

/// The whole map is fully shown (or hidden) when the geysers and every
/// resource are.
pub proof fn law_all_from_parts(m: ViewOptionsModel, b: bool)
    requires
        m.geysers_visible == b,
        forall|r: ResourceDescriptor| #[trigger] m.target_visibility(ViewOptionsTarget::Resource(r)) == Some(b),
    ensures
        m.target_visibility(ViewOptionsTarget::All) == Some(b),
{
    assert forall|r: ResourceDescriptor| #[trigger] m.resource_visibility(r) == Some(b) by {
        assert(m.target_visibility(ViewOptionsTarget::Resource(r)) == Some(b));
    }
}

} // verus!
