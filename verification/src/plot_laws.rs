//! Properties that hold of what a plot item draws.
use vstd::prelude::*;

use crate::constants::{purity_marker, MarkerKind};
use crate::plot_item::{
    core_points, fracking_items, geyser_items, marker_items, satellite_items, shows, DrawItem,
    FrackingCore, MarkerColor, MarkerScale, MarkerSize, PointSource, ResourceDisplay,
    ResourceDisplayContent, ResourceNode,
};
use crate::resources::{ResourceDescriptor, ResourcePurity};
use crate::view_options::{target_contains, ViewOptionsModel, ViewOptionsTarget};

verus! {

/// The point at which a drawing step draws.
pub open spec fn item_source(d: DrawItem) -> PointSource {
    match d {
        DrawItem::Marker { source, .. } => source,
        DrawItem::Icon { source, .. } => source,
    }
}

/// The single-kind target that a point of `content` belongs to.
pub open spec fn source_target(content: ResourceDisplayContent, p: PointSource) -> ViewOptionsTarget {
    match content {
        ResourceDisplayContent::ResourceNodes(r, nodes) => match p {
            PointSource::Node(i) => ViewOptionsTarget::ResourceWithPurity(r, nodes@[i as int].purity),
            _ => ViewOptionsTarget::All,
        },
        ResourceDisplayContent::FrackingNodes(r, _) => ViewOptionsTarget::ResourceFrackingNodes(r),
        ResourceDisplayContent::Geysers(_) => ViewOptionsTarget::Geysers,
    }
}

/// Every step of a point's marker (and icon) draws at that point.
proof fn lemma_marker_items_source(
    source: PointSource,
    shape: crate::constants::MarkerKind,
    size: crate::plot_item::MarkerSize,
    color: crate::plot_item::MarkerColor,
    filled: bool,
    scale: crate::plot_item::MarkerScale,
    with_icon: bool,
)
    ensures
        forall|k: int|
            0 <= k < marker_items(source, shape, size, color, filled, scale, with_icon).len()
                ==> item_source(
                #[trigger] marker_items(source, shape, size, color, filled, scale, with_icon)[k],
            ) == source,
{
}

/// The node steps only draw nodes among the first `n` whose target is shown.
proof fn lemma_node_items(
    d: ResourceDisplay,
    m: ViewOptionsModel,
    r: ResourceDescriptor,
    nodes: Seq<ResourceNode>,
    n: nat,
)
    requires
        n <= nodes.len(),
        nodes.len() <= usize::MAX,
    ensures
        forall|k: int|
            0 <= k < d.node_items(m, r, nodes, n).len() ==> {
                let src = item_source(#[trigger] d.node_items(m, r, nodes, n)[k]);
                &&& src is Node
                &&& (src->Node_0 as int) < n
                &&& shows(m, ViewOptionsTarget::ResourceWithPurity(r, nodes[src->Node_0 as int].purity))
            },
    decreases n,
{
    if n > 0 {
        lemma_node_items(d, m, r, nodes, (n - 1) as nat);
        let i = n - 1;
        let purity = nodes[i].purity;
        let t = ViewOptionsTarget::ResourceWithPurity(r, purity);
        let prev = d.node_items(m, r, nodes, (n - 1) as nat);
        if shows(m, t) {
            let items = marker_items(
                PointSource::Node(i as usize),
                crate::constants::purity_marker(purity),
                crate::plot_item::MarkerSize::Full,
                crate::plot_item::MarkerColor::Purity(purity),
                true,
                d.scale_for(t),
                d.spec_has_icon(),
            );
            lemma_marker_items_source(
                PointSource::Node(i as usize),
                crate::constants::purity_marker(purity),
                crate::plot_item::MarkerSize::Full,
                crate::plot_item::MarkerColor::Purity(purity),
                true,
                d.scale_for(t),
                d.spec_has_icon(),
            );
            assert forall|k: int| 0 <= k < (prev + items).len() implies {
                let src = item_source(#[trigger] (prev + items)[k]);
                &&& src is Node
                &&& (src->Node_0 as int) < n
                &&& shows(m, ViewOptionsTarget::ResourceWithPurity(r, nodes[src->Node_0 as int].purity))
            } by {
                if k < prev.len() {
                    assert((prev + items)[k] == prev[k]);
                } else {
                    assert((prev + items)[k] == items[k - prev.len()]);
                }
            }
        }
    }
}

/// The satellites of the first `n` cores are points of the cores.
proof fn lemma_core_points_has_satellite(cores: Seq<FrackingCore>, n: nat, k: int, j: int)
    requires
        0 <= k < n,
        n <= cores.len(),
        0 <= j < cores[k].satellites@.len(),
    ensures
        core_points(cores, n).contains(PointSource::Satellite(k as usize, j as usize)),
    decreases n,
{
    let prev = core_points(cores, (n - 1) as nat);
    let tail = Seq::new(
        cores[n - 1].satellites@.len(),
        |x: int| PointSource::Satellite((n - 1) as usize, x as usize),
    );
    let target = PointSource::Satellite(k as usize, j as usize);
    if k < n - 1 {
        lemma_core_points_has_satellite(cores, (n - 1) as nat, k, j);
        let w = choose|w: int| 0 <= w < prev.len() && prev[w] == target;
        assert((prev.push(PointSource::Core((n - 1) as usize)) + tail)[w] == target);
    } else {
        let at = prev.len() + 1 + j;
        assert((prev.push(PointSource::Core((n - 1) as usize)) + tail)[at] == target);
    }
}

/// The satellite steps of core `k` only draw its satellites `0..n`.
proof fn lemma_satellite_items(
    k: int,
    sats: Seq<ResourcePurity>,
    n: nat,
    scale: crate::plot_item::MarkerScale,
    with_icon: bool,
)
    requires
        0 <= k <= usize::MAX,
        n <= usize::MAX,
    ensures
        forall|i: int|
            0 <= i < satellite_items(k, sats, n, scale, with_icon).len() ==> {
                let src = item_source(#[trigger] satellite_items(k, sats, n, scale, with_icon)[i]);
                &&& src is Satellite
                &&& src->Satellite_0 == k as usize
                &&& (src->Satellite_1 as int) < n
            },
    decreases n,
{
    if n > 0 {
        lemma_satellite_items(k, sats, (n - 1) as nat, scale, with_icon);
        let j = n - 1;
        let prev = satellite_items(k, sats, (n - 1) as nat, scale, with_icon);
        let items = marker_items(
            PointSource::Satellite(k as usize, j as usize),
            crate::constants::purity_marker(sats[j]),
            crate::plot_item::MarkerSize::ThreeQuarters,
            crate::plot_item::MarkerColor::Purity(sats[j]),
            true,
            scale,
            with_icon,
        );
        lemma_marker_items_source(
            PointSource::Satellite(k as usize, j as usize),
            crate::constants::purity_marker(sats[j]),
            crate::plot_item::MarkerSize::ThreeQuarters,
            crate::plot_item::MarkerColor::Purity(sats[j]),
            true,
            scale,
            with_icon,
        );
        assert forall|i: int| 0 <= i < (prev + items).len() implies {
            let src = item_source(#[trigger] (prev + items)[i]);
            &&& src is Satellite
            &&& src->Satellite_0 == k as usize
            &&& (src->Satellite_1 as int) < n
        } by {
            if i < prev.len() {
                assert((prev + items)[i] == prev[i]);
            } else {
                assert((prev + items)[i] == items[i - prev.len()]);
            }
        }
    }
}

/// The well steps of the first `n` cores only draw satellites of those cores.
proof fn lemma_fracking_items(
    cores: Seq<FrackingCore>,
    n: nat,
    scale: crate::plot_item::MarkerScale,
    with_icon: bool,
)
    requires
        n <= cores.len(),
        cores.len() <= usize::MAX,
        forall|c: int| 0 <= c < cores.len() ==> #[trigger] cores[c].satellites@.len() <= usize::MAX,
    ensures
        forall|i: int|
            0 <= i < fracking_items(cores, n, scale, with_icon).len() ==> {
                let src = item_source(#[trigger] fracking_items(cores, n, scale, with_icon)[i]);
                &&& src is Satellite
                &&& (src->Satellite_0 as int) < n
                &&& (src->Satellite_1 as int) < cores[src->Satellite_0 as int].satellites@.len()
            },
    decreases n,
{
    if n > 0 {
        lemma_fracking_items(cores, (n - 1) as nat, scale, with_icon);
        let k = n - 1;
        let sats = cores[k].satellites@;
        lemma_satellite_items(k, sats, sats.len(), scale, with_icon);
        let prev = fracking_items(cores, (n - 1) as nat, scale, with_icon);
        let items = satellite_items(k, sats, sats.len(), scale, with_icon);
        assert forall|i: int| 0 <= i < (prev + items).len() implies {
            let src = item_source(#[trigger] (prev + items)[i]);
            &&& src is Satellite
            &&& (src->Satellite_0 as int) < n
            &&& (src->Satellite_1 as int) < cores[src->Satellite_0 as int].satellites@.len()
        } by {
            if i < prev.len() {
                assert((prev + items)[i] == prev[i]);
            } else {
                assert((prev + items)[i] == items[i - prev.len()]);
            }
        }
    }
}

/// The geyser steps only draw geysers among the first `n`.
proof fn lemma_geyser_items(n: nat, scale: crate::plot_item::MarkerScale)
    ensures
        forall|i: int|
            0 <= i < geyser_items(n, scale).len() ==> {
                let src = item_source(#[trigger] geyser_items(n, scale)[i]);
                &&& src is Geyser
                &&& (src->Geyser_0 as int) < n
            },
    decreases n,
{
    if n > 0 {
        lemma_geyser_items((n - 1) as nat, scale);
    }
}

/// Every step that a display draws is at one of its own points, and that
/// point belongs to a target that the view options show fully.
pub proof fn law_draws_only_shown_points(d: ResourceDisplay, m: ViewOptionsModel, i: int)
    requires
        0 <= i < d.spec_draw_plan(m).len(),
    ensures
        d.spec_content().spec_points().contains(item_source(d.spec_draw_plan(m)[i])),
        shows(m, source_target(d.spec_content(), item_source(d.spec_draw_plan(m)[i]))),
{
    let src = item_source(d.spec_draw_plan(m)[i]);
    match d.spec_content() {
        ResourceDisplayContent::ResourceNodes(r, nodes) => {
            assert(nodes@.len() == nodes.len());
            lemma_node_items(d, m, r, nodes@, nodes@.len());
            let points = d.spec_content().spec_points();
            assert(points[src->Node_0 as int] == src);
        },
        ResourceDisplayContent::FrackingNodes(r, cores) => {
            let t = ViewOptionsTarget::ResourceFrackingNodes(r);
            let scale = d.scale_for(t);
            assert(cores@.len() == cores.len());
            assert forall|c: int| 0 <= c < cores@.len() implies #[trigger] cores@[c].satellites@.len() <= usize::MAX by {
                assert(cores@[c].satellites@.len() == cores@[c].satellites.len());
            }
            lemma_fracking_items(cores@, cores@.len(), scale, d.spec_has_icon());
            lemma_core_points_has_satellite(
                cores@,
                cores@.len(),
                src->Satellite_0 as int,
                src->Satellite_1 as int,
            );
        },
        ResourceDisplayContent::Geysers(geysers) => {
            let t = ViewOptionsTarget::Geysers;
            lemma_geyser_items(geysers@.len(), d.scale_for(t));
            let points = d.spec_content().spec_points();
            assert(points[src->Geyser_0 as int] == src);
        },
    }
}

/// Whether step `d` is a marker at `p`.
pub open spec fn is_marker_at(d: DrawItem, p: PointSource) -> bool {
    d is Marker && item_source(d) == p
}

/// Every shown node among the first `n` gets a marker.
proof fn lemma_node_items_complete(
    d: ResourceDisplay,
    m: ViewOptionsModel,
    r: ResourceDescriptor,
    nodes: Seq<ResourceNode>,
    n: nat,
    i: int,
)
    requires
        0 <= i < n,
        n <= nodes.len(),
        shows(m, ViewOptionsTarget::ResourceWithPurity(r, nodes[i].purity)),
    ensures
        exists|k: int|
            0 <= k < d.node_items(m, r, nodes, n).len() && is_marker_at(
                #[trigger] d.node_items(m, r, nodes, n)[k],
                PointSource::Node(i as usize),
            ),
    decreases n,
{
    let prev = d.node_items(m, r, nodes, (n - 1) as nat);
    let all = d.node_items(m, r, nodes, n);
    if i < n - 1 {
        lemma_node_items_complete(d, m, r, nodes, (n - 1) as nat, i);
        let k = choose|k: int| 0 <= k < prev.len() && is_marker_at(#[trigger] prev[k], PointSource::Node(i as usize));
        assert(all[k] == prev[k]);
    } else {
        assert(is_marker_at(all[prev.len() as int], PointSource::Node(i as usize)));
    }
}

/// Every satellite among the first `n` of core `k` gets a marker.
proof fn lemma_satellite_items_complete(
    k: int,
    sats: Seq<ResourcePurity>,
    n: nat,
    scale: crate::plot_item::MarkerScale,
    with_icon: bool,
    j: int,
)
    requires
        0 <= j < n,
    ensures
        exists|x: int|
            0 <= x < satellite_items(k, sats, n, scale, with_icon).len() && is_marker_at(
                #[trigger] satellite_items(k, sats, n, scale, with_icon)[x],
                PointSource::Satellite(k as usize, j as usize),
            ),
    decreases n,
{
    let prev = satellite_items(k, sats, (n - 1) as nat, scale, with_icon);
    let all = satellite_items(k, sats, n, scale, with_icon);
    if j < n - 1 {
        lemma_satellite_items_complete(k, sats, (n - 1) as nat, scale, with_icon, j);
        let x = choose|x: int|
            0 <= x < prev.len() && is_marker_at(#[trigger] prev[x], PointSource::Satellite(k as usize, j as usize));
        assert(all[x] == prev[x]);
    } else {
        assert(is_marker_at(all[prev.len() as int], PointSource::Satellite(k as usize, j as usize)));
    }
}

/// Every satellite of the first `n` cores gets a marker.
proof fn lemma_fracking_items_complete(
    cores: Seq<FrackingCore>,
    n: nat,
    scale: crate::plot_item::MarkerScale,
    with_icon: bool,
    k: int,
    j: int,
)
    requires
        0 <= k < n,
        n <= cores.len(),
        0 <= j < cores[k].satellites@.len(),
    ensures
        exists|x: int|
            0 <= x < fracking_items(cores, n, scale, with_icon).len() && is_marker_at(
                #[trigger] fracking_items(cores, n, scale, with_icon)[x],
                PointSource::Satellite(k as usize, j as usize),
            ),
    decreases n,
{
    let prev = fracking_items(cores, (n - 1) as nat, scale, with_icon);
    let all = fracking_items(cores, n, scale, with_icon);
    if k < n - 1 {
        lemma_fracking_items_complete(cores, (n - 1) as nat, scale, with_icon, k, j);
        let x = choose|x: int|
            0 <= x < prev.len() && is_marker_at(#[trigger] prev[x], PointSource::Satellite(k as usize, j as usize));
        assert(all[x] == prev[x]);
    } else {
        let sats = cores[k].satellites@;
        let items = satellite_items(k, sats, sats.len(), scale, with_icon);
        lemma_satellite_items_complete(k, sats, sats.len(), scale, with_icon, j);
        let x = choose|x: int|
            0 <= x < items.len() && is_marker_at(#[trigger] items[x], PointSource::Satellite(k as usize, j as usize));
        assert(all[prev.len() + x] == items[x]);
    }
}

/// Every geyser among the first `n` gets a marker.
proof fn lemma_geyser_items_complete(n: nat, scale: crate::plot_item::MarkerScale, i: int)
    requires
        0 <= i < n,
    ensures
        exists|x: int|
            0 <= x < geyser_items(n, scale).len() && is_marker_at(
                #[trigger] geyser_items(n, scale)[x],
                PointSource::Geyser(i as usize),
            ),
    decreases n,
{
    let prev = geyser_items((n - 1) as nat, scale);
    let all = geyser_items(n, scale);
    if i < n - 1 {
        lemma_geyser_items_complete((n - 1) as nat, scale, i);
        let x = choose|x: int| 0 <= x < prev.len() && is_marker_at(#[trigger] prev[x], PointSource::Geyser(i as usize));
        assert(all[x] == prev[x]);
    } else {
        assert(is_marker_at(all[prev.len() as int], PointSource::Geyser(i as usize)));
    }
}

/// Each point of the first `n` cores is a core or a satellite of one of them.
proof fn lemma_core_points_elements(cores: Seq<FrackingCore>, n: nat, x: int)
    requires
        n <= cores.len(),
        cores.len() <= usize::MAX,
        forall|c: int| 0 <= c < cores.len() ==> #[trigger] cores[c].satellites@.len() <= usize::MAX,
        0 <= x < core_points(cores, n).len(),
    ensures
        match core_points(cores, n)[x] {
            PointSource::Core(k) => (k as int) < n,
            PointSource::Satellite(k, j) => (k as int) < n && (j as int) < cores[k as int].satellites@.len(),
            _ => false,
        },
    decreases n,
{
    let prev = core_points(cores, (n - 1) as nat);
    if x < prev.len() {
        lemma_core_points_elements(cores, (n - 1) as nat, x);
        assert(core_points(cores, n)[x] == prev[x]);
    }
}

/// Every point of a display other than a fracking core gets a marker when
/// the target it belongs to is fully shown.
pub proof fn law_draws_every_shown_point(d: ResourceDisplay, m: ViewOptionsModel, x: int)
    requires
        0 <= x < d.spec_content().spec_points().len(),
        !(d.spec_content().spec_points()[x] is Core),
        shows(m, source_target(d.spec_content(), d.spec_content().spec_points()[x])),
    ensures
        exists|k: int|
            0 <= k < d.spec_draw_plan(m).len() && is_marker_at(
                #[trigger] d.spec_draw_plan(m)[k],
                d.spec_content().spec_points()[x],
            ),
{
    let p = d.spec_content().spec_points()[x];
    match d.spec_content() {
        ResourceDisplayContent::ResourceNodes(r, nodes) => {
            assert(nodes@.len() == nodes.len());
            lemma_node_items_complete(d, m, r, nodes@, nodes@.len(), x);
            assert(p == PointSource::Node(x as usize));
            assert(d.spec_draw_plan(m) == d.node_items(m, r, nodes@, nodes@.len()));
            let k = choose|k: int| 0 <= k < d.node_items(m, r, nodes@, nodes@.len()).len() && is_marker_at(
                #[trigger] d.node_items(m, r, nodes@, nodes@.len())[k], PointSource::Node(x as usize));
            assert(is_marker_at(d.spec_draw_plan(m)[k], p));
        },
        ResourceDisplayContent::FrackingNodes(r, cores) => {
            assert(cores@.len() == cores.len());
            assert forall|c: int| 0 <= c < cores@.len() implies #[trigger] cores@[c].satellites@.len() <= usize::MAX by {
                assert(cores@[c].satellites@.len() == cores@[c].satellites.len());
            }
            lemma_core_points_elements(cores@, cores@.len(), x);
            lemma_fracking_items_complete(
                cores@,
                cores@.len(),
                d.scale_for(ViewOptionsTarget::ResourceFrackingNodes(r)),
                d.spec_has_icon(),
                p->Satellite_0 as int,
                p->Satellite_1 as int,
            );
            assert(p == PointSource::Satellite((p->Satellite_0 as int) as usize, (p->Satellite_1 as int) as usize));
            let items = fracking_items(cores@, cores@.len(), d.scale_for(ViewOptionsTarget::ResourceFrackingNodes(r)), d.spec_has_icon());
            let k = choose|k: int| 0 <= k < items.len() && is_marker_at(#[trigger] items[k], p);
            assert(is_marker_at(d.spec_draw_plan(m)[k], p));
        },
        ResourceDisplayContent::Geysers(geysers) => {
            assert(geysers@.len() == geysers.len());
            lemma_geyser_items_complete(geysers@.len(), d.scale_for(ViewOptionsTarget::Geysers), x);
            assert(p == PointSource::Geyser(x as usize));
            let items = geyser_items(geysers@.len(), d.scale_for(ViewOptionsTarget::Geysers));
            let k = choose|k: int| 0 <= k < items.len() && is_marker_at(#[trigger] items[k], PointSource::Geyser(x as usize));
            assert(is_marker_at(d.spec_draw_plan(m)[k], p));
        },
    }
}

/// The scale a marker of target `t` should have: enlarged where the
/// highlighted view-options target covers `t`, or where the plot highlights
/// the display while no view-options target is highlighted.
pub open spec fn expected_scale(d: ResourceDisplay, t: ViewOptionsTarget) -> MarkerScale {
    let covered = match d.spec_view_options_highlight() {
        Some(h) => target_contains(h, t),
        None => false,
    };
    if covered || (d.spec_plot_highlight() && d.spec_view_options_highlight() is None) {
        MarkerScale::Highlighted
    } else {
        MarkerScale::Normal
    }
}

/// A step fits a node of resource `r`: a filled full-size marker in the
/// shape and color of that node's own purity, or its icon.
pub open spec fn node_step_fits(d: ResourceDisplay, r: ResourceDescriptor, nodes: Seq<ResourceNode>, step: DrawItem) -> bool {
    match step {
        DrawItem::Marker { source, shape, size, color, filled, scale } => {
            &&& source is Node
            &&& (source->Node_0 as int) < nodes.len()
            &&& shape == purity_marker(nodes[source->Node_0 as int].purity)
            &&& color == MarkerColor::Purity(nodes[source->Node_0 as int].purity)
            &&& size == MarkerSize::Full
            &&& filled
            &&& scale == expected_scale(d, ViewOptionsTarget::ResourceWithPurity(r, nodes[source->Node_0 as int].purity))
        },
        DrawItem::Icon { source, scale } => {
            &&& d.spec_has_icon()
            &&& source is Node
            &&& (source->Node_0 as int) < nodes.len()
            &&& scale == expected_scale(d, ViewOptionsTarget::ResourceWithPurity(r, nodes[source->Node_0 as int].purity))
        },
    }
}

/// A step fits a satellite well of resource `r`: a filled three-quarter
/// marker in the shape and color of that satellite's own purity, or its
/// icon.
pub open spec fn satellite_step_fits(d: ResourceDisplay, r: ResourceDescriptor, cores: Seq<FrackingCore>, step: DrawItem) -> bool {
    match step {
        DrawItem::Marker { source, shape, size, color, filled, scale } => {
            &&& source is Satellite
            &&& (source->Satellite_0 as int) < cores.len()
            &&& (source->Satellite_1 as int) < cores[source->Satellite_0 as int].satellites@.len()
            &&& shape == purity_marker(cores[source->Satellite_0 as int].satellites@[source->Satellite_1 as int])
            &&& color == MarkerColor::Purity(cores[source->Satellite_0 as int].satellites@[source->Satellite_1 as int])
            &&& size == MarkerSize::ThreeQuarters
            &&& filled
            &&& scale == expected_scale(d, ViewOptionsTarget::ResourceFrackingNodes(r))
        },
        DrawItem::Icon { source, scale } => {
            &&& d.spec_has_icon()
            &&& source is Satellite
            &&& scale == expected_scale(d, ViewOptionsTarget::ResourceFrackingNodes(r))
        },
    }
}

/// A step fits a geyser: an unfilled full-size asterisk in the content's
/// color; geysers get no icons.
pub open spec fn geyser_step_fits(d: ResourceDisplay, n: nat, step: DrawItem) -> bool {
    match step {
        DrawItem::Marker { source, shape, size, color, filled, scale } => {
            &&& source is Geyser
            &&& (source->Geyser_0 as int) < n
            &&& shape == MarkerKind::Asterisk
            &&& color == MarkerColor::Content
            &&& size == MarkerSize::Full
            &&& !filled
            &&& scale == expected_scale(d, ViewOptionsTarget::Geysers)
        },
        DrawItem::Icon { .. } => false,
    }
}

/// Whether a step is drawn the way its content calls for.
pub open spec fn step_fits(d: ResourceDisplay, step: DrawItem) -> bool {
    match d.spec_content() {
        ResourceDisplayContent::ResourceNodes(r, nodes) => node_step_fits(d, r, nodes@, step),
        ResourceDisplayContent::FrackingNodes(r, cores) => satellite_step_fits(d, r, cores@, step),
        ResourceDisplayContent::Geysers(geysers) => geyser_step_fits(d, geysers@.len(), step),
    }
}

proof fn lemma_seq_concat_forall(a: Seq<DrawItem>, b: Seq<DrawItem>, f: spec_fn(DrawItem) -> bool)
    requires
        forall|k: int| 0 <= k < a.len() ==> f(#[trigger] a[k]),
        forall|k: int| 0 <= k < b.len() ==> f(#[trigger] b[k]),
    ensures
        forall|k: int| 0 <= k < (a + b).len() ==> f(#[trigger] (a + b)[k]),
{
    assert forall|k: int| 0 <= k < (a + b).len() implies f(#[trigger] (a + b)[k]) by {
        if k < a.len() {
            assert((a + b)[k] == a[k]);
        } else {
            assert((a + b)[k] == b[k - a.len()]);
        }
    }
}

proof fn lemma_node_items_fit(
    d: ResourceDisplay,
    m: ViewOptionsModel,
    r: ResourceDescriptor,
    nodes: Seq<ResourceNode>,
    n: nat,
)
    requires
        n <= nodes.len(),
        nodes.len() <= usize::MAX,
    ensures
        forall|k: int|
            0 <= k < d.node_items(m, r, nodes, n).len() ==> node_step_fits(d, r, nodes, #[trigger] d.node_items(m, r, nodes, n)[k]),
    decreases n,
{
    if n > 0 {
        lemma_node_items_fit(d, m, r, nodes, (n - 1) as nat);
        let i = n - 1;
        let purity = nodes[i].purity;
        let t = ViewOptionsTarget::ResourceWithPurity(r, purity);
        let prev = d.node_items(m, r, nodes, (n - 1) as nat);
        if shows(m, t) {
            let items = marker_items(
                PointSource::Node(i as usize),
                purity_marker(purity),
                MarkerSize::Full,
                MarkerColor::Purity(purity),
                true,
                d.scale_for(t),
                d.spec_has_icon(),
            );
            assert(d.scale_for(t) == expected_scale(d, t));
            let f = |step: DrawItem| node_step_fits(d, r, nodes, step);
            assert forall|k: int| 0 <= k < items.len() implies f(#[trigger] items[k]) by {}
            assert forall|k: int| 0 <= k < prev.len() implies f(#[trigger] prev[k]) by {}
            lemma_seq_concat_forall(prev, items, f);
        }
    }
}

proof fn lemma_satellite_items_fit(
    d: ResourceDisplay,
    r: ResourceDescriptor,
    cores: Seq<FrackingCore>,
    k: int,
    n: nat,
)
    requires
        0 <= k < cores.len(),
        cores.len() <= usize::MAX,
        n <= cores[k].satellites@.len(),
        cores[k].satellites@.len() <= usize::MAX,
    ensures
        forall|x: int|
            0 <= x < satellite_items(k, cores[k].satellites@, n, d.scale_for(ViewOptionsTarget::ResourceFrackingNodes(r)), d.spec_has_icon()).len()
                ==> satellite_step_fits(d, r, cores, #[trigger] satellite_items(k, cores[k].satellites@, n, d.scale_for(ViewOptionsTarget::ResourceFrackingNodes(r)), d.spec_has_icon())[x]),
    decreases n,
{
    let t = ViewOptionsTarget::ResourceFrackingNodes(r);
    let scale = d.scale_for(t);
    let sats = cores[k].satellites@;
    if n > 0 {
        lemma_satellite_items_fit(d, r, cores, k, (n - 1) as nat);
        let j = n - 1;
        let prev = satellite_items(k, sats, (n - 1) as nat, scale, d.spec_has_icon());
        let items = marker_items(
            PointSource::Satellite(k as usize, j as usize),
            purity_marker(sats[j]),
            MarkerSize::ThreeQuarters,
            MarkerColor::Purity(sats[j]),
            true,
            scale,
            d.spec_has_icon(),
        );
        assert(scale == expected_scale(d, t));
        let f = |step: DrawItem| satellite_step_fits(d, r, cores, step);
        assert forall|x: int| 0 <= x < items.len() implies f(#[trigger] items[x]) by {}
        assert forall|x: int| 0 <= x < prev.len() implies f(#[trigger] prev[x]) by {}
        lemma_seq_concat_forall(prev, items, f);
    }
}

proof fn lemma_fracking_items_fit(d: ResourceDisplay, r: ResourceDescriptor, cores: Seq<FrackingCore>, n: nat)
    requires
        n <= cores.len(),
        cores.len() <= usize::MAX,
        forall|c: int| 0 <= c < cores.len() ==> #[trigger] cores[c].satellites@.len() <= usize::MAX,
    ensures
        forall|x: int|
            0 <= x < fracking_items(cores, n, d.scale_for(ViewOptionsTarget::ResourceFrackingNodes(r)), d.spec_has_icon()).len()
                ==> satellite_step_fits(d, r, cores, #[trigger] fracking_items(cores, n, d.scale_for(ViewOptionsTarget::ResourceFrackingNodes(r)), d.spec_has_icon())[x]),
    decreases n,
{
    if n > 0 {
        let scale = d.scale_for(ViewOptionsTarget::ResourceFrackingNodes(r));
        lemma_fracking_items_fit(d, r, cores, (n - 1) as nat);
        let k = n - 1;
        let sats = cores[k].satellites@;
        lemma_satellite_items_fit(d, r, cores, k, sats.len());
        let prev = fracking_items(cores, (n - 1) as nat, scale, d.spec_has_icon());
        let items = satellite_items(k, sats, sats.len(), scale, d.spec_has_icon());
        let f = |step: DrawItem| satellite_step_fits(d, r, cores, step);
        assert forall|x: int| 0 <= x < items.len() implies f(#[trigger] items[x]) by {}
        assert forall|x: int| 0 <= x < prev.len() implies f(#[trigger] prev[x]) by {}
        lemma_seq_concat_forall(prev, items, f);
    }
}

proof fn lemma_geyser_items_fit(d: ResourceDisplay, n: nat, total: nat)
    requires
        n <= total,
        total <= usize::MAX,
    ensures
        forall|x: int|
            0 <= x < geyser_items(n, d.scale_for(ViewOptionsTarget::Geysers)).len()
                ==> geyser_step_fits(d, total, #[trigger] geyser_items(n, d.scale_for(ViewOptionsTarget::Geysers))[x]),
    decreases n,
{
    if n > 0 {
        lemma_geyser_items_fit(d, (n - 1) as nat, total);
        let scale = d.scale_for(ViewOptionsTarget::Geysers);
        assert(scale == expected_scale(d, ViewOptionsTarget::Geysers));
        let prev = geyser_items((n - 1) as nat, scale);
        let all = geyser_items(n, scale);
        assert forall|x: int| 0 <= x < all.len() implies geyser_step_fits(d, total, #[trigger] all[x]) by {
            if x < prev.len() {
                assert(all[x] == prev[x]);
            }
        }
    }
}

/// Every step a display draws is drawn the way its item calls for: a node
/// or satellite well in the shape and color of its own purity (filled; full
/// size for nodes, three quarters for wells), a geyser as an unfilled
/// asterisk in the content's color; icons only where the display has one
/// and never for geysers; and enlarged exactly where the highlighted target
/// covers the item's target, or where the plot highlights the display while
/// no target is highlighted.
pub proof fn law_steps_fit_their_items(d: ResourceDisplay, m: ViewOptionsModel, k: int)
    requires
        0 <= k < d.spec_draw_plan(m).len(),
    ensures
        step_fits(d, d.spec_draw_plan(m)[k]),
{
    match d.spec_content() {
        ResourceDisplayContent::ResourceNodes(r, nodes) => {
            assert(nodes@.len() == nodes.len());
            lemma_node_items_fit(d, m, r, nodes@, nodes@.len());
        },
        ResourceDisplayContent::FrackingNodes(r, cores) => {
            assert(cores@.len() == cores.len());
            assert forall|c: int| 0 <= c < cores@.len() implies #[trigger] cores@[c].satellites@.len() <= usize::MAX by {
                assert(cores@[c].satellites@.len() == cores@[c].satellites.len());
            }
            lemma_fracking_items_fit(d, r, cores@, cores@.len());
        },
        ResourceDisplayContent::Geysers(geysers) => {
            assert(geysers@.len() == geysers.len());
            lemma_geyser_items_fit(d, geysers@.len(), geysers@.len());
        },
    }
}

/// Whether the highlighted target `h` covers any item of `content`.
pub open spec fn target_overlaps(h: ViewOptionsTarget, content: ResourceDisplayContent) -> bool {
    match content {
        ResourceDisplayContent::ResourceNodes(r, _) => exists|p: ResourcePurity|
            #[trigger] target_contains(h, ViewOptionsTarget::ResourceWithPurity(r, p)),
        ResourceDisplayContent::FrackingNodes(r, _) => target_contains(h, ViewOptionsTarget::ResourceFrackingNodes(r)),
        ResourceDisplayContent::Geysers(_) => target_contains(h, ViewOptionsTarget::Geysers),
    }
}

/// A display is highlighted while the plot highlights it; otherwise only by
/// a highlighted target that names the geysers, a resource, or a resource's
/// nodes or wells, and then exactly when that target covers some of its
/// items. Highlighting everything, a purity or all wells highlights no
/// display.
pub proof fn law_highlighted_by_overlap(d: ResourceDisplay)
    ensures
        d.spec_plot_highlight() ==> d.spec_highlighted(),
        !d.spec_plot_highlight() && d.spec_view_options_highlight() is None ==> !d.spec_highlighted(),
        !d.spec_plot_highlight() && d.spec_view_options_highlight() is Some ==> {
            let h = d.spec_view_options_highlight().unwrap();
            d.spec_highlighted() == (!(h is All || h is Purity || h is FrackingNodes)
                && target_overlaps(h, d.spec_content()))
        },
{
    if !d.spec_plot_highlight() && d.spec_view_options_highlight() is Some {
        let h = d.spec_view_options_highlight().unwrap();
        match d.spec_content() {
            ResourceDisplayContent::ResourceNodes(r, _) => {
                let o = ViewOptionsTarget::ResourceWithPurity(r, ResourcePurity::Impure);
                assert(target_contains(h, o) ==> target_overlaps(h, d.spec_content()));
                if let ViewOptionsTarget::ResourceWithPurity(x, q) = h {
                    assert(target_contains(h, ViewOptionsTarget::ResourceWithPurity(x, q)));
                }
            },
            _ => {},
        }
    }
}

} // verus!
