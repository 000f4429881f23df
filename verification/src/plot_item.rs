//! What a plot item of resource markers shows: its points, the entry under
//! the cursor, whether it is highlighted and which markers it draws.
use vstd::prelude::*;

use crate::constants::{
    get_purity_marker, get_resource_color, hex6_rgba, purity_marker, resource_hex, MarkerKind,
};
use crate::resources::{ResourceDescriptor, ResourcePurity};
use crate::view_options::{target_contains, LegendItem, ViewOptions, ViewOptionsModel, ViewOptionsTarget};

verus! {

/// A resource node, as far as the display reads it.
#[derive(Clone, Copy, Debug, PartialEq, Eq, Structural)]
pub struct ResourceNode {
    pub resource: ResourceDescriptor,
    pub purity: ResourcePurity,
}

/// A fracking core with the purities of its satellite wells.
#[derive(Clone, Debug)]
pub struct FrackingCore {
    pub resource: ResourceDescriptor,
    pub satellites: Vec<ResourcePurity>,
}

/// A geyser, as far as the display reads it.
#[derive(Clone, Copy, Debug, PartialEq, Eq, Structural)]
pub struct GeyserNode {
    pub purity: ResourcePurity,
}

/// The items that one plot item shows.
#[derive(Clone, Debug)]
pub enum ResourceDisplayContent {
    ResourceNodes(ResourceDescriptor, Vec<ResourceNode>),
    FrackingNodes(ResourceDescriptor, Vec<FrackingCore>),
    Geysers(Vec<GeyserNode>),
}

/// The item that a point of the plot item stands for, by position.
#[derive(Clone, Copy, Debug, PartialEq, Eq, Structural)]
pub enum PointSource {
    /// The resource node at this position.
    Node(usize),
    /// The fracking core at this position.
    Core(usize),
    /// A satellite well: the core's position, then the satellite's.
    Satellite(usize, usize),
    /// The geyser at this position.
    Geyser(usize),
}

/// The points of the first `n` cores: each core, followed by its satellites.
pub open spec fn core_points(cores: Seq<FrackingCore>, n: nat) -> Seq<PointSource>
    decreases n,
{
    if n == 0 {
        Seq::empty()
    } else {
        let k = (n - 1) as nat;
        core_points(cores, k).push(PointSource::Core(k as usize)) + Seq::new(
            cores[k as int].satellites@.len(),
            |j: int| PointSource::Satellite(k as usize, j as usize),
        )
    }
}

/// The points of the first `k` cores are a prefix of those of the first `n`.
pub proof fn lemma_core_points_prefix(cores: Seq<FrackingCore>, k: nat, n: nat, i: int)
    requires
        k <= n,
        0 <= i < core_points(cores, k).len(),
    ensures
        core_points(cores, k).len() <= core_points(cores, n).len(),
        core_points(cores, n)[i] == core_points(cores, k)[i],
    decreases n,
{
    if k < n {
        lemma_core_points_prefix(cores, k, (n - 1) as nat, i);
    }
}

impl ResourceDisplayContent {
    /// The items whose locations are the points of the plot item, in order:
    /// the nodes, each core followed by its satellite wells, or the geysers.
    pub open spec fn spec_points(self) -> Seq<PointSource> {
        match self {
            ResourceDisplayContent::ResourceNodes(_, nodes) => Seq::new(
                nodes@.len(),
                |i: int| PointSource::Node(i as usize),
            ),
            ResourceDisplayContent::FrackingNodes(_, cores) => core_points(
                cores@,
                cores@.len(),
            ),
            ResourceDisplayContent::Geysers(geysers) => Seq::new(
                geysers@.len(),
                |i: int| PointSource::Geyser(i as usize),
            ),
        }
    }

    /// The resource whose color the content is drawn in; geysers take the
    /// color of water.
    pub open spec fn color_resource(self) -> ResourceDescriptor {
        match self {
            ResourceDisplayContent::ResourceNodes(r, _) => r,
            ResourceDisplayContent::FrackingNodes(r, _) => r,
            ResourceDisplayContent::Geysers(_) => ResourceDescriptor::Water,
        }
    }

    /// The color of the content, as RGBA bytes: that of its resource, and
    /// that of water for geysers.
    pub fn get_color(&self, is_dark_mode: bool) -> (color: [u8; 4])
        ensures
            color@ == hex6_rgba(resource_hex(self.color_resource(), is_dark_mode)),
    {
        match self {
            ResourceDisplayContent::ResourceNodes(resource, _) => get_resource_color(
                *resource,
                is_dark_mode,
            ),
            ResourceDisplayContent::FrackingNodes(resource, _) => get_resource_color(
                *resource,
                is_dark_mode,
            ),
            ResourceDisplayContent::Geysers(_) => get_resource_color(
                ResourceDescriptor::Water,
                is_dark_mode,
            ),
        }
    }

    /// The items whose locations are the points of the plot item, in order.
    pub fn get_points(&self) -> (points: Vec<PointSource>)
        ensures
            points@ == self.spec_points(),
    {
        let mut points: Vec<PointSource> = Vec::new();
        match self {
            ResourceDisplayContent::ResourceNodes(_, nodes) => {
                for i in 0..nodes.len()
                    invariant
                        points@ == Seq::new(i as nat, |k: int| PointSource::Node(k as usize)),
                {
                    points.push(PointSource::Node(i));
                    assert(points@ =~= Seq::new((i + 1) as nat, |k: int| PointSource::Node(k as usize)));
                }
            },
            ResourceDisplayContent::FrackingNodes(_, cores) => {
                for k in 0..cores.len()
                    invariant
                        points@ == core_points(cores@, k as nat),
                {
                    points.push(PointSource::Core(k));
                    let n = cores[k].satellites.len();
                    for j in 0..n
                        invariant
                            k < cores@.len(),
                            n == cores@[k as int].satellites@.len(),
                            points@ == core_points(cores@, k as nat).push(PointSource::Core(k))
                                + Seq::new(j as nat, |x: int| PointSource::Satellite(k, x as usize)),
                    {
                        points.push(PointSource::Satellite(k, j));
                        assert(points@ =~= core_points(cores@, k as nat).push(PointSource::Core(k))
                            + Seq::new((j + 1) as nat, |x: int| PointSource::Satellite(k, x as usize)));
                    }
                    assert(points@ =~= core_points(cores@, (k + 1) as nat));
                }
            },
            ResourceDisplayContent::Geysers(geysers) => {
                for i in 0..geysers.len()
                    invariant
                        points@ == Seq::new(i as nat, |k: int| PointSource::Geyser(k as usize)),
                {
                    points.push(PointSource::Geyser(i));
                    assert(points@ =~= Seq::new((i + 1) as nat, |k: int| PointSource::Geyser(k as usize)));
                }
            },
        }
        points
    }

    /// The item under the plot's cursor when it is at point `index`, or
    /// `None` if there is no such point.
    pub fn point_at(&self, index: usize) -> (source: Option<PointSource>)
        ensures
            source == (if index < self.spec_points().len() {
                Some(self.spec_points()[index as int])
            } else {
                None
            }),
    {
        match self {
            ResourceDisplayContent::ResourceNodes(_, nodes) => {
                if index < nodes.len() {
                    Some(PointSource::Node(index))
                } else {
                    None
                }
            },
            ResourceDisplayContent::FrackingNodes(_, cores) => {
                let ghost all = core_points(cores@, cores@.len());
                let mut rest = index;
                for k in 0..cores.len()
                    invariant
                        all == core_points(cores@, cores@.len()),
                        all == self.spec_points(),
                        index == core_points(cores@, k as nat).len() + rest,
                {
                    let ghost after = core_points(cores@, (k + 1) as nat);
                    if rest == 0 {
                        assert(after[index as int] == PointSource::Core(k));
                        proof {
                            lemma_core_points_prefix(cores@, (k + 1) as nat, cores@.len(), index as int);
                        }
                        return Some(PointSource::Core(k));
                    }
                    rest = rest - 1;
                    let n = cores[k].satellites.len();
                    if rest < n {
                        assert(after[index as int] == PointSource::Satellite(k, rest));
                        proof {
                            lemma_core_points_prefix(cores@, (k + 1) as nat, cores@.len(), index as int);
                        }
                        return Some(PointSource::Satellite(k, rest));
                    }
                    rest = rest - n;
                }
                None
            },
            ResourceDisplayContent::Geysers(geysers) => {
                if index < geysers.len() {
                    Some(PointSource::Geyser(index))
                } else {
                    None
                }
            },
        }
    }
}

/// The size at which a marker is drawn, relative to its own base size.
#[derive(Clone, Copy, Debug, PartialEq, Eq, Structural)]
pub enum MarkerScale {
    /// The base size.
    Normal,
    /// Enlarged by the highlight factor.
    Highlighted,
}

/// The base size of a marker, relative to the plot's marker size.
#[derive(Clone, Copy, Debug, PartialEq, Eq, Structural)]
pub enum MarkerSize {
    /// The plot's marker size.
    Full,
    /// Three quarters of it, for satellite wells.
    ThreeQuarters,
}

/// The color of a marker.
#[derive(Clone, Copy, Debug, PartialEq, Eq, Structural)]
pub enum MarkerColor {
    /// The color of a purity.
    Purity(ResourcePurity),
    /// The color of the plot item's content.
    Content,
}

/// One drawing step of a plot item.
#[derive(Clone, Copy, Debug, PartialEq, Eq, Structural)]
pub enum DrawItem {
    /// A marker at the location of `source`.
    Marker {
        source: PointSource,
        shape: MarkerKind,
        size: MarkerSize,
        color: MarkerColor,
        filled: bool,
        scale: MarkerScale,
    },
    /// The resource icon at the location of `source`.
    Icon { source: PointSource, scale: MarkerScale },
}

/// The marker of a point, followed by the icon where there is one.
pub open spec fn marker_items(
    source: PointSource,
    shape: MarkerKind,
    size: MarkerSize,
    color: MarkerColor,
    filled: bool,
    scale: MarkerScale,
    with_icon: bool,
) -> Seq<DrawItem> {
    let marker = DrawItem::Marker { source, shape, size, color, filled, scale };
    if with_icon {
        seq![marker, DrawItem::Icon { source, scale }]
    } else {
        seq![marker]
    }
}

/// Whether a target is fully shown.
pub open spec fn shows(m: ViewOptionsModel, t: ViewOptionsTarget) -> bool {
    m.target_visibility(t) == Some(true)
}

/// The drawing steps of the satellite wells `0..n` of core `k`.
pub open spec fn satellite_items(
    k: int,
    sats: Seq<ResourcePurity>,
    n: nat,
    scale: MarkerScale,
    with_icon: bool,
) -> Seq<DrawItem>
    decreases n,
{
    if n == 0 {
        Seq::empty()
    } else {
        let j = n - 1;
        satellite_items(k, sats, (n - 1) as nat, scale, with_icon) + marker_items(
            PointSource::Satellite(k as usize, j as usize),
            purity_marker(sats[j]),
            MarkerSize::ThreeQuarters,
            MarkerColor::Purity(sats[j]),
            true,
            scale,
            with_icon,
        )
    }
}

/// The drawing steps of the satellite wells of the cores `0..n`.
pub open spec fn fracking_items(
    cores: Seq<FrackingCore>,
    n: nat,
    scale: MarkerScale,
    with_icon: bool,
) -> Seq<DrawItem>
    decreases n,
{
    if n == 0 {
        Seq::empty()
    } else {
        let k = n - 1;
        let sats = cores[k].satellites@;
        fracking_items(cores, (n - 1) as nat, scale, with_icon) + satellite_items(
            k,
            sats,
            sats.len(),
            scale,
            with_icon,
        )
    }
}

/// The drawing steps of the geysers `0..n`.
pub open spec fn geyser_items(n: nat, scale: MarkerScale) -> Seq<DrawItem>
    decreases n,
{
    if n == 0 {
        Seq::empty()
    } else {
        geyser_items((n - 1) as nat, scale).push(
            DrawItem::Marker {
                source: PointSource::Geyser((n - 1) as usize),
                shape: MarkerKind::Asterisk,
                size: MarkerSize::Full,
                color: MarkerColor::Content,
                filled: false,
                scale,
            },
        )
    }
}

/// A plot item of resource markers, as far as its decisions go.
pub struct ResourceDisplay {
    content: ResourceDisplayContent,
    view_options_highlight: Option<ViewOptionsTarget>,
    plot_highlight: bool,
    has_icon: bool,
}

impl ResourceDisplay {
    pub closed spec fn spec_content(&self) -> ResourceDisplayContent {
        self.content
    }

    pub closed spec fn spec_view_options_highlight(&self) -> Option<ViewOptionsTarget> {
        self.view_options_highlight
    }

    pub closed spec fn spec_plot_highlight(&self) -> bool {
        self.plot_highlight
    }

    pub closed spec fn spec_has_icon(&self) -> bool {
        self.has_icon
    }

    /// A display of `content` that the view options highlight as
    /// `highlight` says, not highlighted by the plot, with or without icons.
    pub fn new(content: ResourceDisplayContent, highlight: Option<ViewOptionsTarget>, has_icon: bool) -> (d: Self)
        ensures
            d.spec_content() == content,
            d.spec_view_options_highlight() == highlight,
            !d.spec_plot_highlight(),
            d.spec_has_icon() == has_icon,
    {
        ResourceDisplay { content, view_options_highlight: highlight, plot_highlight: false, has_icon }
    }

    /// The items the display shows.
    pub fn content(&self) -> (content: &ResourceDisplayContent)
        ensures
            *content == self.spec_content(),
    {
        &self.content
    }

    /// The legend entry of the display: its resource, or the geysers.
    pub open spec fn spec_legend_item(&self) -> LegendItem {
        match self.spec_content() {
            ResourceDisplayContent::ResourceNodes(r, _) => LegendItem::Resource(r),
            ResourceDisplayContent::FrackingNodes(r, _) => LegendItem::Resource(r),
            ResourceDisplayContent::Geysers(_) => LegendItem::Geysers,
        }
    }

    /// The legend entry of the display: its resource, or the geysers.
    pub fn legend_item(&self) -> (item: LegendItem)
        ensures
            item == self.spec_legend_item(),
    {
        match &self.content {
            ResourceDisplayContent::ResourceNodes(r, _) => LegendItem::Resource(*r),
            ResourceDisplayContent::FrackingNodes(r, _) => LegendItem::Resource(*r),
            ResourceDisplayContent::Geysers(_) => LegendItem::Geysers,
        }
    }

    /// Marks the display as highlighted by the plot.
    pub fn highlight(&mut self)
        ensures
            final(self).spec_plot_highlight(),
            final(self).spec_content() == old(self).spec_content(),
            final(self).spec_view_options_highlight() == old(self).spec_view_options_highlight(),
            final(self).spec_has_icon() == old(self).spec_has_icon(),
    {
        self.plot_highlight = true;
    }

    /// Whether the display is highlighted: by the plot, or by a view-options
    /// target that names the geysers, its resource, or its resource's nodes
    /// or wells.
    pub open spec fn spec_highlighted(&self) -> bool {
        if self.spec_plot_highlight() {
            true
        } else {
            match self.spec_view_options_highlight() {
                None => false,
                Some(t) => match t {
                    ViewOptionsTarget::Geysers => self.spec_content() is Geysers,
                    ViewOptionsTarget::Resource(r) => match self.spec_content() {
                        ResourceDisplayContent::ResourceNodes(x, _) => x == r,
                        ResourceDisplayContent::FrackingNodes(x, _) => x == r,
                        _ => false,
                    },
                    ViewOptionsTarget::ResourceWithPurity(r, _) => match self.spec_content() {
                        ResourceDisplayContent::ResourceNodes(x, _) => x == r,
                        _ => false,
                    },
                    ViewOptionsTarget::ResourceFrackingNodes(r) => match self.spec_content() {
                        ResourceDisplayContent::FrackingNodes(x, _) => x == r,
                        _ => false,
                    },
                    _ => false,
                },
            }
        }
    }

    /// Whether the display is highlighted.
    pub fn highlighted(&self) -> (h: bool)
        ensures
            h == self.spec_highlighted(),
    {
        if self.plot_highlight {
            return true;
        }
        let view_options_highlight = match self.view_options_highlight {
            Some(t) => t,
            None => {
                return false;
            },
        };
        match view_options_highlight {
            ViewOptionsTarget::Geysers => matches!(self.content, ResourceDisplayContent::Geysers(_)),
            ViewOptionsTarget::Resource(resource) => match &self.content {
                ResourceDisplayContent::ResourceNodes(r, _) => *r == resource,
                ResourceDisplayContent::FrackingNodes(r, _) => *r == resource,
                _ => false,
            },
            ViewOptionsTarget::ResourceWithPurity(resource, _) => match &self.content {
                ResourceDisplayContent::ResourceNodes(r, _) => *r == resource,
                _ => false,
            },
            ViewOptionsTarget::ResourceFrackingNodes(resource) => match &self.content {
                ResourceDisplayContent::FrackingNodes(r, _) => *r == resource,
                _ => false,
            },
            _ => false,
        }
    }

    /// The scale of markers that no view-options target highlights: enlarged
    /// while the plot highlights the display and no target is highlighted.
    pub open spec fn base_scale(&self) -> MarkerScale {
        if self.spec_plot_highlight() && self.spec_view_options_highlight() is None {
            MarkerScale::Highlighted
        } else {
            MarkerScale::Normal
        }
    }

    /// The scale of the markers of target `t`: enlarged where the highlighted
    /// view-options target contains `t`.
    pub open spec fn scale_for(&self, t: ViewOptionsTarget) -> MarkerScale {
        match self.spec_view_options_highlight() {
            Some(h) => if target_contains(h, t) {
                MarkerScale::Highlighted
            } else {
                self.base_scale()
            },
            None => self.base_scale(),
        }
    }

    /// The drawing steps of the resource nodes `0..n` of `resource`: only
    /// nodes whose resource-and-purity target is fully shown are drawn.
    pub open spec fn node_items(
        &self,
        m: ViewOptionsModel,
        resource: ResourceDescriptor,
        nodes: Seq<ResourceNode>,
        n: nat,
    ) -> Seq<DrawItem>
        decreases n,
    {
        if n == 0 {
            Seq::empty()
        } else {
            let i = n - 1;
            let prev = self.node_items(m, resource, nodes, (n - 1) as nat);
            let purity = nodes[i].purity;
            let t = ViewOptionsTarget::ResourceWithPurity(resource, purity);
            if shows(m, t) {
                prev + marker_items(
                    PointSource::Node(i as usize),
                    purity_marker(purity),
                    MarkerSize::Full,
                    MarkerColor::Purity(purity),
                    true,
                    self.scale_for(t),
                    self.spec_has_icon(),
                )
            } else {
                prev
            }
        }
    }

    /// What the display draws under the view options `m`.
    pub open spec fn spec_draw_plan(&self, m: ViewOptionsModel) -> Seq<DrawItem> {
        match self.spec_content() {
            ResourceDisplayContent::ResourceNodes(resource, nodes) => self.node_items(
                m,
                resource,
                nodes@,
                nodes@.len(),
            ),
            ResourceDisplayContent::FrackingNodes(resource, cores) => {
                let t = ViewOptionsTarget::ResourceFrackingNodes(resource);
                if shows(m, t) {
                    fracking_items(cores@, cores@.len(), self.scale_for(t), self.spec_has_icon())
                } else {
                    Seq::empty()
                }
            },
            ResourceDisplayContent::Geysers(geysers) => {
                let t = ViewOptionsTarget::Geysers;
                if shows(m, t) {
                    geyser_items(geysers@.len(), self.scale_for(t))
                } else {
                    Seq::empty()
                }
            },
        }
    }

    /// The scale of the markers of target `t`.
    fn marker_scale(&self, t: ViewOptionsTarget) -> (scale: MarkerScale)
        ensures
            scale == self.scale_for(t),
    {
        match self.view_options_highlight {
            Some(h) => {
                if h.contains(&t) {
                    return MarkerScale::Highlighted;
                }
            },
            None => {},
        }
        if self.plot_highlight && self.view_options_highlight.is_none() {
            MarkerScale::Highlighted
        } else {
            MarkerScale::Normal
        }
    }

    /// Appends the marker of a point and, where there is one, the icon.
    fn push_marker(
        &self,
        plan: &mut Vec<DrawItem>,
        source: PointSource,
        purity: ResourcePurity,
        size: MarkerSize,
        scale: MarkerScale,
    )
        ensures
            final(plan)@ == old(plan)@ + marker_items(
                source,
                purity_marker(purity),
                size,
                MarkerColor::Purity(purity),
                true,
                scale,
                self.spec_has_icon(),
            ),
    {
        plan.push(DrawItem::Marker {
            source,
            shape: get_purity_marker(purity),
            size,
            color: MarkerColor::Purity(purity),
            filled: true,
            scale,
        });
        if self.has_icon {
            plan.push(DrawItem::Icon { source, scale });
        }
        proof {
            let items = marker_items(
                source,
                purity_marker(purity),
                size,
                MarkerColor::Purity(purity),
                true,
                scale,
                self.spec_has_icon(),
            );
            assert(final(plan)@ =~= old(plan)@ + items);
        }
    }

    /// What the display draws under the given view options, in order.
    pub fn draw_plan(&self, view_options: &ViewOptions) -> (plan: Vec<DrawItem>)
        requires
            view_options.wf(),
        ensures
            plan@ == self.spec_draw_plan(view_options@),
    {
        let ghost m = view_options@;
        let mut plan: Vec<DrawItem> = Vec::new();
        match &self.content {
            ResourceDisplayContent::ResourceNodes(resource, nodes) => {
                for i in 0..nodes.len()
                    invariant
                        view_options.wf(),
                        m == view_options@,
                        self.spec_content() == ResourceDisplayContent::ResourceNodes(*resource, *nodes),
                        plan@ == self.node_items(m, *resource, nodes@, i as nat),
                {
                    let purity = nodes[i].purity;
                    let target = ViewOptionsTarget::ResourceWithPurity(*resource, purity);
                    let visible = match view_options.is_target_visible(target) {
                        Some(v) => v,
                        None => false,
                    };
                    if visible {
                        let scale = self.marker_scale(target);
                        self.push_marker(&mut plan, PointSource::Node(i), purity, MarkerSize::Full, scale);
                    }
                }
            },
            ResourceDisplayContent::FrackingNodes(resource, cores) => {
                let target = ViewOptionsTarget::ResourceFrackingNodes(*resource);
                let visible = match view_options.is_target_visible(target) {
                    Some(v) => v,
                    None => false,
                };
                if !visible {
                    return plan;
                }
                let scale = self.marker_scale(target);
                for k in 0..cores.len()
                    invariant
                        plan@ == fracking_items(cores@, k as nat, scale, self.spec_has_icon()),
                {
                    let n = cores[k].satellites.len();
                    for j in 0..n
                        invariant
                            k < cores@.len(),
                            n == cores@[k as int].satellites@.len(),
                            plan@ == fracking_items(cores@, k as nat, scale, self.spec_has_icon())
                                + satellite_items(k as int, cores@[k as int].satellites@, j as nat, scale, self.spec_has_icon()),
                    {
                        let purity = cores[k].satellites[j];
                        self.push_marker(&mut plan, PointSource::Satellite(k, j), purity, MarkerSize::ThreeQuarters, scale);
                        assert(plan@ =~= fracking_items(cores@, k as nat, scale, self.spec_has_icon())
                            + satellite_items(k as int, cores@[k as int].satellites@, (j + 1) as nat, scale, self.spec_has_icon()));
                    }
                }
            },
            ResourceDisplayContent::Geysers(geysers) => {
                let target = ViewOptionsTarget::Geysers;
                let visible = match view_options.is_target_visible(target) {
                    Some(v) => v,
                    None => false,
                };
                if !visible {
                    return plan;
                }
                let scale = self.marker_scale(target);
                for i in 0..geysers.len()
                    invariant
                        plan@ == geyser_items(i as nat, scale),
                {
                    plan.push(DrawItem::Marker {
                        source: PointSource::Geyser(i),
                        shape: MarkerKind::Asterisk,
                        size: MarkerSize::Full,
                        color: MarkerColor::Content,
                        filled: false,
                        scale,
                    });
                }
            },
        }
        plan
    }
}

/// A maximal stretch of consecutive items of one resource: positions
/// `start..end`.
#[derive(Clone, Copy, Debug, PartialEq, Eq, Structural)]
pub struct ResourceRun {
    pub resource: ResourceDescriptor,
    pub start: usize,
    pub end: usize,
}

/// `runs` cuts `keys` into maximal stretches of equal resources, in order.
pub open spec fn is_run_partition(keys: Seq<ResourceDescriptor>, runs: Seq<ResourceRun>) -> bool {
    &&& (keys.len() == 0) == (runs.len() == 0)
    &&& runs.len() > 0 ==> runs[0].start == 0 && runs[runs.len() - 1].end == keys.len()
    &&& forall|i: int| 0 <= i < runs.len() ==> #[trigger] runs[i].start < runs[i].end <= keys.len()
    &&& forall|i: int|
        0 <= i < runs.len() - 1 ==> #[trigger] runs[i].end == runs[i + 1].start
            && runs[i].resource != runs[i + 1].resource
    &&& forall|i: int, k: int|
        0 <= i < runs.len() && runs[i].start <= k < runs[i].end ==> #[trigger] keys[k]
            == #[trigger] runs[i].resource
}

/// Cuts a list of resources into maximal stretches of equal resources, in
/// order; the plot shows one item per stretch.
pub fn chunk_by_resource(keys: &Vec<ResourceDescriptor>) -> (runs: Vec<ResourceRun>)
    ensures
        is_run_partition(keys@, runs@),
{
    let mut runs: Vec<ResourceRun> = Vec::new();
    let n = keys.len();
    for i in 0..n
        invariant
            n == keys@.len(),
            is_run_partition(keys@.take(i as int), runs@),
    {
        let key = keys[i];
        let len = runs.len();
        let ghost before = runs@;
        if len > 0 && runs[len - 1].resource == key {
            let last = runs[len - 1];
            runs.set(len - 1, ResourceRun { resource: last.resource, start: last.start, end: i + 1 });
            assert forall|j: int, k: int|
                0 <= j < runs@.len() && runs@[j].start <= k < runs@[j].end implies #[trigger] keys@.take(i + 1)[k]
                    == #[trigger] runs@[j].resource by {
                if j < len - 1 {
                    assert(runs@[j] == before[j]);
                    assert(keys@.take(i + 1)[k] == keys@.take(i as int)[k]);
                } else if k < i {
                    assert(keys@.take(i + 1)[k] == keys@.take(i as int)[k]);
                }
            }
        } else {
            runs.push(ResourceRun { resource: key, start: i, end: i + 1 });
            assert forall|j: int, k: int|
                0 <= j < runs@.len() && runs@[j].start <= k < runs@[j].end implies #[trigger] keys@.take(i + 1)[k]
                    == #[trigger] runs@[j].resource by {
                if j < len {
                    assert(runs@[j] == before[j]);
                    assert(keys@.take(i + 1)[k] == keys@.take(i as int)[k]);
                }
            }
        }
    }
    assert(keys@.take(n as int) =~= keys@);
    runs
}

} // verus!
