//! Which parts of the map are shown: per resource and per node kind, plus the
//! geysers and the world outline.
use std::collections::{HashMap, HashSet};

use vstd::prelude::*;

use crate::resources::{
    all_resources_seq, lemma_resource_at_index, lemma_resource_index, resource_at,
    ResourceDescriptor, ResourcePurity, RESOURCE_COUNT,
};

verus! {

broadcast use {
    lemma_resource_index,
    lemma_resource_at_index,
    vstd::array::group_array_axioms,
    vstd::std_specs::hash::group_hash_axioms,
};

/// Position of the fracking-well flag in a resource's visibility entry; the
/// three positions before it hold the flags of impure, normal and pure nodes.
pub const FRACKING_INDEX: usize = 3;

/// Number of flags in a resource's visibility entry.
pub const ENTRY_LEN: usize = 4;

/// A group of map items whose visibility can be read and set at once.
#[derive(Clone, Copy, Debug, PartialEq, Eq, Structural)]
pub enum ViewOptionsTarget {
    All,
    Geysers,
    Resource(ResourceDescriptor),
    Purity(ResourcePurity),
    FrackingNodes,
    ResourceWithPurity(ResourceDescriptor, ResourcePurity),
    ResourceFrackingNodes(ResourceDescriptor),
}

/// Whether every item of target `b` belongs to target `a`.
pub open spec fn target_contains(a: ViewOptionsTarget, b: ViewOptionsTarget) -> bool {
    match a {
        ViewOptionsTarget::All => true,
        ViewOptionsTarget::Geysers => b is Geysers,
        ViewOptionsTarget::Resource(r) => match b {
            ViewOptionsTarget::Resource(x) => x == r,
            ViewOptionsTarget::ResourceWithPurity(x, _) => x == r,
            ViewOptionsTarget::ResourceFrackingNodes(x) => x == r,
            _ => false,
        },
        ViewOptionsTarget::Purity(p) => match b {
            ViewOptionsTarget::Purity(q) => q == p,
            ViewOptionsTarget::ResourceWithPurity(_, q) => q == p,
            _ => false,
        },
        ViewOptionsTarget::FrackingNodes => b is FrackingNodes || b is ResourceFrackingNodes,
        ViewOptionsTarget::ResourceWithPurity(r, p) => b == ViewOptionsTarget::ResourceWithPurity(
            r,
            p,
        ),
        ViewOptionsTarget::ResourceFrackingNodes(r) => b
            == ViewOptionsTarget::ResourceFrackingNodes(r),
    }
}

impl ViewOptionsTarget {
    /// Whether every item of `other` belongs to this target.
    pub fn contains(&self, other: &ViewOptionsTarget) -> (res: bool)
        ensures
            res == target_contains(*self, *other),
    {
        match self {
            ViewOptionsTarget::All => true,
            ViewOptionsTarget::Geysers => matches!(other, ViewOptionsTarget::Geysers),
            ViewOptionsTarget::Resource(resource) => match other {
                ViewOptionsTarget::Resource(r) => *r == *resource,
                ViewOptionsTarget::ResourceWithPurity(r, _) => *r == *resource,
                ViewOptionsTarget::ResourceFrackingNodes(r) => *r == *resource,
                _ => false,
            },
            ViewOptionsTarget::Purity(purity) => match other {
                ViewOptionsTarget::Purity(p) => *p == *purity,
                ViewOptionsTarget::ResourceWithPurity(_, p) => *p == *purity,
                _ => false,
            },
            ViewOptionsTarget::FrackingNodes => match other {
                ViewOptionsTarget::FrackingNodes => true,
                ViewOptionsTarget::ResourceFrackingNodes(_) => true,
                _ => false,
            },
            ViewOptionsTarget::ResourceWithPurity(resource, purity) => match other {
                ViewOptionsTarget::ResourceWithPurity(r, p) => *r == *resource && *p == *purity,
                _ => false,
            },
            ViewOptionsTarget::ResourceFrackingNodes(resource) => match other {
                ViewOptionsTarget::ResourceFrackingNodes(r) => *r == *resource,
                _ => false,
            },
        }
    }
}

/// How a checkbox shows a target's visibility: whether it is indeterminate
/// (the target is partly shown), and whether it is checked (fully shown, or
/// partly shown).
pub fn checkbox_state(visibility: Option<bool>) -> (state: (bool, bool))
    ensures
        state.0 == (visibility is None),
        state.1 == match visibility {
            Some(v) => v,
            None => true,
        },
{
    match visibility {
        Some(v) => (false, v),
        None => (true, true),
    }
}

/// An entry of the plot legend.
#[derive(Clone, Copy, Debug, PartialEq, Eq, Structural)]
pub enum LegendItem {
    Resource(ResourceDescriptor),
    Geysers,
    WorldOutline,
}

impl LegendItem {
    /// The name under which the entry stands in the legend.
    pub open spec fn spec_legend_name(self) -> Seq<char> {
        match self {
            LegendItem::Resource(r) => r.spec_display_name(),
            LegendItem::Geysers => "Geyser"@,
            LegendItem::WorldOutline => "World Outline"@,
        }
    }

    /// The name under which the entry stands in the legend.
    pub fn legend_name(&self) -> (name: &'static str)
        ensures
            name@ == self.spec_legend_name(),
    {
        match self {
            LegendItem::Resource(r) => r.display_name(),
            LegendItem::Geysers => "Geyser",
            LegendItem::WorldOutline => "World Outline",
        }
    }
}

/// The position of a purity's flag in a visibility entry.
pub open spec fn purity_index(purity: ResourcePurity) -> int {
    match purity {
        ResourcePurity::Impure => 0,
        ResourcePurity::Normal => 1,
        ResourcePurity::Pure => 2,
    }
}

/// An entry in which every kind of node is shown.
pub open spec fn all_visible_entry() -> Seq<bool> {
    seq![true, true, true, true]
}

/// An entry in which no kind of node is shown.
pub open spec fn none_visible_entry() -> Seq<bool> {
    seq![false, false, false, false]
}

/// The abstract state of the view options.
pub struct ViewOptionsModel {
    pub world_outline_visible: bool,
    pub geysers_visible: bool,
    /// Per resource, the flags of impure, normal and pure nodes and of wells;
    /// a resource without an entry is hidden altogether.
    pub visible_items: Map<ResourceDescriptor, Seq<bool>>,
    /// Resources of which the world has resource nodes.
    pub existing_node_resources: Set<ResourceDescriptor>,
    /// Resources of which the world has fracking wells.
    pub existing_fracking_resources: Set<ResourceDescriptor>,
}

impl ViewOptionsModel {
    /// Everything shown, and no resource known to exist yet.
    pub open spec fn initial() -> Self {
        ViewOptionsModel {
            world_outline_visible: true,
            geysers_visible: true,
            visible_items: Map::new(|r: ResourceDescriptor| true, |r: ResourceDescriptor| all_visible_entry()),
            existing_node_resources: Set::empty(),
            existing_fracking_resources: Set::empty(),
        }
    }

    /// Every entry holds one flag per node kind.
    pub open spec fn valid(self) -> bool {
        forall|r: ResourceDescriptor| #[trigger]
            self.visible_items.dom().contains(r) ==> self.visible_items[r].len() == ENTRY_LEN
    }

    /// Whether resource `r` has an entry whose flag at `idx` is set.
    pub open spec fn entry_visible(self, r: ResourceDescriptor, idx: int) -> bool {
        self.visible_items.dom().contains(r) && self.visible_items[r][idx]
    }

    /// First position of the flags that matter for `r`: the node flags only
    /// count where the world has nodes of `r`.
    pub open spec fn relevant_start(self, r: ResourceDescriptor) -> int {
        if self.existing_node_resources.contains(r) {
            0
        } else {
            FRACKING_INDEX as int
        }
    }

    /// End of the flags that matter for `r`: the well flag only counts where
    /// the world has wells of `r`.
    pub open spec fn relevant_end(self, r: ResourceDescriptor) -> int {
        if self.existing_fracking_resources.contains(r) {
            ENTRY_LEN as int
        } else {
            FRACKING_INDEX as int
        }
    }

    /// Visibility of a whole resource: `Some(true)` if every flag that matters
    /// is set, `Some(false)` if none is or the resource has no entry, `None`
    /// otherwise.
    pub open spec fn resource_visibility(self, r: ResourceDescriptor) -> Option<bool> {
        if !self.visible_items.dom().contains(r) {
            Some(false)
        } else {
            let e = self.visible_items[r];
            let lo = self.relevant_start(r);
            let hi = self.relevant_end(r);
            if forall|j: int| lo <= j < hi ==> #[trigger] e[j] {
                Some(true)
            } else if exists|j: int| lo <= j < hi && #[trigger] e[j] {
                None
            } else {
                Some(false)
            }
        }
    }

    /// Visibility of one node kind over a set of resources.
    pub open spec fn node_type_visibility(self, idx: int, relevant: Set<ResourceDescriptor>) -> Option<
        bool,
    > {
        if forall|r: ResourceDescriptor| #[trigger]
            relevant.contains(r) ==> self.entry_visible(r, idx) {
            Some(true)
        } else if forall|r: ResourceDescriptor| #[trigger]
            relevant.contains(r) ==> !self.entry_visible(r, idx) {
            Some(false)
        } else {
            None
        }
    }

    /// Visibility of everything: the geysers and each resource.
    pub open spec fn all_visibility(self) -> Option<bool> {
        if self.geysers_visible && forall|r: ResourceDescriptor| #[trigger]
            self.resource_visibility(r) == Some(true) {
            Some(true)
        } else if !self.geysers_visible && forall|r: ResourceDescriptor| #[trigger]
            self.resource_visibility(r) == Some(false) {
            Some(false)
        } else {
            None
        }
    }

    /// Visibility of a target: `Some(true)` if it is fully shown,
    /// `Some(false)` if it is fully hidden, `None` otherwise.
    pub open spec fn target_visibility(self, target: ViewOptionsTarget) -> Option<bool> {
        match target {
            ViewOptionsTarget::All => self.all_visibility(),
            ViewOptionsTarget::Geysers => Some(self.geysers_visible),
            ViewOptionsTarget::Resource(r) => self.resource_visibility(r),
            ViewOptionsTarget::Purity(p) => self.node_type_visibility(
                purity_index(p),
                self.existing_node_resources,
            ),
            ViewOptionsTarget::FrackingNodes => self.node_type_visibility(
                FRACKING_INDEX as int,
                self.existing_fracking_resources,
            ),
            ViewOptionsTarget::ResourceWithPurity(r, p) => Some(
                self.entry_visible(r, purity_index(p)),
            ),
            ViewOptionsTarget::ResourceFrackingNodes(r) => Some(
                self.entry_visible(r, FRACKING_INDEX as int),
            ),
        }
    }

    /// Whether the world has any item of a target; only the targets of one
    /// resource and one node kind can be empty, and for purities this goes by
    /// the resource alone.
    pub open spec fn target_exists(self, target: ViewOptionsTarget) -> bool {
        match target {
            ViewOptionsTarget::ResourceWithPurity(r, _) => self.existing_node_resources.contains(r),
            ViewOptionsTarget::ResourceFrackingNodes(r) => self.existing_fracking_resources.contains(
                r,
            ),
            _ => true,
        }
    }

    /// Some resource's entry has any flag set.
    pub open spec fn any_flag_set(self) -> bool {
        exists|r: ResourceDescriptor, j: int|
            0 <= j < ENTRY_LEN && #[trigger] self.entry_visible(r, j)
    }

    /// The state after showing or hiding one node kind for all resources.
    /// Showing changes nothing when some resource already shows that kind.
    pub open spec fn with_node_type_visible(self, idx: int, visible: bool) -> Self {
        if visible {
            if exists|r: ResourceDescriptor| #[trigger] self.entry_visible(r, idx) {
                self
            } else {
                ViewOptionsModel {
                    visible_items: Map::new(
                        |r: ResourceDescriptor| true,
                        |r: ResourceDescriptor|
                            if self.visible_items.dom().contains(r) {
                                self.visible_items[r].update(idx, true)
                            } else {
                                none_visible_entry().update(idx, true)
                            },
                    ),
                    ..self
                }
            }
        } else {
            ViewOptionsModel {
                visible_items: Map::new(
                    |r: ResourceDescriptor| self.visible_items.dom().contains(r),
                    |r: ResourceDescriptor| self.visible_items[r].update(idx, false),
                ),
                ..self
            }
        }
    }

    /// The state after setting one flag of one resource. Hiding a kind of a
    /// resource without an entry changes nothing.
    pub open spec fn with_resource_type_visible(
        self,
        r: ResourceDescriptor,
        idx: int,
        visible: bool,
    ) -> Self {
        if !self.visible_items.dom().contains(r) && !visible {
            self
        } else {
            let base = if self.visible_items.dom().contains(r) {
                self.visible_items[r]
            } else {
                none_visible_entry()
            };
            ViewOptionsModel { visible_items: self.visible_items.insert(r, base.update(idx, visible)), ..self }
        }
    }

    /// The state after showing or hiding a target.
    pub open spec fn with_target_visible(self, target: ViewOptionsTarget, visible: bool) -> Self {
        match target {
            ViewOptionsTarget::All => if visible {
                if self.geysers_visible || self.any_flag_set() {
                    self
                } else {
                    ViewOptionsModel {
                        visible_items: Map::new(
                            |r: ResourceDescriptor| true,
                            |r: ResourceDescriptor| all_visible_entry(),
                        ),
                        geysers_visible: true,
                        ..self
                    }
                }
            } else {
                ViewOptionsModel {
                    visible_items: Map::empty(),
                    geysers_visible: false,
                    ..self
                }
            },
            ViewOptionsTarget::Geysers => ViewOptionsModel { geysers_visible: visible, ..self },
            ViewOptionsTarget::Resource(r) => if visible {
                if self.visible_items.dom().contains(r) {
                    self
                } else {
                    ViewOptionsModel {
                        visible_items: self.visible_items.insert(r, all_visible_entry()),
                        ..self
                    }
                }
            } else {
                ViewOptionsModel { visible_items: self.visible_items.remove(r), ..self }
            },
            ViewOptionsTarget::Purity(p) => self.with_node_type_visible(purity_index(p), visible),
            ViewOptionsTarget::FrackingNodes => self.with_node_type_visible(
                FRACKING_INDEX as int,
                visible,
            ),
            ViewOptionsTarget::ResourceWithPurity(r, p) => self.with_resource_type_visible(
                r,
                purity_index(p),
                visible,
            ),
            ViewOptionsTarget::ResourceFrackingNodes(r) => self.with_resource_type_visible(
                r,
                FRACKING_INDEX as int,
                visible,
            ),
        }
    }

    /// The state after taking over which entries a legend hides: the
    /// geysers, the world outline and each resource are shown exactly when
    /// their entry is not hidden; a resource that becomes shown without an
    /// entry gets one with every kind shown.
    pub open spec fn with_legend_hidden(self, hidden: Seq<LegendItem>) -> Self {
        ViewOptionsModel {
            geysers_visible: !hidden.contains(LegendItem::Geysers),
            world_outline_visible: !hidden.contains(LegendItem::WorldOutline),
            visible_items: Map::new(
                |r: ResourceDescriptor| !hidden.contains(LegendItem::Resource(r)),
                |r: ResourceDescriptor|
                    if self.visible_items.dom().contains(r) {
                        self.visible_items[r]
                    } else {
                        all_visible_entry()
                    },
            ),
            ..self
        }
    }

    /// The legend entries of the resources among the first `n` that are fully
    /// hidden, in enumeration order.
    pub open spec fn hidden_resources_prefix(self, n: nat) -> Seq<LegendItem>
        decreases n,
    {
        if n == 0 {
            Seq::empty()
        } else {
            let prev = self.hidden_resources_prefix((n - 1) as nat);
            let r = resource_at(n - 1);
            if self.resource_visibility(r) == Some(false) {
                prev.push(LegendItem::Resource(r))
            } else {
                prev
            }
        }
    }

    /// The legend entries to hide: fully hidden resources in enumeration
    /// order, then the geysers and the world outline if they are hidden.
    pub open spec fn hidden_items(self) -> Seq<LegendItem> {
        let resources = self.hidden_resources_prefix(RESOURCE_COUNT as nat);
        let with_geysers = if self.geysers_visible {
            resources
        } else {
            resources.push(LegendItem::Geysers)
        };
        if self.world_outline_visible {
            with_geysers
        } else {
            with_geysers.push(LegendItem::WorldOutline)
        }
    }
}

/// Which parts of the map are shown.
pub struct ViewOptions {
    world_outline_visible: bool,
    geysers_visible: bool,
    /// Keyed by resource position; a resource without a key has no entry.
    visible_items: HashMap<usize, [bool; 4]>,
    /// Positions of the resources the world has resource nodes of.
    existing_node_resources: HashSet<usize>,
    /// Positions of the resources the world has fracking wells of.
    existing_fracking_resources: HashSet<usize>,
}

impl View for ViewOptions {
    type V = ViewOptionsModel;

    closed spec fn view(&self) -> ViewOptionsModel {
        ViewOptionsModel {
            world_outline_visible: self.world_outline_visible,
            geysers_visible: self.geysers_visible,
            visible_items: Map::new(
                |r: ResourceDescriptor| self.visible_items@.contains_key(r.idx() as usize),
                |r: ResourceDescriptor| self.visible_items@[r.idx() as usize]@,
            ),
            existing_node_resources: Set::new(
                |r: ResourceDescriptor| self.existing_node_resources@.contains(r.idx() as usize),
            ),
            existing_fracking_resources: Set::new(
                |r: ResourceDescriptor| self.existing_fracking_resources@.contains(r.idx() as usize),
            ),
        }
    }
}

impl ViewOptions {
    /// Every key is the position of a resource.
    pub closed spec fn wf(&self) -> bool {
        &&& forall|k: usize| #[trigger] self.visible_items@.contains_key(k) ==> k < RESOURCE_COUNT
        &&& forall|k: usize| #[trigger] self.existing_node_resources@.contains(k) ==> k < RESOURCE_COUNT
        &&& forall|k: usize| #[trigger] self.existing_fracking_resources@.contains(k) ==> k < RESOURCE_COUNT
    }

    /// A well-formed value has a valid model.
    pub proof fn lemma_wf_valid(&self)
        requires
            self.wf(),
        ensures
            self@.valid(),
    {
    }

    /// Everything shown, and no resource known to exist yet.
    pub fn new() -> (vo: Self)
        ensures
            vo.wf(),
            vo@ == ViewOptionsModel::initial(),
    {
        let mut visible_items: HashMap<usize, [bool; 4]> = HashMap::new();
        for i in 0..RESOURCE_COUNT
            invariant
                forall|k: usize| #[trigger] visible_items@.contains_key(k) <==> k < i,
                forall|k: usize| k < i ==> #[trigger] visible_items@[k]@ == all_visible_entry(),
        {
            let entry: [bool; 4] = [true; 4];
            assert(entry@ =~= all_visible_entry());
            visible_items.insert(i, entry);
        }
        let vo = ViewOptions {
            world_outline_visible: true,
            geysers_visible: true,
            visible_items,
            existing_node_resources: HashSet::new(),
            existing_fracking_resources: HashSet::new(),
        };
        assert(vo@.visible_items =~= Map::new(
            |r: ResourceDescriptor| true,
            |r: ResourceDescriptor| all_visible_entry(),
        ));
        assert(vo@.existing_node_resources =~= Set::<ResourceDescriptor>::empty());
        assert(vo@.existing_fracking_resources =~= Set::<ResourceDescriptor>::empty());
        vo
    }

    /// The entry of the resource at position `idx`.
    fn entry(&self, idx: usize) -> (e: Option<[bool; 4]>)
        requires
            idx < RESOURCE_COUNT,
        ensures
            e is Some <==> self@.visible_items.dom().contains(resource_at(idx as int)),
            e is Some ==> e.unwrap()@ == self@.visible_items[resource_at(idx as int)],
    {
        match self.visible_items.get(&idx) {
            Some(e) => Some(*e),
            None => None,
        }
    }

    /// Sets or removes the entry of the resource at position `idx`.
    fn set_entry(&mut self, idx: usize, e: Option<[bool; 4]>)
        requires
            old(self).wf(),
            idx < RESOURCE_COUNT,
        ensures
            final(self).wf(),
            final(self)@ == (ViewOptionsModel {
                visible_items: match e {
                    Some(a) => old(self)@.visible_items.insert(resource_at(idx as int), a@),
                    None => old(self)@.visible_items.remove(resource_at(idx as int)),
                },
                ..old(self)@
            }),
    {
        let ghost m = self@;
        let r = ResourceDescriptor::from_index(idx);
        match e {
            Some(a) => {
                self.visible_items.insert(idx, a);
                assert(self@.visible_items =~= m.visible_items.insert(r, a@));
            },
            None => {
                self.visible_items.remove(&idx);
                assert(self@.visible_items =~= m.visible_items.remove(r));
            },
        }
        assert(self@.existing_node_resources =~= m.existing_node_resources);
        assert(self@.existing_fracking_resources =~= m.existing_fracking_resources);
    }

    /// The positions of the resources that a list names.
    fn resource_keys(resources: &Vec<ResourceDescriptor>) -> (keys: HashSet<usize>)
        ensures
            forall|k: usize| #[trigger] keys@.contains(k) ==> k < RESOURCE_COUNT,
            forall|r: ResourceDescriptor| #[trigger] keys@.contains(r.idx() as usize) == resources@.contains(r),
    {
        let mut keys: HashSet<usize> = HashSet::new();
        let n = resources.len();
        for i in 0..n
            invariant
                n == resources@.len(),
                forall|k: usize| #[trigger] keys@.contains(k) ==> k < RESOURCE_COUNT,
                forall|r: ResourceDescriptor| #[trigger] keys@.contains(r.idx() as usize) == resources@.take(i as int).contains(r),
        {
            let r = resources[i];
            keys.insert(r.index());
            assert(resources@.take(i + 1) =~= resources@.take(i as int).push(r));
            assert forall|x: ResourceDescriptor| #[trigger] keys@.contains(x.idx() as usize) == resources@.take(i + 1).contains(x) by {
                if x == r {
                    assert(resources@.take(i + 1)[i as int] == r);
                } else {
                    assert(x.idx() != r.idx());
                    if resources@.take(i + 1).contains(x) {
                        let j = choose|j: int| 0 <= j < i + 1 && #[trigger] resources@.take(i + 1)[j] == x;
                        assert(resources@.take(i as int)[j] == x);
                    }
                    if resources@.take(i as int).contains(x) {
                        let j = choose|j: int| 0 <= j < i && #[trigger] resources@.take(i as int)[j] == x;
                        assert(resources@.take(i + 1)[j] == x);
                    }
                }
            }
        }
        assert(resources@.take(n as int) =~= resources@);
        keys
    }

    /// Records which resources the world has resource nodes of and which it
    /// has fracking wells of.
    pub fn get_existing_nodes(
        &mut self,
        node_resources: &Vec<ResourceDescriptor>,
        fracking_resources: &Vec<ResourceDescriptor>,
    )
        requires
            old(self).wf(),
        ensures
            final(self).wf(),
            final(self)@ == (ViewOptionsModel {
                existing_node_resources: node_resources@.to_set(),
                existing_fracking_resources: fracking_resources@.to_set(),
                ..old(self)@
            }),
    {
        self.existing_node_resources = Self::resource_keys(node_resources);
        self.existing_fracking_resources = Self::resource_keys(fracking_resources);
        assert(self@.existing_node_resources =~= node_resources@.to_set());
        assert(self@.existing_fracking_resources =~= fracking_resources@.to_set());
        assert(self@.visible_items =~= old(self)@.visible_items);
    }

    /// Whether the world has any item of the target; only resource nodes of
    /// one resource and purity, or wells of one resource, can be missing, and
    /// for purities this goes by the resource alone.
    pub fn target_exists(&self, target: ViewOptionsTarget) -> (exists: bool)
        requires
            self.wf(),
        ensures
            exists == self@.target_exists(target),
    {
        match target {
            ViewOptionsTarget::ResourceWithPurity(resource, _) => {
                self.existing_node_resources.contains(&resource.index())
            },
            ViewOptionsTarget::ResourceFrackingNodes(resource) => {
                self.existing_fracking_resources.contains(&resource.index())
            },
            _ => true,
        }
    }

    /// Whether `resource` has an entry whose flag at `type_index` is set.
    fn is_resource_with_type_visible(&self, resource: ResourceDescriptor, type_index: usize) -> (visible: bool)
        requires
            self.wf(),
            type_index < ENTRY_LEN,
        ensures
            visible == self@.entry_visible(resource, type_index as int),
    {
        match self.entry(resource.index()) {
            Some(entry) => entry[type_index],
            None => false,
        }
    }

    /// Visibility of one node kind over the resources whose positions
    /// `relevant` holds.
    fn is_node_type_visible(&self, type_index: usize, relevant: &HashSet<usize>) -> (visible: Option<bool>)
        requires
            self.wf(),
            type_index < ENTRY_LEN,
        ensures
            visible == self@.node_type_visibility(
                type_index as int,
                Set::new(|r: ResourceDescriptor| relevant@.contains(r.idx() as usize)),
            ),
    {
        let ghost m = self@;
        let ghost rel = Set::new(|r: ResourceDescriptor| relevant@.contains(r.idx() as usize));
        let mut all_visible = true;
        let mut all_hidden = true;
        for i in 0..RESOURCE_COUNT
            invariant
                self.wf(),
                m == self@,
                type_index < ENTRY_LEN,
                rel == Set::new(|r: ResourceDescriptor| relevant@.contains(r.idx() as usize)),
                all_visible == (forall|r: ResourceDescriptor| r.idx() < i && #[trigger] rel.contains(r) ==> m.entry_visible(r, type_index as int)),
                all_hidden == (forall|r: ResourceDescriptor| r.idx() < i && #[trigger] rel.contains(r) ==> !m.entry_visible(r, type_index as int)),
        {
            let ghost cur = resource_at(i as int);
            if relevant.contains(&i) {
                let v = self.is_resource_with_type_visible(ResourceDescriptor::from_index(i), type_index);
                if v {
                    all_hidden = false;
                } else {
                    all_visible = false;
                }
                assert(rel.contains(cur));
            } else {
                assert(!rel.contains(cur));
            }
            assert forall|r: ResourceDescriptor| r.idx() < i + 1 && #[trigger] rel.contains(r) implies (r.idx() < i || r == cur) by {}
        }
        if all_visible {
            Some(true)
        } else if all_hidden {
            Some(false)
        } else {
            None
        }
    }

    /// Visibility of a whole resource, by the flags that matter for it.
    fn is_resource_visible(&self, resource: ResourceDescriptor) -> (visible: Option<bool>)
        requires
            self.wf(),
        ensures
            visible == self@.resource_visibility(resource),
    {
        let idx = resource.index();
        let entry = match self.entry(idx) {
            Some(entry) => entry,
            None => {
                return Some(false);
            },
        };
        let lo: usize = if self.existing_node_resources.contains(&idx) { 0 } else { FRACKING_INDEX };
        let hi: usize = if self.existing_fracking_resources.contains(&idx) { ENTRY_LEN } else { FRACKING_INDEX };
        assert(lo == self@.relevant_start(resource));
        assert(hi == self@.relevant_end(resource));
        assert(entry@ == self@.visible_items[resource]);
        let mut all = true;
        let mut any = false;
        let mut j = lo;
        while j < hi
            invariant
                lo <= hi <= ENTRY_LEN,
                lo <= j <= hi,
                all == (forall|k: int| lo <= k < j ==> #[trigger] entry@[k]),
                any == (exists|k: int| lo <= k < j && #[trigger] entry@[k]),
            decreases hi - j,
        {
            if entry[j] {
                any = true;
            } else {
                all = false;
            }
            j = j + 1;
        }
        if all {
            Some(true)
        } else if any {
            None
        } else {
            Some(false)
        }
    }

    /// Returns `Some(true)` if the target is fully shown, `Some(false)` if it
    /// is fully hidden, and `None` otherwise.
    pub fn is_target_visible(&self, target: ViewOptionsTarget) -> (visible: Option<bool>)
        requires
            self.wf(),
        ensures
            visible == self@.target_visibility(target),
    {
        match target {
            ViewOptionsTarget::All => {
                let ghost m = self@;
                let mut all_visible = self.geysers_visible;
                let mut all_hidden = !self.geysers_visible;
                for i in 0..RESOURCE_COUNT
                    invariant
                        self.wf(),
                        m == self@,
                        all_visible == (m.geysers_visible && forall|r: ResourceDescriptor| #[trigger] r.idx() < i ==> m.resource_visibility(r) == Some(true)),
                        all_hidden == (!m.geysers_visible && forall|r: ResourceDescriptor| #[trigger] r.idx() < i ==> m.resource_visibility(r) == Some(false)),
                {
                    let ghost cur = resource_at(i as int);
                    match self.is_resource_visible(ResourceDescriptor::from_index(i)) {
                        Some(true) => all_hidden = false,
                        Some(false) => all_visible = false,
                        None => {
                            all_visible = false;
                            all_hidden = false;
                        },
                    }
                    assert forall|r: ResourceDescriptor| #[trigger] r.idx() < i + 1 implies (r.idx() < i || r == cur) by {}
                }
                assert forall|r: ResourceDescriptor| #[trigger] r.idx() < RESOURCE_COUNT by {}
                if all_visible {
                    Some(true)
                } else if all_hidden {
                    Some(false)
                } else {
                    None
                }
            },
            ViewOptionsTarget::Geysers => Some(self.geysers_visible),
            ViewOptionsTarget::Resource(resource) => self.is_resource_visible(resource),
            ViewOptionsTarget::Purity(purity) => {
                let v = self.is_node_type_visible(Self::get_purity_index(purity), &self.existing_node_resources);
                assert(Set::new(|r: ResourceDescriptor| self.existing_node_resources@.contains(r.idx() as usize)) == self@.existing_node_resources);
                v
            },
            ViewOptionsTarget::FrackingNodes => {
                let v = self.is_node_type_visible(FRACKING_INDEX, &self.existing_fracking_resources);
                assert(Set::new(|r: ResourceDescriptor| self.existing_fracking_resources@.contains(r.idx() as usize)) == self@.existing_fracking_resources);
                v
            },
            ViewOptionsTarget::ResourceWithPurity(resource, purity) => {
                Some(self.is_resource_with_type_visible(resource, Self::get_purity_index(purity)))
            },
            ViewOptionsTarget::ResourceFrackingNodes(resource) => {
                Some(self.is_resource_with_type_visible(resource, FRACKING_INDEX))
            },
        }
    }

    /// The legend entries to hide, so that the legend agrees with these
    /// options: fully hidden resources in enumeration order, then the geysers
    /// and the world outline where they are hidden.
    pub fn get_hidden_items(&self) -> (items: Vec<LegendItem>)
        requires
            self.wf(),
        ensures
            items@ == self@.hidden_items(),
    {
        let mut items: Vec<LegendItem> = Vec::new();
        for i in 0..RESOURCE_COUNT
            invariant
                self.wf(),
                items@ == self@.hidden_resources_prefix(i as nat),
        {
            let resource = ResourceDescriptor::from_index(i);
            match self.is_resource_visible(resource) {
                Some(false) => items.push(LegendItem::Resource(resource)),
                _ => {},
            }
        }
        if !self.geysers_visible {
            items.push(LegendItem::Geysers);
        }
        if !self.world_outline_visible {
            items.push(LegendItem::WorldOutline);
        }
        items
    }


    /// Whether some resource's entry has any flag set.
    fn any_flag_set(&self) -> (any: bool)
        requires
            self.wf(),
        ensures
            any == self@.any_flag_set(),
    {
        for i in 0..RESOURCE_COUNT
            invariant
                self.wf(),
                forall|r: ResourceDescriptor, j: int|
                    #![trigger self@.entry_visible(r, j)]
                    r.idx() < i && 0 <= j < ENTRY_LEN ==> !self@.entry_visible(r, j),
        {
            let resource = ResourceDescriptor::from_index(i);
            for j in 0..ENTRY_LEN
                invariant
                    self.wf(),
                    i < RESOURCE_COUNT,
                    resource == resource_at(i as int),
                    forall|r: ResourceDescriptor, k: int|
                        #![trigger self@.entry_visible(r, k)]
                        r.idx() < i && 0 <= k < ENTRY_LEN ==> !self@.entry_visible(r, k),
                    forall|k: int| 0 <= k < j ==> !#[trigger] self@.entry_visible(resource, k),
            {
                if self.is_resource_with_type_visible(resource, j) {
                    return true;
                }
            }
            assert forall|r: ResourceDescriptor, k: int|
                #![trigger self@.entry_visible(r, k)]
                r.idx() < i + 1 && 0 <= k < ENTRY_LEN implies !self@.entry_visible(r, k) by {
                if r.idx() == i {
                    assert(r == resource);
                }
            }
        }
        false
    }

    /// Shows or hides one node kind for every resource; showing changes
    /// nothing when some resource already shows that kind.
    fn set_node_type_visible(&mut self, type_index: usize, visible: bool)
        requires
            old(self).wf(),
            type_index < ENTRY_LEN,
        ensures
            final(self).wf(),
            final(self)@ == old(self)@.with_node_type_visible(type_index as int, visible),
    {
        let ghost m = self@;
        let ghost idx = type_index as int;
        if visible {
            for i in 0..RESOURCE_COUNT
                invariant
                    self.wf(),
                    self@ == m,
                    visible,
                    type_index < ENTRY_LEN,
                    forall|r: ResourceDescriptor| r.idx() < i ==> !#[trigger] m.entry_visible(r, type_index as int),
            {
                if self.is_resource_with_type_visible(ResourceDescriptor::from_index(i), type_index) {
                    assert(m.entry_visible(resource_at(i as int), type_index as int));
                    return;
                }
                assert forall|r: ResourceDescriptor| r.idx() < i + 1 implies !#[trigger] m.entry_visible(r, type_index as int) by {
                    if r.idx() == i {
                        assert(r == resource_at(i as int));
                    }
                }
            }
            assert(!exists|r: ResourceDescriptor| #[trigger] m.entry_visible(r, type_index as int)) by {
                assert forall|r: ResourceDescriptor| !#[trigger] m.entry_visible(r, type_index as int) by {
                    assert(r.idx() < RESOURCE_COUNT);
                }
            }
            assert(m.visible_items =~= Map::new(
                |r: ResourceDescriptor| r.idx() < 0 || m.visible_items.dom().contains(r),
                |r: ResourceDescriptor|
                    if r.idx() < 0 {
                        if m.visible_items.dom().contains(r) {
                            m.visible_items[r].update(idx, true)
                        } else {
                            none_visible_entry().update(idx, true)
                        }
                    } else {
                        m.visible_items[r]
                    },
            ));
            for i in 0..RESOURCE_COUNT
                invariant
                    self.wf(),
                    type_index < ENTRY_LEN,
                    idx == type_index,
                    self@ == (ViewOptionsModel {
                        visible_items: Map::new(
                            |r: ResourceDescriptor| r.idx() < i || m.visible_items.dom().contains(r),
                            |r: ResourceDescriptor|
                                if r.idx() < i {
                                    if m.visible_items.dom().contains(r) {
                                        m.visible_items[r].update(idx, true)
                                    } else {
                                        none_visible_entry().update(idx, true)
                                    }
                                } else {
                                    m.visible_items[r]
                                },
                        ),
                        ..m
                    }),
            {
                let mut entry: [bool; 4] = match self.entry(i) {
                    Some(e) => e,
                    None => [false; 4],
                };
                assert(!m.visible_items.dom().contains(resource_at(i as int)) ==> entry@ =~= none_visible_entry());
                entry[type_index] = true;
                self.set_entry(i, Some(entry));
                assert(self@.visible_items =~= Map::new(
                    |r: ResourceDescriptor| r.idx() < i + 1 || m.visible_items.dom().contains(r),
                    |r: ResourceDescriptor|
                        if r.idx() < i + 1 {
                            if m.visible_items.dom().contains(r) {
                                m.visible_items[r].update(idx, true)
                            } else {
                                none_visible_entry().update(idx, true)
                            }
                        } else {
                            m.visible_items[r]
                        },
                ));
            }
            assert(self@.visible_items =~= m.with_node_type_visible(type_index as int, visible).visible_items);
        } else {
            assert(m.visible_items =~= Map::new(
                |r: ResourceDescriptor| m.visible_items.dom().contains(r),
                |r: ResourceDescriptor|
                    if r.idx() < 0 {
                        m.visible_items[r].update(idx, false)
                    } else {
                        m.visible_items[r]
                    },
            ));
            for i in 0..RESOURCE_COUNT
                invariant
                    self.wf(),
                    type_index < ENTRY_LEN,
                    idx == type_index,
                    self@ == (ViewOptionsModel {
                        visible_items: Map::new(
                            |r: ResourceDescriptor| m.visible_items.dom().contains(r),
                            |r: ResourceDescriptor|
                                if r.idx() < i {
                                    m.visible_items[r].update(idx, false)
                                } else {
                                    m.visible_items[r]
                                },
                        ),
                        ..m
                    }),
            {
                match self.entry(i) {
                    Some(e) => {
                        let mut entry = e;
                        entry[type_index] = false;
                        self.set_entry(i, Some(entry));
                    },
                    None => {},
                }
                assert(self@.visible_items =~= Map::new(
                    |r: ResourceDescriptor| m.visible_items.dom().contains(r),
                    |r: ResourceDescriptor|
                        if r.idx() < i + 1 {
                            m.visible_items[r].update(idx, false)
                        } else {
                            m.visible_items[r]
                        },
                ));
            }
            assert(self@.visible_items =~= m.with_node_type_visible(type_index as int, visible).visible_items);
        }
    }

    /// Sets one flag of one resource; hiding a kind of a resource without an
    /// entry changes nothing.
    fn set_resource_with_type_visible(
        &mut self,
        resource: ResourceDescriptor,
        type_index: usize,
        visible: bool,
    )
        requires
            old(self).wf(),
            type_index < ENTRY_LEN,
        ensures
            final(self).wf(),
            final(self)@ == old(self)@.with_resource_type_visible(resource, type_index as int, visible),
    {
        let idx = resource.index();
        let current = self.entry(idx);
        if current.is_none() && !visible {
            return;
        }
        let mut entry: [bool; 4] = match current {
            Some(e) => e,
            None => [false; 4],
        };
        assert(current is None ==> entry@ =~= none_visible_entry());
        entry[type_index] = visible;
        self.set_entry(idx, Some(entry));
        assert(self@.visible_items =~= old(self)@.with_resource_type_visible(resource, type_index as int, visible).visible_items);
    }

    /// Shows or hides a target. Showing everything changes nothing while the
    /// geysers or any node kind of any resource are shown; showing a resource
    /// that has an entry keeps the entry as it is.
    pub fn set_target_visible(&mut self, target: ViewOptionsTarget, visible: bool)
        requires
            old(self).wf(),
        ensures
            final(self).wf(),
            final(self)@ == old(self)@.with_target_visible(target, visible),
    {
        let ghost m = self@;
        match target {
            ViewOptionsTarget::All => {
                if visible {
                    if self.geysers_visible || self.any_flag_set() {
                        return;
                    }
                    assert(m.visible_items =~= Map::new(
                        |r: ResourceDescriptor| r.idx() < 0 || m.visible_items.dom().contains(r),
                        |r: ResourceDescriptor| if r.idx() < 0 { all_visible_entry() } else { m.visible_items[r] },
                    ));
                    for i in 0..RESOURCE_COUNT
                        invariant
                            self.wf(),
                            self@ == (ViewOptionsModel {
                                visible_items: Map::new(
                                    |r: ResourceDescriptor| r.idx() < i || m.visible_items.dom().contains(r),
                                    |r: ResourceDescriptor|
                                        if r.idx() < i {
                                            all_visible_entry()
                                        } else {
                                            m.visible_items[r]
                                        },
                                ),
                                ..m
                            }),
                    {
                        let entry: [bool; 4] = [true; 4];
                        assert(entry@ =~= all_visible_entry());
                        self.set_entry(i, Some(entry));
                        assert(self@.visible_items =~= Map::new(
                            |r: ResourceDescriptor| r.idx() < i + 1 || m.visible_items.dom().contains(r),
                            |r: ResourceDescriptor|
                                if r.idx() < i + 1 {
                                    all_visible_entry()
                                } else {
                                    m.visible_items[r]
                                },
                        ));
                    }
                    self.geysers_visible = true;
                    assert(self@.visible_items =~= m.with_target_visible(target, visible).visible_items);
                } else {
                    self.visible_items.clear();
                    self.geysers_visible = false;
                    assert(self@.visible_items =~= m.with_target_visible(target, visible).visible_items);
                }
                assert(self@.existing_node_resources =~= m.existing_node_resources);
                assert(self@.existing_fracking_resources =~= m.existing_fracking_resources);
            },
            ViewOptionsTarget::Geysers => {
                self.geysers_visible = visible;
                assert(self@.visible_items =~= m.visible_items);
                assert(self@.existing_node_resources =~= m.existing_node_resources);
                assert(self@.existing_fracking_resources =~= m.existing_fracking_resources);
            },
            ViewOptionsTarget::Resource(resource) => {
                let idx = resource.index();
                if visible {
                    if self.entry(idx).is_none() {
                        let entry: [bool; 4] = [true; 4];
                        assert(entry@ =~= all_visible_entry());
                        self.set_entry(idx, Some(entry));
                    }
                } else {
                    self.set_entry(idx, None);
                }
                assert(self@.visible_items =~= m.with_target_visible(target, visible).visible_items);
            },
            ViewOptionsTarget::Purity(purity) => {
                self.set_node_type_visible(Self::get_purity_index(purity), visible);
            },
            ViewOptionsTarget::FrackingNodes => {
                self.set_node_type_visible(FRACKING_INDEX, visible);
            },
            ViewOptionsTarget::ResourceWithPurity(resource, purity) => {
                self.set_resource_with_type_visible(resource, Self::get_purity_index(purity), visible);
            },
            ViewOptionsTarget::ResourceFrackingNodes(resource) => {
                self.set_resource_with_type_visible(resource, FRACKING_INDEX, visible);
            },
        }
    }

    /// The geysers' visibility flag, to be changed in place.
    pub fn geysers_visible_mut(&mut self) -> (flag: &mut bool)
        requires
            old(self).wf(),
        ensures
            *flag == old(self)@.geysers_visible,
            final(self).wf(),
            final(self)@ == (ViewOptionsModel { geysers_visible: *final(flag), ..old(self)@ }),
    {
        &mut self.geysers_visible
    }

    /// The world outline's visibility flag, to be changed in place.
    pub fn world_outline_visible_mut(&mut self) -> (flag: &mut bool)
        requires
            old(self).wf(),
        ensures
            *flag == old(self)@.world_outline_visible,
            final(self).wf(),
            final(self)@ == (ViewOptionsModel { world_outline_visible: *final(flag), ..old(self)@ }),
    {
        &mut self.world_outline_visible
    }


    /// Whether a list of legend entries holds `item`.
    fn legend_contains(items: &Vec<LegendItem>, item: LegendItem) -> (found: bool)
        ensures
            found == items@.contains(item),
    {
        let n = items.len();
        for i in 0..n
            invariant
                n == items@.len(),
                forall|k: int| 0 <= k < i ==> items@[k] != item,
        {
            if items[i] == item {
                return true;
            }
        }
        false
    }

    /// Takes over which entries the plot legend hides: the geysers, the world
    /// outline and each resource are shown exactly when their entry is not
    /// among `hidden_items`.
    pub fn apply_legend_interaction(&mut self, hidden_items: &Vec<LegendItem>)
        requires
            old(self).wf(),
        ensures
            final(self).wf(),
            final(self)@ == old(self)@.with_legend_hidden(hidden_items@),
    {
        let ghost m = self@;
        let ghost hidden = hidden_items@;
        self.geysers_visible = !Self::legend_contains(hidden_items, LegendItem::Geysers);
        self.world_outline_visible = !Self::legend_contains(hidden_items, LegendItem::WorldOutline);
        for i in 0..RESOURCE_COUNT
            invariant
                self.wf(),
                hidden == hidden_items@,
                self.geysers_visible == !hidden.contains(LegendItem::Geysers),
                self.world_outline_visible == !hidden.contains(LegendItem::WorldOutline),
                self@.existing_node_resources == m.existing_node_resources,
                self@.existing_fracking_resources == m.existing_fracking_resources,
                self@.visible_items == Map::new(
                    |r: ResourceDescriptor|
                        if r.idx() < i {
                            !hidden.contains(LegendItem::Resource(r))
                        } else {
                            m.visible_items.dom().contains(r)
                        },
                    |r: ResourceDescriptor|
                        if m.visible_items.dom().contains(r) {
                            m.visible_items[r]
                        } else {
                            all_visible_entry()
                        },
                ),
        {
            let resource = ResourceDescriptor::from_index(i);
            let shown = !Self::legend_contains(hidden_items, LegendItem::Resource(resource));
            self.set_target_visible(ViewOptionsTarget::Resource(resource), shown);
            assert(self@.visible_items =~= Map::new(
                |r: ResourceDescriptor|
                    if r.idx() < i + 1 {
                        !hidden.contains(LegendItem::Resource(r))
                    } else {
                        m.visible_items.dom().contains(r)
                    },
                |r: ResourceDescriptor|
                    if m.visible_items.dom().contains(r) {
                        m.visible_items[r]
                    } else {
                        all_visible_entry()
                    },
            ));
        }
        assert(self@.visible_items =~= m.with_legend_hidden(hidden).visible_items);
    }

    /// The position of a purity's flag in a visibility entry.
    pub fn get_purity_index(purity: ResourcePurity) -> (idx: usize)
        ensures
            idx == purity_index(purity),
            idx < FRACKING_INDEX,
    {
        match purity {
            ResourcePurity::Impure => 0,
            ResourcePurity::Normal => 1,
            ResourcePurity::Pure => 2,
        }
    }
}

} // verus!
