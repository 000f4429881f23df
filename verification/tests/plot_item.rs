use satisfactory_map::constants::{get_resource_color, MarkerKind};
use satisfactory_map::plot_item::{
    DrawItem, FrackingCore, GeyserNode, MarkerColor, MarkerScale, MarkerSize, PointSource,
    ResourceDisplay, ResourceDisplayContent, ResourceNode,
};
use satisfactory_map::plot_item::{chunk_by_resource, ResourceRun};
use satisfactory_map::resources::{ResourceDescriptor, ResourcePurity};
use satisfactory_map::view_options::{LegendItem, ViewOptions, ViewOptionsTarget};

use ResourceDescriptor as R;
use ResourcePurity as P;
use ViewOptionsTarget as T;

fn nodes() -> ResourceDisplayContent {
    ResourceDisplayContent::ResourceNodes(
        R::Coal,
        vec![
            ResourceNode { resource: R::Coal, purity: P::Impure },
            ResourceNode { resource: R::Coal, purity: P::Pure },
            ResourceNode { resource: R::Coal, purity: P::Normal },
        ],
    )
}

fn wells() -> ResourceDisplayContent {
    ResourceDisplayContent::FrackingNodes(
        R::NitrogenGas,
        vec![
            FrackingCore { resource: R::NitrogenGas, satellites: vec![P::Pure, P::Impure] },
            FrackingCore { resource: R::NitrogenGas, satellites: vec![] },
            FrackingCore { resource: R::NitrogenGas, satellites: vec![P::Normal] },
        ],
    )
}

fn geysers() -> ResourceDisplayContent {
    ResourceDisplayContent::Geysers(vec![GeyserNode { purity: P::Pure }, GeyserNode { purity: P::Impure }])
}

fn options() -> ViewOptions {
    let mut vo = ViewOptions::new();
    vo.get_existing_nodes(&vec![R::Coal], &vec![R::NitrogenGas]);
    vo
}

#[test]
fn points_of_wells_interleave_cores_and_satellites() {
    assert_eq!(
        wells().get_points(),
        vec![
            PointSource::Core(0),
            PointSource::Satellite(0, 0),
            PointSource::Satellite(0, 1),
            PointSource::Core(1),
            PointSource::Core(2),
            PointSource::Satellite(2, 0),
        ]
    );
    assert_eq!(nodes().get_points(), vec![PointSource::Node(0), PointSource::Node(1), PointSource::Node(2)]);
    assert_eq!(geysers().get_points(), vec![PointSource::Geyser(0), PointSource::Geyser(1)]);
}

#[test]
fn point_at_agrees_with_points() {
    for content in [nodes(), wells(), geysers()] {
        let points = content.get_points();
        for i in 0..points.len() + 3 {
            assert_eq!(content.point_at(i), points.get(i).copied());
        }
    }
    assert_eq!(wells().point_at(4), Some(PointSource::Core(2)));
    assert_eq!(wells().point_at(6), None);
}

#[test]
fn colors_of_content() {
    assert_eq!(nodes().get_color(true), get_resource_color(R::Coal, true));
    assert_eq!(wells().get_color(false), get_resource_color(R::NitrogenGas, false));
    assert_eq!(geysers().get_color(true), get_resource_color(R::Water, true));
}

#[test]
fn legend_items() {
    assert_eq!(ResourceDisplay::new(nodes(), None, false).legend_item(), LegendItem::Resource(R::Coal));
    assert_eq!(ResourceDisplay::new(wells(), None, false).legend_item(), LegendItem::Resource(R::NitrogenGas));
    assert_eq!(ResourceDisplay::new(geysers(), None, false).legend_item(), LegendItem::Geysers);
}

#[test]
fn highlighted_by_plot_or_matching_target() {
    let mut d = ResourceDisplay::new(nodes(), None, false);
    assert!(!d.highlighted());
    d.highlight();
    assert!(d.highlighted());
    assert!(ResourceDisplay::new(nodes(), Some(T::Resource(R::Coal)), false).highlighted());
    assert!(ResourceDisplay::new(nodes(), Some(T::ResourceWithPurity(R::Coal, P::Pure)), false).highlighted());
    assert!(!ResourceDisplay::new(nodes(), Some(T::ResourceFrackingNodes(R::Coal)), false).highlighted());
    assert!(!ResourceDisplay::new(nodes(), Some(T::Resource(R::Water)), false).highlighted());
    assert!(!ResourceDisplay::new(nodes(), Some(T::All), false).highlighted());
    assert!(!ResourceDisplay::new(nodes(), Some(T::Purity(P::Pure)), false).highlighted());
    assert!(ResourceDisplay::new(wells(), Some(T::ResourceFrackingNodes(R::NitrogenGas)), false).highlighted());
    assert!(ResourceDisplay::new(wells(), Some(T::Resource(R::NitrogenGas)), false).highlighted());
    assert!(!ResourceDisplay::new(wells(), Some(T::FrackingNodes), false).highlighted());
    assert!(ResourceDisplay::new(geysers(), Some(T::Geysers), false).highlighted());
    assert!(!ResourceDisplay::new(geysers(), Some(T::Resource(R::Water)), false).highlighted());
}

fn marker(source: PointSource, purity: P, size: MarkerSize, scale: MarkerScale, shape: MarkerKind) -> DrawItem {
    DrawItem::Marker { source, shape, size, color: MarkerColor::Purity(purity), filled: true, scale }
}

#[test]
fn nodes_draw_visible_purities_with_icons() {
    let mut vo = options();
    vo.set_target_visible(T::ResourceWithPurity(R::Coal, P::Pure), false);
    let d = ResourceDisplay::new(nodes(), Some(T::Purity(P::Normal)), true);
    assert_eq!(
        d.draw_plan(&vo),
        vec![
            marker(PointSource::Node(0), P::Impure, MarkerSize::Full, MarkerScale::Normal, MarkerKind::Up),
            DrawItem::Icon { source: PointSource::Node(0), scale: MarkerScale::Normal },
            marker(PointSource::Node(2), P::Normal, MarkerSize::Full, MarkerScale::Highlighted, MarkerKind::Diamond),
            DrawItem::Icon { source: PointSource::Node(2), scale: MarkerScale::Highlighted },
        ]
    );
}

#[test]
fn plot_highlight_enlarges_only_without_target_highlight() {
    let vo = options();
    let mut d = ResourceDisplay::new(geysers(), None, false);
    d.highlight();
    let plan = d.draw_plan(&vo);
    assert_eq!(plan.len(), 2);
    assert_eq!(
        plan[0],
        DrawItem::Marker {
            source: PointSource::Geyser(0),
            shape: MarkerKind::Asterisk,
            size: MarkerSize::Full,
            color: MarkerColor::Content,
            filled: false,
            scale: MarkerScale::Highlighted,
        }
    );
    let mut d = ResourceDisplay::new(geysers(), Some(T::Resource(R::Coal)), false);
    d.highlight();
    match d.draw_plan(&vo)[1] {
        DrawItem::Marker { scale, .. } => assert_eq!(scale, MarkerScale::Normal),
        _ => panic!("marker expected"),
    }
}

#[test]
fn wells_draw_satellites_only() {
    let vo = options();
    let d = ResourceDisplay::new(wells(), Some(T::FrackingNodes), false);
    assert_eq!(
        d.draw_plan(&vo),
        vec![
            marker(PointSource::Satellite(0, 0), P::Pure, MarkerSize::ThreeQuarters, MarkerScale::Highlighted, MarkerKind::Circle),
            marker(PointSource::Satellite(0, 1), P::Impure, MarkerSize::ThreeQuarters, MarkerScale::Highlighted, MarkerKind::Up),
            marker(PointSource::Satellite(2, 0), P::Normal, MarkerSize::ThreeQuarters, MarkerScale::Highlighted, MarkerKind::Diamond),
        ]
    );
}

#[test]
fn hidden_targets_draw_nothing() {
    let mut vo = options();
    vo.set_target_visible(T::FrackingNodes, false);
    *vo.geysers_visible_mut() = false;
    vo.set_target_visible(T::Resource(R::Coal), false);
    for content in [nodes(), wells(), geysers()] {
        assert!(ResourceDisplay::new(content, None, true).draw_plan(&vo).is_empty());
    }
}

#[test]
fn drawn_points_are_shown_points() {
    let mut vo = options();
    vo.set_target_visible(T::ResourceWithPurity(R::Coal, P::Impure), false);
    for content in [nodes(), wells(), geysers()] {
        let points = content.get_points();
        let d = ResourceDisplay::new(content.clone(), None, true);
        for item in d.draw_plan(&vo) {
            let source = match item {
                DrawItem::Marker { source, .. } => source,
                DrawItem::Icon { source, .. } => source,
            };
            assert!(points.contains(&source));
            if let (ResourceDisplayContent::ResourceNodes(r, ns), PointSource::Node(i)) = (&content, source) {
                assert_eq!(vo.is_target_visible(T::ResourceWithPurity(*r, ns[i].purity)), Some(true));
            }
        }
    }
}

#[test]
fn runs_of_equal_resources() {
    assert!(chunk_by_resource(&vec![]).is_empty());
    assert_eq!(
        chunk_by_resource(&vec![R::Coal, R::Coal, R::Water, R::Coal]),
        vec![
            ResourceRun { resource: R::Coal, start: 0, end: 2 },
            ResourceRun { resource: R::Water, start: 2, end: 3 },
            ResourceRun { resource: R::Coal, start: 3, end: 4 },
        ]
    );
    assert_eq!(
        chunk_by_resource(&vec![R::Sulfur]),
        vec![ResourceRun { resource: R::Sulfur, start: 0, end: 1 }]
    );
}

#[test]
fn every_shown_point_is_drawn() {
    let mut vo = options();
    vo.set_target_visible(T::ResourceWithPurity(R::Coal, P::Normal), false);
    for content in [nodes(), wells(), geysers()] {
        let plan = ResourceDisplay::new(content.clone(), None, false).draw_plan(&vo);
        for source in content.get_points() {
            let target = match (&content, source) {
                (ResourceDisplayContent::ResourceNodes(r, ns), PointSource::Node(i)) => {
                    T::ResourceWithPurity(*r, ns[i].purity)
                }
                (ResourceDisplayContent::FrackingNodes(_, _), PointSource::Core(_)) => continue,
                (ResourceDisplayContent::FrackingNodes(r, _), _) => T::ResourceFrackingNodes(*r),
                _ => T::Geysers,
            };
            let drawn = plan
                .iter()
                .any(|d| matches!(d, DrawItem::Marker { source: s, .. } if *s == source));
            assert_eq!(drawn, vo.is_target_visible(target) == Some(true), "{:?}", source);
        }
    }
}
