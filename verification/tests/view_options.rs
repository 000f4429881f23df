use satisfactory_map::resources::{ResourceDescriptor, ResourcePurity};
use satisfactory_map::view_options::{checkbox_state, LegendItem, ViewOptions, ViewOptionsTarget};

use ResourceDescriptor as R;
use ResourcePurity as P;
use ViewOptionsTarget as T;

fn all_targets() -> Vec<T> {
    let mut v = vec![T::All, T::Geysers, T::FrackingNodes];
    for p in [P::Impure, P::Normal, P::Pure] {
        v.push(T::Purity(p));
    }
    for r in ResourceDescriptor::iter_all() {
        v.push(T::Resource(r));
        v.push(T::ResourceFrackingNodes(r));
        for p in [P::Impure, P::Normal, P::Pure] {
            v.push(T::ResourceWithPurity(r, p));
        }
    }
    v
}

fn world(vo: &mut ViewOptions) {
    let nodes = vec![R::OreIron, R::Coal, R::OreIron, R::Water];
    let wells = vec![R::Water, R::NitrogenGas];
    vo.get_existing_nodes(&nodes, &wells);
}

#[test]
fn new_shows_everything() {
    let vo = ViewOptions::new();
    for t in all_targets() {
        assert_eq!(vo.is_target_visible(t), Some(true), "{:?}", t);
    }
    assert!(vo.get_hidden_items().is_empty());
}

#[test]
fn fresh_state_with_world_shows_everything() {
    let mut vo = ViewOptions::new();
    world(&mut vo);
    for t in all_targets() {
        assert_eq!(vo.is_target_visible(t), Some(true), "{:?}", t);
    }
}

#[test]
fn target_exists_only_for_known_nodes() {
    let mut vo = ViewOptions::new();
    world(&mut vo);
    assert!(vo.target_exists(T::ResourceWithPurity(R::Coal, P::Pure)));
    assert!(vo.target_exists(T::ResourceWithPurity(R::Water, P::Impure)));
    assert!(!vo.target_exists(T::ResourceWithPurity(R::Sulfur, P::Pure)));
    assert!(vo.target_exists(T::ResourceFrackingNodes(R::NitrogenGas)));
    assert!(!vo.target_exists(T::ResourceFrackingNodes(R::Coal)));
    assert!(vo.target_exists(T::Resource(R::Sulfur)));
    assert!(vo.target_exists(T::All));
    assert!(vo.target_exists(T::Purity(P::Pure)));
    assert!(vo.target_exists(T::FrackingNodes));
    assert!(vo.target_exists(T::Geysers));
}

#[test]
fn hiding_one_purity_makes_resource_partial() {
    let mut vo = ViewOptions::new();
    world(&mut vo);
    vo.set_target_visible(T::ResourceWithPurity(R::Coal, P::Pure), false);
    assert_eq!(vo.is_target_visible(T::ResourceWithPurity(R::Coal, P::Pure)), Some(false));
    assert_eq!(vo.is_target_visible(T::ResourceWithPurity(R::Coal, P::Normal)), Some(true));
    assert_eq!(vo.is_target_visible(T::Resource(R::Coal)), None);
    assert_eq!(vo.is_target_visible(T::Purity(P::Pure)), None);
    assert_eq!(vo.is_target_visible(T::Purity(P::Normal)), Some(true));
    assert_eq!(vo.is_target_visible(T::All), None);
}

#[test]
fn only_existing_kinds_count_for_a_resource() {
    let mut vo = ViewOptions::new();
    world(&mut vo);
    // NitrogenGas only has wells: its node flags do not matter.
    vo.set_target_visible(T::ResourceWithPurity(R::NitrogenGas, P::Pure), false);
    assert_eq!(vo.is_target_visible(T::Resource(R::NitrogenGas)), Some(true));
    vo.set_target_visible(T::ResourceFrackingNodes(R::NitrogenGas), false);
    assert_eq!(vo.is_target_visible(T::Resource(R::NitrogenGas)), Some(false));
    // Coal has no wells: its well flag does not matter.
    vo.set_target_visible(T::ResourceFrackingNodes(R::Coal), false);
    assert_eq!(vo.is_target_visible(T::Resource(R::Coal)), Some(true));
}

#[test]
fn resource_without_any_kind_is_shown_while_it_has_an_entry() {
    let mut vo = ViewOptions::new();
    world(&mut vo);
    for p in [P::Impure, P::Normal, P::Pure] {
        vo.set_target_visible(T::ResourceWithPurity(R::Sulfur, p), false);
    }
    vo.set_target_visible(T::ResourceFrackingNodes(R::Sulfur), false);
    assert_eq!(vo.is_target_visible(T::Resource(R::Sulfur)), Some(true));
    vo.set_target_visible(T::Resource(R::Sulfur), false);
    assert_eq!(vo.is_target_visible(T::Resource(R::Sulfur)), Some(false));
}

#[test]
fn hide_and_show_resource() {
    let mut vo = ViewOptions::new();
    world(&mut vo);
    vo.set_target_visible(T::Resource(R::OreIron), false);
    assert_eq!(vo.is_target_visible(T::Resource(R::OreIron)), Some(false));
    assert_eq!(vo.is_target_visible(T::ResourceWithPurity(R::OreIron, P::Impure)), Some(false));
    assert_eq!(vo.is_target_visible(T::Resource(R::Coal)), Some(true));
    vo.set_target_visible(T::Resource(R::OreIron), true);
    assert_eq!(vo.is_target_visible(T::Resource(R::OreIron)), Some(true));
}

#[test]
fn showing_resource_keeps_existing_entry() {
    let mut vo = ViewOptions::new();
    world(&mut vo);
    for p in [P::Impure, P::Normal, P::Pure] {
        vo.set_target_visible(T::ResourceWithPurity(R::Coal, p), false);
    }
    assert_eq!(vo.is_target_visible(T::Resource(R::Coal)), Some(false));
    vo.set_target_visible(T::Resource(R::Coal), true);
    assert_eq!(vo.is_target_visible(T::Resource(R::Coal)), Some(false));
}

#[test]
fn hide_all_then_show_all() {
    let mut vo = ViewOptions::new();
    world(&mut vo);
    vo.set_target_visible(T::All, false);
    for t in all_targets() {
        assert_eq!(vo.is_target_visible(t), Some(false), "{:?}", t);
    }
    vo.set_target_visible(T::All, true);
    for t in all_targets() {
        assert_eq!(vo.is_target_visible(t), Some(true), "{:?}", t);
    }
}

#[test]
fn show_all_does_nothing_while_something_is_shown() {
    let mut vo = ViewOptions::new();
    world(&mut vo);
    vo.set_target_visible(T::Resource(R::Coal), false);
    vo.set_target_visible(T::All, true);
    assert_eq!(vo.is_target_visible(T::Resource(R::Coal)), Some(false));
    assert_eq!(vo.is_target_visible(T::All), None);
}

#[test]
fn hide_purity_everywhere() {
    let mut vo = ViewOptions::new();
    world(&mut vo);
    vo.set_target_visible(T::Purity(P::Normal), false);
    assert_eq!(vo.is_target_visible(T::Purity(P::Normal)), Some(false));
    for r in ResourceDescriptor::iter_all() {
        assert_eq!(vo.is_target_visible(T::ResourceWithPurity(r, P::Normal)), Some(false));
        assert_eq!(vo.is_target_visible(T::ResourceWithPurity(r, P::Pure)), Some(true));
    }
    vo.set_target_visible(T::Purity(P::Normal), true);
    assert_eq!(vo.is_target_visible(T::Purity(P::Normal)), Some(true));
}

#[test]
fn show_purity_does_nothing_while_some_resource_shows_it() {
    let mut vo = ViewOptions::new();
    world(&mut vo);
    vo.set_target_visible(T::Purity(P::Pure), false);
    vo.set_target_visible(T::ResourceWithPurity(R::Coal, P::Pure), true);
    assert_eq!(vo.is_target_visible(T::Purity(P::Pure)), None);
    vo.set_target_visible(T::Purity(P::Pure), true);
    assert_eq!(vo.is_target_visible(T::Purity(P::Pure)), None);
    assert_eq!(vo.is_target_visible(T::ResourceWithPurity(R::OreIron, P::Pure)), Some(false));
}

#[test]
fn purity_without_any_nodes_counts_as_shown() {
    let mut vo = ViewOptions::new();
    vo.set_target_visible(T::Purity(P::Impure), false);
    assert_eq!(vo.is_target_visible(T::Purity(P::Impure)), Some(true));
    vo.set_target_visible(T::FrackingNodes, false);
    assert_eq!(vo.is_target_visible(T::FrackingNodes), Some(true));
}

#[test]
fn fracking_nodes_target() {
    let mut vo = ViewOptions::new();
    world(&mut vo);
    vo.set_target_visible(T::FrackingNodes, false);
    assert_eq!(vo.is_target_visible(T::FrackingNodes), Some(false));
    assert_eq!(vo.is_target_visible(T::ResourceFrackingNodes(R::Water)), Some(false));
    assert_eq!(vo.is_target_visible(T::Resource(R::NitrogenGas)), Some(false));
    assert_eq!(vo.is_target_visible(T::Resource(R::Water)), None);
    vo.set_target_visible(T::ResourceFrackingNodes(R::Water), true);
    assert_eq!(vo.is_target_visible(T::FrackingNodes), None);
}

#[test]
fn hiding_a_part_of_a_resource_without_entry_changes_nothing() {
    let mut vo = ViewOptions::new();
    world(&mut vo);
    vo.set_target_visible(T::Resource(R::Coal), false);
    vo.set_target_visible(T::ResourceWithPurity(R::Coal, P::Pure), false);
    assert_eq!(vo.is_target_visible(T::Resource(R::Coal)), Some(false));
    vo.set_target_visible(T::ResourceWithPurity(R::Coal, P::Pure), true);
    assert_eq!(vo.is_target_visible(T::ResourceWithPurity(R::Coal, P::Pure)), Some(true));
    assert_eq!(vo.is_target_visible(T::ResourceWithPurity(R::Coal, P::Impure)), Some(false));
    assert_eq!(vo.is_target_visible(T::Resource(R::Coal)), None);
}

#[test]
fn geysers_flag() {
    let mut vo = ViewOptions::new();
    *vo.geysers_visible_mut() = false;
    assert_eq!(vo.is_target_visible(T::Geysers), Some(false));
    assert_eq!(vo.is_target_visible(T::All), None);
    assert_eq!(vo.get_hidden_items(), vec![LegendItem::Geysers]);
    vo.set_target_visible(T::Geysers, true);
    assert!(*vo.geysers_visible_mut());
}

#[test]
fn world_outline_flag() {
    let mut vo = ViewOptions::new();
    *vo.world_outline_visible_mut() = false;
    assert_eq!(vo.get_hidden_items(), vec![LegendItem::WorldOutline]);
    assert_eq!(vo.is_target_visible(T::All), Some(true));
}

#[test]
fn hidden_items_in_order() {
    let mut vo = ViewOptions::new();
    world(&mut vo);
    vo.set_target_visible(T::Resource(R::Water), false);
    vo.set_target_visible(T::Resource(R::OreIron), false);
    vo.set_target_visible(T::ResourceWithPurity(R::Coal, P::Pure), false);
    *vo.geysers_visible_mut() = false;
    *vo.world_outline_visible_mut() = false;
    assert_eq!(
        vo.get_hidden_items(),
        vec![
            LegendItem::Resource(R::OreIron),
            LegendItem::Resource(R::Water),
            LegendItem::Geysers,
            LegendItem::WorldOutline,
        ]
    );
}

#[test]
fn apply_legend_interaction_takes_over_hidden_entries() {
    let mut vo = ViewOptions::new();
    world(&mut vo);
    vo.set_target_visible(T::Resource(R::Coal), false);
    vo.set_target_visible(T::ResourceWithPurity(R::OreIron, P::Pure), false);
    vo.apply_legend_interaction(&vec![LegendItem::Resource(R::Water), LegendItem::WorldOutline]);
    assert_eq!(vo.is_target_visible(T::Resource(R::Water)), Some(false));
    assert_eq!(vo.is_target_visible(T::Resource(R::Coal)), Some(true));
    assert_eq!(vo.is_target_visible(T::Resource(R::OreIron)), None);
    assert_eq!(vo.is_target_visible(T::Geysers), Some(true));
    assert_eq!(
        vo.get_hidden_items(),
        vec![LegendItem::Resource(R::Water), LegendItem::WorldOutline]
    );
}

#[test]
fn legend_round_trip_keeps_visibility() {
    let mut vo = ViewOptions::new();
    world(&mut vo);
    vo.set_target_visible(T::Resource(R::Stone), false);
    vo.set_target_visible(T::ResourceWithPurity(R::Coal, P::Pure), false);
    vo.set_target_visible(T::ResourceFrackingNodes(R::Water), false);
    *vo.geysers_visible_mut() = false;
    let before: Vec<Option<bool>> = all_targets().into_iter().map(|t| vo.is_target_visible(t)).collect();
    let hidden = vo.get_hidden_items();
    vo.apply_legend_interaction(&hidden);
    let after: Vec<Option<bool>> = all_targets().into_iter().map(|t| vo.is_target_visible(t)).collect();
    assert_eq!(before, after);
    assert_eq!(vo.get_hidden_items(), hidden);
}

#[test]
fn set_keeps_parts_outside_the_target() {
    let mut vo = ViewOptions::new();
    world(&mut vo);
    vo.set_target_visible(T::ResourceWithPurity(R::Coal, P::Pure), false);
    let t = T::Purity(P::Impure);
    let leaves: Vec<T> = all_targets()
        .into_iter()
        .filter(|u| matches!(u, T::ResourceWithPurity(..) | T::ResourceFrackingNodes(_)) && !t.contains(u))
        .collect();
    let before: Vec<Option<bool>> = leaves.iter().map(|u| vo.is_target_visible(*u)).collect();
    vo.set_target_visible(t, false);
    let after: Vec<Option<bool>> = leaves.iter().map(|u| vo.is_target_visible(*u)).collect();
    assert_eq!(before, after);
}

#[test]
fn contains_relation() {
    assert!(T::All.contains(&T::Geysers));
    assert!(T::All.contains(&T::ResourceWithPurity(R::Coal, P::Pure)));
    assert!(T::Geysers.contains(&T::Geysers));
    assert!(!T::Geysers.contains(&T::All));
    assert!(T::Resource(R::Coal).contains(&T::ResourceWithPurity(R::Coal, P::Pure)));
    assert!(T::Resource(R::Coal).contains(&T::ResourceFrackingNodes(R::Coal)));
    assert!(!T::Resource(R::Coal).contains(&T::ResourceFrackingNodes(R::Water)));
    assert!(!T::Resource(R::Coal).contains(&T::Purity(P::Pure)));
    assert!(T::Purity(P::Pure).contains(&T::ResourceWithPurity(R::Water, P::Pure)));
    assert!(!T::Purity(P::Pure).contains(&T::ResourceWithPurity(R::Water, P::Normal)));
    assert!(!T::Purity(P::Pure).contains(&T::ResourceFrackingNodes(R::Water)));
    assert!(T::FrackingNodes.contains(&T::ResourceFrackingNodes(R::Water)));
    assert!(!T::FrackingNodes.contains(&T::Resource(R::Water)));
    assert!(T::ResourceWithPurity(R::Coal, P::Pure).contains(&T::ResourceWithPurity(R::Coal, P::Pure)));
    assert!(!T::ResourceWithPurity(R::Coal, P::Pure).contains(&T::ResourceWithPurity(R::Coal, P::Normal)));
    assert!(!T::ResourceFrackingNodes(R::Coal).contains(&T::Resource(R::Coal)));
    for t in all_targets() {
        assert!(t.contains(&t));
    }
}

#[test]
fn contains_is_transitive_on_all_targets() {
    let ts = all_targets();
    for a in &ts {
        for b in &ts {
            for c in &ts {
                if a.contains(b) && b.contains(c) {
                    assert!(a.contains(c));
                }
            }
        }
    }
}

#[test]
fn full_visibility_reaches_existing_parts() {
    let mut vo = ViewOptions::new();
    world(&mut vo);
    vo.set_target_visible(T::Purity(P::Pure), false);
    vo.set_target_visible(T::ResourceWithPurity(R::Sulfur, P::Normal), false);
    let ts = all_targets();
    for t in &ts {
        if let Some(v) = vo.is_target_visible(*t) {
            for u in &ts {
                if matches!(u, T::ResourceWithPurity(..) | T::ResourceFrackingNodes(_))
                    && t.contains(u)
                    && vo.target_exists(*u)
                {
                    assert_eq!(vo.is_target_visible(*u), Some(v), "{:?} {:?}", t, u);
                }
            }
        }
    }
}

#[test]
fn purity_index_positions() {
    assert_eq!(ViewOptions::get_purity_index(P::Impure), 0);
    assert_eq!(ViewOptions::get_purity_index(P::Normal), 1);
    assert_eq!(ViewOptions::get_purity_index(P::Pure), 2);
}

#[test]
fn legend_names() {
    assert_eq!(LegendItem::Geysers.legend_name(), "Geyser");
    assert_eq!(LegendItem::WorldOutline.legend_name(), "World Outline");
    assert_eq!(LegendItem::Resource(R::Coal).legend_name(), "Coal");
}

#[test]
fn checkbox_states() {
    assert_eq!(checkbox_state(Some(true)), (false, true));
    assert_eq!(checkbox_state(Some(false)), (false, false));
    assert_eq!(checkbox_state(None), (true, true));
}
