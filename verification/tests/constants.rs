use satisfactory_map::constants::{get_purity_marker, get_resource_color, MarkerKind};
use satisfactory_map::resources::{ResourceDescriptor, ResourcePurity};

#[test]
fn resource_colors_dark() {
    assert_eq!(get_resource_color(ResourceDescriptor::OreIron, true), [0x97, 0x5f, 0x6a, 255]);
    assert_eq!(get_resource_color(ResourceDescriptor::Coal, true), [0x15, 0x00, 0x8e, 255]);
    assert_eq!(get_resource_color(ResourceDescriptor::NitrogenGas, true), [0x7d, 0x80, 0x89, 255]);
    assert_eq!(get_resource_color(ResourceDescriptor::Water, true), [0x4a, 0x88, 0xab, 255]);
}

#[test]
fn resource_colors_light() {
    assert_eq!(get_resource_color(ResourceDescriptor::OreIron, false), [0xbf, 0x78, 0x87, 255]);
    assert_eq!(get_resource_color(ResourceDescriptor::OreGold, false), [0xde, 0xc5, 0x90, 255]);
    assert_eq!(get_resource_color(ResourceDescriptor::Water, false), [0x5d, 0xab, 0xd9, 255]);
}

#[test]
fn every_resource_has_distinct_colors() {
    let all = ResourceDescriptor::iter_all();
    for dark in [true, false] {
        for (i, a) in all.iter().enumerate() {
            for b in all.iter().skip(i + 1) {
                assert_ne!(get_resource_color(*a, dark), get_resource_color(*b, dark));
            }
            assert_eq!(get_resource_color(*a, dark)[3], 255);
        }
    }
}

#[test]
fn purity_markers() {
    assert_eq!(get_purity_marker(ResourcePurity::Impure), MarkerKind::Up);
    assert_eq!(get_purity_marker(ResourcePurity::Normal), MarkerKind::Diamond);
    assert_eq!(get_purity_marker(ResourcePurity::Pure), MarkerKind::Circle);
}
