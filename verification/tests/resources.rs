use satisfactory_map::resources::{ResourceDescriptor, ResourcePurity, RESOURCE_COUNT};

#[test]
fn enumeration_order_and_index() {
    let all = ResourceDescriptor::iter_all();
    assert_eq!(all.len(), RESOURCE_COUNT);
    assert_eq!(all[0], ResourceDescriptor::OreIron);
    assert_eq!(all[12], ResourceDescriptor::NitrogenGas);
    for (i, r) in all.iter().enumerate() {
        assert_eq!(r.index(), i);
        assert_eq!(ResourceDescriptor::from_index(i), *r);
    }
}

#[test]
fn names() {
    assert_eq!(ResourceDescriptor::OreIron.get_internal_name(), "Desc_OreIron_C");
    assert_eq!(ResourceDescriptor::SAM.get_internal_name(), "Desc_SAM_C");
    assert_eq!(ResourceDescriptor::Stone.display_name(), "Limestone");
    assert_eq!(ResourcePurity::Normal.display_name(), "Normal");
    assert_eq!(
        ResourcePurity::iter_all(),
        vec![ResourcePurity::Impure, ResourcePurity::Normal, ResourcePurity::Pure]
    );
}
