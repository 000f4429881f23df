//! The kinds of resources and node purities found on the world map.
use vstd::prelude::*;

verus! {

/// Number of distinct resource kinds.
pub const RESOURCE_COUNT: usize = 13;

/// A kind of resource that nodes, wells or geysers produce.
#[derive(Clone, Copy, Debug, PartialEq, Eq, Hash, Structural)]
pub enum ResourceDescriptor {
    OreIron,
    Coal,
    OreCopper,
    Stone,
    RawQuartz,
    SAM,
    OreBauxite,
    OreGold,
    Sulfur,
    OreUranium,
    Water,
    LiquidOil,
    NitrogenGas,
}

/// The purity of a resource node.
#[derive(Clone, Copy, Debug, PartialEq, Eq, Hash, Structural)]
pub enum ResourcePurity {
    Impure,
    Normal,
    Pure,
}

/// The resource at position `i` of the canonical enumeration order.
pub open spec fn resource_at(i: int) -> ResourceDescriptor {
    if i == 0 {
        ResourceDescriptor::OreIron
    } else if i == 1 {
        ResourceDescriptor::Coal
    } else if i == 2 {
        ResourceDescriptor::OreCopper
    } else if i == 3 {
        ResourceDescriptor::Stone
    } else if i == 4 {
        ResourceDescriptor::RawQuartz
    } else if i == 5 {
        ResourceDescriptor::SAM
    } else if i == 6 {
        ResourceDescriptor::OreBauxite
    } else if i == 7 {
        ResourceDescriptor::OreGold
    } else if i == 8 {
        ResourceDescriptor::Sulfur
    } else if i == 9 {
        ResourceDescriptor::OreUranium
    } else if i == 10 {
        ResourceDescriptor::Water
    } else if i == 11 {
        ResourceDescriptor::LiquidOil
    } else {
        ResourceDescriptor::NitrogenGas
    }
}

/// All resources, in the canonical enumeration order.
pub open spec fn all_resources_seq() -> Seq<ResourceDescriptor> {
    Seq::new(RESOURCE_COUNT as nat, |i: int| resource_at(i))
}

/// All purities, from the poorest to the richest.
pub open spec fn all_purities_seq() -> Seq<ResourcePurity> {
    seq![ResourcePurity::Impure, ResourcePurity::Normal, ResourcePurity::Pure]
}

impl ResourceDescriptor {
    /// Position of the resource in the canonical enumeration order.
    pub open spec fn idx(self) -> int {
        match self {
            ResourceDescriptor::OreIron => 0,
            ResourceDescriptor::Coal => 1,
            ResourceDescriptor::OreCopper => 2,
            ResourceDescriptor::Stone => 3,
            ResourceDescriptor::RawQuartz => 4,
            ResourceDescriptor::SAM => 5,
            ResourceDescriptor::OreBauxite => 6,
            ResourceDescriptor::OreGold => 7,
            ResourceDescriptor::Sulfur => 8,
            ResourceDescriptor::OreUranium => 9,
            ResourceDescriptor::Water => 10,
            ResourceDescriptor::LiquidOil => 11,
            ResourceDescriptor::NitrogenGas => 12,
        }
    }

    /// Position of the resource in the canonical enumeration order.
    pub fn index(&self) -> (i: usize)
        ensures
            i == self.idx(),
            i < RESOURCE_COUNT,
    {
        match self {
            ResourceDescriptor::OreIron => 0,
            ResourceDescriptor::Coal => 1,
            ResourceDescriptor::OreCopper => 2,
            ResourceDescriptor::Stone => 3,
            ResourceDescriptor::RawQuartz => 4,
            ResourceDescriptor::SAM => 5,
            ResourceDescriptor::OreBauxite => 6,
            ResourceDescriptor::OreGold => 7,
            ResourceDescriptor::Sulfur => 8,
            ResourceDescriptor::OreUranium => 9,
            ResourceDescriptor::Water => 10,
            ResourceDescriptor::LiquidOil => 11,
            ResourceDescriptor::NitrogenGas => 12,
        }
    }

    /// The resource at position `i` of the canonical enumeration order.
    pub fn from_index(i: usize) -> (r: ResourceDescriptor)
        requires
            i < RESOURCE_COUNT,
        ensures
            r == resource_at(i as int),
            r.idx() == i,
    {
        if i == 0 {
            ResourceDescriptor::OreIron
        } else if i == 1 {
            ResourceDescriptor::Coal
        } else if i == 2 {
            ResourceDescriptor::OreCopper
        } else if i == 3 {
            ResourceDescriptor::Stone
        } else if i == 4 {
            ResourceDescriptor::RawQuartz
        } else if i == 5 {
            ResourceDescriptor::SAM
        } else if i == 6 {
            ResourceDescriptor::OreBauxite
        } else if i == 7 {
            ResourceDescriptor::OreGold
        } else if i == 8 {
            ResourceDescriptor::Sulfur
        } else if i == 9 {
            ResourceDescriptor::OreUranium
        } else if i == 10 {
            ResourceDescriptor::Water
        } else if i == 11 {
            ResourceDescriptor::LiquidOil
        } else {
            ResourceDescriptor::NitrogenGas
        }
    }

    /// Every resource, in the canonical enumeration order.
    pub fn iter_all() -> (v: Vec<ResourceDescriptor>)
        ensures
            v@ == all_resources_seq(),
    {
        let mut v: Vec<ResourceDescriptor> = Vec::new();
        for i in 0..RESOURCE_COUNT
            invariant
                v@ == all_resources_seq().take(i as int),
        {
            v.push(ResourceDescriptor::from_index(i));
            assert(all_resources_seq().take(i + 1) =~= all_resources_seq().take(i as int).push(
                resource_at(i as int),
            ));
        }
        assert(all_resources_seq().take(RESOURCE_COUNT as int) =~= all_resources_seq());
        v
    }

    /// The name under which the game lists the resource.
    pub open spec fn spec_display_name(self) -> Seq<char> {
        match self {
            ResourceDescriptor::OreIron => "Iron Ore"@,
            ResourceDescriptor::Coal => "Coal"@,
            ResourceDescriptor::OreCopper => "Copper Ore"@,
            ResourceDescriptor::Stone => "Limestone"@,
            ResourceDescriptor::RawQuartz => "Raw Quartz"@,
            ResourceDescriptor::SAM => "SAM"@,
            ResourceDescriptor::OreBauxite => "Bauxite"@,
            ResourceDescriptor::OreGold => "Caterium Ore"@,
            ResourceDescriptor::Sulfur => "Sulfur"@,
            ResourceDescriptor::OreUranium => "Uranium"@,
            ResourceDescriptor::Water => "Water"@,
            ResourceDescriptor::LiquidOil => "Crude Oil"@,
            ResourceDescriptor::NitrogenGas => "Nitrogen Gas"@,
        }
    }

    /// The name under which the game lists the resource.
    pub fn display_name(&self) -> (name: &'static str)
        ensures
            name@ == self.spec_display_name(),
    {
        match self {
            ResourceDescriptor::OreIron => "Iron Ore",
            ResourceDescriptor::Coal => "Coal",
            ResourceDescriptor::OreCopper => "Copper Ore",
            ResourceDescriptor::Stone => "Limestone",
            ResourceDescriptor::RawQuartz => "Raw Quartz",
            ResourceDescriptor::SAM => "SAM",
            ResourceDescriptor::OreBauxite => "Bauxite",
            ResourceDescriptor::OreGold => "Caterium Ore",
            ResourceDescriptor::Sulfur => "Sulfur",
            ResourceDescriptor::OreUranium => "Uranium",
            ResourceDescriptor::Water => "Water",
            ResourceDescriptor::LiquidOil => "Crude Oil",
            ResourceDescriptor::NitrogenGas => "Nitrogen Gas",
        }
    }

    /// The class name of the resource in the game's data files.
    pub open spec fn spec_internal_name(self) -> Seq<char> {
        match self {
            ResourceDescriptor::OreIron => "Desc_OreIron_C"@,
            ResourceDescriptor::Coal => "Desc_Coal_C"@,
            ResourceDescriptor::OreCopper => "Desc_OreCopper_C"@,
            ResourceDescriptor::Stone => "Desc_Stone_C"@,
            ResourceDescriptor::RawQuartz => "Desc_RawQuartz_C"@,
            ResourceDescriptor::SAM => "Desc_SAM_C"@,
            ResourceDescriptor::OreBauxite => "Desc_OreBauxite_C"@,
            ResourceDescriptor::OreGold => "Desc_OreGold_C"@,
            ResourceDescriptor::Sulfur => "Desc_Sulfur_C"@,
            ResourceDescriptor::OreUranium => "Desc_OreUranium_C"@,
            ResourceDescriptor::Water => "Desc_Water_C"@,
            ResourceDescriptor::LiquidOil => "Desc_LiquidOil_C"@,
            ResourceDescriptor::NitrogenGas => "Desc_NitrogenGas_C"@,
        }
    }

    /// The class name of the resource in the game's data files.
    pub fn get_internal_name(&self) -> (name: &'static str)
        ensures
            name@ == self.spec_internal_name(),
    {
        match self {
            ResourceDescriptor::OreIron => "Desc_OreIron_C",
            ResourceDescriptor::Coal => "Desc_Coal_C",
            ResourceDescriptor::OreCopper => "Desc_OreCopper_C",
            ResourceDescriptor::Stone => "Desc_Stone_C",
            ResourceDescriptor::RawQuartz => "Desc_RawQuartz_C",
            ResourceDescriptor::SAM => "Desc_SAM_C",
            ResourceDescriptor::OreBauxite => "Desc_OreBauxite_C",
            ResourceDescriptor::OreGold => "Desc_OreGold_C",
            ResourceDescriptor::Sulfur => "Desc_Sulfur_C",
            ResourceDescriptor::OreUranium => "Desc_OreUranium_C",
            ResourceDescriptor::Water => "Desc_Water_C",
            ResourceDescriptor::LiquidOil => "Desc_LiquidOil_C",
            ResourceDescriptor::NitrogenGas => "Desc_NitrogenGas_C",
        }
    }
}

/// `idx` and `resource_at` are inverse to each other on the thirteen positions.
pub broadcast proof fn lemma_resource_index(r: ResourceDescriptor)
    ensures
        0 <= #[trigger] r.idx() < RESOURCE_COUNT,
        resource_at(r.idx()) == r,
{
}

/// `resource_at` maps each of the thirteen positions back to that position.
pub broadcast proof fn lemma_resource_at_index(i: int)
    requires
        0 <= i < RESOURCE_COUNT,
    ensures
        (#[trigger] resource_at(i)).idx() == i,
{
}

impl ResourcePurity {
    /// The name under which the game lists the purity.
    pub open spec fn spec_display_name(self) -> Seq<char> {
        match self {
            ResourcePurity::Impure => "Impure"@,
            ResourcePurity::Normal => "Normal"@,
            ResourcePurity::Pure => "Pure"@,
        }
    }

    /// The name under which the game lists the purity.
    pub fn display_name(&self) -> (name: &'static str)
        ensures
            name@ == self.spec_display_name(),
    {
        match self {
            ResourcePurity::Impure => "Impure",
            ResourcePurity::Normal => "Normal",
            ResourcePurity::Pure => "Pure",
        }
    }

    /// Every purity, from the poorest to the richest.
    pub fn iter_all() -> (v: Vec<ResourcePurity>)
        ensures
            v@ == all_purities_seq(),
    {
        let mut v: Vec<ResourcePurity> = Vec::new();
        v.push(ResourcePurity::Impure);
        v.push(ResourcePurity::Normal);
        v.push(ResourcePurity::Pure);
        assert(v@ =~= all_purities_seq());
        v
    }
}

} // verus!
