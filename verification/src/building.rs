//! The building catalog: the closed sets of building and resource kinds and
//! what each building costs and yields.

use vstd::prelude::*;

use crate::building::BuildingType::{
    AirTrafficControl, Apartment, Asphalt, Bank, BasicResearchFacility, Battery, Carrot,
    ConcreteMixer, Cookie, Cpu, Database, Factory, FireStation, FoodTruck, Garage, Gauge, Grain,
    Ground, Hospital, House, LightHouse, Lightbulb, Lightning, Mosque, NuclearPowerPlant,
    PalmTree, PoliceStation, RobotFactory, Rocket, Runway, Shop, Siren, StairsIntoTheVoid,
    SteelProduction, Tree, Turret, Warehouse,
};

verus! {

/// The kinds of building. `Ground` stands for an empty cell.
#[derive(PartialEq, Eq, Structural, Hash, Copy, Clone, Debug)]
pub enum BuildingType {
    Ground,
    House,
    Grain,
    Tree,
    Shop,
    Warehouse,
    Battery,
    Factory,
    SteelProduction,
    Bank,
    BasicResearchFacility,
    ConcreteMixer,
    Gauge,
    Asphalt,
    Apartment,
    FireStation,
    PoliceStation,
    Carrot,
    Hospital,
    FoodTruck,
    Lightning,
    Siren,
    AirTrafficControl,
    Runway,
    Cpu,
    StairsIntoTheVoid,
    Garage,
    LightHouse,
    Lightbulb,
    Mosque,
    NuclearPowerPlant,
    Rocket,
    RobotFactory,
    Cookie,
    Database,
    PalmTree,
    Turret,
}

/// The kinds of resource. `Storage` and `CashStorage` are the two kinds that
/// define capacity.
#[derive(PartialEq, Eq, Structural, Hash, Copy, Clone, Debug)]
pub enum Resource {
    Food,
    Tax,
    Wood,
    Seed,
    Storage,
    CashStorage,
    Steel,
    BasicScience,
    Concrete,
    Computation,
    PlaceholderResource,
}

/// How many kinds of building there are.
pub const BUILDING_KINDS: usize = 37;

/// How many kinds of resource there are.
pub const RESOURCE_KINDS: usize = 11;

/// A list of resource amounts, as costs and outputs are given.
pub type Amounts = Seq<(Resource, i32)>;

/// The sum of the amounts that `list` gives for resource `r`.
pub open spec fn amount_in(list: Amounts, r: Resource) -> int
    decreases list.len(),
{
    if list.len() == 0 {
        0
    } else {
        amount_in(list.drop_last(), r) + if list.last().0 == r {
            list.last().1 as int
        } else {
            0
        }
    }
}

/// Whether `list` has an entry for resource `r`.
pub open spec fn mentions(list: Amounts, r: Resource) -> bool {
    exists|i: int| 0 <= i < list.len() && (#[trigger] list[i]).0 == r
}

/// Whether `list` holds no negative amount.
pub open spec fn no_negative(list: Amounts) -> bool {
    forall|i: int| 0 <= i < list.len() ==> (#[trigger] list[i]).1 >= 0
}

/// Whether `cost` names no resource twice and lists no negative amount.
pub open spec fn plain(cost: Amounts) -> bool {
    &&& no_negative(cost)
    &&& forall|i: int, j: int|
        0 <= i < j < cost.len() ==> (#[trigger] cost[i]).0 != (#[trigger] cost[j]).0
}

impl Resource {
    /// The place of this kind in the declaration order.
    pub open spec fn index_spec(self) -> int {
        match self {
            Resource::Food => 0,
            Resource::Tax => 1,
            Resource::Wood => 2,
            Resource::Seed => 3,
            Resource::Storage => 4,
            Resource::CashStorage => 5,
            Resource::Steel => 6,
            Resource::BasicScience => 7,
            Resource::Concrete => 8,
            Resource::Computation => 9,
            Resource::PlaceholderResource => 10,
        }
    }

    /// Every kind of resource, in declaration order.
    pub open spec fn all_spec() -> Seq<Resource> {
        seq![
            Resource::Food,
            Resource::Tax,
            Resource::Wood,
            Resource::Seed,
            Resource::Storage,
            Resource::CashStorage,
            Resource::Steel,
            Resource::BasicScience,
            Resource::Concrete,
            Resource::Computation,
            Resource::PlaceholderResource,
        ]
    }

    /// The display name of each kind.
    pub open spec fn name_spec(self) -> Seq<char> {
        match self {
            Resource::Food => "Food"@,
            Resource::Tax => "Tax"@,
            Resource::Wood => "Wood"@,
            Resource::Seed => "Seeds"@,
            Resource::Storage => "Storage"@,
            Resource::Steel => "Steel"@,
            Resource::CashStorage => "Cash Storage"@,
            Resource::BasicScience => "Basic Science"@,
            Resource::Concrete => "Concrete"@,
            Resource::Computation => "Computation"@,
            Resource::PlaceholderResource => "Placeholder Resource"@,
        }
    }

    /// The place of this kind in the declaration order.
    pub fn index(&self) -> (i: usize)
        ensures
            i == self.index_spec(),
            i < RESOURCE_KINDS,
    {
        match self {
            Resource::Food => 0,
            Resource::Tax => 1,
            Resource::Wood => 2,
            Resource::Seed => 3,
            Resource::Storage => 4,
            Resource::CashStorage => 5,
            Resource::Steel => 6,
            Resource::BasicScience => 7,
            Resource::Concrete => 8,
            Resource::Computation => 9,
            Resource::PlaceholderResource => 10,
        }
    }

    /// Every kind of resource, in declaration order.
    pub fn all() -> (v: [Resource; 11])
        ensures
            v@ == Resource::all_spec(),
    {
        let v = [
            Resource::Food,
            Resource::Tax,
            Resource::Wood,
            Resource::Seed,
            Resource::Storage,
            Resource::CashStorage,
            Resource::Steel,
            Resource::BasicScience,
            Resource::Concrete,
            Resource::Computation,
            Resource::PlaceholderResource,
        ];
        assert(v@ =~= Resource::all_spec());
        v
    }

    /// `all_spec` lists every kind exactly once, each at its index.
    pub proof fn lemma_all(self)
        ensures
            Resource::all_spec().len() == RESOURCE_KINDS,
            0 <= self.index_spec() < RESOURCE_KINDS,
            Resource::all_spec()[self.index_spec()] == self,
    {
    }

    /// The display name of this kind.
    pub fn name(&self) -> (s: String)
        ensures
            s@ == self.name_spec(),
    {
        match self {
            Resource::Food => "Food",
            Resource::Tax => "Tax",
            Resource::Wood => "Wood",
            Resource::Seed => "Seeds",
            Resource::Storage => "Storage",
            Resource::Steel => "Steel",
            Resource::CashStorage => "Cash Storage",
            Resource::BasicScience => "Basic Science",
            Resource::Concrete => "Concrete",
            Resource::Computation => "Computation",
            Resource::PlaceholderResource => "Placeholder Resource",
        }.to_owned()
    }
}

impl BuildingType {
    /// The place of this kind in the declaration order.
    pub open spec fn index_spec(self) -> int {
        match self {
            Ground => 0,
            House => 1,
            Grain => 2,
            Tree => 3,
            Shop => 4,
            Warehouse => 5,
            Battery => 6,
            Factory => 7,
            SteelProduction => 8,
            Bank => 9,
            BasicResearchFacility => 10,
            ConcreteMixer => 11,
            Gauge => 12,
            Asphalt => 13,
            Apartment => 14,
            FireStation => 15,
            PoliceStation => 16,
            Carrot => 17,
            Hospital => 18,
            FoodTruck => 19,
            Lightning => 20,
            Siren => 21,
            AirTrafficControl => 22,
            Runway => 23,
            Cpu => 24,
            StairsIntoTheVoid => 25,
            Garage => 26,
            LightHouse => 27,
            Lightbulb => 28,
            Mosque => 29,
            NuclearPowerPlant => 30,
            Rocket => 31,
            RobotFactory => 32,
            Cookie => 33,
            Database => 34,
            PalmTree => 35,
            Turret => 36,
        }
    }

    /// Every kind of building, in declaration order.
    pub open spec fn all_spec() -> Seq<BuildingType> {
        seq![
            Ground,
            House,
            Grain,
            Tree,
            Shop,
            Warehouse,
            Battery,
            Factory,
            SteelProduction,
            Bank,
            BasicResearchFacility,
            ConcreteMixer,
            Gauge,
            Asphalt,
            Apartment,
            FireStation,
            PoliceStation,
            Carrot,
            Hospital,
            FoodTruck,
            Lightning,
            Siren,
            AirTrafficControl,
            Runway,
            Cpu,
            StairsIntoTheVoid,
            Garage,
            LightHouse,
            Lightbulb,
            Mosque,
            NuclearPowerPlant,
            Rocket,
            RobotFactory,
            Cookie,
            Database,
            PalmTree,
            Turret,
        ]
    }

    /// The display name of each kind.
    pub open spec fn name_spec(self) -> Seq<char> {
        match self {
            Apartment => "Apartment"@,
            Ground => "Ground"@,
            Tree => "Tree"@,
            House => "House"@,
            Grain => "Grain"@,
            Shop => "Shop"@,
            Battery => "Battery"@,
            Warehouse => "Warehouse"@,
            Factory => "Factory"@,
            SteelProduction => "Steel Mill"@,
            Bank => "Bank"@,
            BasicResearchFacility => "Basic Research Facility"@,
            ConcreteMixer => "Concrete Mixer"@,
            Gauge => "Gauge"@,
            Asphalt => "Asphalt"@,
            FireStation => "Fire Station"@,
            PoliceStation => "Police Station"@,
            Hospital => "Hospital"@,
            FoodTruck => "Food Truck"@,
            Carrot => "Carrot"@,
            Lightning => "Lightning"@,
            Siren => "Siren"@,
            AirTrafficControl => "Air Traffic Control"@,
            Runway => "Runway"@,
            Cpu => "Computational Research Facility"@,
            StairsIntoTheVoid => "Stairs Into The Void"@,
            Garage => "Garage"@,
            LightHouse => "Light House"@,
            Lightbulb => "Lightbulb"@,
            Mosque => "Mosque"@,
            NuclearPowerPlant => "Nuclear Power Plant"@,
            Rocket => "Rocket"@,
            RobotFactory => "Robot Factory"@,
            Cookie => "Cookie"@,
            Database => "Database"@,
            PalmTree => "Palm Tree"@,
            Turret => "Turret"@,
        }
    }

    /// What one building of each kind yields per production tick. A kind
    /// without economic effect yields nothing, or the zero placeholder.
    pub open spec fn output_spec(self) -> Amounts {
        match self {
            Grain => seq![(Resource::Food, 1i32), (Resource::Seed, 1i32)],
            Carrot => seq![(Resource::Food, 3i32)],
            Tree => seq![(Resource::Wood, 1i32)],
            Shop => seq![(Resource::Tax, 2i32)],
            Warehouse => seq![(Resource::Storage, 100i32)],
            SteelProduction => seq![(Resource::Steel, 1i32)],
            Bank => seq![(Resource::CashStorage, 1000i32)],
            BasicResearchFacility => seq![(Resource::BasicScience, 1i32)],
            ConcreteMixer => seq![(Resource::Concrete, 10i32)],
            Cpu => seq![(Resource::Computation, 1i32)],
            FoodTruck => seq![(Resource::Tax, 25i32)],
            Battery | Ground | House | Gauge | Asphalt | FireStation | PoliceStation | Hospital
            | Factory => seq![],
            Apartment | Lightning | AirTrafficControl | Runway | StairsIntoTheVoid | Garage
            | LightHouse | Lightbulb | Mosque | NuclearPowerPlant | Rocket | RobotFactory | Cookie
            | Database | PalmTree | Turret | Siren => seq![(Resource::PlaceholderResource, 0i32)],
        }
    }

    /// What it costs to place one building of each kind. Grain is free: the
    /// first crops take nothing from the seeds that a game starts with.
    pub open spec fn cost_spec(self) -> Amounts {
        match self {
            Carrot => seq![(Resource::Seed, 50i32)],
            Asphalt => seq![(Resource::Concrete, 1i32)],
            Apartment => seq![
                (Resource::Food, 1i32),
                (Resource::Concrete, 50i32),
                (Resource::Steel, 10i32),
            ],
            Shop => seq![(Resource::Wood, 50i32), (Resource::Food, 50i32)],
            Ground => seq![],
            House => seq![(Resource::Wood, 10i32), (Resource::Food, 10i32)],
            Grain => seq![],
            Tree => seq![(Resource::Seed, 5i32)],
            Warehouse => seq![(Resource::Wood, 100i32)],
            Battery => seq![(Resource::Steel, 20i32), (Resource::Food, 200i32)],
            Factory => seq![
                (Resource::Wood, 100i32),
                (Resource::Food, 100i32),
                (Resource::Seed, 100i32),
            ],
            SteelProduction => seq![(Resource::Wood, 150i32)],
            Bank => seq![
                (Resource::Wood, 200i32),
                (Resource::Food, 200i32),
                (Resource::Steel, 30i32),
                (Resource::Tax, 300i32),
            ],
            BasicResearchFacility => seq![
                (Resource::Wood, 100i32),
                (Resource::Food, 100i32),
                (Resource::Seed, 100i32),
                (Resource::Steel, 100i32),
            ],
            ConcreteMixer => seq![(Resource::Steel, 100i32), (Resource::BasicScience, 100i32)],
            Gauge => seq![(Resource::Steel, 50i32), (Resource::BasicScience, 300i32)],
            FireStation => seq![(Resource::Concrete, 500i32), (Resource::Steel, 20i32)],
            Hospital => seq![
                (Resource::Concrete, 1000i32),
                (Resource::Food, 1500i32),
                (Resource::BasicScience, 50i32),
            ],
            PoliceStation => seq![(Resource::Concrete, 500i32), (Resource::Food, 500i32)],
            FoodTruck => seq![(Resource::Food, 5000i32), (Resource::Wood, 1000i32)],
            Siren | LightHouse | Lightning | AirTrafficControl | Runway | Cpu | StairsIntoTheVoid
            | Garage | Lightbulb | Mosque | NuclearPowerPlant | Rocket | RobotFactory | Cookie
            | Database | PalmTree | Turret => seq![(Resource::PlaceholderResource, 0i32)],
        }
    }

    /// The place of this kind in the declaration order.
    pub fn index(&self) -> (i: usize)
        ensures
            i == self.index_spec(),
            i < BUILDING_KINDS,
    {
        match self {
            Ground => 0,
            House => 1,
            Grain => 2,
            Tree => 3,
            Shop => 4,
            Warehouse => 5,
            Battery => 6,
            Factory => 7,
            SteelProduction => 8,
            Bank => 9,
            BasicResearchFacility => 10,
            ConcreteMixer => 11,
            Gauge => 12,
            Asphalt => 13,
            Apartment => 14,
            FireStation => 15,
            PoliceStation => 16,
            Carrot => 17,
            Hospital => 18,
            FoodTruck => 19,
            Lightning => 20,
            Siren => 21,
            AirTrafficControl => 22,
            Runway => 23,
            Cpu => 24,
            StairsIntoTheVoid => 25,
            Garage => 26,
            LightHouse => 27,
            Lightbulb => 28,
            Mosque => 29,
            NuclearPowerPlant => 30,
            Rocket => 31,
            RobotFactory => 32,
            Cookie => 33,
            Database => 34,
            PalmTree => 35,
            Turret => 36,
        }
    }

    /// Every kind of building, in declaration order.
    pub fn all() -> (v: [BuildingType; 37])
        ensures
            v@ == BuildingType::all_spec(),
    {
        let v = [
            Ground,
            House,
            Grain,
            Tree,
            Shop,
            Warehouse,
            Battery,
            Factory,
            SteelProduction,
            Bank,
            BasicResearchFacility,
            ConcreteMixer,
            Gauge,
            Asphalt,
            Apartment,
            FireStation,
            PoliceStation,
            Carrot,
            Hospital,
            FoodTruck,
            Lightning,
            Siren,
            AirTrafficControl,
            Runway,
            Cpu,
            StairsIntoTheVoid,
            Garage,
            LightHouse,
            Lightbulb,
            Mosque,
            NuclearPowerPlant,
            Rocket,
            RobotFactory,
            Cookie,
            Database,
            PalmTree,
            Turret,
        ];
        assert(v@ =~= BuildingType::all_spec());
        v
    }

    /// `all_spec` lists every kind exactly once, each at its index.
    pub proof fn lemma_all(self)
        ensures
            BuildingType::all_spec().len() == BUILDING_KINDS,
            0 <= self.index_spec() < BUILDING_KINDS,
            BuildingType::all_spec()[self.index_spec()] == self,
    {
    }

    /// The display name of this kind.
    pub fn name(&self) -> (s: String)
        ensures
            s@ == self.name_spec(),
    {
        match self {
            Apartment => "Apartment",
            Ground => "Ground",
            Tree => "Tree",
            House => "House",
            Grain => "Grain",
            Shop => "Shop",
            Battery => "Battery",
            Warehouse => "Warehouse",
            Factory => "Factory",
            SteelProduction => "Steel Mill",
            Bank => "Bank",
            BasicResearchFacility => "Basic Research Facility",
            ConcreteMixer => "Concrete Mixer",
            Gauge => "Gauge",
            Asphalt => "Asphalt",
            FireStation => "Fire Station",
            PoliceStation => "Police Station",
            Hospital => "Hospital",
            FoodTruck => "Food Truck",
            Carrot => "Carrot",
            Lightning => "Lightning",
            Siren => "Siren",
            AirTrafficControl => "Air Traffic Control",
            Runway => "Runway",
            Cpu => "Computational Research Facility",
            StairsIntoTheVoid => "Stairs Into The Void",
            Garage => "Garage",
            LightHouse => "Light House",
            Lightbulb => "Lightbulb",
            Mosque => "Mosque",
            NuclearPowerPlant => "Nuclear Power Plant",
            Rocket => "Rocket",
            RobotFactory => "Robot Factory",
            Cookie => "Cookie",
            Database => "Database",
            PalmTree => "Palm Tree",
            Turret => "Turret",
        }.to_owned()
    }

    /// What one building of this kind yields per production tick.
    pub fn output(&self) -> (v: Vec<(Resource, i32)>)
        ensures
            v@ == self.output_spec(),
    {
        let v = match self {
            Grain => vec![(Resource::Food, 1), (Resource::Seed, 1)],
            Carrot => vec![(Resource::Food, 3)],
            Tree => vec![(Resource::Wood, 1)],
            Shop => vec![(Resource::Tax, 2)],
            Warehouse => vec![(Resource::Storage, 100)],
            SteelProduction => vec![(Resource::Steel, 1)],
            Bank => vec![(Resource::CashStorage, 1000)],
            BasicResearchFacility => vec![(Resource::BasicScience, 1)],
            ConcreteMixer => vec![(Resource::Concrete, 10)],
            Cpu => vec![(Resource::Computation, 1)],
            FoodTruck => vec![(Resource::Tax, 25)],
            Battery | Ground | House | Gauge | Asphalt | FireStation | PoliceStation | Hospital
            | Factory => vec![],
            Apartment | Lightning | AirTrafficControl | Runway | StairsIntoTheVoid | Garage
            | LightHouse | Lightbulb | Mosque | NuclearPowerPlant | Rocket | RobotFactory | Cookie
            | Database | PalmTree | Turret | Siren => vec![(Resource::PlaceholderResource, 0)],
        };
        assert(v@ =~= self.output_spec());
        v
    }

    /// What it costs to place one building of this kind.
    pub fn cost(&self) -> (v: Vec<(Resource, i32)>)
        ensures
            v@ == self.cost_spec(),
    {
        let v = match self {
            Carrot => vec![(Resource::Seed, 50)],
            Asphalt => vec![(Resource::Concrete, 1)],
            Apartment => vec![(Resource::Food, 1), (Resource::Concrete, 50), (Resource::Steel, 10)],
            Shop => vec![(Resource::Wood, 50), (Resource::Food, 50)],
            Ground => vec![],
            House => vec![(Resource::Wood, 10), (Resource::Food, 10)],
            Grain => vec![],
            Tree => vec![(Resource::Seed, 5)],
            Warehouse => vec![(Resource::Wood, 100)],
            Battery => vec![(Resource::Steel, 20), (Resource::Food, 200)],
            Factory => vec![(Resource::Wood, 100), (Resource::Food, 100), (Resource::Seed, 100)],
            SteelProduction => vec![(Resource::Wood, 150)],
            Bank => vec![
                (Resource::Wood, 200),
                (Resource::Food, 200),
                (Resource::Steel, 30),
                (Resource::Tax, 300),
            ],
            BasicResearchFacility => vec![
                (Resource::Wood, 100),
                (Resource::Food, 100),
                (Resource::Seed, 100),
                (Resource::Steel, 100),
            ],
            ConcreteMixer => vec![(Resource::Steel, 100), (Resource::BasicScience, 100)],
            Gauge => vec![(Resource::Steel, 50), (Resource::BasicScience, 300)],
            FireStation => vec![(Resource::Concrete, 500), (Resource::Steel, 20)],
            Hospital => vec![
                (Resource::Concrete, 1000),
                (Resource::Food, 1500),
                (Resource::BasicScience, 50),
            ],
            PoliceStation => vec![(Resource::Concrete, 500), (Resource::Food, 500)],
            FoodTruck => vec![(Resource::Food, 5000), (Resource::Wood, 1000)],
            Siren | LightHouse | Lightning | AirTrafficControl | Runway | Cpu | StairsIntoTheVoid
            | Garage | Lightbulb | Mosque | NuclearPowerPlant | Rocket | RobotFactory | Cookie
            | Database | PalmTree | Turret => vec![(Resource::PlaceholderResource, 0)],
        };
        assert(v@ =~= self.cost_spec());
        v
    }
}

/// No building costs more than this of any one resource.
pub const MAX_COST: i32 = 5000;

/// No building yields more than this of any one resource.
pub const MAX_OUTPUT: i32 = 1000;

/// What holds of every cost in the catalog: no resource is named twice, no
/// amount is negative or above `MAX_COST`, and no cost is paid in capacity.
pub proof fn lemma_costs(t: BuildingType)
    ensures
        plain(t.cost_spec()),
        t.cost_spec().len() <= 4,
        forall|i: int| 0 <= i < t.cost_spec().len() ==> (#[trigger] t.cost_spec()[i]).1 <= MAX_COST,
        !mentions(t.cost_spec(), Resource::Storage),
        !mentions(t.cost_spec(), Resource::CashStorage),
{
}

/// What holds of every output in the catalog: no resource is named twice and
/// no amount is negative or above `MAX_OUTPUT`.
pub proof fn lemma_outputs(t: BuildingType)
    ensures
        plain(t.output_spec()),
        t.output_spec().len() <= 2,
        forall|i: int|
            0 <= i < t.output_spec().len() ==> (#[trigger] t.output_spec()[i]).1 <= MAX_OUTPUT,
{
}

/// The kinds that make up a city: each may stand next to any other, and
/// each needs road access.
pub open spec fn city_tiles() -> Seq<BuildingType> {
    seq![Bank, FireStation, PoliceStation, Hospital, Apartment, FoodTruck, Cpu]
}

/// Whether `t` is one of the city kinds.
pub open spec fn is_city(t: BuildingType) -> bool {
    t == Bank || t == FireStation || t == PoliceStation || t == Hospital || t == Apartment || t
        == FoodTruck || t == Cpu
}

/// The city kinds that produce a resource: each needs an apartment in its
/// parcel.
pub open spec fn is_producing_city(t: BuildingType) -> bool {
    t == Bank || t == FoodTruck || t == Cpu
}

/// The pairs of kinds that tolerate each other as neighbors. A pair with
/// `Ground` lets a kind stand beside empty land: houses and grain do, and so
/// are what a settlement begins with.
pub open spec fn pairs() -> Seq<(BuildingType, BuildingType)> {
    seq![
        (Warehouse, Shop),
        (Battery, Factory),
        (SteelProduction, Factory),
        (House, BasicResearchFacility),
        (BasicResearchFacility, Battery),
        (Factory, ConcreteMixer),
        (ConcreteMixer, Gauge),
        (Grain, Carrot),
        (House, Grain),
        (House, Ground),
        (Grain, Ground),
    ]
}

/// The partners that the first `n` pairs give to `t`, in the order of the
/// pairs.
pub open spec fn partners(t: BuildingType, n: nat) -> Seq<BuildingType>
    decreases n,
{
    if n == 0 {
        Seq::empty()
    } else {
        let p = pairs()[n - 1];
        partners(t, (n - 1) as nat) + (if p.0 == t {
            seq![p.1]
        } else {
            Seq::empty()
        }) + (if p.1 == t {
            seq![p.0]
        } else {
            Seq::empty()
        })
    }
}

/// The kinds that must all stand among the orthogonal neighbors of a `t`.
pub open spec fn required_adj_spec(t: BuildingType) -> Seq<BuildingType> {
    (if t == Battery || t == SteelProduction || t == ConcreteMixer {
        seq![Factory]
    } else {
        Seq::empty()
    }) + (if t == ConcreteMixer {
        seq![Gauge]
    } else {
        Seq::empty()
    }) + (if t == BasicResearchFacility {
        seq![House, Battery]
    } else {
        Seq::empty()
    }) + (if is_city(t) {
        seq![Asphalt]
    } else {
        Seq::empty()
    })
}

/// The kinds that a `t` tolerates as neighbors beyond the required ones:
/// its own kind, its partners, and for a city kind and for asphalt the city
/// kinds.
pub open spec fn optional_adj_spec(t: BuildingType) -> Seq<BuildingType> {
    seq![t] + partners(t, pairs().len()) + (if is_city(t) {
        city_tiles()
    } else {
        Seq::empty()
    }) + (if t == Asphalt {
        city_tiles()
    } else {
        Seq::empty()
    })
}

/// The kinds that must stand somewhere in the parcel of a `t`.
pub open spec fn tile_adj_spec(t: BuildingType) -> Seq<BuildingType> {
    (match t {
        Shop => seq![Grain, House, Tree],
        Grain | Tree | Carrot => seq![House],
        Apartment => seq![FireStation, Hospital, PoliceStation],
        _ => Seq::empty(),
    }) + (if is_producing_city(t) {
        seq![Apartment]
    } else {
        Seq::empty()
    })
}

/// No kind requires its own kind as a neighbor.
pub proof fn lemma_never_requires_itself(t: BuildingType)
    ensures
        !required_adj_spec(t).contains(t),
{
    assert(forall|i: int|
        0 <= i < required_adj_spec(t).len() ==> required_adj_spec(t)[i] != t);
}

/// Houses and grain admit empty land beside them, and each other: with them
/// a settlement can begin on an empty parcel.
pub proof fn lemma_houses_and_grain_admit_empty_land()
    ensures
        optional_adj_spec(House).contains(Ground),
        optional_adj_spec(Grain).contains(Ground),
        optional_adj_spec(House).contains(Grain),
        optional_adj_spec(Grain).contains(House),
        required_adj_spec(House).len() == 0,
        required_adj_spec(Grain).len() == 0,
        tile_adj_spec(House).len() == 0,
        tile_adj_spec(Grain) == seq![House],
{
    reveal_with_fuel(partners, 12);
    assert(pairs().len() == 11);
    assert(optional_adj_spec(House) =~= seq![House, BasicResearchFacility, Grain, Ground]);
    assert(optional_adj_spec(Grain) =~= seq![Grain, Carrot, House, Ground]);
    assert(optional_adj_spec(House)[3] == Ground);
    assert(optional_adj_spec(House)[2] == Grain);
    assert(optional_adj_spec(Grain)[3] == Ground);
    assert(optional_adj_spec(Grain)[2] == House);
    assert(tile_adj_spec(Grain) =~= seq![House]);
}

/// What a `Building` is, as plain mathematical values.
pub struct BuildingView {
    pub building_type: BuildingType,
    pub required_adj: Seq<BuildingType>,
    pub optional_adj: Seq<BuildingType>,
    pub tile_adj: Seq<BuildingType>,
    pub cost: Amounts,
    pub symbol: Seq<char>,
}

/// The catalog: the building that each kind stands for.
pub open spec fn catalog(t: BuildingType) -> BuildingView {
    BuildingView {
        building_type: t,
        required_adj: required_adj_spec(t),
        optional_adj: optional_adj_spec(t),
        tile_adj: tile_adj_spec(t),
        cost: t.cost_spec(),
        symbol: t.symbol_spec(),
    }
}

/// A building kind together with its cost, its three adjacency rule sets and
/// its glyph. Every value is the catalog's entry for its kind, so two
/// buildings of one kind are equal.
#[derive(PartialEq, Eq, Hash, Debug)]
pub struct Building {
    building_type: BuildingType,
    required_adj: Vec<BuildingType>,
    optional_adj: Vec<BuildingType>,
    tile_adj: Vec<BuildingType>,
    cost: Vec<(Resource, i32)>,
    symbol: String,
}

impl View for Building {
    type V = BuildingView;

    closed spec fn view(&self) -> BuildingView {
        BuildingView {
            building_type: self.building_type,
            required_adj: self.required_adj@,
            optional_adj: self.optional_adj@,
            tile_adj: self.tile_adj@,
            cost: self.cost@,
            symbol: self.symbol@,
        }
    }
}

/// Whether `t` occurs in `list`.
pub fn list_has(list: &Vec<BuildingType>, t: BuildingType) -> (found: bool)
    ensures
        found == list@.contains(t),
{
    let mut i: usize = 0;
    while i < list.len()
        invariant
            i <= list.len(),
            forall|j: int| 0 <= j < i ==> list@[j] != t,
        decreases list.len() - i,
    {
        if list[i] == t {
            return true;
        }
        i = i + 1;
    }
    false
}

impl Building {
    #[verifier::type_invariant]
    spec fn is_catalog_entry(self) -> bool {
        self@ == catalog(self.building_type)
    }

    /// The catalog's building of kind `building_type`.
    pub fn new(building_type: &BuildingType) -> (b: Building)
        ensures
            b@ == catalog(*building_type),
    {
        let t = *building_type;
        let mut required_adj: Vec<BuildingType> = Vec::new();
        if t == Battery || t == SteelProduction || t == ConcreteMixer {
            required_adj.push(Factory);
        }
        if t == ConcreteMixer {
            required_adj.push(Gauge);
        }
        if t == BasicResearchFacility {
            required_adj.push(House);
            required_adj.push(Battery);
        }
        let city: [BuildingType; 7] = [
            Bank,
            FireStation,
            PoliceStation,
            Hospital,
            Apartment,
            FoodTruck,
            Cpu,
        ];
        assert(city@ =~= city_tiles());
        let in_city = is_city_kind(t);

        let mut optional_adj: Vec<BuildingType> = Vec::new();
        optional_adj.push(t);
        let table: [(BuildingType, BuildingType); 11] = [
            (Warehouse, Shop),
            (Battery, Factory),
            (SteelProduction, Factory),
            (House, BasicResearchFacility),
            (BasicResearchFacility, Battery),
            (Factory, ConcreteMixer),
            (ConcreteMixer, Gauge),
            (Grain, Carrot),
            (House, Grain),
            (House, Ground),
            (Grain, Ground),
        ];
        assert(table@ =~= pairs());
        let mut i: usize = 0;
        while i < 11
            invariant
                i <= 11,
                table@ == pairs(),
                optional_adj@ == seq![t] + partners(t, i as nat),
            decreases 11 - i,
        {
            let p = table[i];
            if p.0 == t {
                optional_adj.push(p.1);
            }
            if p.1 == t {
                optional_adj.push(p.0);
            }
            assert(optional_adj@ =~= seq![t] + partners(t, (i + 1) as nat));
            i = i + 1;
        }
        let ghost paired = optional_adj@;
        if in_city {
            let mut j: usize = 0;
            while j < 7
                invariant
                    j <= 7,
                    city@ == city_tiles(),
                    optional_adj@ == paired + city_tiles().take(j as int),
                decreases 7 - j,
            {
                optional_adj.push(city[j]);
                assert(optional_adj@ =~= paired + city_tiles().take(j + 1));
                j = j + 1;
            }
            assert(city_tiles().take(7) =~= city_tiles());
            required_adj.push(Asphalt);
        }
        let ghost citied = optional_adj@;
        if t == Asphalt {
            let mut j: usize = 0;
            while j < 7
                invariant
                    j <= 7,
                    city@ == city_tiles(),
                    optional_adj@ == citied + city_tiles().take(j as int),
                decreases 7 - j,
            {
                optional_adj.push(city[j]);
                assert(optional_adj@ =~= citied + city_tiles().take(j + 1));
                j = j + 1;
            }
            assert(city_tiles().take(7) =~= city_tiles());
        }
        let mut tile_adj: Vec<BuildingType> = match t {
            Shop => vec![Grain, House, Tree],
            Grain | Tree | Carrot => vec![House],
            Apartment => vec![FireStation, Hospital, PoliceStation],
            _ => Vec::new(),
        };
        if t == Bank || t == FoodTruck || t == Cpu {
            tile_adj.push(Apartment);
        }
        assert(required_adj@ =~= required_adj_spec(t));
        assert(optional_adj@ =~= optional_adj_spec(t));
        assert(tile_adj@ =~= tile_adj_spec(t));
        Building {
            building_type: t,
            required_adj,
            optional_adj,
            tile_adj,
            cost: t.cost(),
            symbol: t.symbol(),
        }
    }

    /// The kind of this building.
    pub fn building_type(&self) -> (t: BuildingType)
        ensures
            t == self@.building_type,
            self@ == catalog(t),
    {
        proof {
            use_type_invariant(self);
        }
        self.building_type
    }

    /// The kinds that must all stand among the orthogonal neighbors.
    pub fn required_adj(&self) -> (list: &Vec<BuildingType>)
        ensures
            list@ == self@.required_adj,
    {
        &self.required_adj
    }

    /// The kinds that are tolerated as neighbors beyond the required ones.
    pub fn optional_adj(&self) -> (list: &Vec<BuildingType>)
        ensures
            list@ == self@.optional_adj,
    {
        &self.optional_adj
    }

    /// The kinds that must stand somewhere in the same parcel.
    pub fn tile_adj(&self) -> (list: &Vec<BuildingType>)
        ensures
            list@ == self@.tile_adj,
    {
        &self.tile_adj
    }

    /// What it costs to place this building.
    pub fn cost(&self) -> (list: &Vec<(Resource, i32)>)
        ensures
            list@ == self@.cost,
    {
        &self.cost
    }

    /// The glyph of this building.
    pub fn symbol(&self) -> (s: &String)
        ensures
            s@ == self@.symbol,
    {
        &self.symbol
    }
}

/// Whether `t` is one of the city kinds.
fn is_city_kind(t: BuildingType) -> (r: bool)
    ensures
        r == is_city(t),
{
    t == Bank || t == FireStation || t == PoliceStation || t == Hospital || t == Apartment || t
        == FoodTruck || t == Cpu
}

impl Clone for Building {
    /// A copy: the catalog's entry for the same kind.
    fn clone(&self) -> (b: Building)
        ensures
            b@ == self@,
    {
        proof {
            use_type_invariant(self);
        }
        Building::new(&self.building_type)
    }
}

impl Default for Building {
    /// The default building is the empty cell.
    fn default() -> (b: Building)
        ensures
            b@ == catalog(Ground),
    {
        Building::new(&Ground)
    }
}

} // verus!
