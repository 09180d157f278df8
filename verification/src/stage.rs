//! Stages of progression: each unlocks some kinds of building once the
//! ledger holds what its thresholds ask. A stage that is unlocked stays so.

use vstd::prelude::*;
use vstd::string::StringExecFns;

use crate::building::BuildingType::{
    AirTrafficControl, Apartment, Asphalt, Bank, BasicResearchFacility, Battery, Carrot,
    ConcreteMixer, Cookie, Cpu, Database, Factory, FireStation, FoodTruck, Garage, Gauge, Grain,
    Hospital, House, LightHouse, Lightbulb, Lightning, Mosque, NuclearPowerPlant, PalmTree,
    PoliceStation, RobotFactory, Rocket, Runway, Shop, Siren, StairsIntoTheVoid, SteelProduction,
    Tree, Turret, Warehouse,
};
use crate::building::{Amounts, BuildingType, Resource};
use crate::ledger::{affordable, Ledger};
use crate::pos::{decimal, push_decimal};

verus! {

/// The threshold that a stage without thresholds of its own sets for every
/// resource.
pub const OUT_OF_REACH: i32 = 999999;

/// A gate of progression.
pub struct Stage {
    pub num: i32,
    pub buildings: Vec<BuildingType>,
    pub title: String,
    pub description: String,
    pub enabled: bool,
    pub unlock_at: Vec<(Resource, i32)>,
}

/// The kinds of building that stage `num` unlocks.
pub open spec fn stage_buildings(num: int) -> Seq<BuildingType> {
    if num == 1 {
        seq![House, Grain]
    } else if num == 2 {
        seq![Tree, Shop, Warehouse]
    } else if num == 3 {
        seq![Factory, Battery, SteelProduction]
    } else if num == 4 {
        seq![BasicResearchFacility, ConcreteMixer, Gauge, Asphalt, Carrot]
    } else if num == 5 {
        seq![Bank, Apartment, FireStation, PoliceStation, Hospital, FoodTruck, Cpu]
    } else if num == 6 {
        seq![
            Lightning,
            Siren,
            AirTrafficControl,
            Runway,
            StairsIntoTheVoid,
            Garage,
            LightHouse,
            Lightbulb,
            Mosque,
            NuclearPowerPlant,
            Rocket,
            RobotFactory,
            Cookie,
            Database,
            PalmTree,
            Turret,
        ]
    } else {
        Seq::empty()
    }
}

/// The description of stage `num`.
pub open spec fn stage_description(num: int) -> Seq<char> {
    if num == 1 {
        "Plop down your house, and some crops, separated by at least one land tile"@
    } else if num == 2 {
        "Build a warehouse and a battery."@
    } else if num == 3 {
        "The industrial revolution has arrived!. Factories can be used to operate a wide range of things, including steel mills and power plants."@
    } else if num == 4 {
        "Build a basic research facility, a concrete mixer, a gauge, and an asphalt plant."@
    } else if num == 5 {
        "Expand into a city, with asphalt instep of icky dirt (hint everything in a city needs road access)"@
    } else if num == 6 {
        "TODO"@
    } else {
        "stage "@ + decimal(num) + " has no description"@
    }
}

/// The title of stage `num`.
pub open spec fn stage_title(num: int) -> Seq<char> {
    if num == 1 {
        "Just a simple framer"@
    } else if num == 2 {
        "Power Up"@
    } else if num == 3 {
        "Industrial Revolution"@
    } else if num == 4 {
        "Research"@
    } else if num == 5 {
        "City"@
    } else if num == 6 {
        "TODO"@
    } else {
        "stage "@ + decimal(num) + " has no title"@
    }
}

/// What the ledger must hold for stage `num` to unlock by itself. A stage
/// from the sixth on, and any number that names no stage, asks of every
/// resource more than play brings.
pub open spec fn stage_unlock_at(num: int) -> Amounts {
    if num == 1 {
        Seq::empty()
    } else if num == 2 {
        seq![(Resource::Seed, 50i32)]
    } else if num == 3 {
        seq![(Resource::Wood, 100i32)]
    } else if num == 4 {
        seq![(Resource::Storage, 200i32)]
    } else if num == 5 {
        seq![(Resource::Concrete, 50i32)]
    } else {
        Seq::new(11, |i: int| (Resource::all_spec()[i], OUT_OF_REACH))
    }
}

impl Stage {
    /// How many stages there are.
    pub fn no_stages() -> (n: i32)
        ensures
            n == 6,
    {
        6
    }

    /// Stage `num`. Only the first stage starts unlocked. A number that
    /// names no stage gives a stage that unlocks no building.
    pub fn new(num: i32) -> (stage: Stage)
        ensures
            stage.num == num,
            stage.buildings@ == stage_buildings(num as int),
            stage.title@ == stage_title(num as int),
            stage.description@ == stage_description(num as int),
            stage.enabled == (num == 1),
            stage.unlock_at@ == stage_unlock_at(num as int),
    {
        let buildings: Vec<BuildingType> = if num == 1 {
            vec![House, Grain]
        } else if num == 2 {
            vec![Tree, Shop, Warehouse]
        } else if num == 3 {
            vec![Factory, Battery, SteelProduction]
        } else if num == 4 {
            vec![BasicResearchFacility, ConcreteMixer, Gauge, Asphalt, Carrot]
        } else if num == 5 {
            vec![Bank, Apartment, FireStation, PoliceStation, Hospital, FoodTruck, Cpu]
        } else if num == 6 {
            vec![
                Lightning,
                Siren,
                AirTrafficControl,
                Runway,
                StairsIntoTheVoid,
                Garage,
                LightHouse,
                Lightbulb,
                Mosque,
                NuclearPowerPlant,
                Rocket,
                RobotFactory,
                Cookie,
                Database,
                PalmTree,
                Turret,
            ]
        } else {
            Vec::new()
        };
        assert(buildings@ =~= stage_buildings(num as int));
        let description: String = if num == 1 {
            "Plop down your house, and some crops, separated by at least one land tile".to_owned()
        } else if num == 2 {
            "Build a warehouse and a battery.".to_owned()
        } else if num == 3 {
            "The industrial revolution has arrived!. Factories can be used to operate a wide range of things, including steel mills and power plants.".to_owned()
        } else if num == 4 {
            "Build a basic research facility, a concrete mixer, a gauge, and an asphalt plant.".to_owned()
        } else if num == 5 {
            "Expand into a city, with asphalt instep of icky dirt (hint everything in a city needs road access)".to_owned()
        } else if num == 6 {
            "TODO".to_owned()
        } else {
            let mut text = "stage ".to_owned();
            push_decimal(&mut text, num);
            text.append(" has no description");
            text
        };
        let title: String = if num == 1 {
            "Just a simple framer".to_owned()
        } else if num == 2 {
            "Power Up".to_owned()
        } else if num == 3 {
            "Industrial Revolution".to_owned()
        } else if num == 4 {
            "Research".to_owned()
        } else if num == 5 {
            "City".to_owned()
        } else if num == 6 {
            "TODO".to_owned()
        } else {
            let mut text = "stage ".to_owned();
            push_decimal(&mut text, num);
            text.append(" has no title");
            text
        };
        let unlock_at: Vec<(Resource, i32)> = if num == 1 {
            Vec::new()
        } else if num == 2 {
            vec![(Resource::Seed, 50)]
        } else if num == 3 {
            vec![(Resource::Wood, 100)]
        } else if num == 4 {
            vec![(Resource::Storage, 200)]
        } else if num == 5 {
            vec![(Resource::Concrete, 50)]
        } else {
            let every = Resource::all();
            let mut list: Vec<(Resource, i32)> = Vec::new();
            let mut i: usize = 0;
            while i < 11
                invariant
                    i <= 11,
                    every@ == Resource::all_spec(),
                    list@.len() == i,
                    forall|j: int|
                        0 <= j < i ==> list@[j] == (Resource::all_spec()[j], OUT_OF_REACH),
                decreases 11 - i,
            {
                list.push((every[i], OUT_OF_REACH));
                i = i + 1;
            }
            list
        };
        assert(unlock_at@ =~= stage_unlock_at(num as int));
        Stage { num, buildings, description, title, enabled: num == 1, unlock_at }
    }

    /// Whether `ledger` holds what this stage asks for.
    pub open spec fn reached(&self, ledger: &Ledger) -> bool {
        affordable(ledger@, self.unlock_at@)
    }

    /// Unlocks the stage if it is locked and the ledger holds every
    /// threshold, and says whether the stage is unlocked now. An unlocked
    /// stage stays unlocked.
    pub fn try_unlock(&mut self, ledger: &Ledger) -> (unlocked: bool)
        ensures
            *final(self) == (Stage {
                enabled: old(self).enabled || old(self).reached(ledger),
                ..*old(self)
            }),
            unlocked == final(self).enabled,
            old(self).enabled ==> final(self).enabled,
    {
        if !self.enabled {
            if ledger.can_afford(&self.unlock_at) {
                self.enabled = true;
            }
        }
        self.enabled
    }

    /// Unlocks the stage whatever the ledger holds.
    pub fn force_unlock(&mut self)
        ensures
            *final(self) == (Stage { enabled: true, ..*old(self) }),
    {
        self.enabled = true;
    }
}

} // verus!
