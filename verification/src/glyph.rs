//! Icons: the glyph that stands for each kind of building and of resource.
//!
//! The glyphs are those of the Phosphor icon font as the `egui_phosphor` crate
//! names them. Each of its constants is read through one small function here,
//! whose contract states the constant's one character.

use vstd::prelude::*;

use crate::building::{BuildingType, Resource};

verus! {

/// `egui_phosphor::BUILDINGS`, a string of the one character U+E9DD.
#[verifier::external_body]
fn buildings() -> (s: &'static str)
    ensures
        s@ == seq!['\u{E9DD}'],
{
    egui_phosphor::BUILDINGS
}

/// `egui_phosphor::TREE`, a string of the one character U+ED8D.
#[verifier::external_body]
fn tree() -> (s: &'static str)
    ensures
        s@ == seq!['\u{ED8D}'],
{
    egui_phosphor::TREE
}

/// `egui_phosphor::HOUSE`, a string of the one character U+EB9C.
#[verifier::external_body]
fn house() -> (s: &'static str)
    ensures
        s@ == seq!['\u{EB9C}'],
{
    egui_phosphor::HOUSE
}

/// `egui_phosphor::GRAINS`, a string of the one character U+EB68.
#[verifier::external_body]
fn grains() -> (s: &'static str)
    ensures
        s@ == seq!['\u{EB68}'],
{
    egui_phosphor::GRAINS
}

/// `egui_phosphor::STOREFRONT`, a string of the one character U+ED34.
#[verifier::external_body]
fn storefront() -> (s: &'static str)
    ensures
        s@ == seq!['\u{ED34}'],
{
    egui_phosphor::STOREFRONT
}

/// `egui_phosphor::WAREHOUSE`, a string of the one character U+EDBE.
#[verifier::external_body]
fn warehouse() -> (s: &'static str)
    ensures
        s@ == seq!['\u{EDBE}'],
{
    egui_phosphor::WAREHOUSE
}

/// `egui_phosphor::BATTERY_CHARGING_VERTICAL`, a string of the one character U+E99C.
#[verifier::external_body]
fn battery_charging_vertical() -> (s: &'static str)
    ensures
        s@ == seq!['\u{E99C}'],
{
    egui_phosphor::BATTERY_CHARGING_VERTICAL
}

/// `egui_phosphor::FACTORY`, a string of the one character U+EADA.
#[verifier::external_body]
fn factory() -> (s: &'static str)
    ensures
        s@ == seq!['\u{EADA}'],
{
    egui_phosphor::FACTORY
}

/// `egui_phosphor::BARCODE`, a string of the one character U+E994.
#[verifier::external_body]
fn barcode() -> (s: &'static str)
    ensures
        s@ == seq!['\u{E994}'],
{
    egui_phosphor::BARCODE
}

/// `egui_phosphor::BANK`, a string of the one character U+E992.
#[verifier::external_body]
fn bank() -> (s: &'static str)
    ensures
        s@ == seq!['\u{E992}'],
{
    egui_phosphor::BANK
}

/// `egui_phosphor::CIRCUITRY`, a string of the one character U+EA3F.
#[verifier::external_body]
fn circuitry() -> (s: &'static str)
    ensures
        s@ == seq!['\u{EA3F}'],
{
    egui_phosphor::CIRCUITRY
}

/// `egui_phosphor::HOURGLASS_MEDIUM`, a string of the one character U+EB97.
#[verifier::external_body]
fn hourglass_medium() -> (s: &'static str)
    ensures
        s@ == seq!['\u{EB97}'],
{
    egui_phosphor::HOURGLASS_MEDIUM
}

/// `egui_phosphor::GAUGE`, a string of the one character U+EB41.
#[verifier::external_body]
fn gauge() -> (s: &'static str)
    ensures
        s@ == seq!['\u{EB41}'],
{
    egui_phosphor::GAUGE
}

/// `egui_phosphor::SQUARE`, a string of the one character U+ED1C.
#[verifier::external_body]
fn square() -> (s: &'static str)
    ensures
        s@ == seq!['\u{ED1C}'],
{
    egui_phosphor::SQUARE
}

/// `egui_phosphor::FIRE_EXTINGUISHER`, a string of the one character U+EB0D.
#[verifier::external_body]
fn fire_extinguisher() -> (s: &'static str)
    ensures
        s@ == seq!['\u{EB0D}'],
{
    egui_phosphor::FIRE_EXTINGUISHER
}

/// `egui_phosphor::POLICE_CAR`, a string of the one character U+EC8B.
#[verifier::external_body]
fn police_car() -> (s: &'static str)
    ensures
        s@ == seq!['\u{EC8B}'],
{
    egui_phosphor::POLICE_CAR
}

/// `egui_phosphor::FIRST_AID_KIT`, a string of the one character U+EB10.
#[verifier::external_body]
fn first_aid_kit() -> (s: &'static str)
    ensures
        s@ == seq!['\u{EB10}'],
{
    egui_phosphor::FIRST_AID_KIT
}

/// `egui_phosphor::VAN`, a string of the one character U+EDB0.
#[verifier::external_body]
fn van() -> (s: &'static str)
    ensures
        s@ == seq!['\u{EDB0}'],
{
    egui_phosphor::VAN
}

/// `egui_phosphor::CARROT`, a string of the one character U+EA04.
#[verifier::external_body]
fn carrot() -> (s: &'static str)
    ensures
        s@ == seq!['\u{EA04}'],
{
    egui_phosphor::CARROT
}

/// `egui_phosphor::LIGHTNING`, a string of the one character U+EBBD.
#[verifier::external_body]
fn lightning() -> (s: &'static str)
    ensures
        s@ == seq!['\u{EBBD}'],
{
    egui_phosphor::LIGHTNING
}

/// `egui_phosphor::SIREN`, a string of the one character U+ECED.
#[verifier::external_body]
fn siren() -> (s: &'static str)
    ensures
        s@ == seq!['\u{ECED}'],
{
    egui_phosphor::SIREN
}

/// `egui_phosphor::AIR_TRAFFIC_CONTROL`, a string of the one character U+E907.
#[verifier::external_body]
fn air_traffic_control() -> (s: &'static str)
    ensures
        s@ == seq!['\u{E907}'],
{
    egui_phosphor::AIR_TRAFFIC_CONTROL
}

/// `egui_phosphor::AIRPLANE_IN_FLIGHT`, a string of the one character U+E902.
#[verifier::external_body]
fn airplane_in_flight() -> (s: &'static str)
    ensures
        s@ == seq!['\u{E902}'],
{
    egui_phosphor::AIRPLANE_IN_FLIGHT
}

/// `egui_phosphor::CPU`, a string of the one character U+EA72.
#[verifier::external_body]
fn cpu() -> (s: &'static str)
    ensures
        s@ == seq!['\u{EA72}'],
{
    egui_phosphor::CPU
}

/// `egui_phosphor::STAIRS`, a string of the one character U+ED26.
#[verifier::external_body]
fn stairs() -> (s: &'static str)
    ensures
        s@ == seq!['\u{ED26}'],
{
    egui_phosphor::STAIRS
}

/// `egui_phosphor::GARAGE`, a string of the one character U+EB3E.
#[verifier::external_body]
fn garage() -> (s: &'static str)
    ensures
        s@ == seq!['\u{EB3E}'],
{
    egui_phosphor::GARAGE
}

/// `egui_phosphor::LIGHTHOUSE`, a string of the one character U+EBBC.
#[verifier::external_body]
fn lighthouse() -> (s: &'static str)
    ensures
        s@ == seq!['\u{EBBC}'],
{
    egui_phosphor::LIGHTHOUSE
}

/// `egui_phosphor::LIGHTBULB`, a string of the one character U+EBBA.
#[verifier::external_body]
fn lightbulb() -> (s: &'static str)
    ensures
        s@ == seq!['\u{EBBA}'],
{
    egui_phosphor::LIGHTBULB
}

/// `egui_phosphor::MOSQUE`, a string of the one character U+EC02.
#[verifier::external_body]
fn mosque() -> (s: &'static str)
    ensures
        s@ == seq!['\u{EC02}'],
{
    egui_phosphor::MOSQUE
}

/// `egui_phosphor::RADIOACTIVE`, a string of the one character U+ECA4.
#[verifier::external_body]
fn radioactive() -> (s: &'static str)
    ensures
        s@ == seq!['\u{ECA4}'],
{
    egui_phosphor::RADIOACTIVE
}

/// `egui_phosphor::ROCKET`, a string of the one character U+ECB5.
#[verifier::external_body]
fn rocket() -> (s: &'static str)
    ensures
        s@ == seq!['\u{ECB5}'],
{
    egui_phosphor::ROCKET
}

/// `egui_phosphor::ROBOT`, a string of the one character U+ECB4.
#[verifier::external_body]
fn robot() -> (s: &'static str)
    ensures
        s@ == seq!['\u{ECB4}'],
{
    egui_phosphor::ROBOT
}

/// `egui_phosphor::COOKIE`, a string of the one character U+EA69.
#[verifier::external_body]
fn cookie() -> (s: &'static str)
    ensures
        s@ == seq!['\u{EA69}'],
{
    egui_phosphor::COOKIE
}

/// `egui_phosphor::DATABASE`, a string of the one character U+EA8F.
#[verifier::external_body]
fn database() -> (s: &'static str)
    ensures
        s@ == seq!['\u{EA8F}'],
{
    egui_phosphor::DATABASE
}

/// `egui_phosphor::TREE_PALM`, a string of the one character U+ED8F.
#[verifier::external_body]
fn tree_palm() -> (s: &'static str)
    ensures
        s@ == seq!['\u{ED8F}'],
{
    egui_phosphor::TREE_PALM
}

/// `egui_phosphor::CASTLE_TURRET`, a string of the one character U+EA07.
#[verifier::external_body]
fn castle_turret() -> (s: &'static str)
    ensures
        s@ == seq!['\u{EA07}'],
{
    egui_phosphor::CASTLE_TURRET
}

/// `egui_phosphor::HAMBURGER`, a string of the one character U+EB6E.
#[verifier::external_body]
fn hamburger() -> (s: &'static str)
    ensures
        s@ == seq!['\u{EB6E}'],
{
    egui_phosphor::HAMBURGER
}

/// `egui_phosphor::CURRENCY_DOLLAR`, a string of the one character U+EA80.
#[verifier::external_body]
fn currency_dollar() -> (s: &'static str)
    ensures
        s@ == seq!['\u{EA80}'],
{
    egui_phosphor::CURRENCY_DOLLAR
}

/// `egui_phosphor::TREE_EVERGREEN`, a string of the one character U+ED8E.
#[verifier::external_body]
fn tree_evergreen() -> (s: &'static str)
    ensures
        s@ == seq!['\u{ED8E}'],
{
    egui_phosphor::TREE_EVERGREEN
}

/// `egui_phosphor::DROP`, a string of the one character U+EAB9.
#[verifier::external_body]
fn drop() -> (s: &'static str)
    ensures
        s@ == seq!['\u{EAB9}'],
{
    egui_phosphor::DROP
}

/// `egui_phosphor::PACKAGE`, a string of the one character U+EC3C.
#[verifier::external_body]
fn package() -> (s: &'static str)
    ensures
        s@ == seq!['\u{EC3C}'],
{
    egui_phosphor::PACKAGE
}

/// `egui_phosphor::PAPERCLIP`, a string of the one character U+EC44.
#[verifier::external_body]
fn paperclip() -> (s: &'static str)
    ensures
        s@ == seq!['\u{EC44}'],
{
    egui_phosphor::PAPERCLIP
}

/// `egui_phosphor::PIGGY_BANK`, a string of the one character U+EC76.
#[verifier::external_body]
fn piggy_bank() -> (s: &'static str)
    ensures
        s@ == seq!['\u{EC76}'],
{
    egui_phosphor::PIGGY_BANK
}

/// `egui_phosphor::TEST_TUBE`, a string of the one character U+ED56.
#[verifier::external_body]
fn test_tube() -> (s: &'static str)
    ensures
        s@ == seq!['\u{ED56}'],
{
    egui_phosphor::TEST_TUBE
}

/// `egui_phosphor::PAINT_BUCKET`, a string of the one character U+EC40.
#[verifier::external_body]
fn paint_bucket() -> (s: &'static str)
    ensures
        s@ == seq!['\u{EC40}'],
{
    egui_phosphor::PAINT_BUCKET
}

/// `egui_phosphor::PLACEHOLDER`, a string of the one character U+EC7B.
#[verifier::external_body]
fn placeholder() -> (s: &'static str)
    ensures
        s@ == seq!['\u{EC7B}'],
{
    egui_phosphor::PLACEHOLDER
}

impl BuildingType {
    /// The glyph of each kind: two spaces for `Ground`, one icon character
    /// for every other kind.
    pub open spec fn symbol_spec(self) -> Seq<char> {
        match self {
            BuildingType::Ground => seq![' ', ' '],
            BuildingType::Apartment => seq!['\u{E9DD}'],
            BuildingType::Tree => seq!['\u{ED8D}'],
            BuildingType::House => seq!['\u{EB9C}'],
            BuildingType::Grain => seq!['\u{EB68}'],
            BuildingType::Shop => seq!['\u{ED34}'],
            BuildingType::Warehouse => seq!['\u{EDBE}'],
            BuildingType::Battery => seq!['\u{E99C}'],
            BuildingType::Factory => seq!['\u{EADA}'],
            BuildingType::SteelProduction => seq!['\u{E994}'],
            BuildingType::Bank => seq!['\u{E992}'],
            BuildingType::BasicResearchFacility => seq!['\u{EA3F}'],
            BuildingType::ConcreteMixer => seq!['\u{EB97}'],
            BuildingType::Gauge => seq!['\u{EB41}'],
            BuildingType::Asphalt => seq!['\u{ED1C}'],
            BuildingType::FireStation => seq!['\u{EB0D}'],
            BuildingType::PoliceStation => seq!['\u{EC8B}'],
            BuildingType::Hospital => seq!['\u{EB10}'],
            BuildingType::FoodTruck => seq!['\u{EDB0}'],
            BuildingType::Carrot => seq!['\u{EA04}'],
            BuildingType::Lightning => seq!['\u{EBBD}'],
            BuildingType::Siren => seq!['\u{ECED}'],
            BuildingType::AirTrafficControl => seq!['\u{E907}'],
            BuildingType::Runway => seq!['\u{E902}'],
            BuildingType::Cpu => seq!['\u{EA72}'],
            BuildingType::StairsIntoTheVoid => seq!['\u{ED26}'],
            BuildingType::Garage => seq!['\u{EB3E}'],
            BuildingType::LightHouse => seq!['\u{EBBC}'],
            BuildingType::Lightbulb => seq!['\u{EBBA}'],
            BuildingType::Mosque => seq!['\u{EC02}'],
            BuildingType::NuclearPowerPlant => seq!['\u{ECA4}'],
            BuildingType::Rocket => seq!['\u{ECB5}'],
            BuildingType::RobotFactory => seq!['\u{ECB4}'],
            BuildingType::Cookie => seq!['\u{EA69}'],
            BuildingType::Database => seq!['\u{EA8F}'],
            BuildingType::PalmTree => seq!['\u{ED8F}'],
            BuildingType::Turret => seq!['\u{EA07}'],
        }
    }

    /// The glyph of this kind.
    pub fn symbol(&self) -> (s: String)
        ensures
            s@ == self.symbol_spec(),
    {
        match self {
            BuildingType::Ground => {
                proof {
                    reveal_strlit("  ");
                }
                let s = "  ".to_owned();
                assert(s@ =~= seq![' ', ' ']);
                s
            },
            BuildingType::Apartment => buildings().to_owned(),
            BuildingType::Tree => tree().to_owned(),
            BuildingType::House => house().to_owned(),
            BuildingType::Grain => grains().to_owned(),
            BuildingType::Shop => storefront().to_owned(),
            BuildingType::Warehouse => warehouse().to_owned(),
            BuildingType::Battery => battery_charging_vertical().to_owned(),
            BuildingType::Factory => factory().to_owned(),
            BuildingType::SteelProduction => barcode().to_owned(),
            BuildingType::Bank => bank().to_owned(),
            BuildingType::BasicResearchFacility => circuitry().to_owned(),
            BuildingType::ConcreteMixer => hourglass_medium().to_owned(),
            BuildingType::Gauge => gauge().to_owned(),
            BuildingType::Asphalt => square().to_owned(),
            BuildingType::FireStation => fire_extinguisher().to_owned(),
            BuildingType::PoliceStation => police_car().to_owned(),
            BuildingType::Hospital => first_aid_kit().to_owned(),
            BuildingType::FoodTruck => van().to_owned(),
            BuildingType::Carrot => carrot().to_owned(),
            BuildingType::Lightning => lightning().to_owned(),
            BuildingType::Siren => siren().to_owned(),
            BuildingType::AirTrafficControl => air_traffic_control().to_owned(),
            BuildingType::Runway => airplane_in_flight().to_owned(),
            BuildingType::Cpu => cpu().to_owned(),
            BuildingType::StairsIntoTheVoid => stairs().to_owned(),
            BuildingType::Garage => garage().to_owned(),
            BuildingType::LightHouse => lighthouse().to_owned(),
            BuildingType::Lightbulb => lightbulb().to_owned(),
            BuildingType::Mosque => mosque().to_owned(),
            BuildingType::NuclearPowerPlant => radioactive().to_owned(),
            BuildingType::Rocket => rocket().to_owned(),
            BuildingType::RobotFactory => robot().to_owned(),
            BuildingType::Cookie => cookie().to_owned(),
            BuildingType::Database => database().to_owned(),
            BuildingType::PalmTree => tree_palm().to_owned(),
            BuildingType::Turret => castle_turret().to_owned(),
        }
    }
}

impl Resource {
    /// The glyph of each kind, one icon character.
    pub open spec fn symbol_spec(self) -> Seq<char> {
        match self {
            Resource::Food => seq!['\u{EB6E}'],
            Resource::Tax => seq!['\u{EA80}'],
            Resource::Wood => seq!['\u{ED8E}'],
            Resource::Seed => seq!['\u{EAB9}'],
            Resource::Storage => seq!['\u{EC3C}'],
            Resource::Steel => seq!['\u{EC44}'],
            Resource::CashStorage => seq!['\u{EC76}'],
            Resource::BasicScience => seq!['\u{ED56}'],
            Resource::Concrete => seq!['\u{EC40}'],
            Resource::Computation => seq!['\u{EA72}'],
            Resource::PlaceholderResource => seq!['\u{EC7B}'],
        }
    }

    /// The glyph of this kind.
    pub fn symbol(&self) -> (s: String)
        ensures
            s@ == self.symbol_spec(),
    {
        match self {
            Resource::Food => hamburger().to_owned(),
            Resource::Tax => currency_dollar().to_owned(),
            Resource::Wood => tree_evergreen().to_owned(),
            Resource::Seed => drop().to_owned(),
            Resource::Storage => package().to_owned(),
            Resource::Steel => paperclip().to_owned(),
            Resource::CashStorage => piggy_bank().to_owned(),
            Resource::BasicScience => test_tube().to_owned(),
            Resource::Concrete => paint_bucket().to_owned(),
            Resource::Computation => cpu().to_owned(),
            Resource::PlaceholderResource => placeholder().to_owned(),
        }
    }
}

} // verus!
