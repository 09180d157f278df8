use city_builder::building::{BuildingType, Resource};

#[test]
fn every_building_has_its_phosphor_icon() {
    let table = [
        (BuildingType::Ground, "  "),
        (BuildingType::Apartment, egui_phosphor::BUILDINGS),
        (BuildingType::Tree, egui_phosphor::TREE),
        (BuildingType::House, egui_phosphor::HOUSE),
        (BuildingType::Grain, egui_phosphor::GRAINS),
        (BuildingType::Shop, egui_phosphor::STOREFRONT),
        (BuildingType::Warehouse, egui_phosphor::WAREHOUSE),
        (BuildingType::Battery, egui_phosphor::BATTERY_CHARGING_VERTICAL),
        (BuildingType::Factory, egui_phosphor::FACTORY),
        (BuildingType::SteelProduction, egui_phosphor::BARCODE),
        (BuildingType::Bank, egui_phosphor::BANK),
        (BuildingType::BasicResearchFacility, egui_phosphor::CIRCUITRY),
        (BuildingType::ConcreteMixer, egui_phosphor::HOURGLASS_MEDIUM),
        (BuildingType::Gauge, egui_phosphor::GAUGE),
        (BuildingType::Asphalt, egui_phosphor::SQUARE),
        (BuildingType::FireStation, egui_phosphor::FIRE_EXTINGUISHER),
        (BuildingType::PoliceStation, egui_phosphor::POLICE_CAR),
        (BuildingType::Hospital, egui_phosphor::FIRST_AID_KIT),
        (BuildingType::FoodTruck, egui_phosphor::VAN),
        (BuildingType::Carrot, egui_phosphor::CARROT),
        (BuildingType::Lightning, egui_phosphor::LIGHTNING),
        (BuildingType::Siren, egui_phosphor::SIREN),
        (BuildingType::AirTrafficControl, egui_phosphor::AIR_TRAFFIC_CONTROL),
        (BuildingType::Runway, egui_phosphor::AIRPLANE_IN_FLIGHT),
        (BuildingType::Cpu, egui_phosphor::CPU),
        (BuildingType::StairsIntoTheVoid, egui_phosphor::STAIRS),
        (BuildingType::Garage, egui_phosphor::GARAGE),
        (BuildingType::LightHouse, egui_phosphor::LIGHTHOUSE),
        (BuildingType::Lightbulb, egui_phosphor::LIGHTBULB),
        (BuildingType::Mosque, egui_phosphor::MOSQUE),
        (BuildingType::NuclearPowerPlant, egui_phosphor::RADIOACTIVE),
        (BuildingType::Rocket, egui_phosphor::ROCKET),
        (BuildingType::RobotFactory, egui_phosphor::ROBOT),
        (BuildingType::Cookie, egui_phosphor::COOKIE),
        (BuildingType::Database, egui_phosphor::DATABASE),
        (BuildingType::PalmTree, egui_phosphor::TREE_PALM),
        (BuildingType::Turret, egui_phosphor::CASTLE_TURRET),
    ];
    assert_eq!(table.len(), 37);
    for (i, (kind, icon)) in table.iter().enumerate() {
        assert_eq!(kind.symbol(), *icon);
        for (other, _) in table.iter().skip(i + 1) {
            assert_ne!(kind, other);
        }
    }
}

#[test]
fn every_resource_has_its_phosphor_icon() {
    let table = [
        (Resource::Food, egui_phosphor::HAMBURGER),
        (Resource::Tax, egui_phosphor::CURRENCY_DOLLAR),
        (Resource::Wood, egui_phosphor::TREE_EVERGREEN),
        (Resource::Seed, egui_phosphor::DROP),
        (Resource::Storage, egui_phosphor::PACKAGE),
        (Resource::Steel, egui_phosphor::PAPERCLIP),
        (Resource::CashStorage, egui_phosphor::PIGGY_BANK),
        (Resource::BasicScience, egui_phosphor::TEST_TUBE),
        (Resource::Concrete, egui_phosphor::PAINT_BUCKET),
        (Resource::Computation, egui_phosphor::CPU),
        (Resource::PlaceholderResource, egui_phosphor::PLACEHOLDER),
    ];
    for (i, (resource, icon)) in table.iter().enumerate() {
        assert_eq!(resource.symbol(), *icon);
        for (other, _) in table.iter().skip(i + 1) {
            assert_ne!(resource, other);
        }
    }
}

#[test]
fn an_icon_is_one_character_that_is_no_blank() {
    for kind in BuildingType::all().iter() {
        let symbol = kind.symbol();
        if *kind == BuildingType::Ground {
            assert_eq!(symbol.len(), 2);
        } else {
            assert_eq!(symbol.chars().count(), 1);
            assert_eq!(symbol.len(), 3);
            assert!(!symbol.chars().next().unwrap().is_whitespace());
        }
    }
}

#[test]
fn the_code_point_of_every_icon() {
    let buildings = [
        (BuildingType::Apartment, '\u{E9DD}'),
        (BuildingType::Tree, '\u{ED8D}'),
        (BuildingType::House, '\u{EB9C}'),
        (BuildingType::Grain, '\u{EB68}'),
        (BuildingType::Shop, '\u{ED34}'),
        (BuildingType::Warehouse, '\u{EDBE}'),
        (BuildingType::Battery, '\u{E99C}'),
        (BuildingType::Factory, '\u{EADA}'),
        (BuildingType::SteelProduction, '\u{E994}'),
        (BuildingType::Bank, '\u{E992}'),
        (BuildingType::BasicResearchFacility, '\u{EA3F}'),
        (BuildingType::ConcreteMixer, '\u{EB97}'),
        (BuildingType::Gauge, '\u{EB41}'),
        (BuildingType::Asphalt, '\u{ED1C}'),
        (BuildingType::FireStation, '\u{EB0D}'),
        (BuildingType::PoliceStation, '\u{EC8B}'),
        (BuildingType::Hospital, '\u{EB10}'),
        (BuildingType::FoodTruck, '\u{EDB0}'),
        (BuildingType::Carrot, '\u{EA04}'),
        (BuildingType::Lightning, '\u{EBBD}'),
        (BuildingType::Siren, '\u{ECED}'),
        (BuildingType::AirTrafficControl, '\u{E907}'),
        (BuildingType::Runway, '\u{E902}'),
        (BuildingType::Cpu, '\u{EA72}'),
        (BuildingType::StairsIntoTheVoid, '\u{ED26}'),
        (BuildingType::Garage, '\u{EB3E}'),
        (BuildingType::LightHouse, '\u{EBBC}'),
        (BuildingType::Lightbulb, '\u{EBBA}'),
        (BuildingType::Mosque, '\u{EC02}'),
        (BuildingType::NuclearPowerPlant, '\u{ECA4}'),
        (BuildingType::Rocket, '\u{ECB5}'),
        (BuildingType::RobotFactory, '\u{ECB4}'),
        (BuildingType::Cookie, '\u{EA69}'),
        (BuildingType::Database, '\u{EA8F}'),
        (BuildingType::PalmTree, '\u{ED8F}'),
        (BuildingType::Turret, '\u{EA07}'),
    ];
    assert_eq!(buildings.len(), 36);
    for (kind, c) in buildings.iter() {
        assert_eq!(kind.symbol(), c.to_string());
    }
    let resources = [
        (Resource::Food, '\u{EB6E}'),
        (Resource::Tax, '\u{EA80}'),
        (Resource::Wood, '\u{ED8E}'),
        (Resource::Seed, '\u{EAB9}'),
        (Resource::Storage, '\u{EC3C}'),
        (Resource::Steel, '\u{EC44}'),
        (Resource::CashStorage, '\u{EC76}'),
        (Resource::BasicScience, '\u{ED56}'),
        (Resource::Concrete, '\u{EC40}'),
        (Resource::Computation, '\u{EA72}'),
        (Resource::PlaceholderResource, '\u{EC7B}'),
    ];
    assert_eq!(resources.len(), 11);
    for (resource, c) in resources.iter() {
        assert_eq!(resource.symbol(), c.to_string());
    }
}
