use city_builder::building::{Building, BuildingType, Resource};

#[test]
fn house_costs_wood_and_food() {
    let cost = BuildingType::House.cost();
    assert_eq!(cost, vec![(Resource::Wood, 10), (Resource::Food, 10)]);
    let building = Building::new(&BuildingType::House);
    assert_eq!(building.building_type(), BuildingType::House);
    assert_eq!(building.cost(), &vec![(Resource::Wood, 10), (Resource::Food, 10)]);
}

#[test]
fn names_of_kinds() {
    assert_eq!(BuildingType::House.name(), "House");
    assert_eq!(BuildingType::SteelProduction.name(), "Steel Mill");
    assert_eq!(BuildingType::Cpu.name(), "Computational Research Facility");
    assert_eq!(Resource::Food.name(), "Food");
    assert_eq!(Resource::Seed.name(), "Seeds");
    assert_eq!(Resource::PlaceholderResource.name(), "Placeholder Resource");
}

#[test]
fn outputs_of_kinds() {
    assert_eq!(BuildingType::House.output(), vec![]);
    assert_eq!(BuildingType::Grain.output(), vec![(Resource::Food, 1), (Resource::Seed, 1)]);
    assert_eq!(BuildingType::Warehouse.output(), vec![(Resource::Storage, 100)]);
    assert_eq!(BuildingType::Bank.output(), vec![(Resource::CashStorage, 1000)]);
    assert_eq!(BuildingType::FoodTruck.output(), vec![(Resource::Tax, 25)]);
    assert_eq!(BuildingType::Apartment.output(), vec![(Resource::PlaceholderResource, 0)]);
    assert_eq!(BuildingType::Turret.output(), vec![(Resource::PlaceholderResource, 0)]);
}

#[test]
fn costs_of_kinds() {
    assert_eq!(BuildingType::Ground.cost(), vec![]);
    assert_eq!(BuildingType::Grain.cost(), vec![]);
    assert_eq!(BuildingType::Tree.cost(), vec![(Resource::Seed, 5)]);
    assert_eq!(
        BuildingType::Bank.cost(),
        vec![
            (Resource::Wood, 200),
            (Resource::Food, 200),
            (Resource::Steel, 30),
            (Resource::Tax, 300)
        ]
    );
    assert_eq!(BuildingType::FoodTruck.cost(), vec![(Resource::Food, 5000), (Resource::Wood, 1000)]);
    assert_eq!(BuildingType::Rocket.cost(), vec![(Resource::PlaceholderResource, 0)]);
}

#[test]
fn every_kind_has_its_place_in_the_table() {
    let kinds = BuildingType::all();
    assert_eq!(kinds.len(), 37);
    for (i, kind) in kinds.iter().enumerate() {
        assert_eq!(kind.index(), i);
        assert!(!kind.name().is_empty());
        assert!(!kind.symbol().is_empty());
        assert_eq!(Building::new(kind).cost(), &kind.cost());
    }
    let resources = Resource::all();
    assert_eq!(resources.len(), 11);
    for (i, resource) in resources.iter().enumerate() {
        assert_eq!(resource.index(), i);
        assert!(!resource.name().is_empty());
        assert!(!resource.symbol().is_empty());
    }
}

#[test]
fn glyphs_are_the_phosphor_icons() {
    assert_eq!(BuildingType::Ground.symbol(), "  ");
    assert_eq!(BuildingType::House.symbol(), egui_phosphor::HOUSE);
    assert_eq!(BuildingType::Apartment.symbol(), egui_phosphor::BUILDINGS);
    assert_eq!(BuildingType::SteelProduction.symbol(), egui_phosphor::BARCODE);
    assert_eq!(BuildingType::Turret.symbol(), egui_phosphor::CASTLE_TURRET);
    assert_eq!(BuildingType::Cpu.symbol(), egui_phosphor::CPU);
    assert_eq!(Resource::Computation.symbol(), egui_phosphor::CPU);
    assert_eq!(Resource::Food.symbol(), egui_phosphor::HAMBURGER);
    assert_eq!(Resource::PlaceholderResource.symbol(), egui_phosphor::PLACEHOLDER);
    assert_eq!(BuildingType::House.symbol(), "\u{EB9C}");
    assert_eq!(Building::new(&BuildingType::Bank).symbol(), egui_phosphor::BANK);
}

#[test]
fn adjacency_rules_of_the_catalog() {
    let house = Building::new(&BuildingType::House);
    assert!(house.required_adj().is_empty());
    assert_eq!(
        house.optional_adj(),
        &vec![
            BuildingType::House,
            BuildingType::BasicResearchFacility,
            BuildingType::Grain,
            BuildingType::Ground
        ]
    );
    let grain = Building::new(&BuildingType::Grain);
    assert!(grain.required_adj().is_empty());
    assert_eq!(
        grain.optional_adj(),
        &vec![
            BuildingType::Grain,
            BuildingType::Carrot,
            BuildingType::House,
            BuildingType::Ground
        ]
    );
    assert_eq!(grain.tile_adj(), &vec![BuildingType::House]);
    assert!(house.tile_adj().is_empty());

    let mixer = Building::new(&BuildingType::ConcreteMixer);
    assert_eq!(mixer.required_adj(), &vec![BuildingType::Factory, BuildingType::Gauge]);
    assert_eq!(
        mixer.optional_adj(),
        &vec![BuildingType::ConcreteMixer, BuildingType::Factory, BuildingType::Gauge]
    );

    let lab = Building::new(&BuildingType::BasicResearchFacility);
    assert_eq!(lab.required_adj(), &vec![BuildingType::House, BuildingType::Battery]);

    let shop = Building::new(&BuildingType::Shop);
    assert_eq!(
        shop.tile_adj(),
        &vec![BuildingType::Grain, BuildingType::House, BuildingType::Tree]
    );
    assert_eq!(shop.optional_adj(), &vec![BuildingType::Shop, BuildingType::Warehouse]);

    let bank = Building::new(&BuildingType::Bank);
    assert_eq!(bank.required_adj(), &vec![BuildingType::Asphalt]);
    assert_eq!(bank.tile_adj(), &vec![BuildingType::Apartment]);
    assert_eq!(
        bank.optional_adj(),
        &vec![
            BuildingType::Bank,
            BuildingType::Bank,
            BuildingType::FireStation,
            BuildingType::PoliceStation,
            BuildingType::Hospital,
            BuildingType::Apartment,
            BuildingType::FoodTruck,
            BuildingType::Cpu
        ]
    );

    let asphalt = Building::new(&BuildingType::Asphalt);
    assert!(asphalt.required_adj().is_empty());
    assert_eq!(asphalt.optional_adj().len(), 8);
    assert_eq!(asphalt.optional_adj()[0], BuildingType::Asphalt);

    let apartment = Building::new(&BuildingType::Apartment);
    assert_eq!(
        apartment.tile_adj(),
        &vec![BuildingType::FireStation, BuildingType::Hospital, BuildingType::PoliceStation]
    );
}

#[test]
fn no_kind_lists_itself_as_required() {
    for kind in BuildingType::all().iter() {
        assert!(!Building::new(kind).required_adj().contains(kind));
    }
}

#[test]
fn buildings_of_one_kind_are_equal() {
    for kind in BuildingType::all().iter() {
        assert_eq!(Building::new(kind), Building::new(kind));
        assert_eq!(Building::new(kind).clone(), Building::new(kind));
    }
    assert_eq!(Building::default(), Building::new(&BuildingType::Ground));
    assert_ne!(Building::new(&BuildingType::House), Building::new(&BuildingType::Grain));
}

#[test]
fn only_houses_and_grain_admit_empty_land() {
    for kind in BuildingType::all().iter() {
        let building = Building::new(kind);
        assert!(!building.required_adj().contains(&BuildingType::Ground));
        let admits = building.optional_adj().contains(&BuildingType::Ground);
        let expected = matches!(
            kind,
            BuildingType::Ground | BuildingType::House | BuildingType::Grain
        );
        assert_eq!(admits, expected);
    }
    assert_eq!(
        Building::new(&BuildingType::Ground).optional_adj(),
        &vec![BuildingType::Ground, BuildingType::House, BuildingType::Grain]
    );
}
