use city_builder::building::{Building, BuildingType, Resource};
use city_builder::ledger::Ledger;
use city_builder::pos::Pos;
use city_builder::tile::Tile;

fn starting_ledger() -> Ledger {
    let mut ledger = Ledger::new();
    ledger.insert(Resource::Food, 10);
    ledger.insert(Resource::Wood, 10);
    ledger.insert(Resource::Seed, 10);
    ledger.insert(Resource::Storage, 100);
    ledger
}

fn amounts(ledger: &Ledger) -> Vec<i32> {
    Resource::all().iter().map(|r| ledger.get(*r)).collect()
}

fn full_of(kind: BuildingType) -> [[BuildingType; 8]; 8] {
    [[kind; 8]; 8]
}

fn tile_of(kinds: &[[BuildingType; 8]; 8]) -> Tile {
    Tile::restore(Pos { x: 0, y: 0 }, kinds, &[[None; 8]; 8], false)
}

fn kinds_of(tile: &Tile) -> [[BuildingType; 8]; 8] {
    let mut kinds = [[BuildingType::Ground; 8]; 8];
    for x in 0..8 {
        for y in 0..8 {
            kinds[x][y] = tile.building_at(Pos { x: x as i32, y: y as i32 }).unwrap().building_type();
        }
    }
    kinds
}

fn every_cell_is_valid(tile: &Tile) -> bool {
    (0..8).all(|x| {
        (0..8).all(|y| {
            let i = Pos { x, y };
            tile.is_valid(i, tile.building_at(i).unwrap())
        })
    })
}

#[test]
fn a_new_parcel_is_empty() {
    let tile = Tile::new(Pos { x: 3, y: -2 });
    assert_eq!(tile.pos(), Pos { x: 3, y: -2 });
    assert!(!tile.summary());
    assert_eq!(kinds_of(&tile), full_of(BuildingType::Ground));
    assert_eq!(tile.count(BuildingType::Ground), 64);
    assert_eq!(tile.count(BuildingType::House), 0);
    assert_eq!(tile.neighbor_count(BuildingType::Ground), 0);
    assert_eq!(tile.planned_at(Pos { x: 0, y: 0 }), None);
    assert!(every_cell_is_valid(&tile));
    assert!(tile.building_at(Pos { x: 8, y: 0 }).is_none());
    assert!(tile.building_at(Pos { x: 0, y: -1 }).is_none());
}

#[test]
fn ground_is_valid_everywhere() {
    let ground = Building::new(&BuildingType::Ground);
    let mut mixed = full_of(BuildingType::House);
    mixed[3][3] = BuildingType::Factory;
    mixed[0][7] = BuildingType::Ground;
    for tile in [Tile::new(Pos { x: 0, y: 0 }), tile_of(&full_of(BuildingType::Bank)), tile_of(&mixed)] {
        for x in -2..10 {
            for y in -2..10 {
                assert!(tile.is_valid(Pos { x, y }, &ground));
            }
        }
        assert!(tile.is_valid(Pos { x: i32::MIN, y: i32::MAX }, &ground));
    }
}

#[test]
fn an_empty_neighbor_must_be_admitted_like_any_other() {
    let tile = Tile::new(Pos { x: 0, y: 0 });
    let house = Building::new(&BuildingType::House);
    let warehouse = Building::new(&BuildingType::Warehouse);
    let factory = Building::new(&BuildingType::Factory);
    for x in 0..8 {
        for y in 0..8 {
            assert!(tile.is_valid(Pos { x, y }, &house));
            assert!(!tile.is_valid(Pos { x, y }, &warehouse));
            assert!(!tile.is_valid(Pos { x, y }, &factory));
        }
    }
    let mut houses = full_of(BuildingType::House);
    houses[3][3] = BuildingType::Ground;
    houses[3][4] = BuildingType::Ground;
    assert!(every_cell_is_valid(&tile_of(&houses)));
    let mut factories = full_of(BuildingType::Factory);
    assert!(every_cell_is_valid(&tile_of(&factories)));
    factories[3][3] = BuildingType::Ground;
    let holed = tile_of(&factories);
    for at in [Pos { x: 2, y: 3 }, Pos { x: 4, y: 3 }, Pos { x: 3, y: 2 }, Pos { x: 3, y: 4 }] {
        assert!(!holed.is_valid(at, holed.building_at(at).unwrap()));
    }
    assert!(holed.is_valid(Pos { x: 2, y: 2 }, holed.building_at(Pos { x: 2, y: 2 }).unwrap()));
}

#[test]
fn a_neighbor_of_a_kind_that_is_not_admitted_is_in_the_way() {
    let mut kinds = full_of(BuildingType::Ground);
    kinds[4][5] = BuildingType::Factory;
    let tile = tile_of(&kinds);
    let house = Building::new(&BuildingType::House);
    for at in [Pos { x: 4, y: 4 }, Pos { x: 4, y: 6 }, Pos { x: 3, y: 5 }, Pos { x: 5, y: 5 }] {
        assert!(!tile.is_valid(at, &house));
        assert!(!tile.is_valid(at, &Building::new(&BuildingType::Battery)));
    }
    assert!(tile.is_valid(Pos { x: 3, y: 4 }, &house));
    assert!(tile.is_valid(Pos { x: 4, y: 3 }, &house));
    let mut ring = full_of(BuildingType::Factory);
    ring[4][4] = BuildingType::Ground;
    let battery = Building::new(&BuildingType::Battery);
    assert!(tile_of(&ring).is_valid(Pos { x: 4, y: 4 }, &battery));
    assert!(!tile_of(&ring).is_valid(Pos { x: 4, y: 4 }, &house));
}

#[test]
fn a_cell_outside_the_parcel_counts_for_nothing() {
    let mut kinds = full_of(BuildingType::Ground);
    kinds[0][1] = BuildingType::Factory;
    kinds[7][7] = BuildingType::Factory;
    let tile = tile_of(&kinds);
    let house = Building::new(&BuildingType::House);
    let battery = Building::new(&BuildingType::Battery);
    assert!(!tile.is_valid(Pos { x: 0, y: 0 }, &house));
    assert!(!tile.is_valid(Pos { x: -1, y: 1 }, &house));
    assert!(tile.is_valid(Pos { x: -1, y: 0 }, &house));
    assert!(tile.is_valid(Pos { x: 7, y: 0 }, &house));
    assert!(tile.is_valid(Pos { x: 20, y: 20 }, &house));
    assert!(tile.is_valid(Pos { x: i32::MAX, y: i32::MIN }, &house));
    assert!(tile.is_valid(Pos { x: 8, y: 7 }, &battery));
    assert!(tile.is_valid(Pos { x: 7, y: 8 }, &battery));
    assert!(!tile.is_valid(Pos { x: 8, y: 8 }, &battery));
    assert!(!tile.is_valid(Pos { x: 9, y: 7 }, &battery));
    assert!(!tile.is_valid(Pos { x: i32::MIN, y: i32::MAX }, &battery));
}

#[test]
fn both_required_kinds_must_be_neighbors() {
    let mixer = Building::new(&BuildingType::ConcreteMixer);
    let at = Pos { x: 0, y: 0 };

    let mut kinds = full_of(BuildingType::Ground);
    kinds[1][0] = BuildingType::Factory;
    kinds[0][1] = BuildingType::Gauge;
    assert!(tile_of(&kinds).is_valid(at, &mixer));

    kinds[0][1] = BuildingType::Factory;
    assert!(!tile_of(&kinds).is_valid(at, &mixer));

    kinds[1][0] = BuildingType::Gauge;
    kinds[0][1] = BuildingType::Gauge;
    assert!(!tile_of(&kinds).is_valid(at, &mixer));

    kinds[1][0] = BuildingType::Gauge;
    kinds[0][1] = BuildingType::Factory;
    assert!(tile_of(&kinds).is_valid(at, &mixer));

    let mut far = full_of(BuildingType::Ground);
    far[1][0] = BuildingType::Factory;
    far[0][1] = BuildingType::ConcreteMixer;
    far[5][5] = BuildingType::Gauge;
    assert!(!tile_of(&far).is_valid(at, &mixer));
}

#[test]
fn a_kind_of_the_parcel_wide_list_may_stand_anywhere() {
    let grain = Building::new(&BuildingType::Grain);
    let at = Pos { x: 0, y: 0 };
    let mut kinds = full_of(BuildingType::Ground);
    kinds[0][1] = BuildingType::Grain;
    kinds[1][0] = BuildingType::Carrot;
    assert!(!tile_of(&kinds).is_valid(at, &grain));
    kinds[7][7] = BuildingType::House;
    assert!(tile_of(&kinds).is_valid(at, &grain));
}

#[test]
fn a_building_that_needs_a_factory_next_to_it_is_rejected_without_one() {
    let mut tile = Tile::new(Pos { x: 0, y: 0 });
    let mut ledger = starting_ledger();
    ledger.insert(Resource::Steel, 500);
    ledger.insert(Resource::Food, 500);
    let before = amounts(&ledger);
    let changed = tile.apply(Pos { x: 4, y: 4 }, Building::new(&BuildingType::Battery), &mut ledger);
    assert!(!changed);
    assert_eq!(amounts(&ledger), before);
    assert_eq!(kinds_of(&tile), full_of(BuildingType::Ground));

    let mut kinds = full_of(BuildingType::Battery);
    kinds[4][4] = BuildingType::SteelProduction;
    let mut tile = tile_of(&kinds);
    let changed = tile.apply(Pos { x: 4, y: 4 }, Building::new(&BuildingType::Battery), &mut ledger);
    assert!(!changed);
    assert_eq!(amounts(&ledger), before);
    assert_eq!(kinds_of(&tile), kinds);
}

#[test]
fn house_and_grain_in_an_empty_world() {
    let mut tile = Tile::new(Pos { x: 0, y: 0 });
    let mut ledger = starting_ledger();
    assert!(tile.is_valid(Pos { x: 0, y: 0 }, &Building::new(&BuildingType::House)));
    let house = tile.apply(Pos { x: 0, y: 0 }, Building::new(&BuildingType::House), &mut ledger);
    assert!(house);
    assert_eq!(ledger.get(Resource::Food), 0);
    assert_eq!(ledger.get(Resource::Wood), 0);
    assert_eq!(ledger.get(Resource::Seed), 10);
    assert_eq!(ledger.get(Resource::Storage), 100);
    let grain = tile.apply(Pos { x: 1, y: 0 }, Building::new(&BuildingType::Grain), &mut ledger);
    assert!(grain);
    let mut expected = full_of(BuildingType::Ground);
    expected[0][0] = BuildingType::House;
    expected[1][0] = BuildingType::Grain;
    assert_eq!(kinds_of(&tile), expected);
    assert_eq!(tile.count(BuildingType::House), 1);
    assert_eq!(tile.count(BuildingType::Grain), 1);
    assert_eq!(tile.count(BuildingType::Ground), 62);
    assert!(every_cell_is_valid(&tile));
    for resource in Resource::all().iter() {
        let held = match resource {
            Resource::Seed => 10,
            Resource::Storage => 100,
            _ => 0,
        };
        assert_eq!(ledger.get(*resource), held);
    }
}

#[test]
fn grain_needs_a_house_in_its_parcel() {
    let mut tile = Tile::new(Pos { x: 0, y: 0 });
    let mut ledger = starting_ledger();
    assert!(!tile.apply(Pos { x: 1, y: 0 }, Building::new(&BuildingType::Grain), &mut ledger));
    assert!(tile.apply(Pos { x: 5, y: 5 }, Building::new(&BuildingType::House), &mut ledger));
    assert!(tile.apply(Pos { x: 1, y: 0 }, Building::new(&BuildingType::Grain), &mut ledger));
    assert!(!tile.apply(Pos { x: 2, y: 2 }, Building::new(&BuildingType::House), &mut ledger));
    assert_eq!(ledger.get(Resource::Wood), 0);
    assert_eq!(ledger.get(Resource::Seed), 10);
}

#[test]
fn a_house_among_houses_is_placed_and_paid() {
    let mut kinds = full_of(BuildingType::House);
    kinds[0][0] = BuildingType::Ground;
    let mut tile = tile_of(&kinds);
    let mut ledger = starting_ledger();
    let changed = tile.apply(Pos { x: 0, y: 0 }, Building::new(&BuildingType::House), &mut ledger);
    assert!(changed);
    assert_eq!(kinds_of(&tile), full_of(BuildingType::House));
    assert_eq!(tile.count(BuildingType::House), 64);
    assert_eq!(tile.count(BuildingType::Ground), 0);
    assert_eq!(ledger.get(Resource::Food), 0);
    assert_eq!(ledger.get(Resource::Wood), 0);
    assert_eq!(ledger.get(Resource::Seed), 10);
    assert_eq!(ledger.get(Resource::Storage), 100);
    for resource in Resource::all().iter() {
        if ![Resource::Seed, Resource::Storage].contains(resource) {
            assert_eq!(ledger.get(*resource), 0);
        }
    }
}

#[test]
fn asking_for_what_stands_there_changes_nothing() {
    let mut tile = tile_of(&full_of(BuildingType::House));
    tile.plan(Pos { x: 2, y: 5 }, BuildingType::House);
    assert_eq!(tile.planned_at(Pos { x: 2, y: 5 }), Some(BuildingType::House));
    let mut ledger = starting_ledger();
    let before = amounts(&ledger);
    let changed = tile.apply(Pos { x: 2, y: 5 }, Building::new(&BuildingType::House), &mut ledger);
    assert!(!changed);
    assert_eq!(amounts(&ledger), before);
    assert_eq!(kinds_of(&tile), full_of(BuildingType::House));
    for kind in BuildingType::all().iter() {
        let n = if *kind == BuildingType::House { 64 } else { 0 };
        assert_eq!(tile.count(*kind), n);
    }
    assert_eq!(tile.planned_at(Pos { x: 2, y: 5 }), None);

    let mut empty = Tile::new(Pos { x: 0, y: 0 });
    let changed = empty.apply(Pos { x: 0, y: 0 }, Building::new(&BuildingType::Ground), &mut ledger);
    assert!(!changed);
    assert_eq!(amounts(&ledger), before);
    assert_eq!(empty.count(BuildingType::Ground), 64);
}

#[test]
fn an_edit_outside_the_parcel_does_nothing() {
    let mut tile = tile_of(&full_of(BuildingType::House));
    let mut ledger = starting_ledger();
    let before = amounts(&ledger);
    for at in [Pos { x: 8, y: 0 }, Pos { x: -1, y: 3 }, Pos { x: 0, y: 8 }, Pos { x: i32::MIN, y: i32::MAX }] {
        assert!(!tile.apply(at, Building::new(&BuildingType::Ground), &mut ledger));
        assert!(!tile.apply(at, Building::new(&BuildingType::House), &mut ledger));
        assert!(!tile.plan(at, BuildingType::House));
        assert_eq!(tile.planned_at(at), None);
    }
    assert_eq!(amounts(&ledger), before);
    assert_eq!(kinds_of(&tile), full_of(BuildingType::House));
}

#[test]
fn a_building_that_cannot_be_paid_in_full_is_not_charged() {
    let mut tile = tile_of(&full_of(BuildingType::Asphalt));
    let mut ledger = starting_ledger();
    ledger.insert(Resource::Concrete, 600);
    ledger.insert(Resource::Steel, 19);
    let before = amounts(&ledger);
    let station = Building::new(&BuildingType::FireStation);
    assert!(tile.is_valid(Pos { x: 3, y: 3 }, &station));
    assert!(!tile.apply(Pos { x: 3, y: 3 }, station, &mut ledger));
    assert_eq!(amounts(&ledger), before);
    assert_eq!(kinds_of(&tile), full_of(BuildingType::Asphalt));

    ledger.insert(Resource::Steel, 20);
    assert!(tile.apply(Pos { x: 3, y: 3 }, Building::new(&BuildingType::FireStation), &mut ledger));
    assert_eq!(ledger.get(Resource::Concrete), 100);
    assert_eq!(ledger.get(Resource::Steel), 0);
    assert_eq!(tile.count(BuildingType::FireStation), 1);
    assert_eq!(tile.count(BuildingType::Asphalt), 63);
    assert!(every_cell_is_valid(&tile));
}

#[test]
fn a_city_grows_on_asphalt() {
    let mut tile = tile_of(&full_of(BuildingType::Asphalt));
    let mut ledger = Ledger::new();
    ledger.insert(Resource::Storage, 100);
    for resource in [Resource::Concrete, Resource::Steel, Resource::Food, Resource::BasicScience, Resource::Wood, Resource::Tax] {
        ledger.insert(resource, 10000);
    }
    let apartment = Pos { x: 4, y: 4 };
    assert!(!tile.apply(apartment, Building::new(&BuildingType::Apartment), &mut ledger));
    assert!(tile.apply(Pos { x: 0, y: 0 }, Building::new(&BuildingType::FireStation), &mut ledger));
    assert!(tile.apply(Pos { x: 0, y: 2 }, Building::new(&BuildingType::Hospital), &mut ledger));
    assert!(!tile.apply(apartment, Building::new(&BuildingType::Apartment), &mut ledger));
    assert!(!tile.apply(Pos { x: 6, y: 6 }, Building::new(&BuildingType::Bank), &mut ledger));
    assert!(tile.apply(Pos { x: 0, y: 4 }, Building::new(&BuildingType::PoliceStation), &mut ledger));
    assert!(tile.apply(apartment, Building::new(&BuildingType::Apartment), &mut ledger));
    assert!(tile.apply(Pos { x: 6, y: 6 }, Building::new(&BuildingType::Bank), &mut ledger));
    assert_eq!(tile.count(BuildingType::Asphalt), 59);
    assert_eq!(tile.count(BuildingType::Bank), 1);
    assert!(every_cell_is_valid(&tile));
    assert_eq!(ledger.get(Resource::Concrete), 10000 - 500 - 1000 - 500 - 50);
    assert_eq!(ledger.get(Resource::Steel), 10000 - 20 - 10 - 30);
    assert_eq!(ledger.get(Resource::Food), 10000 - 1500 - 500 - 1 - 200);
    assert_eq!(ledger.get(Resource::BasicScience), 10000 - 50);
    assert_eq!(ledger.get(Resource::Wood), 10000 - 200);
    assert_eq!(ledger.get(Resource::Tax), 10000 - 300);
    assert_eq!(tile.process_storage(100, 0), (100, 1000));
}

#[test]
fn tearing_down_refunds_up_to_the_capacity() {
    let mut kinds = full_of(BuildingType::Ground);
    kinds[2][2] = BuildingType::FoodTruck;
    let mut tile = tile_of(&kinds);
    let mut ledger = starting_ledger();
    ledger.insert(Resource::Food, 40);
    let changed = tile.apply(Pos { x: 2, y: 2 }, Building::new(&BuildingType::Ground), &mut ledger);
    assert!(changed);
    assert_eq!(kinds_of(&tile), full_of(BuildingType::Ground));
    assert_eq!(ledger.get(Resource::Food), 100);
    assert_eq!(ledger.get(Resource::Wood), 100);
    assert_eq!(ledger.get(Resource::Seed), 10);
    assert_eq!(ledger.get(Resource::Storage), 100);
    assert_eq!(tile.planned_at(Pos { x: 2, y: 2 }), None);
    assert_eq!(tile.count(BuildingType::Ground), 64);
}

#[test]
fn tearing_down_never_lifts_a_resource_above_its_capacity() {
    for kind in BuildingType::all().iter() {
        let mut kinds = full_of(BuildingType::Ground);
        kinds[5][1] = *kind;
        let mut tile = tile_of(&kinds);
        let mut ledger = Ledger::new();
        ledger.insert(Resource::Storage, 120);
        ledger.insert(Resource::CashStorage, 30);
        ledger.insert(Resource::Food, 119);
        ledger.insert(Resource::Wood, 500);
        ledger.insert(Resource::Steel, 7);
        let before = amounts(&ledger);
        tile.apply(Pos { x: 5, y: 1 }, Building::new(&BuildingType::Ground), &mut ledger);
        let after = amounts(&ledger);
        for (i, resource) in Resource::all().iter().enumerate() {
            let cap = match resource {
                Resource::Tax | Resource::CashStorage => 150,
                _ => 120,
            };
            assert!(after[i] <= before[i].max(cap));
        }
        assert_eq!(ledger.get(Resource::Storage), 120);
        assert_eq!(ledger.get(Resource::CashStorage), 30);
    }
}

#[test]
fn a_bank_torn_down_refunds_tax_up_to_both_capacities() {
    let mut kinds = full_of(BuildingType::Ground);
    kinds[3][3] = BuildingType::Bank;
    let mut tile = tile_of(&kinds);
    let mut ledger = Ledger::new();
    ledger.insert(Resource::Tax, 500);
    ledger.insert(Resource::Storage, 100);
    ledger.insert(Resource::CashStorage, 1000);
    assert!(tile.apply(Pos { x: 3, y: 3 }, Building::new(&BuildingType::Ground), &mut ledger));
    assert_eq!(ledger.get(Resource::Tax), 800);
    assert_eq!(ledger.get(Resource::Wood), 100);
    assert_eq!(ledger.get(Resource::Food), 100);
    assert_eq!(ledger.get(Resource::Steel), 30);
    assert_eq!(ledger.get(Resource::Storage), 100);
    assert_eq!(ledger.get(Resource::CashStorage), 1000);
    assert_eq!(kinds_of(&tile), full_of(BuildingType::Ground));
}

#[test]
fn the_sweep_tears_down_what_lost_its_neighbor() {
    let mut kinds = full_of(BuildingType::Factory);
    kinds[3][3] = BuildingType::Battery;
    kinds[3][4] = BuildingType::BasicResearchFacility;
    let mut tile = tile_of(&kinds);
    let mut ledger = starting_ledger();
    let changed = tile.apply(Pos { x: 7, y: 7 }, Building::new(&BuildingType::Ground), &mut ledger);
    assert!(changed);
    assert_eq!(kinds_of(&tile), full_of(BuildingType::Ground));
    assert_eq!(tile.count(BuildingType::Ground), 64);
    assert_eq!(tile.count(BuildingType::Factory), 0);
    assert_eq!(ledger.get(Resource::Wood), 100);
    assert_eq!(ledger.get(Resource::Food), 100);
    assert_eq!(ledger.get(Resource::Seed), 100);
    assert_eq!(ledger.get(Resource::Steel), 100);
    assert_eq!(ledger.get(Resource::Storage), 100);
    assert_eq!(tile.planned_at(Pos { x: 7, y: 7 }), None);
    assert_eq!(tile.planned_at(Pos { x: 3, y: 3 }), Some(BuildingType::Battery));
    assert_eq!(tile.planned_at(Pos { x: 3, y: 4 }), Some(BuildingType::BasicResearchFacility));
    for x in 0..8 {
        for y in 0..8 {
            if ![(7, 7), (3, 3), (3, 4)].contains(&(x, y)) {
                assert_eq!(tile.planned_at(Pos { x, y }), Some(BuildingType::Factory));
            }
        }
    }
    assert!(every_cell_is_valid(&tile));
}

#[test]
fn a_house_torn_down_takes_nothing_else_with_it() {
    let mut tile = tile_of(&full_of(BuildingType::House));
    let mut ledger = starting_ledger();
    assert!(tile.apply(Pos { x: 7, y: 7 }, Building::new(&BuildingType::Ground), &mut ledger));
    assert_eq!(tile.count(BuildingType::House), 63);
    assert_eq!(tile.count(BuildingType::Ground), 1);
    assert_eq!(ledger.get(Resource::Wood), 20);
    assert_eq!(ledger.get(Resource::Food), 20);
    assert_eq!(tile.planned_edits(), vec![]);
}

#[test]
fn a_second_sweep_finds_nothing_to_tear_down() {
    let mut lab = full_of(BuildingType::House);
    lab[1][1] = BuildingType::BasicResearchFacility;
    lab[1][2] = BuildingType::Battery;
    lab[1][3] = BuildingType::Factory;
    let mut chain = full_of(BuildingType::Ground);
    chain[1][1] = BuildingType::BasicResearchFacility;
    chain[1][2] = BuildingType::Battery;
    chain[1][3] = BuildingType::Factory;
    for kinds in [full_of(BuildingType::House), full_of(BuildingType::Asphalt), lab, chain] {
        let mut tile = tile_of(&kinds);
        let mut ledger = starting_ledger();
        assert!(tile.apply(Pos { x: 1, y: 3 }, Building::new(&BuildingType::Ground), &mut ledger));
        assert!(every_cell_is_valid(&tile));
        let cells = kinds_of(&tile);
        let held = amounts(&ledger);
        tile.update_count(&mut ledger);
        assert_eq!(kinds_of(&tile), cells);
        assert_eq!(amounts(&ledger), held);
    }
}

#[test]
fn update_count_settles_a_parcel_that_was_stored() {
    let mut kinds = full_of(BuildingType::Ground);
    kinds[0][0] = BuildingType::House;
    kinds[3][3] = BuildingType::Battery;
    kinds[7][7] = BuildingType::Warehouse;
    let mut tile = tile_of(&kinds);
    assert_eq!(tile.count(BuildingType::House), 1);
    assert_eq!(tile.count(BuildingType::Battery), 1);
    assert_eq!(tile.count(BuildingType::Warehouse), 1);
    assert_eq!(tile.count(BuildingType::Ground), 61);
    let mut ledger = starting_ledger();
    tile.update_count(&mut ledger);
    let mut expected = full_of(BuildingType::Ground);
    expected[0][0] = BuildingType::House;
    assert_eq!(kinds_of(&tile), expected);
    assert_eq!(tile.count(BuildingType::Ground), 63);
    assert_eq!(tile.count(BuildingType::Battery), 0);
    assert_eq!(tile.count(BuildingType::Warehouse), 0);
    assert_eq!(ledger.get(Resource::Steel), 20);
    assert_eq!(ledger.get(Resource::Food), 100);
    assert_eq!(ledger.get(Resource::Wood), 100);
    assert_eq!(tile.planned_at(Pos { x: 3, y: 3 }), Some(BuildingType::Battery));
    assert_eq!(tile.planned_at(Pos { x: 7, y: 7 }), Some(BuildingType::Warehouse));
    assert_eq!(tile.planned_at(Pos { x: 0, y: 0 }), None);
}

#[test]
fn process_storage_adds_what_the_buildings_yield() {
    let mut kinds = full_of(BuildingType::Ground);
    kinds[0][0] = BuildingType::Warehouse;
    kinds[0][5] = BuildingType::Warehouse;
    kinds[3][3] = BuildingType::Warehouse;
    kinds[4][4] = BuildingType::Bank;
    kinds[6][1] = BuildingType::Grain;
    let tile = tile_of(&kinds);
    assert_eq!(tile.process_storage(100, 0), (400, 1000));
    assert_eq!(tile.process_storage(0, 50), (300, 1050));
    assert_eq!(Tile::new(Pos { x: 0, y: 0 }).process_storage(100, 0), (100, 0));
    assert_eq!(tile.process_storage(i32::MAX - 10, i32::MAX), (i32::MAX, i32::MAX));
    assert_eq!(tile_of(&full_of(BuildingType::Bank)).process_storage(100, 0), (100, 64000));
}

#[test]
fn processes_resources_fills_up_to_the_capacity() {
    let mut kinds = full_of(BuildingType::Ground);
    kinds[0][0] = BuildingType::Grain;
    kinds[0][1] = BuildingType::Grain;
    kinds[0][2] = BuildingType::Carrot;
    kinds[1][0] = BuildingType::Shop;
    kinds[1][1] = BuildingType::FoodTruck;
    kinds[2][2] = BuildingType::Bank;
    kinds[3][3] = BuildingType::Warehouse;
    let tile = tile_of(&kinds);
    let mut ledger = starting_ledger();
    ledger.insert(Resource::Seed, 199);
    ledger.insert(Resource::Tax, 1180);
    let mut per_sec = Ledger::new();
    tile.processes_resources(&mut ledger, 200, 1000, &mut per_sec);
    assert_eq!(ledger.get(Resource::Food), 15);
    assert_eq!(ledger.get(Resource::Seed), 200);
    assert_eq!(ledger.get(Resource::Tax), 1200);
    assert_eq!(ledger.get(Resource::CashStorage), 1000);
    assert_eq!(ledger.get(Resource::Storage), 200);
    assert_eq!(ledger.get(Resource::Wood), 10);
    assert_eq!(per_sec.get(Resource::Food), 5);
    assert_eq!(per_sec.get(Resource::Seed), 2);
    assert_eq!(per_sec.get(Resource::Tax), 27);
    assert_eq!(per_sec.get(Resource::CashStorage), 1000);
    assert_eq!(per_sec.get(Resource::Storage), 100);
    assert_eq!(per_sec.get(Resource::Wood), 0);
}

#[test]
fn a_resource_that_nothing_yields_is_left_alone() {
    let tile = tile_of(&full_of(BuildingType::Tree));
    let mut ledger = Ledger::new();
    ledger.insert(Resource::Food, 900);
    ledger.insert(Resource::Wood, 900);
    let mut per_sec = Ledger::new();
    tile.processes_resources(&mut ledger, 100, 0, &mut per_sec);
    assert_eq!(ledger.get(Resource::Food), 900);
    assert_eq!(ledger.get(Resource::Wood), 100);
    assert_eq!(per_sec.get(Resource::Wood), 64);
}

#[test]
fn plan_and_summary() {
    let mut tile = Tile::new(Pos { x: 0, y: 0 });
    assert!(tile.plan(Pos { x: 1, y: 2 }, BuildingType::Shop));
    assert!(tile.plan(Pos { x: 1, y: 2 }, BuildingType::Tree));
    assert_eq!(tile.planned_at(Pos { x: 1, y: 2 }), Some(BuildingType::Tree));
    assert_eq!(tile.planned_at(Pos { x: 2, y: 1 }), None);
    tile.set_summary(true);
    assert!(tile.summary());
    assert_eq!(tile.count(BuildingType::Ground), 64);
}

#[test]
fn restore_keeps_cells_and_plans() {
    let mut kinds = full_of(BuildingType::Ground);
    kinds[2][6] = BuildingType::Rocket;
    let mut planned = [[None; 8]; 8];
    planned[6][2] = Some(BuildingType::Cookie);
    let tile = Tile::restore(Pos { x: -4, y: 9 }, &kinds, &planned, true);
    assert_eq!(tile.pos(), Pos { x: -4, y: 9 });
    assert!(tile.summary());
    assert_eq!(kinds_of(&tile), kinds);
    assert_eq!(tile.planned_at(Pos { x: 6, y: 2 }), Some(BuildingType::Cookie));
    assert_eq!(tile.planned_at(Pos { x: 2, y: 6 }), None);
    assert_eq!(tile.count(BuildingType::Rocket), 1);
    assert_eq!(tile.count(BuildingType::Ground), 63);
}

#[test]
fn planned_edits_lists_the_markers_row_by_row() {
    let mut tile = Tile::new(Pos { x: 0, y: 0 });
    assert!(tile.planned_edits().is_empty());
    tile.plan(Pos { x: 5, y: 0 }, BuildingType::Shop);
    tile.plan(Pos { x: 0, y: 7 }, BuildingType::House);
    tile.plan(Pos { x: 0, y: 2 }, BuildingType::Ground);
    assert_eq!(
        tile.planned_edits(),
        vec![
            (Pos { x: 0, y: 2 }, BuildingType::Ground),
            (Pos { x: 0, y: 7 }, BuildingType::House),
            (Pos { x: 5, y: 0 }, BuildingType::Shop)
        ]
    );
}

#[test]
fn apply_all_makes_each_edit_on_what_the_last_one_left() {
    let mut tile = tile_of(&full_of(BuildingType::Asphalt));
    let mut ledger = Ledger::new();
    ledger.insert(Resource::Storage, 100);
    ledger.insert(Resource::Concrete, 1100);
    ledger.insert(Resource::Steel, 40);
    ledger.insert(Resource::Food, 500);
    let edits = vec![
        (Pos { x: 1, y: 1 }, BuildingType::Apartment),
        (Pos { x: 0, y: 0 }, BuildingType::FireStation),
        (Pos { x: 0, y: 0 }, BuildingType::FireStation),
        (Pos { x: 9, y: 9 }, BuildingType::FireStation),
        (Pos { x: 2, y: 2 }, BuildingType::PoliceStation),
        (Pos { x: 3, y: 3 }, BuildingType::FireStation),
    ];
    assert!(tile.apply_all(&edits, &mut ledger));
    assert_eq!(tile.count(BuildingType::FireStation), 1);
    assert_eq!(tile.count(BuildingType::PoliceStation), 1);
    assert_eq!(tile.count(BuildingType::Apartment), 0);
    assert_eq!(tile.count(BuildingType::Asphalt), 62);
    assert_eq!(ledger.get(Resource::Concrete), 100);
    assert_eq!(ledger.get(Resource::Steel), 20);
    assert_eq!(ledger.get(Resource::Food), 0);
    assert!(!tile.apply_all(&vec![], &mut ledger));
    assert!(!tile.apply_all(&vec![(Pos { x: 3, y: 3 }, BuildingType::FireStation)], &mut ledger));
    assert_eq!(ledger.get(Resource::Concrete), 100);
}
