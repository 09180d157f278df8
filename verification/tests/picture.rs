use city_builder::building::BuildingType;
use city_builder::pos::Pos;
use city_builder::tile::Tile;

fn tile_of(kinds: &[[BuildingType; 8]; 8]) -> Tile {
    Tile::restore(Pos { x: 0, y: 0 }, kinds, &[[None; 8]; 8], false)
}

fn plain_picture(kinds: &[[BuildingType; 8]; 8]) -> String {
    let mut text = String::new();
    for row in kinds.iter() {
        for kind in row.iter() {
            text.push_str(&kind.symbol());
        }
        text.push('\n');
    }
    text.trim_end().to_owned()
}

#[test]
fn the_picture_of_an_empty_parcel_is_empty() {
    assert_eq!(Tile::new(Pos { x: 0, y: 0 }).to_string(), "");
}

#[test]
fn the_picture_of_one_house() {
    let mut kinds = [[BuildingType::Ground; 8]; 8];
    kinds[0][0] = BuildingType::House;
    assert_eq!(tile_of(&kinds).to_string(), egui_phosphor::HOUSE);
}

#[test]
fn the_picture_ends_with_the_last_building() {
    let mut kinds = [[BuildingType::Ground; 8]; 8];
    kinds[0][7] = BuildingType::Tree;
    kinds[1][2] = BuildingType::Shop;
    let expected = format!(
        "              {}\n    {}",
        egui_phosphor::TREE,
        egui_phosphor::STOREFRONT
    );
    assert_eq!(tile_of(&kinds).to_string(), expected);

    let mut corner = [[BuildingType::Ground; 8]; 8];
    corner[2][7] = BuildingType::Bank;
    let line = " ".repeat(16);
    let expected = format!("{}\n{}\n{}{}", line, line, " ".repeat(14), egui_phosphor::BANK);
    assert_eq!(tile_of(&corner).to_string(), expected);
}

#[test]
fn the_picture_of_a_full_parcel_has_eight_lines() {
    let kinds = [[BuildingType::Asphalt; 8]; 8];
    let row = egui_phosphor::SQUARE.repeat(8);
    let expected = vec![row.as_str(); 8].join("\n");
    assert_eq!(tile_of(&kinds).to_string(), expected);
}

#[test]
fn the_picture_is_the_rows_of_glyphs_without_the_blanks_at_the_end() {
    let kinds_in_turn = BuildingType::all();
    let mut kinds = [[BuildingType::Ground; 8]; 8];
    for k in 0..64 {
        kinds[k / 8][k % 8] = kinds_in_turn[(k * 7) % 37];
        assert_eq!(tile_of(&kinds).to_string(), plain_picture(&kinds));
    }
    for k in 0..64 {
        kinds[k / 8][k % 8] = BuildingType::Ground;
        assert_eq!(tile_of(&kinds).to_string(), plain_picture(&kinds));
    }
}
