use respi::build_spec::RespiError;
use respi::ingest::{parse_row, parse_rows, ROW_FIELDS};
use respi::records::{ItemNumber, NewItem, NewMorph, NewSynthesis};
use respi::respi::{render, PathOutcome, Respi};

fn item(name: &str, tags: [&str; 4], number: ItemNumber) -> NewItem {
    let tag = |t: &str| if t.is_empty() { None } else { Some(t.to_string()) };
    NewItem {
        name: name.to_string(),
        fire: false,
        ice: false,
        light: false,
        wind: false,
        category1: tag(tags[0]),
        category2: tag(tags[1]),
        category3: tag(tags[2]),
        category4: tag(tags[3]),
        item_number: number,
    }
}

fn synthesis(name: &str, ingredients: &[&str]) -> NewSynthesis {
    let ing = |k: usize| ingredients.get(k).map(|s| s.to_string());
    NewSynthesis {
        name: name.to_string(),
        chapter: "1".to_string(),
        synthesis_type: "Mix".to_string(),
        ingredient1: ing(0),
        ingredient2: ing(1),
        ingredient3: ing(2),
        ingredient4: ing(3),
        add_category1: None,
        add_category2: None,
        extra_synth_quantity: None,
        effect_spread: None,
    }
}

fn morph(name: &str, from_recipe: &str, from_requiring: &str) -> NewMorph {
    NewMorph {
        name: name.to_string(),
        chapter: "1".to_string(),
        from_recipe: from_recipe.to_string(),
        from_requiring: from_requiring.to_string(),
    }
}

fn plain(name: &str) -> NewItem {
    item(name, ["", "", "", ""], ItemNumber::Unclassified)
}

fn recipe(name: &str) -> NewItem {
    item(name, ["", "", "", ""], ItemNumber::RecipeNumber(1))
}

fn build(items: Vec<NewItem>, syns: Vec<NewSynthesis>, morphs: Vec<NewMorph>) -> Result<Respi, RespiError> {
    Respi::init(&items, &syns, &morphs)
}

fn query(r: &Respi, start: &str, goal: &str) -> PathOutcome {
    r.shortest_path(&start.to_string(), &goal.to_string())
}

fn found(labels: &[&str]) -> PathOutcome {
    PathOutcome::Found(labels.iter().map(|s| s.to_string()).collect())
}

fn wood_table() -> Respi {
    let items = vec![plain("Wood"), recipe("Plank"), recipe("Table")];
    let syns = vec![synthesis("Plank", &["Wood"]), synthesis("Table", &["Plank"])];
    match build(items, syns, vec![]) {
        Ok(r) => r,
        Err(e) => panic!("construction failed: {:?}", e),
    }
}

fn row(fields: &[(usize, &str)]) -> Vec<String> {
    let mut r = vec![String::new(); ROW_FIELDS];
    for (k, v) in fields {
        r[*k] = v.to_string();
    }
    r
}

#[test]
fn wood_to_table_path() {
    let r = wood_table();
    assert_eq!(query(&r, "Wood", "Table"), found(&["Wood", "Synthesis", "Plank", "Synthesis", "Table"]));
}

#[test]
fn wood_to_table_rendered() {
    let r = wood_table();
    match query(&r, "Wood", "Table") {
        PathOutcome::Found(ls) => {
            assert_eq!(render(&ls), "Wood -> Synthesis -> Plank -> Synthesis -> Table");
        }
        other => panic!("unexpected {:?}", other),
    }
}

#[test]
fn morph_without_base_synthesis_fails() {
    let items = vec![plain("Wood"), plain("Nail"), recipe("Chair")];
    let morphs = vec![morph("Chair", "Wood", "Nail")];
    match build(items, vec![synthesis("Chair", &["Wood"])], morphs) {
        Err(RespiError::NoBaseSynthesis(name)) => assert_eq!(name, "Wood"),
        Err(e) => panic!("unexpected error {:?}", e),
        Ok(_) => panic!("construction must fail"),
    }
}

#[test]
fn unknown_start_and_goal_are_not_found() {
    let r = wood_table();
    assert_eq!(query(&r, "Stone", "Table"), PathOutcome::UnknownStart);
    assert_eq!(query(&r, "Wood", "Stone"), PathOutcome::UnknownGoal);
    assert_eq!(query(&r, "Stone", "Stone"), PathOutcome::UnknownStart);
}

#[test]
fn unreachable_goal_is_no_path() {
    let r = wood_table();
    assert_eq!(query(&r, "Table", "Wood"), PathOutcome::NoPath);
}

#[test]
fn start_equal_to_goal_is_single_node() {
    let r = wood_table();
    assert_eq!(query(&r, "Plank", "Plank"), found(&["Plank"]));
}

#[test]
fn category_tag_matches_in_any_slot() {
    for slot in 0..4 {
        let mut tags = ["", "", "", ""];
        tags[slot] = "Lumber";
        let items = vec![item("Oak", tags, ItemNumber::MaterialNumber(3)), recipe("Box")];
        let r = match build(items, vec![synthesis("Box", &["Lumber"])], vec![]) {
            Ok(r) => r,
            Err(e) => panic!("construction failed: {:?}", e),
        };
        assert_eq!(query(&r, "Oak", "Box"), found(&["Oak", "Synthesis", "Box"]));
    }
}

#[test]
fn specifier_matching_name_and_tag_gives_one_edge() {
    let items = vec![item("Oak", ["Oak", "", "", ""], ItemNumber::Unclassified), recipe("Box")];
    let r = match build(items, vec![synthesis("Box", &["Oak"])], vec![]) {
        Ok(r) => r,
        Err(e) => panic!("construction failed: {:?}", e),
    };
    assert_eq!(query(&r, "Oak", "Box"), found(&["Oak", "Synthesis", "Box"]));
}

#[test]
fn unmatched_specifier_is_skipped() {
    let items = vec![recipe("Box")];
    assert!(build(items, vec![synthesis("Box", &["Unobtainium"])], vec![]).is_ok());
}

#[test]
fn morph_is_wired_from_base_synthesis_and_required_item() {
    let items = vec![plain("Ore"), recipe("Ingot"), plain("Flux"), recipe("Steel")];
    let syns = vec![synthesis("Ingot", &["Ore"]), synthesis("Steel", &["Ingot"])];
    let morphs = vec![morph("Steel", "Ingot", "Flux")];
    let r = match build(items, syns, morphs) {
        Ok(r) => r,
        Err(e) => panic!("construction failed: {:?}", e),
    };
    assert_eq!(query(&r, "Flux", "Steel"), found(&["Flux", "Morph", "Steel"]));
    assert_eq!(query(&r, "Ore", "Steel"), found(&["Ore", "Synthesis", "Morph", "Steel"]));
    assert_eq!(query(&r, "Steel", "Flux"), PathOutcome::NoPath);
}

#[test]
fn synthesis_of_unknown_item_fails() {
    match build(vec![plain("Wood")], vec![synthesis("Ghost", &["Wood"])], vec![]) {
        Err(RespiError::UnknownItem(name)) => assert_eq!(name, "Ghost"),
        Err(e) => panic!("unexpected error {:?}", e),
        Ok(_) => panic!("construction must fail"),
    }
}

#[test]
fn morph_with_unknown_names_fails() {
    let items = || vec![plain("Ore"), recipe("Ingot"), plain("Flux")];
    let syns = || vec![synthesis("Ingot", &["Ore"])];
    let cases = [
        (morph("Steel", "Ingot", "Flux"), "Steel"),
        (morph("Ingot", "Ingot", "Coal"), "Coal"),
        (morph("Ingot", "Slag", "Flux"), "Slag"),
    ];
    for (m, missing) in cases {
        match build(items(), syns(), vec![m]) {
            Err(RespiError::UnknownItem(name)) => assert_eq!(name, missing),
            Err(e) => panic!("unexpected error {:?}", e),
            Ok(_) => panic!("construction must fail"),
        }
    }
}

#[test]
fn building_twice_gives_same_answers() {
    let a = wood_table();
    let b = wood_table();
    for (s, g) in [("Wood", "Table"), ("Table", "Wood"), ("Plank", "Plank"), ("Wood", "Plank")] {
        assert_eq!(query(&a, s, g), query(&b, s, g));
    }
}

#[test]
fn render_joins_without_trailing_separator() {
    assert_eq!(render(&vec![]), "");
    assert_eq!(render(&vec!["Wood".to_string()]), "Wood");
    assert_eq!(render(&vec!["A".to_string(), "Synthesis".to_string(), "Morph".to_string()]), "A -> Synthesis -> Morph");
}

#[test]
fn row_with_wrong_field_count_is_rejected() {
    let r = vec!["Wood".to_string(); 24];
    assert!(matches!(parse_row(&r), Err(RespiError::CsvError)));
}

#[test]
fn material_row_is_read() {
    let r = row(&[(0, "Wood"), (1, "x"), (4, "x"), (5, "Lumber"), (8, "Fuel"), (9, "12"), (13, "ignored")]);
    match parse_row(&r) {
        Ok((it, syn, morphs)) => {
            assert_eq!(it.name, "Wood");
            assert!(it.fire && !it.ice && !it.light && it.wind);
            assert_eq!(it.category1, Some("Lumber".to_string()));
            assert_eq!(it.category2, None);
            assert_eq!(it.category4, Some("Fuel".to_string()));
            assert_eq!(it.item_number, ItemNumber::MaterialNumber(12));
            assert!(syn.is_none());
            assert!(morphs.is_empty());
        }
        Err(e) => panic!("unexpected error {:?}", e),
    }
}

#[test]
fn numbers_follow_decimal_rules() {
    let num = |s: &str| match parse_row(&row(&[(0, "A"), (9, s)])) {
        Ok((it, _, _)) => Some(it.item_number),
        Err(RespiError::InvalidNumber) => None,
        Err(e) => panic!("unexpected error {:?}", e),
    };
    assert_eq!(num("+7"), Some(ItemNumber::MaterialNumber(7)));
    assert_eq!(num("007"), Some(ItemNumber::MaterialNumber(7)));
    assert_eq!(num("255"), Some(ItemNumber::MaterialNumber(255)));
    assert_eq!(num("256"), None);
    assert_eq!(num("-1"), None);
    assert_eq!(num("+"), None);
    assert_eq!(num(" 3"), None);
    assert_eq!(num("x"), None);
}

#[test]
fn recipe_row_yields_synthesis_and_morphs() {
    let r = row(&[
        (0, "Steel"),
        (10, "4"),
        (11, "2"),
        (12, "Smelt"),
        (13, "Ingot"),
        (15, "Flux"),
        (17, "Metal"),
        (19, "Ingot"),
        (20, "Coal"),
        (21, "Iron"),
        (23, "3"),
    ]);
    match parse_row(&r) {
        Ok((it, syn, morphs)) => {
            assert_eq!(it.item_number, ItemNumber::RecipeNumber(4));
            let syn = syn.expect("a recipe row has a synthesis");
            assert_eq!(syn.name, "Steel");
            assert_eq!(syn.chapter, "2");
            assert_eq!(syn.synthesis_type, "Smelt");
            assert_eq!(syn.ingredients(), vec!["Ingot".to_string(), "Flux".to_string()]);
            assert_eq!(syn.add_category1, Some("Metal".to_string()));
            assert_eq!(syn.extra_synth_quantity, Some(3));
            assert_eq!(syn.effect_spread, None);
            assert_eq!(morphs.len(), 1);
            assert_eq!(morphs[0].from_recipe, "Ingot");
            assert_eq!(morphs[0].from_requiring, "Coal");
            assert_eq!(morphs[0].name, "Steel");
        }
        Err(e) => panic!("unexpected error {:?}", e),
    }
}

#[test]
fn recipe_row_with_bad_quantity_is_rejected() {
    let r = row(&[(0, "Steel"), (10, "4"), (24, "lots")]);
    assert!(matches!(parse_row(&r), Err(RespiError::InvalidNumber)));
}

#[test]
fn rows_build_a_queryable_graph() {
    let rows = vec![
        row(&[(0, "Wood"), (9, "1")]),
        row(&[(0, "Plank"), (10, "1"), (13, "Wood")]),
        row(&[(0, "Table"), (10, "2"), (13, "Plank")]),
    ];
    let (items, syns, morphs) = match parse_rows(&rows) {
        Ok(t) => t,
        Err(e) => panic!("unexpected error {:?}", e),
    };
    assert_eq!(items.len(), 3);
    assert_eq!(syns.len(), 2);
    assert!(morphs.is_empty());
    let r = match Respi::init(&items, &syns, &morphs) {
        Ok(r) => r,
        Err(e) => panic!("construction failed: {:?}", e),
    };
    assert_eq!(query(&r, "Wood", "Table"), found(&["Wood", "Synthesis", "Plank", "Synthesis", "Table"]));
}

#[test]
fn first_bad_row_rejects_dataset() {
    let rows = vec![row(&[(0, "Wood")]), vec![String::new(); 3], row(&[(0, "Nail"), (9, "x")])];
    assert!(matches!(parse_rows(&rows), Err(RespiError::CsvError)));
}

#[test]
fn shorter_of_two_routes_is_taken() {
    let items = vec![plain("Ore"), recipe("Ingot"), recipe("Blade")];
    let syns = vec![synthesis("Ingot", &["Ore"]), synthesis("Blade", &["Ingot", "Ore"])];
    let r = match build(items, syns, vec![]) {
        Ok(r) => r,
        Err(e) => panic!("construction failed: {:?}", e),
    };
    assert_eq!(query(&r, "Ore", "Blade"), found(&["Ore", "Synthesis", "Blade"]));
    assert_eq!(query(&r, "Ingot", "Blade"), found(&["Ingot", "Synthesis", "Blade"]));
}

#[test]
fn duplicate_names_resolve_to_first_item() {
    let items = vec![plain("Gem"), recipe("Ring"), plain("Gem")];
    let r = match build(items, vec![synthesis("Ring", &["Gem"])], vec![]) {
        Ok(r) => r,
        Err(e) => panic!("construction failed: {:?}", e),
    };
    assert_eq!(r.find_item(&"Gem".to_string()), Some(0));
    assert_eq!(r.find_item(&"Ring".to_string()), Some(1));
    assert_eq!(r.find_item(&"Synthesis".to_string()), None);
}

#[test]
fn morph_base_is_first_producing_synthesis() {
    let items = vec![plain("Ore"), plain("Scrap"), recipe("Ingot"), plain("Flux"), recipe("Steel")];
    let syns = vec![synthesis("Ingot", &["Ore"]), synthesis("Ingot", &["Scrap"])];
    let morphs = vec![morph("Steel", "Ingot", "Flux")];
    let r = match build(items, syns, morphs) {
        Ok(r) => r,
        Err(e) => panic!("construction failed: {:?}", e),
    };
    assert_eq!(query(&r, "Ore", "Steel"), found(&["Ore", "Synthesis", "Morph", "Steel"]));
    assert_eq!(query(&r, "Scrap", "Steel"), PathOutcome::NoPath);
    assert_eq!(query(&r, "Scrap", "Ingot"), found(&["Scrap", "Synthesis", "Ingot"]));
}
