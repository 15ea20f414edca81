use xiv_csolver_lib::config::{
    load_from_config, load_from_text, Config, ConfigError, Entry, Field, Table,
};
use xiv_csolver_lib::specs::{Recipe, Stats};

const CRAFT: &str = "
[default_recipe]
durability = 70
progress = 3900
quality = 10920
progress_divider = 130
quality_divider = 115
progress_modifier = 80
quality_modifier = 70

[default_character]
craftsmanship = 4041
control = 3959
max_cp = 602
";

fn entry(key: &str, integer: Option<i64>) -> Entry {
    Entry { key: key.to_string(), integer }
}

fn recipe_table(name: &str) -> Table {
    Table {
        name: name.to_string(),
        entries: vec![
            entry("quality_modifier", Some(70)),
            entry("durability", Some(70)),
            entry("progress", Some(3900)),
            entry("quality", Some(10920)),
            entry("progress_divider", Some(130)),
            entry("quality_divider", Some(115)),
            entry("progress_modifier", Some(80)),
        ],
    }
}

fn character_table(name: &str) -> Table {
    Table {
        name: name.to_string(),
        entries: vec![
            entry("craftsmanship", Some(4041)),
            entry("control", Some(3959)),
            entry("max_cp", Some(602)),
        ],
    }
}

fn expected() -> (Recipe, Stats) {
    (
        Recipe {
            durability: 70,
            progress: 3900,
            quality: 10920,
            progress_divider: 130,
            quality_divider: 115,
            progress_modifier: 80,
            quality_modifier: 70,
        },
        Stats { craftsmanship: 4041, control: 3959, max_cp: 602 },
    )
}

#[test]
fn a_document_gives_its_recipe_and_stats() {
    assert_eq!(load_from_text(CRAFT, "default_recipe", "default_character"), Ok(expected()));
}

#[test]
fn a_missing_recipe_is_reported_first() {
    assert_eq!(load_from_text(CRAFT, "bad_recipe", "bad_character"), Err(ConfigError::NoRecipe));
}

#[test]
fn a_missing_character_is_reported() {
    assert_eq!(
        load_from_text(CRAFT, "default_recipe", "bad_character"),
        Err(ConfigError::NoCharacter)
    );
}

#[test]
fn a_text_that_is_no_document_is_reported() {
    assert_eq!(
        load_from_text("[default_recipe", "default_recipe", "default_character"),
        Err(ConfigError::Malformed)
    );
}

#[test]
fn a_missing_field_is_reported_by_name() {
    let text = CRAFT.replace("quality_divider = 115\n", "");
    assert_eq!(
        load_from_text(&text, "default_recipe", "default_character"),
        Err(ConfigError::NoField(Field::QualityDivider))
    );
    let text = CRAFT.replace("max_cp = 602\n", "").replace("durability = 70\n", "");
    assert_eq!(
        load_from_text(&text, "default_recipe", "default_character"),
        Err(ConfigError::NoField(Field::Durability))
    );
    let text = CRAFT.replace("max_cp = 602\n", "");
    assert_eq!(
        load_from_text(&text, "default_recipe", "default_character"),
        Err(ConfigError::NoField(Field::MaxCp))
    );
}

#[test]
fn a_value_that_is_no_integer_is_reported_by_name() {
    let text = CRAFT.replace("control = 3959", "control = 3959.5");
    assert_eq!(
        load_from_text(&text, "default_recipe", "default_character"),
        Err(ConfigError::NotAnInteger(Field::Control))
    );
    let text = CRAFT.replace("progress = 3900", "progress = \"3900\"");
    assert_eq!(
        load_from_text(&text, "default_recipe", "default_character"),
        Err(ConfigError::NotAnInteger(Field::Progress))
    );
}

#[test]
fn a_value_that_is_no_table_has_no_fields() {
    let text = format!("default_recipe = 3\n{}", CRAFT.replace("[default_recipe]", "[other]"));
    assert_eq!(
        load_from_text(&text, "default_recipe", "default_character"),
        Err(ConfigError::NoField(Field::Durability))
    );
}

#[test]
fn an_integer_keeps_its_low_bits() {
    let text = CRAFT.replace("max_cp = 602", "max_cp = -1").replace(
        "durability = 70",
        "durability = 4294967366",
    );
    let (recipe, stats) = load_from_text(&text, "default_recipe", "default_character").unwrap();
    assert_eq!(recipe.durability, 70);
    assert_eq!(stats.max_cp, 4294967295);
}

#[test]
fn a_configuration_is_read_by_names_and_keys() {
    let config = Config {
        tables: vec![character_table("bob"), recipe_table("sword"), recipe_table("bob")],
    };
    assert_eq!(load_from_config(&config, "sword", "bob"), Ok(expected()));
    assert_eq!(
        load_from_config(&config, "bob", "bob"),
        Err(ConfigError::NoField(Field::Durability))
    );
    assert_eq!(load_from_config(&config, "sword", "alice"), Err(ConfigError::NoCharacter));
    assert_eq!(
        load_from_config(&config, "sword", "sword"),
        Err(ConfigError::NoField(Field::Craftsmanship))
    );
    assert_eq!(
        load_from_config(&Config { tables: Vec::new() }, "sword", "bob"),
        Err(ConfigError::NoRecipe)
    );
}

#[test]
fn the_first_entry_under_a_key_counts() {
    let mut table = character_table("bob");
    table.entries.insert(0, entry("control", None));
    let config = Config { tables: vec![recipe_table("sword"), table] };
    assert_eq!(
        load_from_config(&config, "sword", "bob"),
        Err(ConfigError::NotAnInteger(Field::Control))
    );
}

#[test]
fn every_field_has_its_key() {
    assert_eq!(Field::Durability.get_key(), "durability");
    assert_eq!(Field::Progress.get_key(), "progress");
    assert_eq!(Field::Quality.get_key(), "quality");
    assert_eq!(Field::ProgressDivider.get_key(), "progress_divider");
    assert_eq!(Field::QualityDivider.get_key(), "quality_divider");
    assert_eq!(Field::ProgressModifier.get_key(), "progress_modifier");
    assert_eq!(Field::QualityModifier.get_key(), "quality_modifier");
    assert_eq!(Field::Craftsmanship.get_key(), "craftsmanship");
    assert_eq!(Field::Control.get_key(), "control");
    assert_eq!(Field::MaxCp.get_key(), "max_cp");
}
