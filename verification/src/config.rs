//! Recipes and stats as a configuration names them: tables of named
//! integers, looked up by the name of the recipe and of the character.

use crate::specs::{Recipe, Stats};
use crate::text::same_text;
use vstd::prelude::*;

verus! {

/// One entry of a table: its key, and its value where that is an integer.
#[derive(Debug)]
pub struct Entry {
    /// The key.
    pub key: String,
    /// The value, if it is an integer.
    pub integer: Option<i64>,
}

/// One named table of a configuration. A value that is no table counts as
/// a table without entries.
#[derive(Debug)]
pub struct Table {
    /// The name of the table.
    pub name: String,
    /// Its entries, in order.
    pub entries: Vec<Entry>,
}

/// A configuration: its tables, in order.
#[derive(Debug)]
pub struct Config {
    /// The tables.
    pub tables: Vec<Table>,
}

/// The mathematical value of an entry.
pub struct EntryView {
    pub key: Seq<char>,
    pub integer: Option<i64>,
}

/// The mathematical value of a table.
pub struct TableView {
    pub name: Seq<char>,
    pub entries: Seq<EntryView>,
}

impl View for Entry {
    type V = EntryView;

    open spec fn view(&self) -> EntryView {
        EntryView { key: self.key@, integer: self.integer }
    }
}

impl View for Table {
    type V = TableView;

    open spec fn view(&self) -> TableView {
        TableView {
            name: self.name@,
            entries: Seq::new(self.entries@.len(), |i: int| self.entries@[i]@),
        }
    }
}

impl View for Config {
    type V = Seq<TableView>;

    open spec fn view(&self) -> Seq<TableView> {
        Seq::new(self.tables@.len(), |i: int| self.tables@[i]@)
    }
}

/// The tables of the document that a text holds, in the order in which
/// `toml` hands them out, where it takes the text for a document.
pub uninterp spec fn toml_tables(text: Seq<char>) -> Option<Seq<TableView>>;

/// The error type of `toml`'s parser.
#[verifier::external_type_specification]
#[verifier::external_body]
pub struct ExTomlError(toml::de::Error);

/// Calls `toml::from_str` for a `toml::Value` and copies what came back:
/// each value of the document becomes a table under its key, each entry of
/// a table an entry, with its integer where `Value::as_integer` gives one; a
/// value that is no table has no entries. The claim is that the outcome
/// depends on the text alone.
#[verifier::external_body]
fn parse_tables(text: &str) -> (r: Result<Config, toml::de::Error>)
    ensures
        r matches Ok(config) ==> toml_tables(text@) == Some(config@),
        r is Err ==> toml_tables(text@) is None,
{
    let document: toml::Value = toml::from_str(text)?;
    let tables = document.as_table().into_iter().flatten().map(
        |(name, value)| Table {
            name: name.clone(),
            entries: value.as_table().into_iter().flatten().map(
                |(key, entry)| Entry { key: key.clone(), integer: entry.as_integer() },
            ).collect(),
        },
    ).collect();
    Ok(Config { tables })
}

/// The numbers a configuration gives of a recipe and of a character.
#[derive(Debug, Clone, Copy, PartialEq, Eq, Structural)]
pub enum Field {
    Durability,
    Progress,
    Quality,
    ProgressDivider,
    QualityDivider,
    ProgressModifier,
    QualityModifier,
    Craftsmanship,
    Control,
    MaxCp,
}

/// Why a configuration does not give a recipe and stats.
#[derive(Debug, Clone, Copy, PartialEq, Eq, Structural)]
pub enum ConfigError {
    /// No table bears the name of the recipe.
    NoRecipe,
    /// No table bears the name of the character.
    NoCharacter,
    /// The table has no entry for the field.
    NoField(Field),
    /// The entry for the field is no integer.
    NotAnInteger(Field),
    /// The text is no document.
    Malformed,
}

impl Field {
    /// The key under which a table holds the field.
    pub open spec fn key(self) -> Seq<char> {
        match self {
            Field::Durability => "durability"@,
            Field::Progress => "progress"@,
            Field::Quality => "quality"@,
            Field::ProgressDivider => "progress_divider"@,
            Field::QualityDivider => "quality_divider"@,
            Field::ProgressModifier => "progress_modifier"@,
            Field::QualityModifier => "quality_modifier"@,
            Field::Craftsmanship => "craftsmanship"@,
            Field::Control => "control"@,
            Field::MaxCp => "max_cp"@,
        }
    }

    /// The key under which a table holds the field.
    pub fn get_key(self) -> (r: &'static str)
        ensures
            r@ == self.key(),
    {
        match self {
            Field::Durability => "durability",
            Field::Progress => "progress",
            Field::Quality => "quality",
            Field::ProgressDivider => "progress_divider",
            Field::QualityDivider => "quality_divider",
            Field::ProgressModifier => "progress_modifier",
            Field::QualityModifier => "quality_modifier",
            Field::Craftsmanship => "craftsmanship",
            Field::Control => "control",
            Field::MaxCp => "max_cp",
        }
    }
}

/// The fields of a recipe, in the order in which they are read.
pub open spec fn recipe_fields() -> Seq<Field> {
    seq![
        Field::Durability,
        Field::Progress,
        Field::Quality,
        Field::ProgressDivider,
        Field::QualityDivider,
        Field::ProgressModifier,
        Field::QualityModifier,
    ]
}

/// The fields of a character, in the order in which they are read.
pub open spec fn stats_fields() -> Seq<Field> {
    seq![Field::Craftsmanship, Field::Control, Field::MaxCp]
}

/// Position of the first table called `name`, or the number of tables where
/// there is none.
pub open spec fn table_position(tables: Seq<TableView>, name: Seq<char>) -> int
    decreases tables.len(),
{
    if tables.len() == 0 {
        0
    } else if tables[0].name == name {
        0
    } else {
        1 + table_position(tables.skip(1), name)
    }
}

/// Position of the first entry under `key`, or the number of entries where
/// there is none.
pub open spec fn entry_position(entries: Seq<EntryView>, key: Seq<char>) -> int
    decreases entries.len(),
{
    if entries.len() == 0 {
        0
    } else if entries[0].key == key {
        0
    } else {
        1 + entry_position(entries.skip(1), key)
    }
}

/// The value of a field in a table: the integer of the first entry under
/// the field's key, cut down to its low 32 bits.
pub open spec fn field_of(table: TableView, field: Field) -> Result<u32, ConfigError> {
    let at = entry_position(table.entries, field.key());
    if at >= table.entries.len() {
        Err(ConfigError::NoField(field))
    } else {
        match table.entries[at].integer {
            None => Err(ConfigError::NotAnInteger(field)),
            Some(value) => Ok(value as u32),
        }
    }
}

/// The values of a list of fields in a table, or what is wrong with the
/// first field that has no value.
pub open spec fn fields_of(table: TableView, fields: Seq<Field>) -> Result<Seq<u32>, ConfigError>
    decreases fields.len(),
{
    if fields.len() == 0 {
        Ok(Seq::empty())
    } else {
        match fields_of(table, fields.drop_last()) {
            Err(e) => Err(e),
            Ok(values) => match field_of(table, fields.last()) {
                Err(e) => Err(e),
                Ok(value) => Ok(values.push(value)),
            },
        }
    }
}

/// The recipe called `recipe_name` and the stats of the character called
/// `character_name`. The recipe is read first, field by field, then the
/// character; what is missing first is the error.
pub open spec fn loaded(
    tables: Seq<TableView>,
    recipe_name: Seq<char>,
    character_name: Seq<char>,
) -> Result<(Recipe, Stats), ConfigError> {
    let recipe_at = table_position(tables, recipe_name);
    let character_at = table_position(tables, character_name);
    if recipe_at >= tables.len() {
        Err(ConfigError::NoRecipe)
    } else {
        match fields_of(tables[recipe_at], recipe_fields()) {
            Err(e) => Err(e),
            Ok(r) => if character_at >= tables.len() {
                Err(ConfigError::NoCharacter)
            } else {
                match fields_of(tables[character_at], stats_fields()) {
                    Err(e) => Err(e),
                    Ok(s) => Ok(
                        (
                            Recipe {
                                durability: r[0],
                                progress: r[1],
                                quality: r[2],
                                progress_divider: r[3],
                                quality_divider: r[4],
                                progress_modifier: r[5],
                                quality_modifier: r[6],
                            },
                            Stats { craftsmanship: s[0], control: s[1], max_cp: s[2] },
                        ),
                    ),
                }
            },
        }
    }
}

proof fn lemma_table_position(tables: Seq<TableView>, name: Seq<char>, i: int)
    requires
        0 <= i <= tables.len(),
        forall|j: int| 0 <= j < i ==> (#[trigger] tables[j]).name != name,
        i < tables.len() ==> tables[i].name == name,
    ensures
        table_position(tables, name) == i,
    decreases i,
{
    if i > 0 {
        let rest = tables.skip(1);
        lemma_table_position(rest, name, i - 1);
    }
}

proof fn lemma_entry_position(entries: Seq<EntryView>, key: Seq<char>, i: int)
    requires
        0 <= i <= entries.len(),
        forall|j: int| 0 <= j < i ==> (#[trigger] entries[j]).key != key,
        i < entries.len() ==> entries[i].key == key,
    ensures
        entry_position(entries, key) == i,
    decreases i,
{
    if i > 0 {
        let rest = entries.skip(1);
        lemma_entry_position(rest, key, i - 1);
    }
}

fn find_table(config: &Config, name: &str) -> (r: usize)
    ensures
        r == table_position(config@, name@),
{
    let tables = &config.tables;
    let n = tables.len();
    let mut i: usize = 0;
    while i < n
        invariant
            n == tables@.len(),
            i <= n,
            tables == &config.tables,
            forall|j: int| 0 <= j < i ==> (#[trigger] config@[j]).name != name@,
        decreases n - i,
    {
        if same_text(tables[i].name.as_str(), name) {
            proof {
                lemma_table_position(config@, name@, i as int);
            }
            return i;
        }
        i = i + 1;
    }
    proof {
        lemma_table_position(config@, name@, n as int);
    }
    n
}

fn read_field(table: &Table, field: Field) -> (r: Result<u32, ConfigError>)
    ensures
        r == field_of(table@, field),
{
    let key = field.get_key();
    let n = table.entries.len();
    let mut i: usize = 0;
    while i < n
        invariant
            n == table.entries@.len(),
            i <= n,
            key@ == field.key(),
            forall|j: int| 0 <= j < i ==> (#[trigger] table@.entries[j]).key != key@,
        decreases n - i,
    {
        if same_text(table.entries[i].key.as_str(), key) {
            proof {
                lemma_entry_position(table@.entries, key@, i as int);
            }
            return match table.entries[i].integer {
                None => Err(ConfigError::NotAnInteger(field)),
                Some(value) => Ok(#[verifier::truncate] (value as u32)),
            };
        }
        i = i + 1;
    }
    proof {
        lemma_entry_position(table@.entries, key@, n as int);
    }
    Err(ConfigError::NoField(field))
}

/// Whether `read` holds the values `values`, or the same error.
pub open spec fn holds_values(
    read: Result<Vec<u32>, ConfigError>,
    values: Result<Seq<u32>, ConfigError>,
) -> bool {
    match read {
        Ok(list) => values == Ok::<Seq<u32>, ConfigError>(list@),
        Err(e) => values == Err::<Seq<u32>, ConfigError>(e),
    }
}

fn read_fields(table: &Table, fields: &Vec<Field>) -> (r: Result<Vec<u32>, ConfigError>)
    ensures
        holds_values(r, fields_of(table@, fields@)),
{
    let n = fields.len();
    let mut read: Result<Vec<u32>, ConfigError> = Ok(Vec::new());
    let mut i: usize = 0;
    while i < n
        invariant
            n == fields@.len(),
            i <= n,
            holds_values(read, fields_of(table@, fields@.take(i as int))),
        decreases n - i,
    {
        assert(fields@.take(i + 1).drop_last() == fields@.take(i as int));
        read = match read {
            Err(e) => Err(e),
            Ok(mut values) => match read_field(table, fields[i]) {
                Err(e) => Err(e),
                Ok(value) => {
                    values.push(value);
                    Ok(values)
                },
            },
        };
        i = i + 1;
    }
    assert(fields@.take(n as int) == fields@);
    read
}

/// Reads the recipe called `recipe_name` and the stats of the character
/// called `character_name` from a configuration.
pub fn load_from_config(config: &Config, recipe_name: &str, character_name: &str) -> (r: Result<
    (Recipe, Stats),
    ConfigError,
>)
    ensures
        r == loaded(config@, recipe_name@, character_name@),
{
    let recipe_at = find_table(config, recipe_name);
    if recipe_at >= config.tables.len() {
        return Err(ConfigError::NoRecipe);
    }
    let mut wanted: Vec<Field> = Vec::new();
    wanted.push(Field::Durability);
    wanted.push(Field::Progress);
    wanted.push(Field::Quality);
    wanted.push(Field::ProgressDivider);
    wanted.push(Field::QualityDivider);
    wanted.push(Field::ProgressModifier);
    wanted.push(Field::QualityModifier);
    assert(wanted@ =~= recipe_fields());
    let r = match read_fields(&config.tables[recipe_at], &wanted) {
        Err(e) => {
            return Err(e);
        },
        Ok(values) => values,
    };
    let character_at = find_table(config, character_name);
    if character_at >= config.tables.len() {
        return Err(ConfigError::NoCharacter);
    }
    let mut wanted: Vec<Field> = Vec::new();
    wanted.push(Field::Craftsmanship);
    wanted.push(Field::Control);
    wanted.push(Field::MaxCp);
    assert(wanted@ =~= stats_fields());
    let s = match read_fields(&config.tables[character_at], &wanted) {
        Err(e) => {
            return Err(e);
        },
        Ok(values) => values,
    };
    proof {
        lemma_fields_of_len(config@[recipe_at as int], recipe_fields());
        lemma_fields_of_len(config@[character_at as int], stats_fields());
    }
    Ok(
        (
            Recipe {
                durability: r[0],
                progress: r[1],
                quality: r[2],
                progress_divider: r[3],
                quality_divider: r[4],
                progress_modifier: r[5],
                quality_modifier: r[6],
            },
            Stats { craftsmanship: s[0], control: s[1], max_cp: s[2] },
        ),
    )
}

/// Reads the recipe called `recipe_name` and the stats of the character
/// called `character_name` from the text of a configuration.
pub fn load_from_text(text: &str, recipe_name: &str, character_name: &str) -> (r: Result<
    (Recipe, Stats),
    ConfigError,
>)
    ensures
        r == (match toml_tables(text@) {
            None => Err(ConfigError::Malformed),
            Some(tables) => loaded(tables, recipe_name@, character_name@),
        }),
{
    match parse_tables(text) {
        Err(_) => Err(ConfigError::Malformed),
        Ok(config) => load_from_config(&config, recipe_name, character_name),
    }
}

/// Where every field has a value, there are as many values as fields.
pub proof fn lemma_fields_of_len(table: TableView, fields: Seq<Field>)
    ensures
        fields_of(table, fields).is_ok() ==> fields_of(table, fields).unwrap().len()
            == fields.len(),
    decreases fields.len(),
{
    if fields.len() > 0 {
        lemma_fields_of_len(table, fields.drop_last());
    }
}

} // verus!
