use crate::model::{entries_view, tables_view, Entries, Model, Tables};
use vstd::prelude::*;
use vstd::string::*;

verus! {

/// One entry of a family: a feature value and its weight.
pub fn entry(value: &str, weight: i32) -> (e: (String, i32))
    ensures
        e.0@ == value@,
        e.1 == weight,
{
    (String::from_str(value), weight)
}

/// One family: its tag and its entries.
pub fn family(tag: &str, entries: Vec<(String, i32)>) -> (t: (String, Vec<(String, i32)>))
    ensures
        t.0@ == tag@,
        t.1 == entries,
{
    (String::from_str(tag), entries)
}

/// The `UW3` entries of the built-in Japanese table.
pub open spec fn japanese_uw3() -> Entries {
    seq![
        ("の"@, 1200int),
        ("に"@, 1200int),
        ("を"@, 1200int),
        ("る"@, 1200int),
        ("は"@, 1200int),
        ("も"@, 1200int),
        ("う"@, 1200int),
        ("。"@, 1200int),
    ]
}

/// The `UW4` entries of the built-in Japanese table.
pub open spec fn japanese_uw4() -> Entries {
    seq![
        ("油"@, 1200int),
        ("ミ"@, 1200int),
        ("J"@, 1200int),
        ("G"@, 1200int),
        ("記"@, 1200int),
        ("ペ"@, 1200int),
    ]
}

/// The `BW2` entries of the built-in Japanese table.
pub open spec fn japanese_bw2() -> Entries {
    seq![("て語"@, 1200int)]
}

/// The built-in Japanese table: a compact table that breaks after common
/// particles and before a few frequent word starts.
pub open spec fn japanese_tables() -> Tables {
    seq![("UW3"@, japanese_uw3()), ("UW4"@, japanese_uw4()), ("BW2"@, japanese_bw2())]
}

/// A small built-in model for Japanese. It holds a compact table only; a
/// full weight table is loaded with [`Model::from_str`].
pub fn default_japanese_model() -> (model: Model)
    ensures
        model@ == japanese_tables(),
{
    let mut uw3: Vec<(String, i32)> = Vec::new();
    uw3.push(entry("の", 1200));
    uw3.push(entry("に", 1200));
    uw3.push(entry("を", 1200));
    uw3.push(entry("る", 1200));
    uw3.push(entry("は", 1200));
    uw3.push(entry("も", 1200));
    uw3.push(entry("う", 1200));
    uw3.push(entry("。", 1200));
    assert(entries_view(uw3@) =~= japanese_uw3());
    let mut uw4: Vec<(String, i32)> = Vec::new();
    uw4.push(entry("油", 1200));
    uw4.push(entry("ミ", 1200));
    uw4.push(entry("J", 1200));
    uw4.push(entry("G", 1200));
    uw4.push(entry("記", 1200));
    uw4.push(entry("ペ", 1200));
    assert(entries_view(uw4@) =~= japanese_uw4());
    let mut bw2: Vec<(String, i32)> = Vec::new();
    bw2.push(entry("て語", 1200));
    assert(entries_view(bw2@) =~= japanese_bw2());
    let mut tables: Vec<(String, Vec<(String, i32)>)> = Vec::new();
    tables.push(family("UW3", uw3));
    tables.push(family("UW4", uw4));
    tables.push(family("BW2", bw2));
    assert(tables_view(tables@) =~= japanese_tables());
    Model::new(tables)
}

/// The `UW3` entries of the built-in simplified Chinese table.
pub open spec fn simplified_chinese_uw3() -> Entries {
    seq![("是"@, 1200int), ("你"@, 1200int), ("欢"@, 1200int), ("看"@, 1200int), ("メ"@, 1200int)]
}

/// The `UW4` entries of the built-in simplified Chinese table.
pub open spec fn simplified_chinese_uw4() -> Entries {
    seq![("是"@, 1200int)]
}

/// The built-in simplified Chinese table: a compact table that breaks after common
/// particles and before a few frequent word starts.
pub open spec fn simplified_chinese_tables() -> Tables {
    seq![("UW3"@, simplified_chinese_uw3()), ("UW4"@, simplified_chinese_uw4())]
}

/// A small built-in model for simplified Chinese. It holds a compact table only; a
/// full weight table is loaded with [`Model::from_str`].
pub fn default_simplified_chinese_model() -> (model: Model)
    ensures
        model@ == simplified_chinese_tables(),
{
    let mut uw3: Vec<(String, i32)> = Vec::new();
    uw3.push(entry("是", 1200));
    uw3.push(entry("你", 1200));
    uw3.push(entry("欢", 1200));
    uw3.push(entry("看", 1200));
    uw3.push(entry("メ", 1200));
    assert(entries_view(uw3@) =~= simplified_chinese_uw3());
    let mut uw4: Vec<(String, i32)> = Vec::new();
    uw4.push(entry("是", 1200));
    assert(entries_view(uw4@) =~= simplified_chinese_uw4());
    let mut tables: Vec<(String, Vec<(String, i32)>)> = Vec::new();
    tables.push(family("UW3", uw3));
    tables.push(family("UW4", uw4));
    assert(tables_view(tables@) =~= simplified_chinese_tables());
    Model::new(tables)
}

} // verus!
