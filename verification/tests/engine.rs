use budoux::blocks::{classify, render_category, BLOCK_COUNT, BLOCK_STARTS};
use budoux::features::{score_boundary, History, Tag};
use budoux::models::default_japanese_model;
use budoux::segment::normalized_threshold;
use budoux::{Model, ModelError, DEFAULT_THRESHOLD};

fn table(families: &[(&str, &[(&str, i32)])]) -> Model {
    Model::new(
        families
            .iter()
            .map(|(tag, entries)| {
                (
                    tag.to_string(),
                    entries.iter().map(|(v, w)| (v.to_string(), *w)).collect(),
                )
            })
            .collect(),
    )
}

fn fresh() -> History {
    History { p1: Tag::Unknown, p2: Tag::Unknown, p3: Tag::Unknown }
}

const SAMPLES: [&str; 7] = [
    "",
    "x",
    "水",
    "水と油",
    "PythonとJavaScriptとGolang",
    "これはテストです。\n今日は晴天です。",
    "日本語の文章において語の区切りに空白を挟んで記述すること",
];

#[test]
fn default_threshold_is_one_thousand() {
    assert_eq!(DEFAULT_THRESHOLD, 1000);
}

#[test]
fn block_table_is_strictly_ascending() {
    assert_eq!(BLOCK_STARTS.len(), BLOCK_COUNT);
    for k in 1..BLOCK_STARTS.len() {
        assert!(BLOCK_STARTS[k - 1] < BLOCK_STARTS[k]);
    }
}

#[test]
fn block_categories() {
    assert_eq!(classify('\u{0}'), 1);
    assert_eq!(classify('a'), 1);
    assert_eq!(classify('\u{7f}'), 1);
    assert_eq!(classify('\u{80}'), 2);
    assert_eq!(classify('。'), 108);
    assert_eq!(classify('あ'), 109);
    assert_eq!(classify('ア'), 110);
    assert_eq!(classify('日'), 121);
    assert_eq!(classify('\u{10FFFF}'), 170);
}

#[test]
fn exact_table_entry_gets_index_plus_one() {
    for (k, start) in BLOCK_STARTS.iter().enumerate() {
        let c = match char::from_u32(*start) {
            Some(c) => c,
            None => continue,
        };
        assert_eq!(classify(c) as usize, k + 1);
    }
}

#[test]
fn code_point_between_entries_gets_insertion_point() {
    assert_eq!(classify('\u{309F}'), 109);
    assert_eq!(classify('\u{30A0}'), 110);
    assert_eq!(classify('\u{30FF}'), 110);
    assert_eq!(classify('\u{FFFF}'), 164);
    assert_eq!(classify('\u{10000}'), 165);
    assert_eq!(classify('\u{1D11E}'), 165);
}

#[test]
fn category_codes_have_three_digits() {
    assert_eq!(render_category(0), vec!['0', '0', '0']);
    assert_eq!(render_category(7), vec!['0', '0', '7']);
    assert_eq!(render_category(109), vec!['1', '0', '9']);
    assert_eq!(render_category(999), vec!['9', '9', '9']);
}

#[test]
fn lookup_finds_weights_and_defaults_to_zero() {
    let m = table(&[("UW4", &[("b", 7), ("c", -3)]), ("BW2", &[("ab", 11)])]);
    assert_eq!(m.lookup("UW4", &vec!['b']), 7);
    assert_eq!(m.lookup("UW4", &vec!['c']), -3);
    assert_eq!(m.lookup("BW2", &vec!['a', 'b']), 11);
    assert_eq!(m.lookup("UW4", &vec!['a', 'b']), 0);
    assert_eq!(m.lookup("UW3", &vec!['b']), 0);
    assert_eq!(m.lookup("UW4", &vec![]), 0);
}

#[test]
fn first_occurrence_counts() {
    let m = table(&[("UW4", &[("b", 7), ("b", 9)]), ("UW4", &[("b", 100), ("z", 5)])]);
    assert_eq!(m.lookup("UW4", &vec!['b']), 7);
    assert_eq!(m.lookup("UW4", &vec!['z']), 0);
}

#[test]
fn get_returns_the_family() {
    let m = table(&[("UW4", &[("b", 7)]), ("BW2", &[("ab", 11)])]);
    assert_eq!(m.get("BW2"), Some(&vec![("ab".to_string(), 11)]));
    assert_eq!(m.get("UW4"), Some(&vec![("b".to_string(), 7)]));
    assert_eq!(m.get("UW"), None);
    assert_eq!(m.get("TW1"), None);
}

#[test]
fn as_inner_gives_back_what_new_took() {
    let tables = vec![("UW4".to_string(), vec![("b".to_string(), 7)])];
    let m = Model::new(tables.clone());
    assert_eq!(m.as_inner(), &tables);
}

#[test]
fn score_sums_every_matching_key() {
    let m = table(&[
        ("UW1", &[("a", 1)]),
        ("UW2", &[("b", 2)]),
        ("UW3", &[("c", 4)]),
        ("UW4", &[("d", 8)]),
        ("UW5", &[("e", 16)]),
        ("UW6", &[("f", 32)]),
        ("BW1", &[("bc", 64)]),
        ("BW2", &[("cd", 128)]),
        ("BW3", &[("de", 256)]),
        ("TW1", &[("abc", 512)]),
        ("TW2", &[("bcd", 1024)]),
        ("TW3", &[("cde", 2048)]),
        ("TW4", &[("def", 4096)]),
    ]);
    let chars: Vec<char> = "abcdef".chars().collect();
    assert_eq!(score_boundary(&m, &chars, 3, fresh()), 8191);
    // At the first boundary the window starts two places before the text.
    assert_eq!(score_boundary(&m, &chars, 1, fresh()), 0);
    let short: Vec<char> = "cde".chars().collect();
    assert_eq!(score_boundary(&m, &short, 1, fresh()), 4 + 8 + 16 + 128 + 256 + 2048);
}

#[test]
fn score_uses_tags_and_block_codes() {
    let m = table(&[
        ("UP1", &[("U", 1)]),
        ("UP2", &[("O", 2)]),
        ("UP3", &[("B", 4)]),
        ("BP1", &[("UO", 8)]),
        ("BP2", &[("OB", 16)]),
        ("UB3", &[("001", 32)]),
        ("UB4", &[("109", 64)]),
        ("BB2", &[("001109", 128)]),
        ("TB2", &[("001001109", 256)]),
        ("UQ3", &[("B001", 512)]),
        ("BQ2", &[("O001109", 1024)]),
        ("BQ4", &[("B001109", 2048)]),
        ("TQ2", &[("O001001109", 4096)]),
        ("TQ4", &[("B001001109", 8192)]),
        ("TQ1", &[("O001001001", 16384)]),
    ]);
    let chars: Vec<char> = "abあ".chars().collect();
    let h = History { p1: Tag::Unknown, p2: Tag::Negative, p3: Tag::Positive };
    assert_eq!(score_boundary(&m, &chars, 2, h), 16383);
    assert_eq!(score_boundary(&m, &chars, 2, fresh()), 1 + 32 + 64 + 128 + 256);
}

#[test]
fn absent_positions_match_no_key() {
    let m = table(&[("UW1", &[("", 5)]), ("UB1", &[("", 5), ("000", 5), ("999", 5)]), ("BW1", &[("a", 5)])]);
    let chars: Vec<char> = "ab".chars().collect();
    assert_eq!(score_boundary(&m, &chars, 1, fresh()), 0);
}

#[test]
fn split_needs_a_score_above_the_threshold() {
    let m = table(&[("UW4", &[("b", 1000), ("c", 1001)])]);
    assert_eq!(m.parse("abc"), vec!["ab", "c"]);
    assert_eq!(m.parse_with_threshold("abc", 999), vec!["a", "b", "c"]);
    assert_eq!(m.parse_with_threshold("abc", 1001), vec!["abc"]);
}

#[test]
fn judgement_is_taken_at_zero_whatever_the_threshold() {
    let m = table(&[("UW4", &[("b", 500)]), ("UP3", &[("B", 2000)])]);
    assert_eq!(m.parse("abc"), vec!["ab", "c"]);
    assert_eq!(m.parse_with_threshold("abc", 100), vec!["a", "b", "c"]);
    let n = table(&[("UW4", &[("b", 0)]), ("UP3", &[("B", 2000), ("O", -1)])]);
    assert_eq!(n.parse("abc"), vec!["abc"]);
}

#[test]
fn history_moves_one_place_per_boundary() {
    let m = table(&[("BQ1", &[("U001001", 2000)])]);
    assert_eq!(m.parse("abcd"), vec!["ab", "cd"]);
    let n = table(&[("UW4", &[("b", 1)]), ("UP1", &[("B", 2000)])]);
    assert_eq!(n.parse("abcde"), vec!["abcd", "e"]);
}

#[test]
fn block_features_split_between_scripts() {
    let m = table(&[("UB4", &[("109", 2000)])]);
    assert_eq!(m.parse("abあい"), vec!["ab", "あ", "い"]);
}

#[test]
fn chunks_spell_the_text_again() {
    let m = default_japanese_model();
    for t in SAMPLES {
        for threshold in [-1, 0, 1000, 5000] {
            assert_eq!(m.parse_with_threshold(t, threshold).concat(), t);
        }
    }
}

#[test]
fn chunks_hold_whole_characters() {
    let m = table(&[]);
    let t = "aé水𝄞";
    let parts = m.parse_with_threshold(t, -1);
    assert_eq!(parts, vec!["a", "é", "水", "𝄞"]);
    for p in parts {
        assert_eq!(p.chars().count(), 1);
    }
}

#[test]
fn higher_threshold_never_gives_more_chunks() {
    let m = table(&[("UW3", &[("は", 1200), ("と", 300), ("。", 5000)]), ("UW4", &[("J", -50)])]);
    let thresholds = [-100, -50, 0, 299, 300, 1199, 1200, 4999, 5000];
    for t in SAMPLES {
        let mut last = usize::MAX;
        for th in thresholds {
            let n = m.parse_with_threshold(t, th).len();
            assert!(n <= last);
            last = n;
        }
    }
}

#[test]
fn empty_text_has_no_chunk() {
    assert_eq!(default_japanese_model().parse(""), Vec::<&str>::new());
    assert_eq!(table(&[]).parse_with_threshold("", -1), Vec::<&str>::new());
}

#[test]
fn single_character_is_one_chunk() {
    let m = table(&[("UW4", &[("x", 9000)]), ("UW3", &[("x", 9000)])]);
    for t in ["x", "水", "𝄞", "\n"] {
        assert_eq!(m.parse_with_threshold(t, -1), vec![t]);
        assert_eq!(m.parse(t), vec![t]);
    }
}

#[test]
fn top_threshold_keeps_the_text_whole() {
    let m = table(&[("UW4", &[("b", i32::MAX)]), ("UW3", &[("a", i32::MAX)]), ("BW2", &[("ab", i32::MAX)])]);
    assert_eq!(m.parse_with_threshold("abab", 42 * (i32::MAX as i64)), vec!["abab"]);
    assert_eq!(m.parse_with_threshold("abab", i64::MAX), vec!["abab"]);
    assert_eq!(m.parse_with_threshold("abab", 3 * (i32::MAX as i64) - 1), vec!["a", "ba", "b"]);
    for t in SAMPLES {
        if !t.is_empty() {
            assert_eq!(default_japanese_model().parse_with_threshold(t, i64::MAX), vec![t]);
        }
    }
}

#[test]
fn lowest_threshold_splits_everywhere() {
    let m = table(&[]);
    assert_eq!(m.parse_with_threshold("abc", -1), vec!["a", "b", "c"]);
    assert_eq!(m.parse_with_threshold("abc", 0), vec!["abc"]);
}

#[test]
fn from_str_reads_a_table() {
    let m = match Model::from_str(r#"{"UW4": {"b": 1500, "c": 3}, "BW2": {"ab": -600}}"#) {
        Ok(m) => m,
        Err(e) => panic!("{:?}", e),
    };
    assert_eq!(m.lookup("UW4", &vec!['b']), 1500);
    assert_eq!(m.lookup("UW4", &vec!['c']), 3);
    assert_eq!(m.lookup("BW2", &vec!['a', 'b']), -600);
    assert_eq!(m.parse("abcbab"), vec!["abc", "bab"]);
    assert_eq!(m.parse_with_threshold("abcbab", 899), vec!["a", "bc", "ba", "b"]);
    assert_eq!(
        m.as_inner(),
        &vec![
            ("BW2".to_string(), vec![("ab".to_string(), -600)]),
            ("UW4".to_string(), vec![("b".to_string(), 1500), ("c".to_string(), 3)]),
        ]
    );
}

#[test]
fn from_str_refuses_what_is_no_table() {
    assert!(matches!(Model::from_str("not json"), Err(ModelError::Json(_))));
    assert!(matches!(Model::from_str(r#"{"UW4": {"b": "x"}}"#), Err(ModelError::Json(_))));
    assert!(matches!(Model::from_str(r#"{"UW4": {"b": 4294967296}}"#), Err(ModelError::Json(_))));
    assert!(matches!(Model::from_str(r#"{"UW4": {"b": 1}} x"#), Err(ModelError::Json(_))));
    assert!(matches!(Model::from_str(r#"[1, 2]"#), Err(ModelError::Json(_))));
    assert!(Model::from_str("{}").is_ok());
}

#[test]
fn base_score_is_the_negated_sum_of_all_weights() {
    let m = table(&[("UW4", &[("b", 7), ("c", -3)]), ("BW2", &[("ab", 11)])]);
    assert_eq!(m.base_score(), Some(-15));
    assert_eq!(table(&[]).base_score(), Some(0));
    assert_eq!(table(&[("UW4", &[])]).base_score(), Some(0));
    let low = table(&[("UW1", &[("a", i32::MIN), ("b", i32::MIN)]), ("UW2", &[("a", i32::MIN)])]);
    assert_eq!(low.base_score(), Some(3 * 2147483648));
    let high = table(&[("UW1", &[("a", i32::MAX)]), ("UW2", &[("a", i32::MAX)])]);
    assert_eq!(high.base_score(), Some(-2 * 2147483647));
}

#[test]
fn normalized_threshold_halves_the_negated_base() {
    assert_eq!(normalized_threshold(0), 0);
    assert_eq!(normalized_threshold(-15), 7);
    assert_eq!(normalized_threshold(-16), 8);
    assert_eq!(normalized_threshold(15), -8);
    assert_eq!(normalized_threshold(16), -8);
    assert_eq!(normalized_threshold(1), -1);
    assert_eq!(normalized_threshold(-1), 0);
    assert_eq!(normalized_threshold(i64::MIN), 1 << 62);
    assert_eq!(normalized_threshold(i64::MAX), -(1 << 62));
}

#[test]
fn normalized_rule_agrees_with_its_threshold() {
    for base in -9i64..10 {
        for score in -9i64..10 {
            assert_eq!(base + 2 * score > 0, score > normalized_threshold(base));
        }
    }
}

#[test]
fn parse_at_the_normalized_threshold() {
    let m = table(&[("UW4", &[("b", 10), ("c", 1)]), ("UW3", &[("b", 4)])]);
    let base = match m.base_score() {
        Some(b) => b,
        None => panic!("the weights of three entries fit"),
    };
    assert_eq!(base, -15);
    assert_eq!(m.parse_with_threshold("abc", normalized_threshold(base)), vec!["a", "bc"]);
    assert_eq!(m.parse("abc"), vec!["abc"]);
}
