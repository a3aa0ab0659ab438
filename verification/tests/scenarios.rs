use budoux::models::{default_japanese_model, default_simplified_chinese_model};

#[test]
fn test_parse() {
    let m = default_japanese_model();

    assert_eq!(m.parse(""), Vec::<&str>::new());
    assert_eq!(m.parse("日本語"), vec!["日本語"]);
    assert_eq!(m.parse("水と油"), vec!["水と", "油"]);
    assert_eq!(
        m.parse("水道水とミネラルウォーター"),
        vec!["水道水と", "ミネラルウォーター"]
    );
    assert_eq!(
        m.parse("PythonとJavaScriptとGolang"),
        vec!["Pythonと", "JavaScriptと", "Golang"]
    );
    assert_eq!(
        m.parse("日本語の文章において語の区切りに空白を挟んで記述すること"),
        vec![
            "日本語の",
            "文章に",
            "おいて",
            "語の",
            "区切りに",
            "空白を",
            "挟んで",
            "記述する",
            "こと"
        ]
    );
    assert_eq!(
        m.parse("これはテストです。"),
        vec!["これは", "テストです。"]
    );
    assert_eq!(
        m.parse("これは美しいペンです。"),
        vec!["これは", "美しい", "ペンです。"]
    );
    assert_eq!(m.parse("今日は天気です。"), vec!["今日は", "天気です。"]);
    assert_eq!(
        m.parse("今日はとても天気です。"),
        vec!["今日は", "とても", "天気です。"]
    );
    assert_eq!(
        m.parse("あなたに寄り添う最先端のテクノロジー。"),
        vec!["あなたに", "寄り添う", "最先端の", "テクノロジー。"]
    );
    assert_eq!(
        m.parse("これはテストです。今日は晴天です。"),
        vec!["これは", "テストです。", "今日は", "晴天です。"]
    );
    assert_eq!(
        m.parse("これはテストです。\n今日は晴天です。"),
        vec!["これは", "テストです。", "\n今日は", "晴天です。"]
    );
}

#[test]
fn test_parse_zh_hans() {
    let m = default_simplified_chinese_model();

    assert_eq!(m.parse(""), Vec::<&str>::new());
    assert_eq!(m.parse("今天是晴天。"), vec!["今天", "是", "晴天。"]);
}

#[test]
fn test_parse_zh_hans_on_mixed() {
    let m = default_simplified_chinese_model();
    assert_eq!(
        m.parse("你喜欢看アニメ吗"),
        vec!["你", "喜欢", "看", "アニメ", "吗"]
    )
}

#[test]
fn test_multiple_ref() {
    let m1 = default_japanese_model();
    let m2 = default_japanese_model();

    assert_eq!(m1, m2);
}

#[test]
fn test_multiple_ref_zh_hans() {
    let m1 = default_simplified_chinese_model();
    let m2 = default_simplified_chinese_model();

    assert_eq!(m1, m2);
}

#[test]
fn builtin_models_differ() {
    assert_ne!(default_japanese_model(), default_simplified_chinese_model());
}
