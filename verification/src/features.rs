use crate::blocks::{block_category, category_code, classify, render_category};
use crate::model::{lemma_weight_fits, weight_in, weights_fit, Model, Tables};
use crate::text::concat_chars;
use vstd::prelude::*;

verus! {

/// How an earlier boundary was judged.
#[derive(Clone, Copy, Debug, PartialEq, Eq)]
pub enum Tag {
    /// No boundary stood there.
    Unknown,
    /// Its score was above zero.
    Positive,
    /// Its score was zero or below.
    Negative,
}

/// The judgements of the three most recent boundaries, oldest first.
#[derive(Clone, Copy, Debug, PartialEq, Eq)]
pub struct History {
    pub p1: Tag,
    pub p2: Tag,
    pub p3: Tag,
}

/// The number of feature keys built for one boundary.
pub const FEATURE_COUNT: i64 = 42;

/// The letter that stands for a tag in a feature key.
pub open spec fn tag_char(t: Tag) -> char {
    match t {
        Tag::Unknown => 'U',
        Tag::Positive => 'B',
        Tag::Negative => 'O',
    }
}

/// A tag as a key component. It is always present.
pub open spec fn tag_key(t: Tag) -> Option<Seq<char>> {
    Some(seq![tag_char(t)])
}

/// The character at position `j` as a key component; absent outside the text.
pub open spec fn word_key(text: Seq<char>, j: int) -> Option<Seq<char>> {
    if 0 <= j < text.len() {
        Some(seq![text[j]])
    } else {
        None
    }
}

/// The block code of the character at position `j` as a key component;
/// absent outside the text.
pub open spec fn block_key(text: Seq<char>, j: int) -> Option<Seq<char>> {
    if 0 <= j < text.len() {
        Some(category_code(block_category(text[j])))
    } else {
        None
    }
}

/// Two components side by side; absent as soon as one of them is.
pub open spec fn join(a: Option<Seq<char>>, b: Option<Seq<char>>) -> Option<Seq<char>> {
    match (a, b) {
        (Some(x), Some(y)) => Some(x + y),
        _ => None,
    }
}

/// What one feature adds to a score: the weight of its key, and nothing
/// where a component is absent.
pub open spec fn term(tables: Tables, family: Seq<char>, value: Option<Seq<char>>) -> int {
    match value {
        Some(v) => weight_in(tables, family, v),
        None => 0,
    }
}

/// The part of a score that the earlier judgements alone give.
pub open spec fn tag_score(
    tables: Tables,
    p1: Option<Seq<char>>,
    p2: Option<Seq<char>>,
    p3: Option<Seq<char>>,
) -> int {
    term(tables, "UP1"@, p1)
        + term(tables, "UP2"@, p2)
        + term(tables, "UP3"@, p3)
        + term(tables, "BP1"@, join(p1, p2))
        + term(tables, "BP2"@, join(p2, p3))
}

/// The part of a score that the characters of the window give.
pub open spec fn word_score(
    tables: Tables,
    w1: Option<Seq<char>>,
    w2: Option<Seq<char>>,
    w3: Option<Seq<char>>,
    w4: Option<Seq<char>>,
    w5: Option<Seq<char>>,
    w6: Option<Seq<char>>,
) -> int {
    term(tables, "UW1"@, w1)
        + term(tables, "UW2"@, w2)
        + term(tables, "UW3"@, w3)
        + term(tables, "UW4"@, w4)
        + term(tables, "UW5"@, w5)
        + term(tables, "UW6"@, w6)
        + term(tables, "BW1"@, join(w2, w3))
        + term(tables, "BW2"@, join(w3, w4))
        + term(tables, "BW3"@, join(w4, w5))
        + term(tables, "TW1"@, join(join(w1, w2), w3))
        + term(tables, "TW2"@, join(join(w2, w3), w4))
        + term(tables, "TW3"@, join(join(w3, w4), w5))
        + term(tables, "TW4"@, join(join(w4, w5), w6))
}

/// The part of a score that the block codes of the window give.
pub open spec fn block_score(
    tables: Tables,
    b1: Option<Seq<char>>,
    b2: Option<Seq<char>>,
    b3: Option<Seq<char>>,
    b4: Option<Seq<char>>,
    b5: Option<Seq<char>>,
    b6: Option<Seq<char>>,
) -> int {
    term(tables, "UB1"@, b1)
        + term(tables, "UB2"@, b2)
        + term(tables, "UB3"@, b3)
        + term(tables, "UB4"@, b4)
        + term(tables, "UB5"@, b5)
        + term(tables, "UB6"@, b6)
        + term(tables, "BB1"@, join(b2, b3))
        + term(tables, "BB2"@, join(b3, b4))
        + term(tables, "BB3"@, join(b4, b5))
        + term(tables, "TB1"@, join(join(b1, b2), b3))
        + term(tables, "TB2"@, join(join(b2, b3), b4))
        + term(tables, "TB3"@, join(join(b3, b4), b5))
        + term(tables, "TB4"@, join(join(b4, b5), b6))
}

/// The part of a score that judgements and block codes give together.
pub open spec fn cross_score(
    tables: Tables,
    p1: Option<Seq<char>>,
    p2: Option<Seq<char>>,
    p3: Option<Seq<char>>,
    b1: Option<Seq<char>>,
    b2: Option<Seq<char>>,
    b3: Option<Seq<char>>,
    b4: Option<Seq<char>>,
) -> int {
    term(tables, "UQ1"@, join(p1, b1))
        + term(tables, "UQ2"@, join(p2, b2))
        + term(tables, "UQ3"@, join(p3, b3))
        + term(tables, "BQ1"@, join(join(p2, b2), b3))
        + term(tables, "BQ2"@, join(join(p2, b3), b4))
        + term(tables, "BQ3"@, join(join(p3, b2), b3))
        + term(tables, "BQ4"@, join(join(p3, b3), b4))
        + term(tables, "TQ1"@, join(join(join(p2, b1), b2), b3))
        + term(tables, "TQ2"@, join(join(join(p2, b2), b3), b4))
        + term(tables, "TQ3"@, join(join(join(p3, b1), b2), b3))
        + term(tables, "TQ4"@, join(join(join(p3, b2), b3), b4))
}

/// The score of the boundary before position `i` of `text`, given the
/// judgements of the boundaries before it: the sum of the weights of the
/// keys of all families over the window from `i - 3` to `i + 2`.
pub open spec fn score(tables: Tables, text: Seq<char>, i: int, h: History) -> int {
    let p1 = tag_key(h.p1);
    let p2 = tag_key(h.p2);
    let p3 = tag_key(h.p3);
    let w1 = word_key(text, i - 3);
    let w2 = word_key(text, i - 2);
    let w3 = word_key(text, i - 1);
    let w4 = word_key(text, i);
    let w5 = word_key(text, i + 1);
    let w6 = word_key(text, i + 2);
    let b1 = block_key(text, i - 3);
    let b2 = block_key(text, i - 2);
    let b3 = block_key(text, i - 1);
    let b4 = block_key(text, i);
    let b5 = block_key(text, i + 1);
    let b6 = block_key(text, i + 2);
    tag_score(tables, p1, p2, p3) + word_score(tables, w1, w2, w3, w4, w5, w6) + block_score(
        tables,
        b1,
        b2,
        b3,
        b4,
        b5,
        b6,
    ) + cross_score(tables, p1, p2, p3, b1, b2, b3, b4)
}

/// One feature adds no more than a 32-bit weight.
proof fn lemma_term_fits(tables: Tables, family: Seq<char>, value: Option<Seq<char>>)
    requires
        weights_fit(tables),
    ensures
        i32::MIN <= term(tables, family, value) <= i32::MAX,
{
    match value {
        Some(v) => {
            lemma_weight_fits(tables, family, v);
        },
        None => {},
    }
}

proof fn lemma_tag_score_bounded(
    tables: Tables,
    p1: Option<Seq<char>>,
    p2: Option<Seq<char>>,
    p3: Option<Seq<char>>,
)
    requires
        weights_fit(tables),
    ensures
        -5 * 0x8000_0000 <= tag_score(tables, p1, p2, p3) <= 5 * 0x7fff_ffff,
{
    lemma_term_fits(tables, "UP1"@, p1);
    lemma_term_fits(tables, "UP2"@, p2);
    lemma_term_fits(tables, "UP3"@, p3);
    lemma_term_fits(tables, "BP1"@, join(p1, p2));
    lemma_term_fits(tables, "BP2"@, join(p2, p3));
}

proof fn lemma_word_score_bounded(
    tables: Tables,
    w1: Option<Seq<char>>,
    w2: Option<Seq<char>>,
    w3: Option<Seq<char>>,
    w4: Option<Seq<char>>,
    w5: Option<Seq<char>>,
    w6: Option<Seq<char>>,
)
    requires
        weights_fit(tables),
    ensures
        -13 * 0x8000_0000 <= word_score(tables, w1, w2, w3, w4, w5, w6) <= 13 * 0x7fff_ffff,
{
    lemma_term_fits(tables, "UW1"@, w1);
    lemma_term_fits(tables, "UW2"@, w2);
    lemma_term_fits(tables, "UW3"@, w3);
    lemma_term_fits(tables, "UW4"@, w4);
    lemma_term_fits(tables, "UW5"@, w5);
    lemma_term_fits(tables, "UW6"@, w6);
    lemma_term_fits(tables, "BW1"@, join(w2, w3));
    lemma_term_fits(tables, "BW2"@, join(w3, w4));
    lemma_term_fits(tables, "BW3"@, join(w4, w5));
    lemma_term_fits(tables, "TW1"@, join(join(w1, w2), w3));
    lemma_term_fits(tables, "TW2"@, join(join(w2, w3), w4));
    lemma_term_fits(tables, "TW3"@, join(join(w3, w4), w5));
    lemma_term_fits(tables, "TW4"@, join(join(w4, w5), w6));
}

proof fn lemma_block_score_bounded(
    tables: Tables,
    b1: Option<Seq<char>>,
    b2: Option<Seq<char>>,
    b3: Option<Seq<char>>,
    b4: Option<Seq<char>>,
    b5: Option<Seq<char>>,
    b6: Option<Seq<char>>,
)
    requires
        weights_fit(tables),
    ensures
        -13 * 0x8000_0000 <= block_score(tables, b1, b2, b3, b4, b5, b6) <= 13 * 0x7fff_ffff,
{
    lemma_term_fits(tables, "UB1"@, b1);
    lemma_term_fits(tables, "UB2"@, b2);
    lemma_term_fits(tables, "UB3"@, b3);
    lemma_term_fits(tables, "UB4"@, b4);
    lemma_term_fits(tables, "UB5"@, b5);
    lemma_term_fits(tables, "UB6"@, b6);
    lemma_term_fits(tables, "BB1"@, join(b2, b3));
    lemma_term_fits(tables, "BB2"@, join(b3, b4));
    lemma_term_fits(tables, "BB3"@, join(b4, b5));
    lemma_term_fits(tables, "TB1"@, join(join(b1, b2), b3));
    lemma_term_fits(tables, "TB2"@, join(join(b2, b3), b4));
    lemma_term_fits(tables, "TB3"@, join(join(b3, b4), b5));
    lemma_term_fits(tables, "TB4"@, join(join(b4, b5), b6));
}

proof fn lemma_cross_score_bounded(
    tables: Tables,
    p1: Option<Seq<char>>,
    p2: Option<Seq<char>>,
    p3: Option<Seq<char>>,
    b1: Option<Seq<char>>,
    b2: Option<Seq<char>>,
    b3: Option<Seq<char>>,
    b4: Option<Seq<char>>,
)
    requires
        weights_fit(tables),
    ensures
        -11 * 0x8000_0000 <= cross_score(tables, p1, p2, p3, b1, b2, b3, b4) <= 11 * 0x7fff_ffff,
{
    lemma_term_fits(tables, "UQ1"@, join(p1, b1));
    lemma_term_fits(tables, "UQ2"@, join(p2, b2));
    lemma_term_fits(tables, "UQ3"@, join(p3, b3));
    lemma_term_fits(tables, "BQ1"@, join(join(p2, b2), b3));
    lemma_term_fits(tables, "BQ2"@, join(join(p2, b3), b4));
    lemma_term_fits(tables, "BQ3"@, join(join(p3, b2), b3));
    lemma_term_fits(tables, "BQ4"@, join(join(p3, b3), b4));
    lemma_term_fits(tables, "TQ1"@, join(join(join(p2, b1), b2), b3));
    lemma_term_fits(tables, "TQ2"@, join(join(join(p2, b2), b3), b4));
    lemma_term_fits(tables, "TQ3"@, join(join(join(p3, b1), b2), b3));
    lemma_term_fits(tables, "TQ4"@, join(join(join(p3, b2), b3), b4));
}

/// A score is the sum of forty-two weights of 32 bits each.
pub proof fn lemma_score_bounded(tables: Tables, text: Seq<char>, i: int, h: History)
    requires
        weights_fit(tables),
    ensures
        -FEATURE_COUNT * 0x8000_0000 <= score(tables, text, i, h) <= FEATURE_COUNT * 0x7fff_ffff,
{
    let p1 = tag_key(h.p1);
    let p2 = tag_key(h.p2);
    let p3 = tag_key(h.p3);
    let b1 = block_key(text, i - 3);
    let b2 = block_key(text, i - 2);
    let b3 = block_key(text, i - 1);
    let b4 = block_key(text, i);
    lemma_tag_score_bounded(tables, p1, p2, p3);
    lemma_word_score_bounded(
        tables,
        word_key(text, i - 3),
        word_key(text, i - 2),
        word_key(text, i - 1),
        word_key(text, i),
        word_key(text, i + 1),
        word_key(text, i + 2),
    );
    lemma_block_score_bounded(
        tables,
        b1,
        b2,
        b3,
        b4,
        block_key(text, i + 1),
        block_key(text, i + 2),
    );
    lemma_cross_score_bounded(tables, p1, p2, p3, b1, b2, b3, b4);
}

/// The plain value of a key component.
pub open spec fn key_view(k: Option<Vec<char>>) -> Option<Seq<char>> {
    match k {
        Some(v) => Some(v@),
        None => None,
    }
}

/// Renders a tag as a key component.
pub fn tag_component(t: Tag) -> (k: Option<Vec<char>>)
    ensures
        key_view(k) == tag_key(t),
{
    let c: char = match t {
        Tag::Unknown => 'U',
        Tag::Positive => 'B',
        Tag::Negative => 'O',
    };
    let mut v: Vec<char> = Vec::new();
    v.push(c);
    assert(v@ =~= seq![tag_char(t)]);
    Some(v)
}

/// The position `back` places before `i`, where the text has one.
pub fn position_before(i: usize, back: usize) -> (j: Option<usize>)
    ensures
        j == (if back <= i {
            Some((i - back) as usize)
        } else {
            None::<usize>
        }),
{
    if back <= i {
        Some(i - back)
    } else {
        None
    }
}

/// The position `ahead` places after `i`, where the text has one.
pub fn position_after(i: usize, ahead: usize, len: usize) -> (j: Option<usize>)
    ensures
        j == (if i + ahead < len {
            Some((i + ahead) as usize)
        } else {
            None::<usize>
        }),
{
    if i < len && ahead < len - i {
        Some(i + ahead)
    } else {
        None
    }
}

/// The character at a window position as a key component.
pub fn word_component(chars: &Vec<char>, at: Option<usize>) -> (k: Option<Vec<char>>)
    ensures
        key_view(k) == match at {
            Some(j) => word_key(chars@, j as int),
            None => None,
        },
{
    match at {
        Some(j) => {
            if j < chars.len() {
                let mut v: Vec<char> = Vec::new();
                v.push(chars[j]);
                assert(v@ =~= seq![chars@[j as int]]);
                Some(v)
            } else {
                None
            }
        },
        None => None,
    }
}

/// The block code at a window position as a key component.
pub fn block_component(chars: &Vec<char>, at: Option<usize>) -> (k: Option<Vec<char>>)
    ensures
        key_view(k) == match at {
            Some(j) => block_key(chars@, j as int),
            None => None,
        },
{
    match at {
        Some(j) => {
            if j < chars.len() {
                Some(render_category(classify(chars[j])))
            } else {
                None
            }
        },
        None => None,
    }
}

/// Puts two key components side by side.
pub fn join_keys(a: &Option<Vec<char>>, b: &Option<Vec<char>>) -> (k: Option<Vec<char>>)
    ensures
        key_view(k) == join(key_view(*a), key_view(*b)),
{
    match a {
        Some(x) => match b {
            Some(y) => Some(concat_chars(x, y)),
            None => None,
        },
        None => None,
    }
}

/// Looks one feature key up in the model.
pub fn weigh(model: &Model, family: &str, value: &Option<Vec<char>>) -> (w: i32)
    ensures
        w as int == term(model@, family@, key_view(*value)),
{
    match value {
        Some(v) => model.lookup(family, v),
        None => 0,
    }
}

/// Sums the weights of the families over earlier judgements.
pub fn sum_tag_features(
    model: &Model,
    p1: &Option<Vec<char>>,
    p2: &Option<Vec<char>>,
    p3: &Option<Vec<char>>,
) -> (total: i64)
    ensures
        total as int == tag_score(model@, key_view(*p1), key_view(*p2), key_view(*p3)),
        -5 * 0x8000_0000 <= total <= 5 * 0x7fff_ffff,
{
    let k_p1_p2: Option<Vec<char>> = join_keys(p1, p2);
    let k_p2_p3: Option<Vec<char>> = join_keys(p2, p3);
    let mut total: i64 = 0;
    total = total + weigh(model, "UP1", p1) as i64;
    total = total + weigh(model, "UP2", p2) as i64;
    total = total + weigh(model, "UP3", p3) as i64;
    total = total + weigh(model, "BP1", &k_p1_p2) as i64;
    total = total + weigh(model, "BP2", &k_p2_p3) as i64;
    total
}

/// Sums the weights of the families over characters.
pub fn sum_word_features(
    model: &Model,
    w1: &Option<Vec<char>>,
    w2: &Option<Vec<char>>,
    w3: &Option<Vec<char>>,
    w4: &Option<Vec<char>>,
    w5: &Option<Vec<char>>,
    w6: &Option<Vec<char>>,
) -> (total: i64)
    ensures
        total as int == word_score(
            model@,
            key_view(*w1),
            key_view(*w2),
            key_view(*w3),
            key_view(*w4),
            key_view(*w5),
            key_view(*w6),
        ),
        -13 * 0x8000_0000 <= total <= 13 * 0x7fff_ffff,
{
    let k_w2_w3: Option<Vec<char>> = join_keys(w2, w3);
    let k_w3_w4: Option<Vec<char>> = join_keys(w3, w4);
    let k_w4_w5: Option<Vec<char>> = join_keys(w4, w5);
    let k_w1_w2: Option<Vec<char>> = join_keys(w1, w2);
    let k_w1_w2_w3: Option<Vec<char>> = join_keys(&k_w1_w2, w3);
    let k_w2_w3_w4: Option<Vec<char>> = join_keys(&k_w2_w3, w4);
    let k_w3_w4_w5: Option<Vec<char>> = join_keys(&k_w3_w4, w5);
    let k_w4_w5_w6: Option<Vec<char>> = join_keys(&k_w4_w5, w6);
    let mut total: i64 = 0;
    total = total + weigh(model, "UW1", w1) as i64;
    total = total + weigh(model, "UW2", w2) as i64;
    total = total + weigh(model, "UW3", w3) as i64;
    total = total + weigh(model, "UW4", w4) as i64;
    total = total + weigh(model, "UW5", w5) as i64;
    total = total + weigh(model, "UW6", w6) as i64;
    total = total + weigh(model, "BW1", &k_w2_w3) as i64;
    total = total + weigh(model, "BW2", &k_w3_w4) as i64;
    total = total + weigh(model, "BW3", &k_w4_w5) as i64;
    total = total + weigh(model, "TW1", &k_w1_w2_w3) as i64;
    total = total + weigh(model, "TW2", &k_w2_w3_w4) as i64;
    total = total + weigh(model, "TW3", &k_w3_w4_w5) as i64;
    total = total + weigh(model, "TW4", &k_w4_w5_w6) as i64;
    total
}

/// Sums the weights of the families over block codes.
pub fn sum_block_features(
    model: &Model,
    b1: &Option<Vec<char>>,
    b2: &Option<Vec<char>>,
    b3: &Option<Vec<char>>,
    b4: &Option<Vec<char>>,
    b5: &Option<Vec<char>>,
    b6: &Option<Vec<char>>,
) -> (total: i64)
    ensures
        total as int == block_score(
            model@,
            key_view(*b1),
            key_view(*b2),
            key_view(*b3),
            key_view(*b4),
            key_view(*b5),
            key_view(*b6),
        ),
        -13 * 0x8000_0000 <= total <= 13 * 0x7fff_ffff,
{
    let k_b2_b3: Option<Vec<char>> = join_keys(b2, b3);
    let k_b3_b4: Option<Vec<char>> = join_keys(b3, b4);
    let k_b4_b5: Option<Vec<char>> = join_keys(b4, b5);
    let k_b1_b2: Option<Vec<char>> = join_keys(b1, b2);
    let k_b1_b2_b3: Option<Vec<char>> = join_keys(&k_b1_b2, b3);
    let k_b2_b3_b4: Option<Vec<char>> = join_keys(&k_b2_b3, b4);
    let k_b3_b4_b5: Option<Vec<char>> = join_keys(&k_b3_b4, b5);
    let k_b4_b5_b6: Option<Vec<char>> = join_keys(&k_b4_b5, b6);
    let mut total: i64 = 0;
    total = total + weigh(model, "UB1", b1) as i64;
    total = total + weigh(model, "UB2", b2) as i64;
    total = total + weigh(model, "UB3", b3) as i64;
    total = total + weigh(model, "UB4", b4) as i64;
    total = total + weigh(model, "UB5", b5) as i64;
    total = total + weigh(model, "UB6", b6) as i64;
    total = total + weigh(model, "BB1", &k_b2_b3) as i64;
    total = total + weigh(model, "BB2", &k_b3_b4) as i64;
    total = total + weigh(model, "BB3", &k_b4_b5) as i64;
    total = total + weigh(model, "TB1", &k_b1_b2_b3) as i64;
    total = total + weigh(model, "TB2", &k_b2_b3_b4) as i64;
    total = total + weigh(model, "TB3", &k_b3_b4_b5) as i64;
    total = total + weigh(model, "TB4", &k_b4_b5_b6) as i64;
    total
}

/// Sums the weights of the families over judgements and block codes.
pub fn sum_cross_features(
    model: &Model,
    p1: &Option<Vec<char>>,
    p2: &Option<Vec<char>>,
    p3: &Option<Vec<char>>,
    b1: &Option<Vec<char>>,
    b2: &Option<Vec<char>>,
    b3: &Option<Vec<char>>,
    b4: &Option<Vec<char>>,
) -> (total: i64)
    ensures
        total as int == cross_score(
            model@,
            key_view(*p1),
            key_view(*p2),
            key_view(*p3),
            key_view(*b1),
            key_view(*b2),
            key_view(*b3),
            key_view(*b4),
        ),
        -11 * 0x8000_0000 <= total <= 11 * 0x7fff_ffff,
{
    let k_p1_b1: Option<Vec<char>> = join_keys(p1, b1);
    let k_p2_b2: Option<Vec<char>> = join_keys(p2, b2);
    let k_p3_b3: Option<Vec<char>> = join_keys(p3, b3);
    let k_p2_b2_b3: Option<Vec<char>> = join_keys(&k_p2_b2, b3);
    let k_p2_b3: Option<Vec<char>> = join_keys(p2, b3);
    let k_p2_b3_b4: Option<Vec<char>> = join_keys(&k_p2_b3, b4);
    let k_p3_b2: Option<Vec<char>> = join_keys(p3, b2);
    let k_p3_b2_b3: Option<Vec<char>> = join_keys(&k_p3_b2, b3);
    let k_p3_b3_b4: Option<Vec<char>> = join_keys(&k_p3_b3, b4);
    let k_p2_b1: Option<Vec<char>> = join_keys(p2, b1);
    let k_p2_b1_b2: Option<Vec<char>> = join_keys(&k_p2_b1, b2);
    let k_p2_b1_b2_b3: Option<Vec<char>> = join_keys(&k_p2_b1_b2, b3);
    let k_p2_b2_b3_b4: Option<Vec<char>> = join_keys(&k_p2_b2_b3, b4);
    let k_p3_b1: Option<Vec<char>> = join_keys(p3, b1);
    let k_p3_b1_b2: Option<Vec<char>> = join_keys(&k_p3_b1, b2);
    let k_p3_b1_b2_b3: Option<Vec<char>> = join_keys(&k_p3_b1_b2, b3);
    let k_p3_b2_b3_b4: Option<Vec<char>> = join_keys(&k_p3_b2_b3, b4);
    let mut total: i64 = 0;
    total = total + weigh(model, "UQ1", &k_p1_b1) as i64;
    total = total + weigh(model, "UQ2", &k_p2_b2) as i64;
    total = total + weigh(model, "UQ3", &k_p3_b3) as i64;
    total = total + weigh(model, "BQ1", &k_p2_b2_b3) as i64;
    total = total + weigh(model, "BQ2", &k_p2_b3_b4) as i64;
    total = total + weigh(model, "BQ3", &k_p3_b2_b3) as i64;
    total = total + weigh(model, "BQ4", &k_p3_b3_b4) as i64;
    total = total + weigh(model, "TQ1", &k_p2_b1_b2_b3) as i64;
    total = total + weigh(model, "TQ2", &k_p2_b2_b3_b4) as i64;
    total = total + weigh(model, "TQ3", &k_p3_b1_b2_b3) as i64;
    total = total + weigh(model, "TQ4", &k_p3_b2_b3_b4) as i64;
    total
}

/// Scores the boundary before position `i`.
pub fn score_boundary(model: &Model, chars: &Vec<char>, i: usize, h: History) -> (total: i64)
    ensures
        total as int == score(model@, chars@, i as int, h),
        -FEATURE_COUNT * 0x8000_0000 <= total <= FEATURE_COUNT * 0x7fff_ffff,
{
    let n: usize = chars.len();
    let p1: Option<Vec<char>> = tag_component(h.p1);
    let p2: Option<Vec<char>> = tag_component(h.p2);
    let p3: Option<Vec<char>> = tag_component(h.p3);
    let j1: Option<usize> = position_before(i, 3);
    let j2: Option<usize> = position_before(i, 2);
    let j3: Option<usize> = position_before(i, 1);
    let j4: Option<usize> = position_after(i, 0, n);
    let j5: Option<usize> = position_after(i, 1, n);
    let j6: Option<usize> = position_after(i, 2, n);
    let w1: Option<Vec<char>> = word_component(chars, j1);
    let w2: Option<Vec<char>> = word_component(chars, j2);
    let w3: Option<Vec<char>> = word_component(chars, j3);
    let w4: Option<Vec<char>> = word_component(chars, j4);
    let w5: Option<Vec<char>> = word_component(chars, j5);
    let w6: Option<Vec<char>> = word_component(chars, j6);
    let b1: Option<Vec<char>> = block_component(chars, j1);
    let b2: Option<Vec<char>> = block_component(chars, j2);
    let b3: Option<Vec<char>> = block_component(chars, j3);
    let b4: Option<Vec<char>> = block_component(chars, j4);
    let b5: Option<Vec<char>> = block_component(chars, j5);
    let b6: Option<Vec<char>> = block_component(chars, j6);
    let tags: i64 = sum_tag_features(model, &p1, &p2, &p3);
    let words: i64 = sum_word_features(model, &w1, &w2, &w3, &w4, &w5, &w6);
    let blocks: i64 = sum_block_features(model, &b1, &b2, &b3, &b4, &b5, &b6);
    let crossed: i64 = sum_cross_features(model, &p1, &p2, &p3, &b1, &b2, &b3, &b4);
    tags + words + blocks + crossed
}

} // verus!
