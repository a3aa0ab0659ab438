use vstd::prelude::*;

verus! {

/// Number of entries in [`BLOCK_STARTS`].
pub const BLOCK_COUNT: usize = 170;

/// First code point of each Unicode block of the Basic Multilingual Plane,
/// followed by the first code point of each supplementary plane, ascending.
pub const BLOCK_STARTS: [u32; 170] = [
    0x0000, 0x0080, 0x0100, 0x0180, 0x0250, 0x02B0, 0x0300, 0x0370,
    0x0400, 0x0500, 0x0530, 0x0590, 0x0600, 0x0700, 0x0750, 0x0780,
    0x07C0, 0x0800, 0x0840, 0x0860, 0x0870, 0x08A0, 0x0900, 0x0980,
    0x0A00, 0x0A80, 0x0B00, 0x0B80, 0x0C00, 0x0C80, 0x0D00, 0x0D80,
    0x0E00, 0x0E80, 0x0F00, 0x1000, 0x10A0, 0x1100, 0x1200, 0x1380,
    0x13A0, 0x1400, 0x1680, 0x16A0, 0x1700, 0x1720, 0x1740, 0x1760,
    0x1780, 0x1800, 0x18B0, 0x1900, 0x1950, 0x1980, 0x19E0, 0x1A00,
    0x1A20, 0x1AB0, 0x1B00, 0x1B80, 0x1BC0, 0x1C00, 0x1C50, 0x1C80,
    0x1C90, 0x1CC0, 0x1CD0, 0x1D00, 0x1D80, 0x1DC0, 0x1E00, 0x1F00,
    0x2000, 0x2070, 0x20A0, 0x20D0, 0x2100, 0x2150, 0x2190, 0x2200,
    0x2300, 0x2400, 0x2440, 0x2460, 0x2500, 0x2580, 0x25A0, 0x2600,
    0x2700, 0x27C0, 0x27F0, 0x2800, 0x2900, 0x2980, 0x2A00, 0x2B00,
    0x2C00, 0x2C60, 0x2C80, 0x2D00, 0x2D30, 0x2D80, 0x2DE0, 0x2E00,
    0x2E80, 0x2F00, 0x2FF0, 0x3000, 0x3040, 0x30A0, 0x3100, 0x3130,
    0x3190, 0x31A0, 0x31C0, 0x31F0, 0x3200, 0x3300, 0x3400, 0x4DC0,
    0x4E00, 0xA000, 0xA490, 0xA4D0, 0xA500, 0xA640, 0xA6A0, 0xA700,
    0xA720, 0xA800, 0xA830, 0xA840, 0xA880, 0xA8E0, 0xA900, 0xA930,
    0xA960, 0xA980, 0xA9E0, 0xAA00, 0xAA60, 0xAA80, 0xAAE0, 0xAB00,
    0xAB30, 0xAB70, 0xABC0, 0xAC00, 0xD7B0, 0xD800, 0xDB80, 0xDC00,
    0xE000, 0xF900, 0xFB00, 0xFB50, 0xFE00, 0xFE10, 0xFE20, 0xFE30,
    0xFE50, 0xFE70, 0xFF00, 0xFFF0, 0x10000, 0x20000, 0x30000, 0xE0000,
    0xF0000, 0x100000,
];

/// How many of the first `n` entries of `table` are at or below `cp`.
pub open spec fn count_at_or_below(table: Seq<u32>, cp: u32, n: int) -> nat
    decreases n,
{
    if n <= 0 {
        0
    } else {
        count_at_or_below(table, cp, n - 1) + if table[n - 1] <= cp {
            1nat
        } else {
            0nat
        }
    }
}

/// The category of a code point: the number of block starts at or below it.
/// The table ascends, so this is the place at which the code point would be
/// inserted, and one more than the index of an entry that equals it.
pub open spec fn category_of(cp: u32) -> nat {
    count_at_or_below(BLOCK_STARTS@, cp, BLOCK_STARTS@.len() as int)
}

/// The block category of a character.
pub open spec fn block_category(c: char) -> nat {
    category_of(c as u32)
}

/// Whether the first `n` entries of `table` ascend strictly.
pub open spec fn ascending(table: Seq<u32>, n: int) -> bool
    decreases n,
{
    n <= 1 || (ascending(table, n - 1) && table[n - 2] < table[n - 1])
}

/// Whether every entry of `table` is below every later one.
#[verifier::opaque]
pub open spec fn strictly_ascending(table: Seq<u32>) -> bool {
    forall|j: int, k: int| 0 <= j < k < table.len() ==> #[trigger] table[j] < #[trigger] table[k]
}

/// The block starts ascend strictly.
pub proof fn lemma_block_starts_ascending()
    ensures
        ascending(BLOCK_STARTS@, BLOCK_COUNT as int),
        strictly_ascending(BLOCK_STARTS@),
{
    reveal_with_fuel(ascending, 10);
    assert(ascending(BLOCK_STARTS@, 8));
    assert(ascending(BLOCK_STARTS@, 16));
    assert(ascending(BLOCK_STARTS@, 24));
    assert(ascending(BLOCK_STARTS@, 32));
    assert(ascending(BLOCK_STARTS@, 40));
    assert(ascending(BLOCK_STARTS@, 48));
    assert(ascending(BLOCK_STARTS@, 56));
    assert(ascending(BLOCK_STARTS@, 64));
    assert(ascending(BLOCK_STARTS@, 72));
    assert(ascending(BLOCK_STARTS@, 80));
    assert(ascending(BLOCK_STARTS@, 88));
    assert(ascending(BLOCK_STARTS@, 96));
    assert(ascending(BLOCK_STARTS@, 104));
    assert(ascending(BLOCK_STARTS@, 112));
    assert(ascending(BLOCK_STARTS@, 120));
    assert(ascending(BLOCK_STARTS@, 128));
    assert(ascending(BLOCK_STARTS@, 136));
    assert(ascending(BLOCK_STARTS@, 144));
    assert(ascending(BLOCK_STARTS@, 152));
    assert(ascending(BLOCK_STARTS@, 160));
    assert(ascending(BLOCK_STARTS@, 168));
    lemma_ascending_pairs(BLOCK_STARTS@, BLOCK_COUNT as int);
}

proof fn lemma_ascending_prefix(table: Seq<u32>, n: int)
    requires
        ascending(table, n),
        n <= table.len(),
    ensures
        forall|j: int, k: int| 0 <= j < k < n ==> #[trigger] table[j] < #[trigger] table[k],
    decreases n,
{
    if n > 1 {
        lemma_ascending_prefix(table, n - 1);
        assert forall|j: int, k: int| 0 <= j < k < n implies #[trigger] table[j]
            < #[trigger] table[k] by {
            if k == n - 1 && j < n - 2 {
                assert(table[j] < table[n - 2]);
            }
        }
    }
}

/// A table whose neighbours ascend has every entry below every later one.
pub proof fn lemma_ascending_pairs(table: Seq<u32>, n: int)
    requires
        ascending(table, n),
        n == table.len(),
    ensures
        strictly_ascending(table),
{
    reveal(strictly_ascending);
    lemma_ascending_prefix(table, n);
}

/// Where the first `k` of `n` entries are at or below `cp` and the others
/// above it, `k` is the count.
proof fn lemma_count_at_split(table: Seq<u32>, cp: u32, n: int, k: int)
    requires
        0 <= k <= n <= table.len(),
        forall|j: int| 0 <= j < k ==> #[trigger] table[j] <= cp,
        forall|j: int| k <= j < n ==> #[trigger] table[j] > cp,
    ensures
        count_at_or_below(table, cp, n) == k,
    decreases n,
{
    if n > 0 {
        if k == n {
            lemma_count_at_split(table, cp, n - 1, k - 1);
        } else {
            lemma_count_at_split(table, cp, n - 1, k);
        }
    }
}

/// In an ascending table, a code point strictly between the entries at
/// `k - 1` and `k`, or equal to the one at `k - 1`, has `k` entries at or
/// below it.
pub proof fn lemma_count_at_place(table: Seq<u32>, cp: u32, k: int)
    requires
        strictly_ascending(table),
        0 <= k <= table.len(),
        k > 0 ==> table[k - 1] <= cp,
        k < table.len() ==> cp < table[k],
    ensures
        count_at_or_below(table, cp, table.len() as int) == k,
{
    reveal(strictly_ascending);
    assert forall|j: int| 0 <= j < k implies #[trigger] table[j] <= cp by {
        if j < k - 1 {
            assert(table[j] < table[k - 1]);
        }
    }
    assert forall|j: int| k <= j < table.len() implies #[trigger] table[j] > cp by {
        if j > k {
            assert(table[k] < table[j]);
        }
    }
    lemma_count_at_split(table, cp, table.len() as int, k);
}

/// In an ascending table, the entry at index `k` has `k + 1` entries at or
/// below it.
pub proof fn lemma_count_at_entry(table: Seq<u32>, k: int)
    requires
        strictly_ascending(table),
        0 <= k < table.len(),
    ensures
        count_at_or_below(table, table[k], table.len() as int) == k + 1,
{
    assert(k + 1 < table.len() ==> table[k] < table[k + 1]) by {
        reveal(strictly_ascending);
    }
    lemma_count_at_place(table, table[k], k + 1);
}

/// A code point that equals the entry at index `k` has category `k + 1`.
pub proof fn lemma_exact_entry(k: int)
    requires
        0 <= k < BLOCK_COUNT,
    ensures
        category_of(BLOCK_STARTS@[k]) == k + 1,
{
    lemma_block_starts_ascending();
    lemma_count_at_entry(BLOCK_STARTS@, k);
}

/// A code point strictly between two neighbouring entries, or above the
/// last one, has the index of the upper neighbour as its category: the
/// place at which it would be inserted.
pub proof fn lemma_insertion_point(cp: u32, k: int)
    requires
        1 <= k <= BLOCK_COUNT,
        BLOCK_STARTS@[k - 1] < cp,
        k < BLOCK_COUNT ==> cp < BLOCK_STARTS@[k],
    ensures
        category_of(cp) == k,
{
    lemma_block_starts_ascending();
    lemma_count_at_place(BLOCK_STARTS@, cp, k);
}

/// How many entries of an ascending table are at or below `cp`, by binary
/// search.
pub fn count_entries_at_or_below(table: &[u32], cp: u32) -> (count: usize)
    requires
        strictly_ascending(table@),
    ensures
        count as nat == count_at_or_below(table@, cp, table@.len() as int),
        count <= table@.len(),
{
    let mut low: usize = 0;
    let mut high: usize = table.len();
    while low < high
        invariant
            low <= high <= table@.len(),
            strictly_ascending(table@),
            low > 0 ==> table@[low - 1] <= cp,
            high < table@.len() ==> cp < table@[high as int],
        decreases high - low,
    {
        let mid: usize = low + (high - low) / 2;
        if table[mid] <= cp {
            low = mid + 1;
        } else {
            high = mid;
        }
    }
    proof {
        lemma_count_at_place(table@, cp, low as int);
    }
    low
}

/// Classifies a character by Unicode block.
pub fn classify(c: char) -> (category: u32)
    ensures
        category as nat == block_category(c),
        category <= BLOCK_COUNT,
{
    proof {
        lemma_block_starts_ascending();
    }
    let count: usize = count_entries_at_or_below(BLOCK_STARTS.as_slice(), c as u32);
    count as u32
}

/// The three decimal digits of a category, most significant first.
pub open spec fn category_code(category: nat) -> Seq<char> {
    seq![
        digit_char(category / 100 % 10),
        digit_char(category / 10 % 10),
        digit_char(category % 10),
    ]
}

/// The character of a decimal digit.
pub open spec fn digit_char(d: nat) -> char {
    if d == 0 {
        '0'
    } else if d == 1 {
        '1'
    } else if d == 2 {
        '2'
    } else if d == 3 {
        '3'
    } else if d == 4 {
        '4'
    } else if d == 5 {
        '5'
    } else if d == 6 {
        '6'
    } else if d == 7 {
        '7'
    } else if d == 8 {
        '8'
    } else {
        '9'
    }
}

/// Renders one decimal digit.
pub fn render_digit(d: u32) -> (c: char)
    requires
        d < 10,
    ensures
        c == digit_char(d as nat),
{
    if d == 0 {
        '0'
    } else if d == 1 {
        '1'
    } else if d == 2 {
        '2'
    } else if d == 3 {
        '3'
    } else if d == 4 {
        '4'
    } else if d == 5 {
        '5'
    } else if d == 6 {
        '6'
    } else if d == 7 {
        '7'
    } else if d == 8 {
        '8'
    } else {
        '9'
    }
}

/// Renders a category as its fixed-width code.
pub fn render_category(category: u32) -> (code: Vec<char>)
    requires
        category < 1000,
    ensures
        code@ == category_code(category as nat),
{
    let mut code: Vec<char> = Vec::new();
    code.push(render_digit(category / 100 % 10));
    code.push(render_digit(category / 10 % 10));
    code.push(render_digit(category % 10));
    assert(code@ =~= category_code(category as nat));
    code
}

} // verus!
