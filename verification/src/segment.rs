use crate::features::{lemma_score_bounded, score, score_boundary, History, Tag, FEATURE_COUNT};
use crate::model::{weights_fit, Model, Tables};
use crate::text::to_chars;
use vstd::prelude::*;
use vstd::string::*;

verus! {

/// The threshold that [`Model::parse`] splits at.
pub const DEFAULT_THRESHOLD: i32 = 1000;

/// A threshold that no score can pass.
pub const TOP_THRESHOLD: i64 = FEATURE_COUNT * 0x7fff_ffff;

/// How a boundary with the given score is remembered.
pub open spec fn outcome(score: int) -> Tag {
    if score > 0 {
        Tag::Positive
    } else {
        Tag::Negative
    }
}

/// The history before the first boundary.
pub open spec fn no_history() -> History {
    History { p1: Tag::Unknown, p2: Tag::Unknown, p3: Tag::Unknown }
}

/// The history after a boundary with the given score.
pub open spec fn advance(h: History, score: int) -> History {
    History { p1: h.p2, p2: h.p3, p3: outcome(score) }
}

/// The judgements of the three boundaries before boundary `i`.
pub open spec fn history_before(tables: Tables, text: Seq<char>, i: int) -> History
    decreases i,
{
    if i <= 1 {
        no_history()
    } else {
        let h = history_before(tables, text, i - 1);
        advance(h, score(tables, text, i - 1, h))
    }
}

/// The score of the boundary before position `i`, in a scan from the left.
pub open spec fn boundary_score(tables: Tables, text: Seq<char>, i: int) -> int {
    score(tables, text, i, history_before(tables, text, i))
}

/// Whether the text is split before position `i`.
pub open spec fn is_split(tables: Tables, text: Seq<char>, threshold: int, i: int) -> bool {
    1 <= i < text.len() && boundary_score(tables, text, i) > threshold
}

/// The positions below `n` that the text is split before, ascending.
pub open spec fn split_points(tables: Tables, text: Seq<char>, threshold: int, n: int) -> Seq<int>
    decreases n,
{
    if n <= 1 {
        Seq::empty()
    } else {
        let before = split_points(tables, text, threshold, n - 1);
        if is_split(tables, text, threshold, n - 1) {
            before.push(n - 1)
        } else {
            before
        }
    }
}

/// Whether `cuts` ascends strictly and lies between 1 and `n - 1`.
pub open spec fn ascending_within(cuts: Seq<int>, n: int) -> bool {
    &&& forall|k: int| 0 <= k < cuts.len() ==> 1 <= #[trigger] cuts[k] < n
    &&& forall|j: int, k: int| 0 <= j < k < cuts.len() ==> #[trigger] cuts[j] < #[trigger] cuts[k]
}

/// The character position at which piece `k` starts.
pub open spec fn piece_start(cuts: Seq<int>, k: int) -> int {
    if k <= 0 {
        0
    } else {
        cuts[k - 1]
    }
}

/// The character position at which piece `k` ends.
pub open spec fn piece_end(text: Seq<char>, cuts: Seq<int>, k: int) -> int {
    if k >= cuts.len() {
        text.len() as int
    } else {
        cuts[k]
    }
}

/// The text cut at the given character positions.
pub open spec fn pieces(text: Seq<char>, cuts: Seq<int>) -> Seq<Seq<char>> {
    Seq::new(
        cuts.len() + 1,
        |k: int| text.subrange(piece_start(cuts, k), piece_end(text, cuts, k)),
    )
}

/// The chunks of `text` under a weight table and a threshold. The empty
/// text has no chunk.
pub open spec fn chunks(tables: Tables, text: Seq<char>, threshold: int) -> Seq<Seq<char>> {
    if text.len() == 0 {
        Seq::empty()
    } else {
        pieces(text, split_points(tables, text, threshold, text.len() as int))
    }
}

/// The parts one after another.
pub open spec fn concat(parts: Seq<Seq<char>>) -> Seq<char>
    decreases parts.len(),
{
    if parts.len() == 0 {
        Seq::empty()
    } else {
        concat(parts.drop_last()) + parts.last()
    }
}

/// What each slice of a result spells.
pub open spec fn texts(out: Seq<&str>) -> Seq<Seq<char>> {
    out.map_values(|s: &str| s@)
}

/// Positions as mathematical integers.
pub open spec fn positions(cuts: Seq<usize>) -> Seq<int> {
    cuts.map_values(|c: usize| c as int)
}

proof fn lemma_split_points_ascending(
    tables: Tables,
    text: Seq<char>,
    threshold: int,
    n: int,
)
    ensures
        ascending_within(split_points(tables, text, threshold, n), n),
        n <= text.len() ==> ascending_within(
            split_points(tables, text, threshold, n),
            text.len() as int,
        ),
    decreases n,
{
    if n > 1 {
        lemma_split_points_ascending(tables, text, threshold, n - 1);
    }
}

proof fn lemma_pieces_concat(text: Seq<char>, cuts: Seq<int>)
    requires
        ascending_within(cuts, text.len() as int),
    ensures
        concat(pieces(text, cuts)) == text,
    decreases cuts.len(),
{
    let all = pieces(text, cuts);
    if cuts.len() == 0 {
        assert(all.drop_last() =~= Seq::<Seq<char>>::empty());
        assert(concat(all.drop_last()) =~= Seq::<char>::empty());
        assert(all.last() =~= text);
        assert(concat(all) =~= text);
    } else {
        let c = cuts.last();
        let head = text.subrange(0, c);
        let rest = cuts.drop_last();
        assert(ascending_within(rest, c)) by {
            assert forall|k: int| 0 <= k < rest.len() implies 1 <= #[trigger] rest[k] < c by {
                assert(cuts[k] < cuts[cuts.len() - 1]);
            }
        }
        lemma_pieces_concat(head, rest);
        assert(all.drop_last() =~= pieces(head, rest)) by {
            assert forall|k: int| 0 <= k < rest.len() + 1 implies all.drop_last()[k] == pieces(
                head,
                rest,
            )[k] by {
                if k > 0 {
                    assert(rest[k - 1] == cuts[k - 1]);
                }
                if k < rest.len() {
                    assert(rest[k] == cuts[k]);
                    assert(cuts[k] < cuts[cuts.len() - 1]);
                }
                assert(text.subrange(piece_start(cuts, k), piece_end(text, cuts, k))
                    =~= head.subrange(piece_start(rest, k), piece_end(head, rest, k)));
            }
        }
        assert(all.last() == text.subrange(c, text.len() as int));
        assert(head + text.subrange(c, text.len() as int) =~= text);
    }
}

proof fn lemma_split_points_shrink(
    tables: Tables,
    text: Seq<char>,
    low: int,
    high: int,
    n: int,
)
    requires
        low <= high,
    ensures
        split_points(tables, text, high, n).len() <= split_points(tables, text, low, n).len(),
    decreases n,
{
    if n > 1 {
        lemma_split_points_shrink(tables, text, low, high, n - 1);
    }
}

proof fn lemma_no_split_points(tables: Tables, text: Seq<char>, threshold: int, n: int)
    requires
        forall|i: int| 1 <= i < n ==> !is_split(tables, text, threshold, i),
    ensures
        split_points(tables, text, threshold, n) == Seq::<int>::empty(),
    decreases n,
{
    if n > 1 {
        lemma_no_split_points(tables, text, threshold, n - 1);
    }
}

/// The chunks of a text, one after another, spell the text again.
pub proof fn lemma_round_trip(tables: Tables, text: Seq<char>, threshold: int)
    ensures
        concat(chunks(tables, text, threshold)) == text,
{
    if text.len() == 0 {
        assert(concat(Seq::<Seq<char>>::empty()) =~= text);
    } else {
        lemma_split_points_ascending(tables, text, threshold, text.len() as int);
        lemma_pieces_concat(text, split_points(tables, text, threshold, text.len() as int));
    }
}

/// Every chunk is a run of whole characters of the text: it starts at a
/// character position, ends at a later one, and the next chunk starts where
/// it ends.
pub proof fn lemma_chunks_are_character_runs(tables: Tables, text: Seq<char>, threshold: int)
    ensures
        ({
            let cuts = split_points(tables, text, threshold, text.len() as int);
            let parts = chunks(tables, text, threshold);
            forall|k: int|
                0 <= k < parts.len() ==> {
                    &&& 0 <= piece_start(cuts, k) < piece_end(text, cuts, k) <= text.len()
                    &&& #[trigger] parts[k] == text.subrange(
                        piece_start(cuts, k),
                        piece_end(text, cuts, k),
                    )
                    &&& k + 1 < parts.len() ==> piece_end(text, cuts, k) == piece_start(cuts, k + 1)
                    &&& parts[k].len() > 0
                }
        }),
{
    let cuts = split_points(tables, text, threshold, text.len() as int);
    let parts = chunks(tables, text, threshold);
    lemma_split_points_ascending(tables, text, threshold, text.len() as int);
    assert forall|k: int| 0 <= k < parts.len() implies {
        &&& 0 <= piece_start(cuts, k) < piece_end(text, cuts, k) <= text.len()
        &&& #[trigger] parts[k] == text.subrange(piece_start(cuts, k), piece_end(text, cuts, k))
        &&& k + 1 < parts.len() ==> piece_end(text, cuts, k) == piece_start(cuts, k + 1)
        &&& parts[k].len() > 0
    } by {
        if k > 0 {
            assert(1 <= cuts[k - 1] < text.len());
        }
        if k < cuts.len() {
            assert(1 <= cuts[k] < text.len());
            if k > 0 {
                assert(cuts[k - 1] < cuts[k]);
            }
        }
    }
}

/// A higher threshold never gives more chunks.
pub proof fn lemma_threshold_monotone(tables: Tables, text: Seq<char>, low: int, high: int)
    requires
        low <= high,
    ensures
        chunks(tables, text, high).len() <= chunks(tables, text, low).len(),
{
    lemma_split_points_shrink(tables, text, low, high, text.len() as int);
}

/// A text of one character is its own single chunk, and the empty text has
/// no chunk at all.
pub proof fn lemma_trivial_texts(tables: Tables, text: Seq<char>, threshold: int)
    ensures
        text.len() == 0 ==> chunks(tables, text, threshold) == Seq::<Seq<char>>::empty(),
        text.len() == 1 ==> chunks(tables, text, threshold) == seq![text],
{
    if text.len() == 1 {
        assert(chunks(tables, text, threshold) =~= seq![text]) by {
            assert(pieces(text, Seq::<int>::empty())[0] =~= text);
        }
    }
}

/// A threshold that no boundary's score passes leaves a text whole.
pub proof fn lemma_unreached_threshold(tables: Tables, text: Seq<char>, threshold: int)
    requires
        text.len() > 0,
        forall|i: int| 1 <= i < text.len() ==> boundary_score(tables, text, i) <= threshold,
    ensures
        chunks(tables, text, threshold) == seq![text],
{
    lemma_no_split_points(tables, text, threshold, text.len() as int);
    assert(chunks(tables, text, threshold) =~= seq![text]) by {
        assert(pieces(text, Seq::<int>::empty())[0] =~= text);
    }
}

/// At [`TOP_THRESHOLD`] or above, every text is left whole, whatever the
/// weights.
pub proof fn lemma_top_threshold(tables: Tables, text: Seq<char>, threshold: int)
    requires
        weights_fit(tables),
        text.len() > 0,
        threshold >= TOP_THRESHOLD,
    ensures
        chunks(tables, text, threshold) == seq![text],
{
    assert forall|i: int| 1 <= i < text.len() implies boundary_score(tables, text, i)
        <= threshold by {
        lemma_score_bounded(tables, text, i, history_before(tables, text, i));
    }
    lemma_unreached_threshold(tables, text, threshold);
}

/// The threshold that stands for a normalization constant: the largest
/// score at which `base + 2 * score` is not above zero.
pub open spec fn normalized_threshold_of(base: int) -> int {
    (-base) / 2
}

/// Splitting where `base + 2 * score` is above zero is splitting where the
/// score is above the threshold that stands for `base`.
pub proof fn lemma_normalized_rule(base: int, score: int)
    ensures
        (base + 2 * score > 0) <==> (score > normalized_threshold_of(base)),
{
}

/// The threshold that stands for a normalization constant.
pub fn normalized_threshold(base: i64) -> (threshold: i64)
    ensures
        threshold as int == normalized_threshold_of(base as int),
{
    if base > 0 {
        let half: u64 = (base as u64 + 1) / 2;
        -(half as i64)
    } else if base == 0 {
        0
    } else {
        let opposite: u64 = (-(base + 1)) as u64 + 1;
        (opposite / 2) as i64
    }
}

impl Model {
    /// Segments `input` at the default threshold.
    pub fn parse<'i>(&self, input: &'i str) -> (out: Vec<&'i str>)
        ensures
            texts(out@) == chunks(self@, input@, DEFAULT_THRESHOLD as int),
            concat(texts(out@)) == input@,
            input@.len() == 0 ==> out@.len() == 0,
            input@.len() == 1 ==> texts(out@) == seq![input@],
    {
        self.parse_with_threshold(input, DEFAULT_THRESHOLD as i64)
    }

    /// Segments `input`: scans its boundaries from the left and splits at
    /// each one whose score is above `threshold`. The empty input gives no
    /// chunk.
    pub fn parse_with_threshold<'i>(&self, input: &'i str, threshold: i64) -> (out: Vec<&'i str>)
        ensures
            texts(out@) == chunks(self@, input@, threshold as int),
            concat(texts(out@)) == input@,
            input@.len() == 0 ==> out@.len() == 0,
            input@.len() == 1 ==> texts(out@) == seq![input@],
            input@.len() > 0 && threshold >= TOP_THRESHOLD ==> texts(out@) == seq![input@],
    {
        let chars: Vec<char> = to_chars(input);
        let n: usize = chars.len();
        let mut out: Vec<&'i str> = Vec::new();
        proof {
            lemma_round_trip(self@, input@, threshold as int);
            lemma_trivial_texts(self@, input@, threshold as int);
            if input@.len() > 0 && threshold >= TOP_THRESHOLD {
                self.lemma_weights_fit();
                lemma_top_threshold(self@, input@, threshold as int);
            }
        }
        if n == 0 {
            assert(texts(out@) =~= chunks(self@, input@, threshold as int));
            return out;
        }
        let cuts: Vec<usize> = self.find_cuts(&chars, threshold);
        let ghost marks = split_points(self@, input@, threshold as int, n as int);
        proof {
            lemma_split_points_ascending(self@, input@, threshold as int, n as int);
        }
        let mut start: usize = 0;
        let mut k: usize = 0;
        while k < cuts.len()
            invariant
                k <= cuts@.len(),
                n == input@.len(),
                positions(cuts@) == marks,
                ascending_within(marks, n as int),
                start as int == piece_start(marks, k as int),
                out@.len() == k,
                forall|j: int| 0 <= j < k ==> (#[trigger] out@[j])@ == pieces(input@, marks)[j],
            decreases cuts@.len() - k,
        {
            let end: usize = cuts[k];
            assert(marks[k as int] == end as int);
            assert(start < end) by {
                if k > 0 {
                    assert(marks[k - 1] < marks[k as int]);
                }
            }
            let piece: &'i str = input.substring_char(start, end);
            out.push(piece);
            start = end;
            k = k + 1;
        }
        assert(start < n) by {
            if k > 0 {
                assert(1 <= marks[k - 1] < n);
            }
        }
        let last: &'i str = input.substring_char(start, n);
        out.push(last);
        assert(texts(out@) =~= pieces(input@, marks));
        out
    }

    /// The positions that `chars` is split before, ascending.
    pub fn find_cuts(&self, chars: &Vec<char>, threshold: i64) -> (cuts: Vec<usize>)
        ensures
            positions(cuts@) == split_points(
                self@,
                chars@,
                threshold as int,
                chars@.len() as int,
            ),
    {
        let n: usize = chars.len();
        let mut cuts: Vec<usize> = Vec::new();
        let mut h: History = History { p1: Tag::Unknown, p2: Tag::Unknown, p3: Tag::Unknown };
        let mut i: usize = 1;
        assert(positions(cuts@) =~= Seq::<int>::empty());
        while i < n
            invariant
                1 <= i,
                n == chars@.len(),
                i <= n || (n == 0 && i == 1),
                h == history_before(self@, chars@, i as int),
                positions(cuts@) == split_points(self@, chars@, threshold as int, i as int),
            decreases n - i,
        {
            let s: i64 = score_boundary(self, chars, i, h);
            if s > threshold {
                let ghost before = cuts@;
                cuts.push(i);
                assert(positions(cuts@) =~= positions(before).push(i as int));
            }
            let p3: Tag = if s > 0 {
                Tag::Positive
            } else {
                Tag::Negative
            };
            h = History { p1: h.p2, p2: h.p3, p3 };
            i = i + 1;
        }
        assert(split_points(self@, chars@, threshold as int, 0) =~= split_points(
            self@,
            chars@,
            threshold as int,
            1,
        ));
        cuts
    }
}

} // verus!
