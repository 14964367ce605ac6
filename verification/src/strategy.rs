//! Predictions and the integer part of the strategies' decisions: candle
//! colours, colour series and the vote of rule ensembles.
use vstd::prelude::*;
use crate::text::owned;

verus! {

/// Direction predicted for the next candle.
#[derive(Debug, Clone, Copy, PartialEq, Eq, Structural)]
pub enum Prediction {
    Up,
    Down,
}

/// How a prediction is written ("UP" or "DOWN").
pub open spec fn prediction_label(p: Prediction) -> Seq<char> {
    match p {
        Prediction::Up => "UP"@,
        Prediction::Down => "DOWN"@,
    }
}

impl Prediction {
    /// The prediction as written in logs, signal keys and the trade journal.
    pub fn to_string(&self) -> (s: String)
        ensures
            s@ == prediction_label(*self),
    {
        match self {
            Prediction::Up => owned("UP"),
            Prediction::Down => owned("DOWN"),
        }
    }
}

} // verus!

verus! {

// ───────────────────────── candle colours ─────────────────────────

/// Colour of a candle: green when it closed above its open, red below,
/// neutral when equal (a doji).
#[derive(Debug, Clone, Copy, PartialEq, Eq, Structural)]
pub enum CandleColor {
    Green,
    Red,
    Neutral,
}

/// The colour series of the last three candles: `Some(true)` for three
/// green, `Some(false)` for three red, `None` when fewer than three or
/// mixed (a doji breaks a series).
pub open spec fn series_of(colors: Seq<CandleColor>) -> Option<bool> {
    if colors.len() < 3 {
        None
    } else {
        let n = colors.len();
        if colors[n - 1] == CandleColor::Green && colors[n - 2] == CandleColor::Green && colors[n
            - 3] == CandleColor::Green {
            Some(true)
        } else if colors[n - 1] == CandleColor::Red && colors[n - 2] == CandleColor::Red && colors[n
            - 3] == CandleColor::Red {
            Some(false)
        } else {
            None
        }
    }
}

/// The colour series of the last three candles of `colors`.
pub fn last_three_same_color(colors: &Vec<CandleColor>) -> (r: Option<bool>)
    ensures
        r == series_of(colors@),
{
    let n = colors.len();
    if n < 3 {
        return None;
    }
    let (a, b, c) = (colors[n - 3], colors[n - 2], colors[n - 1]);
    if a == CandleColor::Green && b == CandleColor::Green && c == CandleColor::Green {
        Some(true)
    } else if a == CandleColor::Red && b == CandleColor::Red && c == CandleColor::Red {
        Some(false)
    } else {
        None
    }
}

/// Whether a candle of colour `c` counts for a green (`green`) or a red
/// count: a doji counts for neither.
pub open spec fn counts_as(c: CandleColor, green: bool) -> bool {
    if green {
        c == CandleColor::Green
    } else {
        c == CandleColor::Red
    }
}

/// The number of candles of the counted colour that end `colors`.
pub open spec fn streak_len(colors: Seq<CandleColor>, green: bool) -> nat
    decreases colors.len(),
{
    if colors.len() > 0 && counts_as(colors.last(), green) {
        streak_len(colors.drop_last(), green) + 1
    } else {
        0
    }
}

/// The number of candles of the counted colour among `colors`.
pub open spec fn color_count(colors: Seq<CandleColor>, green: bool) -> nat
    decreases colors.len(),
{
    if colors.len() == 0 {
        0
    } else {
        color_count(colors.drop_last(), green) + if counts_as(colors.last(), green) {
            1nat
        } else {
            0nat
        }
    }
}

fn counts(c: CandleColor, green: bool) -> (r: bool)
    ensures
        r == counts_as(c, green),
{
    if green {
        c == CandleColor::Green
    } else {
        c == CandleColor::Red
    }
}

proof fn lemma_streak_len_bound(colors: Seq<CandleColor>, green: bool)
    ensures
        streak_len(colors, green) <= colors.len(),
    decreases colors.len(),
{
    if colors.len() > 0 {
        lemma_streak_len_bound(colors.drop_last(), green);
    }
}

proof fn lemma_color_count_bound(colors: Seq<CandleColor>, green: bool)
    ensures
        color_count(colors, green) <= colors.len(),
    decreases colors.len(),
{
    if colors.len() > 0 {
        lemma_color_count_bound(colors.drop_last(), green);
    }
}

/// The length of the run of green (`green`) or red candles that ends
/// `colors`.
pub fn color_streak(colors: &Vec<CandleColor>, green: bool) -> (r: u32)
    requires
        colors@.len() <= u32::MAX,
    ensures
        r == streak_len(colors@, green),
{
    let mut j: usize = colors.len();
    let mut count: u32 = 0;
    assert(colors@.take(j as int) =~= colors@);
    while j > 0 && counts(colors[j - 1], green)
        invariant
            0 <= j <= colors@.len() <= u32::MAX,
            count + j == colors@.len(),
            forall|k: int| j <= k < colors@.len() ==> counts_as(#[trigger] colors@[k], green),
            streak_len(colors@, green) == count + streak_len(colors@.take(j as int), green),
        decreases j,
    {
        assert(colors@.take(j as int).drop_last() =~= colors@.take(j - 1));
        j = j - 1;
        count = count + 1;
    }
    count
}

/// The number of green (`green`) or red candles among the last `n`, when
/// there are at least `n`.
pub fn count_color(colors: &Vec<CandleColor>, n: usize, green: bool) -> (r: Option<u32>)
    requires
        n <= u32::MAX,
    ensures
        match r {
            Some(c) => n <= colors@.len() && c == color_count(
                colors@.skip(colors@.len() - n),
                green,
            ),
            None => colors@.len() < n,
        },
{
    if colors.len() < n {
        return None;
    }
    let start = colors.len() - n;
    let ghost w = colors@.skip(start as int);
    let mut i: usize = start;
    let mut count: u32 = 0;
    while i < colors.len()
        invariant
            start <= i <= colors@.len(),
            colors@.len() - start == n <= u32::MAX,
            w == colors@.skip(start as int),
            count == color_count(w.take(i - start), green),
            count <= i - start,
        decreases colors@.len() - i,
    {
        assert(w.take(i - start + 1).drop_last() =~= w.take(i - start));
        assert(w.take(i - start + 1).last() == colors@[i as int]);
        if counts(colors[i], green) {
            count = count + 1;
        }
        i = i + 1;
    }
    assert(w.take(n as int) =~= w);
    Some(count)
}

// ───────────────────────── rule ensembles ─────────────────────────

/// The number of fired rules that vote green (`green`) or red.
pub open spec fn votes(fired: Seq<Option<bool>>, green: bool) -> nat
    decreases fired.len(),
{
    if fired.len() == 0 {
        0
    } else {
        votes(fired.drop_last(), green) + if fired.last() == Some(green) {
            1nat
        } else {
            0nat
        }
    }
}

/// Counts the votes of the rules: `Some(true)` for a rule that fired green,
/// `Some(false)` red, `None` when it did not fire; (green, red).
pub fn tally_votes(fired: &Vec<Option<bool>>) -> (r: (u32, u32))
    requires
        fired@.len() <= u32::MAX,
    ensures
        r.0 == votes(fired@, true),
        r.1 == votes(fired@, false),
{
    let mut g: u32 = 0;
    let mut d: u32 = 0;
    let mut i: usize = 0;
    while i < fired.len()
        invariant
            0 <= i <= fired@.len() <= u32::MAX,
            g == votes(fired@.take(i as int), true),
            d == votes(fired@.take(i as int), false),
            g + d <= i,
        decreases fired@.len() - i,
    {
        assert(fired@.take(i as int + 1).drop_last() =~= fired@.take(i as int));
        assert(fired@.take(i as int + 1).last() == fired@[i as int]);
        match fired[i] {
            Some(true) => {
                g = g + 1;
            },
            Some(false) => {
                d = d + 1;
            },
            None => {},
        }
        i = i + 1;
    }
    assert(fired@.take(fired@.len() as int) =~= fired@);
    (g, d)
}

/// The decision of an ensemble: nothing with fewer than `min_votes` votes
/// or a tie, else the side with more votes.
pub open spec fn ensemble_decision(green: nat, red: nat, min_votes: nat) -> Option<Prediction> {
    if green + red < min_votes || green == red {
        None
    } else if green > red {
        Some(Prediction::Up)
    } else {
        Some(Prediction::Down)
    }
}

/// The prediction of an ensemble with `green` and `red` votes.
pub fn ensemble_prediction(green: u32, red: u32, min_votes: u32) -> (r: Option<Prediction>)
    requires
        green + red <= u32::MAX,
    ensures
        r == ensemble_decision(green as nat, red as nat, min_votes as nat),
{
    let total = green + red;
    if total < min_votes || green == red {
        None
    } else if green > red {
        Some(Prediction::Up)
    } else {
        Some(Prediction::Down)
    }
}

/// The larger of the two vote counts, which the vote share of a signal is
/// taken from.
pub fn dominant_votes(green: u32, red: u32) -> (r: u32)
    ensures
        r == if green > red {
            green
        } else {
            red
        },
{
    if green > red {
        green
    } else {
        red
    }
}

/// An ensemble predicts the side that has strictly more votes, and only
/// when enough votes were cast.
pub proof fn law_ensemble_follows_majority(green: nat, red: nat, min_votes: nat)
    ensures
        ensemble_decision(green, red, min_votes) == Some(Prediction::Up) <==> (green > red
            && green + red >= min_votes),
        ensemble_decision(green, red, min_votes) == Some(Prediction::Down) <==> (red > green
            && green + red >= min_votes),
{
}

/// The number of rules that fired.
pub open spec fn fired_rules(fired: Seq<Option<bool>>) -> nat
    decreases fired.len(),
{
    if fired.len() == 0 {
        0
    } else {
        fired_rules(fired.drop_last()) + if fired.last() is Some {
            1nat
        } else {
            0nat
        }
    }
}

/// Every fired rule votes for exactly one side.
pub proof fn law_votes_partition(fired: Seq<Option<bool>>)
    ensures
        votes(fired, true) + votes(fired, false) == fired_rules(fired),
    decreases fired.len(),
{
    if fired.len() > 0 {
        law_votes_partition(fired.drop_last());
        match fired.last() {
            Some(b) => {
                if b {
                    assert(fired.last() == Some(true));
                } else {
                    assert(fired.last() == Some(false));
                }
            },
            None => {
                assert(fired.last() != Some(true) && fired.last() != Some(false));
            },
        }
    }
}

/// How one more candle changes the counts: a green candle adds one to the
/// green count and to the green run and ends any red run; a red candle the
/// other way round; a doji (neutral) counts for neither colour and ends
/// both runs. With no candle every count is zero.
pub proof fn law_candle_counts(colors: Seq<CandleColor>, green: bool)
    ensures
        color_count(Seq::<CandleColor>::empty(), green) == 0,
        streak_len(Seq::<CandleColor>::empty(), green) == 0,
        color_count(colors.push(CandleColor::Green), true) == color_count(colors, true) + 1,
        color_count(colors.push(CandleColor::Green), false) == color_count(colors, false),
        color_count(colors.push(CandleColor::Red), false) == color_count(colors, false) + 1,
        color_count(colors.push(CandleColor::Red), true) == color_count(colors, true),
        color_count(colors.push(CandleColor::Neutral), green) == color_count(colors, green),
        streak_len(colors.push(CandleColor::Green), true) == streak_len(colors, true) + 1,
        streak_len(colors.push(CandleColor::Green), false) == 0,
        streak_len(colors.push(CandleColor::Red), false) == streak_len(colors, false) + 1,
        streak_len(colors.push(CandleColor::Red), true) == 0,
        streak_len(colors.push(CandleColor::Neutral), green) == 0,
{
    assert(colors.push(CandleColor::Green).drop_last() =~= colors);
    assert(colors.push(CandleColor::Red).drop_last() =~= colors);
    assert(colors.push(CandleColor::Neutral).drop_last() =~= colors);
}

/// The last three candles form a series only when all three have the same
/// colour, green or red; a doji among them breaks it.
pub proof fn law_three_candle_series(
    colors: Seq<CandleColor>,
    a: CandleColor,
    b: CandleColor,
    c: CandleColor,
)
    ensures
        series_of(colors.push(a).push(b).push(c)) == Some(true) <==> (a == CandleColor::Green
            && b == CandleColor::Green && c == CandleColor::Green),
        series_of(colors.push(a).push(b).push(c)) == Some(false) <==> (a == CandleColor::Red
            && b == CandleColor::Red && c == CandleColor::Red),
        series_of(seq![a, b]) is None,
{
    let s = colors.push(a).push(b).push(c);
    let n = s.len();
    assert(s[n - 1] == c && s[n - 2] == b && s[n - 3] == a);
}

/// How one more rule changes the tally: a rule that fired green adds one
/// green vote, one that fired red one red vote, one that did not fire
/// adds none.
pub proof fn law_vote_counts(fired: Seq<Option<bool>>, green: bool)
    ensures
        votes(Seq::<Option<bool>>::empty(), green) == 0,
        votes(fired.push(Some(green)), green) == votes(fired, green) + 1,
        votes(fired.push(Some(!green)), green) == votes(fired, green),
        votes(fired.push(None), green) == votes(fired, green),
{
    assert(fired.push(Some(green)).drop_last() =~= fired);
    assert(fired.push(Some(!green)).drop_last() =~= fired);
    assert(fired.push(None).drop_last() =~= fired);
}

/// An ensemble gives no prediction on a tie or with fewer than `min_votes`
/// votes.
pub proof fn law_ensemble_abstains(green: nat, red: nat, min_votes: nat)
    ensures
        (green == red || green + red < min_votes) <==> ensemble_decision(green, red, min_votes)
            is None,
{
}

} // verus!
