use rusty_poly_streak_rsi::money::LossStreak;
use rusty_poly_streak_rsi::strategy::{
    color_streak, count_color, dominant_votes, ensemble_prediction, last_three_same_color,
    tally_votes, CandleColor, Prediction,
};
use CandleColor::{Green, Neutral, Red};

fn color(open: f64, close: f64) -> CandleColor {
    if close > open {
        Green
    } else if close < open {
        Red
    } else {
        Neutral
    }
}

fn colors(candles: &[(f64, f64)]) -> Vec<CandleColor> {
    candles.iter().map(|&(o, c)| color(o, c)).collect()
}

#[test]
fn test_color_none_before_three_candles() {
    assert!(last_three_same_color(&colors(&[(100.0, 101.0)])).is_none());
    assert!(last_three_same_color(&colors(&[(100.0, 101.0), (101.0, 102.0)])).is_none());
}

#[test]
fn test_color_three_green() {
    let c = colors(&[(100.0, 101.0), (101.0, 102.0), (102.0, 103.0)]);
    assert_eq!(last_three_same_color(&c), Some(true));
}

#[test]
fn test_color_three_red() {
    let c = colors(&[(103.0, 100.0), (100.0, 98.0), (98.0, 95.0)]);
    assert_eq!(last_three_same_color(&c), Some(false));
}

#[test]
fn test_color_mixed_is_none() {
    let c = colors(&[(100.0, 101.0), (101.0, 99.0), (99.0, 100.0)]);
    assert!(last_three_same_color(&c).is_none());
}

#[test]
fn doji_breaks_a_series() {
    assert_eq!(last_three_same_color(&vec![Green, Neutral, Green]), None);
    assert_eq!(last_three_same_color(&vec![Red, Green, Green, Green]), Some(true));
}

#[test]
fn test_prediction_display_up() {
    assert_eq!(Prediction::Up.to_string(), "UP");
}

#[test]
fn test_prediction_display_down() {
    assert_eq!(Prediction::Down.to_string(), "DOWN");
}

#[test]
fn streaks_and_counts() {
    let c = vec![Red, Green, Red, Red, Red];
    assert_eq!(color_streak(&c, false), 3);
    assert_eq!(color_streak(&c, true), 0);
    assert_eq!(count_color(&c, 4, false), Some(3));
    assert_eq!(count_color(&c, 4, true), Some(1));
    assert_eq!(count_color(&c, 6, true), None);
}

#[test]
fn ensemble_follows_the_majority() {
    let (g, r) = tally_votes(&vec![Some(true), None, Some(false), Some(true)]);
    assert_eq!((g, r), (2, 1));
    assert_eq!(ensemble_prediction(g, r, 1), Some(Prediction::Up));
    assert_eq!(ensemble_prediction(1, 3, 1), Some(Prediction::Down));
    assert_eq!(ensemble_prediction(2, 2, 1), None);
    assert_eq!(ensemble_prediction(2, 1, 4), None);
    assert_eq!(dominant_votes(2, 5), 5);
}

#[test]
fn loss_streak_follows_outcomes() {
    let mut s = LossStreak::new(0);
    assert!(s.on_outcome("LOSS"));
    assert!(s.on_outcome("LOSS"));
    assert_eq!(s.consecutive_losses, 2);
    assert!(!s.on_outcome("NO_ENTRY"));
    assert_eq!(s.consecutive_losses, 2);
    assert!(s.on_outcome("WIN"));
    assert_eq!(s.consecutive_losses, 0);
}
