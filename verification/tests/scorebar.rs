use rust_snake::models::scorebar::{Score, Scorebar};
use rust_snake::{Render, Vector2Int};

#[test]
fn display_formats_below_1000() {
    assert_eq!(Score::empty().to_string(), "0");
    assert_eq!(Score::new(486).to_string(), "486");
}

#[test]
fn display_formats_above_1000() {
    assert_eq!(Score::new(1863).to_string(), "1.8k");
    assert_eq!(Score::new(1000).to_string(), "1.0k");
    assert_eq!(Score::new(4_153_800).to_string(), "4153.8k");
    assert_eq!(Score::new(19000).to_string(), "19.0k");
}

#[test]
fn display_formats_the_largest_score() {
    assert_eq!(Score::new(u32::MAX).to_string(), "4294967.2k");
    assert_eq!(Score::new(999).to_string(), "999");
}

#[test]
fn scores_add_with_saturation() {
    let mut score = Score::new(u32::MAX - 50);
    score.add_assign(Score::new(100));
    assert_eq!(score, Score::new(u32::MAX));
    assert_eq!(Score::new(1) + Score::new(2), Score::new(3));
    let mut score = Score::empty();
    score.add_unit();
    assert_eq!(score, Score::new(Score::UNIT_POINTS));
    assert_eq!(
        Score::sum(&[Score::new(u32::MAX), Score::new(7)]),
        Score::new(u32::MAX)
    );
}

#[test]
fn scorebar_tracks_high_score_and_total() {
    let mut scorebar = Scorebar::new(Vector2Int::new(0, 24));
    assert_eq!(scorebar.compute_high_score(), Score::empty());
    scorebar.score = Score::new(300);
    scorebar.save_and_reset();
    scorebar.score = Score::new(1200);
    scorebar.save_and_reset();
    scorebar.score = Score::new(100);
    assert_eq!(scorebar.compute_high_score(), Score::new(1200));
    assert_eq!(scorebar.compute_saved_score_total(), Score::new(1500));
    assert_eq!(scorebar.content(), "Score: 100 | High: 1.2k | Total: 1.5k");
    let items = scorebar.render_items();
    assert_eq!(items.len(), scorebar.content().len());
    assert_eq!(items[0].position_local(), Vector2Int::new(-(items.len() as i32), 0));
    assert_eq!(items[items.len() - 1].position_local(), Vector2Int::new(-1, 0));
    scorebar.reset();
    assert_eq!(scorebar.score, Score::empty());
    assert_eq!(scorebar.compute_high_score(), Score::new(1200));
}
