use super_jumper::rng::DrawSource;
use super_jumper::world::DRAW_RANGE;

#[test]
fn fixed_source_replays_in_order_then_reads_zero() {
    let mut src = DrawSource::fixed(vec![1, 2, 3]);
    assert_eq!(src.next_draw(), 1);
    assert_eq!(src.next_draw(), 2);
    assert_eq!(src.next_draw(), 3);
    assert_eq!(src.next_draw(), 0);
    assert_eq!(src.next_draw(), 0);
}

#[test]
fn fixed_source_reduces_values_into_the_draw_range() {
    let mut src = DrawSource::fixed(vec![2_500_000, DRAW_RANGE, DRAW_RANGE - 1]);
    assert_eq!(src.next_draw(), 500_000);
    assert_eq!(src.next_draw(), 0);
    assert_eq!(src.next_draw(), DRAW_RANGE - 1);
}

#[test]
fn system_source_draws_within_the_range() {
    let mut src = DrawSource::system();
    let mut seen_nonzero = false;
    for _ in 0..1000 {
        let d = src.next_draw();
        assert!(d < DRAW_RANGE);
        if d != 0 {
            seen_nonzero = true;
        }
    }
    // A thousand uniform draws all zero would mean the generator is not
    // being consulted at all.
    assert!(seen_nonzero);
}
