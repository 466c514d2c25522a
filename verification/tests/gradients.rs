use palette::color::Rgba8;
use palette::palette::{Palette, PaletteError};

const BLACK: Rgba8 = Rgba8 { r: 0, g: 0, b: 0, a: 255 };
const WHITE: Rgba8 = Rgba8 { r: 255, g: 255, b: 255, a: 255 };

#[test]
fn gradient_of_two_is_its_ends() {
    let mut p = Palette::new(10, 4);
    let start = Rgba8::new(12, 200, 7, 0);
    let end = Rgba8::new(99, 3, 7, 255);
    assert_eq!(p.gradient(start, end, 2), Ok(()));
    assert_eq!(p.colors(), vec![start, end]);
}

#[test]
fn gradient_starts_and_ends_exactly() {
    let start = Rgba8::new(12, 200, 7, 0);
    let end = Rgba8::new(99, 3, 7, 255);
    for number in 2..=256usize {
        let mut p = Palette::new(10, 4);
        assert_eq!(p.gradient(start, end, number), Ok(()));
        let colors = p.colors();
        assert_eq!(colors.len(), number);
        assert_eq!(colors[0], start);
        assert_eq!(colors[number - 1], end);
    }
}

#[test]
fn gradient_rounds_a_half_up() {
    let mut p = Palette::new(10, 4);
    assert_eq!(p.gradient(BLACK, WHITE, 3), Ok(()));
    assert_eq!(p.colors(), vec![BLACK, Rgba8::new(128, 128, 128, 255), WHITE]);
}

#[test]
fn gradient_rounds_to_the_nearest() {
    let mut p = Palette::new(10, 4);
    let start = Rgba8::new(0, 10, 100, 255);
    let end = Rgba8::new(10, 0, 101, 0);
    assert_eq!(p.gradient(start, end, 4), Ok(()));
    assert_eq!(
        p.colors(),
        vec![
            start,
            Rgba8::new(3, 7, 100, 170),
            Rgba8::new(7, 3, 101, 85),
            end,
        ]
    );
}

#[test]
fn gradient_over_every_level() {
    let mut p = Palette::new(10, 4);
    assert_eq!(p.gradient(BLACK, WHITE, 256), Ok(()));
    let colors = p.colors();
    for (i, c) in colors.iter().enumerate() {
        assert_eq!(*c, Rgba8::new(i as u8, i as u8, i as u8, 255));
    }
}

#[test]
fn gradient_does_not_fall_where_its_ends_rise() {
    let start = Rgba8::new(3, 250, 40, 9);
    let end = Rgba8::new(240, 4, 40, 10);
    let mut p = Palette::new(10, 4);
    assert_eq!(p.gradient(start, end, 100), Ok(()));
    let colors = p.colors();
    for pair in colors.windows(2) {
        assert!(pair[0].r <= pair[1].r);
        assert!(pair[0].b <= pair[1].b);
        assert!(pair[0].a <= pair[1].a);
        assert!(pair[0].g >= pair[1].g);
    }
}

#[test]
fn gradient_appends_behind_what_is_held() {
    let mut p = Palette::new(10, 4);
    assert_eq!(p.add(Rgba8::new(9, 9, 9, 9)), Ok(()));
    assert_eq!(p.gradient(BLACK, WHITE, 2), Ok(()));
    assert_eq!(p.colors(), vec![Rgba8::new(9, 9, 9, 9), BLACK, WHITE]);
}

#[test]
fn gradient_keeps_duplicates() {
    let mut p = Palette::new(10, 4);
    assert_eq!(p.add(BLACK), Ok(()));
    assert_eq!(p.gradient(BLACK, BLACK, 3), Ok(()));
    assert_eq!(p.colors(), vec![BLACK, BLACK, BLACK, BLACK]);
    assert_eq!(p.size(), 4);
}

#[test]
fn gradient_needs_two_steps() {
    let mut p = Palette::new(10, 4);
    assert_eq!(p.add(WHITE), Ok(()));
    assert_eq!(p.gradient(BLACK, WHITE, 0), Err(PaletteError::TooFewSteps));
    assert_eq!(p.gradient(BLACK, WHITE, 1), Err(PaletteError::TooFewSteps));
    assert_eq!(p.colors(), vec![WHITE]);
}

#[test]
fn gradient_must_fit() {
    let mut p = Palette::new(10, 4);
    assert_eq!(p.gradient(BLACK, WHITE, 257), Err(PaletteError::Full));
    assert_eq!(p.gradient(BLACK, WHITE, usize::MAX), Err(PaletteError::Full));
    assert_eq!(p.size(), 0);
    assert_eq!(p.gradient(BLACK, WHITE, 250), Ok(()));
    assert_eq!(p.gradient(BLACK, WHITE, 7), Err(PaletteError::Full));
    assert_eq!(p.size(), 250);
    assert_eq!(p.gradient(BLACK, WHITE, 6), Ok(()));
    assert_eq!(p.size(), 256);
    assert_eq!(p.gradient(BLACK, WHITE, 2), Err(PaletteError::Full));
    assert_eq!(p.size(), 256);
}
