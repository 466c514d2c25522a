use palette::color::Rgba8;
use palette::palette::{Palette, PaletteError};

fn grey(level: u8) -> Rgba8 {
    Rgba8::new(level, level, level, 255)
}

#[test]
fn new_palette_is_empty_at_the_origin() {
    let p = Palette::new(12, 16);
    assert_eq!(p.size(), 0);
    assert_eq!(p.colors(), Vec::<Rgba8>::new());
    assert_eq!(p.hover, None);
    assert_eq!(p.cellsize, 12);
    assert_eq!(p.height, 16);
    assert_eq!(p.x, 0);
    assert_eq!(p.y, 0);
}

#[test]
fn color_keeps_its_channels() {
    let c = Rgba8::new(1, 2, 3, 4);
    assert_eq!((c.r, c.g, c.b, c.a), (1, 2, 3, 4));
    assert_eq!(c, Rgba8 { r: 1, g: 2, b: 3, a: 4 });
    assert_ne!(c, Rgba8 { r: 1, g: 2, b: 3, a: 5 });
}

#[test]
fn add_appends_in_order() {
    let mut p = Palette::new(10, 4);
    assert_eq!(p.add(grey(3)), Ok(()));
    assert_eq!(p.add(grey(1)), Ok(()));
    assert_eq!(p.add(grey(2)), Ok(()));
    assert_eq!(p.size(), 3);
    assert_eq!(p.colors(), vec![grey(3), grey(1), grey(2)]);
}

#[test]
fn add_twice_is_add_once() {
    let mut once = Palette::new(10, 4);
    let mut twice = Palette::new(10, 4);
    for p in [&mut once, &mut twice] {
        assert_eq!(p.add(grey(7)), Ok(()));
        assert_eq!(p.add(grey(9)), Ok(()));
    }
    assert_eq!(twice.add(grey(7)), Ok(()));
    assert_eq!(twice.add(grey(9)), Ok(()));
    assert_eq!(once.colors(), vec![grey(7), grey(9)]);
    assert_eq!(twice.colors(), once.colors());
}

#[test]
fn add_tells_colors_apart_by_every_channel() {
    let mut p = Palette::new(10, 4);
    assert_eq!(p.add(Rgba8::new(1, 2, 3, 4)), Ok(()));
    assert_eq!(p.add(Rgba8::new(0, 2, 3, 4)), Ok(()));
    assert_eq!(p.add(Rgba8::new(1, 0, 3, 4)), Ok(()));
    assert_eq!(p.add(Rgba8::new(1, 2, 0, 4)), Ok(()));
    assert_eq!(p.add(Rgba8::new(1, 2, 3, 0)), Ok(()));
    assert_eq!(p.size(), 5);
}

#[test]
fn contains_finds_what_was_added() {
    let mut p = Palette::new(10, 4);
    assert!(!p.contains(grey(1)));
    assert_eq!(p.add(grey(1)), Ok(()));
    assert_eq!(p.add(grey(2)), Ok(()));
    assert!(p.contains(grey(1)));
    assert!(p.contains(grey(2)));
    assert!(!p.contains(grey(3)));
}

#[test]
fn add_stops_at_256_colors() {
    let mut p = Palette::new(10, 4);
    for level in 0..=255u8 {
        assert_eq!(p.add(Rgba8::new(level, 0, 0, 0)), Ok(()));
    }
    assert_eq!(p.size(), 256);
    let before = p.colors();
    assert_eq!(p.add(Rgba8::new(0, 1, 0, 0)), Err(PaletteError::Full));
    assert_eq!(p.size(), 256);
    assert_eq!(p.colors(), before);
}

#[test]
fn add_of_a_held_color_succeeds_on_a_full_palette() {
    let mut p = Palette::new(10, 4);
    for level in 0..=255u8 {
        assert_eq!(p.add(Rgba8::new(level, 0, 0, 0)), Ok(()));
    }
    assert_eq!(p.add(Rgba8::new(200, 0, 0, 0)), Ok(()));
    assert_eq!(p.size(), 256);
}

#[test]
fn clear_empties_the_palette() {
    let mut p = Palette::new(10, 4);
    assert_eq!(p.add(grey(1)), Ok(()));
    assert_eq!(p.add(grey(2)), Ok(()));
    p.x = 5;
    p.y = -3;
    p.clear();
    assert_eq!(p.size(), 0);
    assert_eq!(p.colors(), Vec::<Rgba8>::new());
    assert_eq!((p.cellsize, p.height, p.x, p.y), (10, 4, 5, -3));
}

#[test]
fn clear_of_an_empty_palette_changes_nothing() {
    let mut p = Palette::new(10, 4);
    p.clear();
    assert_eq!(p.size(), 0);
    assert_eq!(p.hover, None);
    assert_eq!((p.cellsize, p.height, p.x, p.y), (10, 4, 0, 0));
    p.clear();
    assert_eq!(p.size(), 0);
}

#[test]
fn add_works_again_after_clear() {
    let mut p = Palette::new(10, 4);
    assert_eq!(p.add(grey(1)), Ok(()));
    p.clear();
    assert_eq!(p.add(grey(1)), Ok(()));
    assert_eq!(p.colors(), vec![grey(1)]);
}
