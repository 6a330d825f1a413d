use newton_fractal::raster::{fits, Raster};
use newton_fractal::viz::{array_to_image, try_array_to_image, Color, Colors};

fn rgb(c: Color) -> (u8, u8, u8) {
    (c.r, c.g, c.b)
}

#[test]
fn color_new_keeps_the_channels() {
    let c = Color::new(1, 2, 3);
    assert_eq!((c.r, c.g, c.b), (1, 2, 3));
    assert_eq!(c, Color { r: 1, g: 2, b: 3 });
}

#[test]
fn named_colors_have_their_values() {
    assert_eq!(rgb(Colors::Black.value()), (0, 0, 0));
    assert_eq!(rgb(Colors::White.value()), (1, 1, 1));
    assert_eq!(rgb(Colors::Red.value()), (1, 0, 0));
    assert_eq!(rgb(Colors::Green.value()), (0, 1, 0));
    assert_eq!(rgb(Colors::Blue.value()), (0, 0, 1));
    assert_eq!(rgb(Colors::DarkRed.value()), (175, 0, 0));
    assert_eq!(rgb(Colors::NavyBlue.value()), (0, 159, 255));
    assert_eq!(rgb(Colors::DarkBlue.value()), (51, 122, 183));
    assert_eq!(rgb(Colors::SunYellow.value()), (255, 175, 0));
    assert_eq!(rgb(Colors::FaintGray.value()), (238, 238, 238));
    assert_eq!(rgb(Colors::LightGray.value()), (221, 221, 221));
    assert_eq!(rgb(Colors::MediumGray.value()), (204, 204, 204));
    assert_eq!(rgb(Colors::HeavyGray.value()), (187, 187, 187));
    assert_eq!(rgb(Colors::DarkGray.value()), (154, 154, 154));
    assert_eq!(rgb(Colors::SpaceFaintGray.value()), (192, 197, 206));
    assert_eq!(rgb(Colors::SpaceLightGray.value()), (167, 173, 186));
    assert_eq!(rgb(Colors::SpaceMediumGray.value()), (101, 115, 126));
    assert_eq!(rgb(Colors::SpaceHeavyGray.value()), (79, 91, 102));
    assert_eq!(rgb(Colors::SpaceDarkGray.value()), (52, 61, 70));
}

#[test]
fn ids_cycle_through_four_grays() {
    assert_eq!(rgb(Colors::from_int(0)), (192, 197, 206));
    assert_eq!(rgb(Colors::from_int(1)), (167, 173, 186));
    assert_eq!(rgb(Colors::from_int(2)), (101, 115, 126));
    assert_eq!(rgb(Colors::from_int(3)), (52, 61, 70));
    assert_eq!(rgb(Colors::from_int(4)), (192, 197, 206));
    assert_eq!(rgb(Colors::from_int(5)), (167, 173, 186));
    assert_eq!(rgb(Colors::from_int(4002)), (101, 115, 126));
    assert_eq!(rgb(Colors::from_int(isize::MAX)), (52, 61, 70));
}

#[test]
fn no_root_is_black() {
    assert_eq!(rgb(Colors::from_int(-1)), (0, 0, 0));
}

#[test]
fn negative_ids() {
    assert_eq!(rgb(Colors::from_int(-2)), (0, 0, 0));
    assert_eq!(rgb(Colors::from_int(-3)), (0, 0, 0));
    assert_eq!(rgb(Colors::from_int(-4)), (192, 197, 206));
    assert_eq!(rgb(Colors::from_int(-5)), (0, 0, 0));
    assert_eq!(rgb(Colors::from_int(isize::MIN)), (192, 197, 206));
}

#[test]
fn same_id_same_color() {
    for id in -8..40 {
        assert_eq!(Colors::from_int(id), Colors::from_int(id));
        if id >= 0 {
            assert_eq!(Colors::from_int(id), Colors::from_int(id + 4));
        }
    }
}

#[test]
fn sizes_that_fit() {
    assert!(fits(0, 0));
    assert!(fits(1, 1));
    assert!(fits(10000, 10000));
    assert!(fits(0, 1000));
    assert!(fits(isize::MAX as usize / 3, 1));
    assert!(!fits(isize::MAX as usize / 3 + 1, 1));
    assert!(!fits(usize::MAX, 2));
    assert!(!fits(0, usize::MAX));
    assert!(!fits(usize::MAX, usize::MAX));
}

#[test]
fn new_raster_is_all_zero() {
    let a = Raster::new(2, 3);
    assert_eq!(a.dim(), (2, 3, 3));
    assert_eq!(a.into_raw_vec(), vec![0u8; 18]);
    let empty = Raster::new(0, 5);
    assert_eq!(empty.dim(), (0, 5, 3));
    assert_eq!(empty.into_raw_vec(), Vec::<u8>::new());
}

#[test]
fn paint_writes_three_bytes_row_by_row() {
    let mut a = Raster::new(2, 3);
    a.paint(0, 0, Color::new(1, 2, 3));
    a.paint(0, 2, Color::new(4, 5, 6));
    a.paint(1, 1, Color::new(7, 8, 9));
    assert_eq!(a.dim(), (2, 3, 3));
    assert_eq!(
        a.into_raw_vec(),
        vec![1, 2, 3, 0, 0, 0, 4, 5, 6, 0, 0, 0, 7, 8, 9, 0, 0, 0]
    );
}

#[test]
fn paint_over_paint_keeps_the_last() {
    let mut a = Raster::new(1, 2);
    a.paint(0, 1, Color::new(9, 9, 9));
    a.paint(0, 1, Color::new(1, 0, 2));
    assert_eq!(a.into_raw_vec(), vec![0, 0, 0, 1, 0, 2]);
}

#[test]
fn picture_has_columns_for_width_and_rows_for_height() {
    let mut a = Raster::new(2, 3);
    a.paint(1, 2, Color::new(10, 20, 30));
    a.paint(0, 1, Color::new(40, 50, 60));
    let img = array_to_image(a);
    assert_eq!(img.width(), 3);
    assert_eq!(img.height(), 2);
    assert_eq!(
        img.into_raw(),
        vec![0, 0, 0, 40, 50, 60, 0, 0, 0, 0, 0, 0, 0, 0, 0, 10, 20, 30]
    );
}

#[test]
fn checked_picture_of_a_fresh_raster() {
    let mut a = Raster::new(3, 1);
    a.paint(2, 0, Color::new(5, 6, 7));
    let img = try_array_to_image(a).expect("a fresh raster makes a picture");
    assert_eq!((img.width(), img.height()), (1, 3));
    assert_eq!(img.into_raw(), vec![0, 0, 0, 0, 0, 0, 5, 6, 7]);
}

#[test]
fn empty_raster_makes_an_empty_picture() {
    let img = array_to_image(Raster::new(0, 0));
    assert_eq!((img.width(), img.height()), (0, 0));
    assert!(img.into_raw().is_empty());
}
