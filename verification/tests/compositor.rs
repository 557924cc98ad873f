use blueprint::blueprint::bindings::Binding;
use blueprint::blueprint::compositor::{
    center_on_square, diagonal, encode_instance, paint_layer, place, place_layer,
    prepare_layer, rot, scale, scale_side, CompositeError, Rotation,
};
use blueprint::blueprint::image_cache::load_image;
use blueprint::blueprint::locator::Locator;
use blueprint::blueprint::raster::Raster;
use blueprint::models::templates::{Degrees, Layer, Opacity, Scale, Template, Transform, UNIT};

fn filled(width: u32, height: u32, pixel: [u8; 4]) -> Raster {
    let mut bytes = Vec::new();
    for _ in 0..(width as usize * height as usize) {
        bytes.extend_from_slice(&pixel);
    }
    Raster::from_raw(width, height, bytes).unwrap()
}

fn patterned(width: u32, height: u32) -> Raster {
    let mut bytes = Vec::new();
    for y in 0..height {
        for x in 0..width {
            let (red, green, blue) = (x * 7 % 256, y * 5 % 256, (x + y) % 256);
            bytes.extend_from_slice(&[red as u8, green as u8, blue as u8, 255]);
        }
    }
    Raster::from_raw(width, height, bytes).unwrap()
}

fn upright(step: Rotation) -> Raster {
    match step {
        Rotation::Upright(square) => square,
        Rotation::Turn { .. } => panic!("nothing was to be turned"),
    }
}

fn one_layer_template(width: u32, height: u32) -> Template {
    Template { aliases: Vec::new(), layers: vec![Layer::new("bg")], canvas_size: (width, height) }
}

#[test]
fn opaque_red_layer_fills_the_canvas() {
    let template = one_layer_template(100, 100);
    let binding = Binding { entries: vec![("bg".to_string(), Locator::packed("p", "red.png"))] };
    let locators = template.layer_locators(&binding).unwrap();
    assert_eq!(locators.len(), 1);
    assert_eq!(locators[0].path, "red.png");
    let red = filled(100, 100, [255, 0, 0, 255]);
    let prepared = upright(prepare_layer(&red, &template.layers[0].transform));
    let canvas = template.apply(&vec![prepared]);
    assert_eq!(canvas.width(), 100);
    assert_eq!(canvas.height(), 100);
    assert_eq!(canvas.as_raw(), red.as_raw());
    assert!(canvas.as_raw().chunks(4).all(|pixel| pixel == [255, 0, 0, 255]));
}

#[test]
fn full_size_opaque_layer_round_trips() {
    for (width, height) in [(7u32, 5u32), (1, 1), (4, 9), (16, 16)] {
        let template = one_layer_template(width, height);
        let image = patterned(width, height);
        let prepared = upright(prepare_layer(&image, &Transform::default()));
        let canvas = template.apply(&vec![prepared]);
        assert_eq!(canvas.as_raw(), image.as_raw());
    }
}

#[test]
fn opaque_and_empty_pixels_round_trip() {
    let bytes = vec![
        9, 8, 7, 255, 0, 0, 0, 0, 1, 2, 3, 255, //
        0, 0, 0, 0, 200, 100, 50, 255, 0, 0, 0, 0,
    ];
    let image = Raster::from_raw(3, 2, bytes).unwrap();
    let template = one_layer_template(3, 2);
    let prepared = upright(prepare_layer(&image, &Transform::default()));
    let canvas = template.apply(&vec![prepared]);
    assert_eq!(canvas.as_raw(), image.as_raw());
}

#[test]
fn whole_turns_leave_the_layer_upright() {
    let image = patterned(6, 4);
    for thousandths in [0i64, 360_000, -360_000, 720_000] {
        let square = upright(rot(&image, Degrees(thousandths)));
        assert_eq!(square.width(), 8);
        assert_eq!(square.height(), 8);
        for y in 0..4 {
            for x in 0..6 {
                assert_eq!(square.get_pixel(x + 1, y + 2), image.get_pixel(x, y));
            }
        }
        assert_eq!(square.get_pixel(0, 0), Some([0, 0, 0, 0]));
        assert_eq!(square.get_pixel(7, 7), Some([0, 0, 0, 0]));
    }
}

#[test]
fn other_turns_are_handed_out() {
    let image = patterned(3, 4);
    match rot(&image, Degrees(90_000)) {
        Rotation::Turn { square, thousandths } => {
            assert_eq!(thousandths, 90_000);
            assert_eq!((square.width(), square.height()), (5, 5));
        }
        Rotation::Upright(_) => panic!("a quarter turn is a turn"),
    }
    match rot(&image, Degrees(-1)) {
        Rotation::Turn { thousandths, .. } => assert_eq!(thousandths, 359_999),
        Rotation::Upright(_) => panic!("a small turn is a turn"),
    }
    assert_eq!(Degrees(-450_000).normalized(), 270_000);
    assert!(Degrees(-720_000).is_identity());
    assert!(!Degrees(1).is_identity());
}

#[test]
fn diagonal_is_rounded_up() {
    assert_eq!(diagonal(3, 4), 5);
    assert_eq!(diagonal(1, 1), 2);
    assert_eq!(diagonal(0, 0), 0);
    assert_eq!(diagonal(0, 9), 9);
    assert_eq!(diagonal(100, 100), 142);
    assert_eq!(diagonal(6, 4), 8);
    assert_eq!(diagonal(u32::MAX, u32::MAX), 6_074_000_999);
}

#[test]
fn square_holds_every_pixel() {
    let image = patterned(9, 2);
    let square = center_on_square(&image);
    assert_eq!((square.width(), square.height()), (10, 10));
    for y in 0..2 {
        for x in 0..9 {
            assert_eq!(square.get_pixel(x + 1, y + 4), image.get_pixel(x, y));
        }
    }
}

#[test]
fn square_keeps_pixels_of_every_alpha() {
    let bytes = vec![11, 0, 0, 3, 200, 100, 50, 0, 7, 8, 9, 128, 1, 2, 3, 255];
    let image = Raster::from_raw(2, 2, bytes).unwrap();
    let square = center_on_square(&image);
    assert_eq!((square.width(), square.height()), (3, 3));
    assert_eq!(square.get_pixel(0, 0), Some([11, 0, 0, 3]));
    assert_eq!(square.get_pixel(1, 0), Some([200, 100, 50, 0]));
    assert_eq!(square.get_pixel(0, 1), Some([7, 8, 9, 128]));
    assert_eq!(square.get_pixel(1, 1), Some([1, 2, 3, 255]));
    for (x, y) in [(2, 0), (2, 1), (0, 2), (1, 2), (2, 2)] {
        assert_eq!(square.get_pixel(x, y), Some([0, 0, 0, 0]));
    }
    let frame = image.framed(4, 3, 2, 1);
    assert_eq!(frame.get_pixel(2, 1), Some([11, 0, 0, 3]));
    assert_eq!(frame.get_pixel(3, 2), Some([1, 2, 3, 255]));
    assert_eq!(frame.get_pixel(1, 1), Some([0, 0, 0, 0]));
    assert_eq!(frame.as_raw().iter().filter(|byte| **byte != 0).count(), 13);
}

#[test]
fn scaling_changes_the_sides() {
    assert_eq!(scale_side(100, Scale(UNIT)), 100);
    assert_eq!(scale_side(100, Scale(UNIT / 2)), 50);
    assert_eq!(scale_side(3, Scale(UNIT / 2)), 1);
    assert_eq!(scale_side(7, Scale(3 * UNIT)), 21);
    assert_eq!(scale_side(u32::MAX, Scale(u32::MAX)), u32::MAX);
    assert_eq!(scale_side(10, Scale(0)), 0);
    let image = patterned(8, 6);
    let half = scale(&image, Scale(UNIT / 2));
    assert_eq!((half.width(), half.height()), (4, 3));
    assert_eq!(half.as_raw().len(), 4 * 3 * 4);
    let same = scale(&image, Scale(UNIT));
    assert_eq!(same.as_raw(), image.as_raw());
    let red = filled(4, 4, [200, 10, 10, 255]);
    let double = scale(&red, Scale(2 * UNIT));
    assert_eq!((double.width(), double.height()), (8, 8));
    assert!(double.as_raw().chunks(4).all(|pixel| pixel == [200, 10, 10, 255]));
}

#[test]
fn fading_scales_alpha_only() {
    let mut image = Raster::from_raw(2, 1, vec![10, 20, 30, 255, 40, 50, 60, 100]).unwrap();
    image.fade(UNIT / 2);
    assert_eq!(image.as_raw(), &vec![10, 20, 30, 127, 40, 50, 60, 50]);
    let mut image = Raster::from_raw(1, 1, vec![10, 20, 30, 200]).unwrap();
    image.fade(0);
    assert_eq!(image.as_raw(), &vec![10, 20, 30, 0]);
    let mut image = Raster::from_raw(1, 1, vec![10, 20, 30, 200]).unwrap();
    image.fade(UNIT);
    assert_eq!(image.as_raw(), &vec![10, 20, 30, 200]);
    let mut image = Raster::from_raw(1, 1, vec![10, 20, 30, 200]).unwrap();
    image.fade(u32::MAX);
    assert_eq!(image.as_raw(), &vec![10, 20, 30, 255]);
    let mut image = Raster::from_raw(1, 1, vec![10, 20, 30, 255]).unwrap();
    image.fade(19661);
    assert_eq!(image.as_raw(), &vec![10, 20, 30, 76]);
}

#[test]
fn placing_adds_the_offset_and_clips() {
    assert_eq!(place(100, 50, 0), 25);
    assert_eq!(place(100, 142, 0), -21);
    assert_eq!(place(100, 50, -30), -5);
    assert_eq!(place(101, 51, 7), 32);
    assert_eq!(place(0, u32::MAX, i64::MIN), i64::MIN);
    assert_eq!(place(u32::MAX, 0, i64::MAX), i64::MAX);
    let mut canvas = filled(4, 4, [0, 0, 0, 0]);
    let layer = filled(2, 2, [5, 6, 7, 255]);
    place_layer(&mut canvas, &layer, (2, 2));
    assert_eq!(canvas.get_pixel(3, 3), Some([5, 6, 7, 255]));
    assert_eq!(canvas.get_pixel(2, 2), Some([0, 0, 0, 0]));
    let painted = canvas.as_raw().chunks(4).filter(|pixel| *pixel == [5, 6, 7, 255]).count();
    assert_eq!(painted, 1);
    let mut canvas = filled(4, 4, [1, 1, 1, 255]);
    place_layer(&mut canvas, &layer, (100, 0));
    assert!(canvas.as_raw().chunks(4).all(|pixel| pixel == [1, 1, 1, 255]));
    place_layer(&mut canvas, &layer, (i64::MAX, i64::MIN));
    assert!(canvas.as_raw().chunks(4).all(|pixel| pixel == [1, 1, 1, 255]));
}

#[test]
fn later_layers_cover_earlier_ones() {
    let mut template = one_layer_template(4, 4);
    template.layers.push(Layer::new("fg"));
    let below = filled(4, 4, [10, 10, 10, 255]);
    let above = filled(2, 2, [90, 90, 90, 255]);
    let canvas = template.apply(&vec![below, above]);
    assert_eq!(canvas.get_pixel(0, 0), Some([10, 10, 10, 255]));
    assert_eq!(canvas.get_pixel(1, 1), Some([90, 90, 90, 255]));
    assert_eq!(canvas.get_pixel(2, 2), Some([90, 90, 90, 255]));
    assert_eq!(canvas.get_pixel(3, 3), Some([10, 10, 10, 255]));
}

#[test]
fn transparent_layer_adds_nothing() {
    let mut canvas = filled(3, 3, [10, 20, 30, 255]);
    let mut layer = Layer::new("ghost");
    layer.opacity = Opacity(0);
    paint_layer(&mut canvas, &filled(3, 3, [200, 200, 200, 255]), &layer);
    assert!(canvas.as_raw().chunks(4).all(|pixel| pixel == [10, 20, 30, 255]));
}

#[test]
fn half_opacity_blends() {
    let mut canvas = filled(1, 1, [0, 0, 0, 255]);
    let mut layer = Layer::new("veil");
    layer.opacity = Opacity(UNIT / 2);
    paint_layer(&mut canvas, &filled(1, 1, [255, 255, 255, 255]), &layer);
    let pixel = canvas.get_pixel(0, 0).unwrap();
    assert_eq!(pixel[3], 255);
    assert!(pixel[0] >= 126 && pixel[0] <= 128);
    assert_eq!(pixel[0], pixel[1]);
    assert_eq!(pixel[1], pixel[2]);
}

#[test]
fn empty_template_gives_an_empty_canvas() {
    let template = Template { aliases: Vec::new(), layers: Vec::new(), canvas_size: (3, 2) };
    let canvas = template.apply(&Vec::new());
    assert_eq!((canvas.width(), canvas.height()), (3, 2));
    assert_eq!(canvas.as_raw(), &vec![0u8; 24]);
    assert_eq!(Raster::new(3, 2).as_raw(), &vec![0u8; 24]);
}

#[test]
fn unbound_reference_names_the_layer() {
    let mut template = one_layer_template(4, 4);
    template.layers.push(Layer::new("fg"));
    template.layers.push(Layer::new("other"));
    let binding = Binding { entries: vec![("bg".to_string(), Locator::asset("b"))] };
    assert_eq!(
        template.layer_locators(&binding).unwrap_err(),
        CompositeError::UnboundReference { layer: 1 }
    );
}

#[test]
fn instances_are_encoded_as_png_and_read_back() {
    let image = patterned(5, 3);
    let file = encode_instance(&image).unwrap();
    assert_eq!(&file[..8], &[0x89, b'P', b'N', b'G', 0x0d, 0x0a, 0x1a, 0x0a]);
    let back = load_image(&file).unwrap();
    assert_eq!((back.width(), back.height()), (5, 3));
    assert_eq!(back.as_raw(), image.as_raw());
}

#[test]
fn canvas_without_pixels_has_no_png() {
    assert_eq!(encode_instance(&Raster::new(0, 0)).unwrap_err(), CompositeError::Unencodable);
    assert_eq!(encode_instance(&Raster::new(0, 3)).unwrap_err(), CompositeError::Unencodable);
}

#[test]
fn bytes_that_are_no_image_do_not_load() {
    let error = load_image(&vec![1, 2, 3, 4, 5]).unwrap_err();
    assert!(!error.message().is_empty());
    assert!(load_image(&Vec::new()).is_err());
}

#[test]
fn rasters_need_four_bytes_a_pixel() {
    assert!(Raster::from_raw(2, 2, vec![0; 16]).is_some());
    assert!(Raster::from_raw(2, 2, vec![0; 15]).is_none());
    assert!(Raster::from_raw(2, 2, vec![0; 17]).is_none());
    assert!(Raster::from_raw(0, 5, Vec::new()).is_some());
    let raster = Raster::from_raw(2, 1, vec![1, 2, 3, 4, 5, 6, 7, 8]).unwrap();
    assert_eq!(raster.get_pixel(1, 0), Some([5, 6, 7, 8]));
    assert_eq!(raster.get_pixel(2, 0), None);
    assert_eq!(raster.get_pixel(0, 1), None);
    assert_eq!(raster.duplicate().into_raw(), vec![1, 2, 3, 4, 5, 6, 7, 8]);
}

#[test]
fn loaded_image_has_the_size_of_the_file() {
    for (width, height) in [(1, 1), (7, 2), (2, 9), (16, 16)] {
        let file = encode_instance(&patterned(width, height)).unwrap();
        let back = load_image(&file).unwrap();
        assert_eq!((back.width(), back.height()), (width, height));
        assert_eq!(back.as_raw().len(), (width * height * 4) as usize);
    }
}

#[test]
fn partly_transparent_pixels_are_blended_onto_the_canvas() {
    let bytes = vec![2, 253, 1, 3, 200, 100, 50, 128, 0, 0, 0, 77, 255, 255, 255, 254];
    let image = Raster::from_raw(2, 2, bytes).unwrap();
    let template = one_layer_template(2, 2);
    let prepared = upright(prepare_layer(&image, &Transform::default()));
    let canvas = template.apply(&vec![prepared]);
    for y in 0..2 {
        for x in 0..2 {
            let shown = canvas.get_pixel(x, y).unwrap();
            let given = image.get_pixel(x, y).unwrap();
            assert_eq!(shown[3], given[3]);
            for channel in 0..3 {
                assert!(shown[channel].abs_diff(given[channel]) <= 1);
            }
        }
    }
    assert_eq!(canvas.get_pixel(0, 0), Some([2, 252, 1, 3]));
}
