use kodak::Colour;
use kodak::Dim;
use kodak::Image;
use kodak::Loc;
use kodak::Region;

#[test]
fn loc_in_region() {
    let location1 = Loc { x: 10, y: 10 };
    let location2 = Loc { x: 10, y: 11 };
    assert!(location1.inside_region(Region {
        l: Loc { x: 0, y: 0 },
        d: Dim { w: 20, h: 20 },
    }));

    assert!(location2.inside_region(Region {
        l: Loc { x: 0, y: 0 },
        d: Dim { w: 20, h: 20 },
    }));
}

#[test]
fn region_membership_boundaries() {
    let region = Region { l: Loc { x: 2, y: 3 }, d: Dim { w: 4, h: 5 } };

    // Inclusive at the top-left edges.
    assert!(Loc { x: 2, y: 3 }.inside_region(region));
    assert!(Loc { x: 2, y: 7 }.inside_region(region));
    assert!(Loc { x: 5, y: 3 }.inside_region(region));
    assert!(Loc { x: 5, y: 7 }.inside_region(region));

    // Exclusive at the far edges.
    assert!(!Loc { x: 6, y: 3 }.inside_region(region));
    assert!(!Loc { x: 2, y: 8 }.inside_region(region));
    assert!(!Loc { x: 6, y: 8 }.inside_region(region));

    // Below the top-left corner on either axis.
    assert!(!Loc { x: 1, y: 3 }.inside_region(region));
    assert!(!Loc { x: 2, y: 2 }.inside_region(region));
}

#[test]
fn index_roundtrip() {
    let dim = Dim { w: 7, h: 5 };
    for i in 0..35usize {
        let loc = Loc::from_index(i, dim);
        assert_eq!(loc.as_index(dim), i);
        assert!(loc.inside_region(Region::from_top_left(dim)));
    }
    assert_eq!(Loc::from_index(9, dim), Loc { x: 2, y: 1 });
    assert_eq!(Loc { x: 2, y: 1 }.as_index(dim), 9);
}

#[test]
fn blank_pixels_are_black() {
    let img = Image::blank(Dim { w: 4, h: 3 });
    assert_eq!(img.get_pixel(Loc { x: 0, y: 0 }).unwrap(), Colour::black());
    assert_eq!(img.get_pixel(Loc { x: 3, y: 2 }).unwrap(), Colour::black());
}

#[test]
fn blank_with_colour_pixels() {
    let c = Colour { r: 9, g: 8, b: 7 };
    let img = Image::blank_with_colour(Dim { w: 4, h: 3 }, c);
    assert_eq!(img.get_pixel(Loc { x: 0, y: 0 }).unwrap(), c);
    assert_eq!(img.get_pixel(Loc { x: 3, y: 2 }).unwrap(), c);
    assert_eq!(img.get_dimensions(), Dim { w: 4, h: 3 });
}

#[test]
fn fill_region() {
    let img = Image::blank(Dim { w: 20, h: 10 }).fill_region(
        Region { l: Loc { x: 10, y: 0 }, d: Dim { w: 10, h: 10 } },
        Colour::white(),
    );

    assert_eq!(img.get_pixel(Loc { x: 5, y: 5 }).unwrap(), Colour::black());
    assert_eq!(img.get_pixel(Loc { x: 15, y: 5 }).unwrap(), Colour::white());
}

#[test]
fn fill_region_edge_columns() {
    let img = Image::blank(Dim { w: 20, h: 10 }).fill_region(
        Region { l: Loc { x: 10, y: 0 }, d: Dim { w: 10, h: 10 } },
        Colour::white(),
    );

    // The left edge of the region is already filled; one short of it is not.
    assert_eq!(img.get_pixel(Loc { x: 9, y: 5 }).unwrap(), Colour::black());
    assert_eq!(img.get_pixel(Loc { x: 10, y: 5 }).unwrap(), Colour::white());
}

#[test]
fn crop() {
    // Round an image through the PNG codec, then crop the loaded image.
    let src = Image::blank(Dim::square(256));
    let mut png_bytes: Vec<u8> = Vec::new();
    {
        let mut encoder = png::Encoder::new(&mut png_bytes, 256, 256);
        encoder.set_color(png::ColorType::Rgb);
        encoder.set_depth(png::BitDepth::Eight);
        let mut writer = encoder.write_header().unwrap();
        writer.write_image_data(&src.to_raw_bytes()).unwrap();
    }

    let decoder = png::Decoder::new(std::io::Cursor::new(png_bytes));
    let mut reader = decoder.read_info().unwrap();
    let mut data = vec![0u8; reader.output_buffer_size().unwrap()];
    let info = reader.next_frame(&mut data).unwrap();
    data.truncate(info.buffer_size());

    let img = Image::from_raw_bytes(Dim { w: info.width, h: info.height }, &data).unwrap();
    assert_eq!(
        img.crop(Region::from_top_left(Dim::square(100))).unwrap().get_dimensions().w,
        100
    );
}

#[test]
fn crop_clamps_far_corner() {
    let img = Image::blank(Dim { w: 20, h: 30 });
    let cropped = img
        .crop(Region { l: Loc { x: 10, y: 10 }, d: Dim { w: 100, h: 100 } })
        .unwrap();
    assert_eq!(cropped.get_dimensions(), Dim { w: 10, h: 20 });

    // Only the axis that passes the far edge is clamped.
    let img = Image::blank(Dim { w: 20, h: 30 });
    let cropped = img
        .crop(Region { l: Loc { x: 10, y: 10 }, d: Dim { w: 100, h: 5 } })
        .unwrap();
    assert_eq!(cropped.get_dimensions(), Dim { w: 10, h: 5 });
}

#[test]
fn crop_corner_out_of_bounds_is_error() {
    let img = Image::blank(Dim { w: 20, h: 30 });
    assert!(img.crop(Region { l: Loc { x: 25, y: 0 }, d: Dim { w: 5, h: 5 } }).is_err());

    // The far edges themselves lie outside the image.
    let img = Image::blank(Dim { w: 20, h: 30 });
    assert!(img.crop(Region { l: Loc { x: 20, y: 0 }, d: Dim { w: 1, h: 1 } }).is_err());
}

#[test]
fn crop_keeps_pixels() {
    let img = Image::blank(Dim { w: 8, h: 8 })
        .fill_region(Region { l: Loc { x: 4, y: 4 }, d: Dim { w: 4, h: 4 } }, Colour::white());
    let cropped = img
        .crop(Region { l: Loc { x: 3, y: 3 }, d: Dim { w: 4, h: 4 } })
        .unwrap();
    // (0, 0) of the crop is (3, 3) of the source: still black.
    assert_eq!(cropped.get_pixel(Loc { x: 0, y: 0 }).unwrap(), Colour::black());
    // (1, 1) of the crop is (4, 4) of the source: white.
    assert_eq!(cropped.get_pixel(Loc { x: 1, y: 1 }).unwrap(), Colour::white());
}

#[test]
fn overlay_non_out_of_bounds() {
    let original = Image::blank_with_colour(Dim::square(10), Colour::white());
    let overlay = Image::blank(Dim::square(5));

    let result = original.overlay(overlay, Loc { x: 0, y: 0 });

    assert_eq!(result.get_pixel(Loc { x: 0, y: 0 }).unwrap(), Colour::black());
    assert_eq!(result.get_pixel(Loc { x: 4, y: 0 }).unwrap(), Colour::black());
    assert_eq!(result.get_pixel(Loc { x: 0, y: 4 }).unwrap(), Colour::black());
    assert_eq!(result.get_pixel(Loc { x: 4, y: 4 }).unwrap(), Colour::black());
    assert_eq!(result.get_pixel(Loc { x: 0, y: 5 }).unwrap(), Colour::white());
    assert_eq!(result.get_pixel(Loc { x: 5, y: 0 }).unwrap(), Colour::white());
}

#[test]
fn overlay_truncates_oversized_image() {
    let original = Image::blank_with_colour(Dim::square(10), Colour::white());
    let overlay = Image::blank(Dim::square(20));

    let result = original.overlay(overlay, Loc { x: 5, y: 5 });

    assert_eq!(result.get_dimensions(), Dim::square(10));
    assert_eq!(result.get_pixel(Loc { x: 4, y: 4 }).unwrap(), Colour::white());
    assert_eq!(result.get_pixel(Loc { x: 4, y: 9 }).unwrap(), Colour::white());
    assert_eq!(result.get_pixel(Loc { x: 5, y: 5 }).unwrap(), Colour::black());
    assert_eq!(result.get_pixel(Loc { x: 9, y: 9 }).unwrap(), Colour::black());
}

#[test]
fn fill_twice_equals_fill_once() {
    let c = Colour { r: 1, g: 2, b: 3 };
    let once = Image::blank(Dim { w: 6, h: 4 }).fill(c);
    let twice = Image::blank(Dim { w: 6, h: 4 }).fill(c).fill(c);
    assert_eq!(once.get_dimensions(), twice.get_dimensions());
    assert_eq!(once.to_raw_bytes(), twice.to_raw_bytes());
}

#[test]
fn get_pixel_out_of_bounds_is_error() {
    let img = Image::blank(Dim { w: 4, h: 3 });
    assert!(img.get_pixel(Loc { x: 4, y: 0 }).is_err());
    assert!(img.get_pixel(Loc { x: 0, y: 3 }).is_err());
    assert!(img.get_pixel(Loc { x: 0, y: 0 }).is_ok());
}
