use kodak::Colour;
use kodak::Dim;
use kodak::Image;
use kodak::Loc;
use kodak::Region;

#[test]
fn colour_from_vec_reads_channels() {
    let c = Colour::from_vec(vec![1, 2, 3]);
    assert_eq!(c, Colour { r: 1, g: 2, b: 3 });
}

#[test]
fn colour_to_vec_writes_channels() {
    let c = Colour { r: 10, g: 20, b: 30 };
    assert_eq!(c.to_vec(), vec![10, 20, 30]);
}

#[test]
fn colour_constants() {
    assert_eq!(Colour::black(), Colour { r: 0, g: 0, b: 0 });
    assert_eq!(Colour::white(), Colour { r: 255, g: 255, b: 255 });
    assert_eq!(Colour::default(), Colour::black());
}

#[test]
fn dim_square_and_expand() {
    assert_eq!(Dim::square(7), Dim { w: 7, h: 7 });
    assert_eq!(Dim { w: 2, h: 3 }.expand(4), Dim { w: 6, h: 7 });
    assert_eq!(Dim::default(), Dim { w: 0, h: 0 });
}

#[test]
fn loc_addition() {
    assert_eq!(Loc { x: 1, y: 2 }.add_dim(Dim { w: 10, h: 20 }), Loc { x: 11, y: 22 });
    assert_eq!(Loc { x: 1, y: 2 }.add_loc(Loc { x: 3, y: 4 }), Loc { x: 4, y: 6 });
    assert_eq!(Loc::default(), Loc { x: 0, y: 0 });
}

#[test]
fn region_from_top_left_anchors_at_origin() {
    let dim = Dim { w: 5, h: 6 };
    assert_eq!(
        Region::from_top_left(dim),
        Region { l: Loc { x: 0, y: 0 }, d: dim }
    );
}

#[test]
fn as_region_covers_whole_image() {
    let img = Image::blank(Dim { w: 5, h: 6 });
    assert_eq!(
        img.as_region(),
        Region { l: Loc { x: 0, y: 0 }, d: Dim { w: 5, h: 6 } }
    );
}

#[test]
fn raw_bytes_roundtrip() {
    let dim = Dim { w: 2, h: 1 };
    let bytes: Vec<u8> = vec![1, 2, 3, 4, 5, 6];
    let img = Image::from_raw_bytes(dim, &bytes).unwrap();
    assert_eq!(img.get_pixel(Loc { x: 0, y: 0 }).unwrap(), Colour { r: 1, g: 2, b: 3 });
    assert_eq!(img.get_pixel(Loc { x: 1, y: 0 }).unwrap(), Colour { r: 4, g: 5, b: 6 });
    assert_eq!(img.to_raw_bytes(), bytes);
}

#[test]
fn from_raw_bytes_wrong_length_is_error() {
    let dim = Dim { w: 2, h: 1 };
    assert!(Image::from_raw_bytes(dim, &vec![1, 2, 3]).is_err());
    assert!(Image::from_raw_bytes(dim, &vec![1, 2, 3, 4, 5, 6, 7]).is_err());
}

#[test]
fn to_raw_bytes_of_solid_image() {
    let img = Image::blank_with_colour(Dim { w: 2, h: 2 }, Colour { r: 4, g: 5, b: 6 });
    assert_eq!(img.to_raw_bytes(), vec![4, 5, 6, 4, 5, 6, 4, 5, 6, 4, 5, 6]);
}
