use imgtools::{
    apply, composite, text_frame, tile, ConfigurationError, Frame, GeometryError, Position, Raster,
    WatermarkError,
};

fn filled(width: u32, height: u32, pixel: [u8; 4]) -> Raster {
    let mut bytes = Vec::new();
    for _ in 0..(width as usize * height as usize) {
        bytes.extend_from_slice(&pixel);
    }
    Raster::new(width, height, bytes).unwrap()
}

fn pixel_at(raster: &Raster, x: u32, y: u32) -> [u8; 4] {
    let start = 4 * (y as usize * raster.width() as usize + x as usize);
    let bytes = raster.pixels();
    [
        bytes[start],
        bytes[start + 1],
        bytes[start + 2],
        bytes[start + 3],
    ]
}

const GREY: [u8; 4] = [10, 20, 30, 255];
const RED: [u8; 4] = [255, 0, 0, 255];

#[test]
fn raster_needs_four_bytes_for_each_pixel() {
    assert!(Raster::new(2, 3, vec![0; 24]).is_some());
    assert!(Raster::new(2, 3, vec![0; 23]).is_none());
    assert!(Raster::new(2, 3, vec![0; 25]).is_none());
    assert!(Raster::new(0, 3, Vec::new()).is_some());
    let raster = Raster::new(2, 1, vec![1, 2, 3, 4, 5, 6, 7, 8]).unwrap();
    assert_eq!(raster.width(), 2);
    assert_eq!(raster.height(), 1);
    assert_eq!(raster.pixels(), &vec![1, 2, 3, 4, 5, 6, 7, 8]);
    assert_eq!(raster.into_pixels(), vec![1, 2, 3, 4, 5, 6, 7, 8]);
}

#[test]
fn opaque_overlay_replaces_what_it_covers() {
    let mut base = filled(4, 3, GREY);
    let overlay = filled(2, 2, RED);
    composite(&mut base, &overlay, 1, 1);
    for y in 0..3 {
        for x in 0..4 {
            let covered = (1..3).contains(&x) && (1..3).contains(&y);
            assert_eq!(pixel_at(&base, x, y), if covered { RED } else { GREY });
        }
    }
}

#[test]
fn transparent_overlay_changes_nothing() {
    let mut base = filled(4, 3, GREY);
    let before = base.pixels().clone();
    let overlay = filled(2, 2, [255, 0, 0, 0]);
    composite(&mut base, &overlay, 1, 1);
    assert_eq!(base.pixels(), &before);
    assert_eq!(tile(&mut base, &overlay, 1), Ok(()));
    assert_eq!(base.pixels(), &before);
    assert_eq!(apply(&mut base, &overlay, Position::Center, 0), Ok(()));
    assert_eq!(base.pixels(), &before);
}

#[test]
fn translucent_overlay_is_blended() {
    let mut base = filled(1, 1, [0, 0, 0, 255]);
    let overlay = filled(1, 1, [255, 255, 255, 128]);
    composite(&mut base, &overlay, 0, 0);
    let [r, g, b, a] = pixel_at(&base, 0, 0);
    assert_eq!((r, g, b), (128, 128, 128));
    // The blend is computed in floating point and rounded down.
    assert!(a == 254 || a == 255);
}

#[test]
fn overlay_is_clipped_to_the_canvas() {
    let mut base = filled(3, 3, GREY);
    let overlay = filled(2, 2, RED);
    composite(&mut base, &overlay, -1, -1);
    assert_eq!(pixel_at(&base, 0, 0), RED);
    assert_eq!(pixel_at(&base, 1, 0), GREY);
    assert_eq!(pixel_at(&base, 0, 1), GREY);
    composite(&mut base, &overlay, 2, 2);
    assert_eq!(pixel_at(&base, 2, 2), RED);
    assert_eq!(pixel_at(&base, 1, 2), GREY);

    let mut untouched = filled(3, 3, GREY);
    composite(&mut untouched, &overlay, -2, 0);
    composite(&mut untouched, &overlay, 3, 0);
    composite(&mut untouched, &overlay, 0, 3);
    composite(&mut untouched, &overlay, i64::MIN, i64::MAX);
    composite(&mut untouched, &overlay, i64::MAX, i64::MIN);
    assert_eq!(untouched.pixels(), filled(3, 3, GREY).pixels());

    let mut small = filled(2, 2, GREY);
    let large = filled(5, 5, RED);
    composite(&mut small, &large, -1, -1);
    assert_eq!(small.pixels(), filled(2, 2, RED).pixels());
}

#[test]
fn flat_lay_tiles_at_multiples_of_the_spacing() {
    let position = Position::from_str("flat-lay(40)").unwrap();
    let mut base = filled(120, 120, GREY);
    let overlay = filled(10, 10, RED);
    assert_eq!(apply(&mut base, &overlay, position, 20), Ok(()));
    for y in 0..120 {
        for x in 0..120 {
            let covered = x % 40 < 10 && y % 40 < 10;
            assert_eq!(pixel_at(&base, x, y), if covered { RED } else { GREY });
        }
    }
    for corner in [0, 40, 80] {
        assert_eq!(pixel_at(&base, corner, corner), RED);
        assert_eq!(pixel_at(&base, corner + 10, corner), GREY);
    }
}

#[test]
fn tiling_covers_the_canvas_when_the_spacing_is_small() {
    let mut base = filled(25, 17, GREY);
    let overlay = filled(6, 5, RED);
    assert_eq!(tile(&mut base, &overlay, 5), Ok(()));
    assert_eq!(base.pixels(), filled(25, 17, RED).pixels());

    let mut sparse = filled(25, 17, GREY);
    assert_eq!(tile(&mut sparse, &overlay, 7), Ok(()));
    assert_eq!(pixel_at(&sparse, 6, 0), GREY);
    assert_eq!(pixel_at(&sparse, 7, 0), RED);
    assert_eq!(pixel_at(&sparse, 21, 14), RED);
    assert_eq!(pixel_at(&sparse, 24, 16), RED);
}

#[test]
fn tiled_opaque_overlay_hides_the_canvas() {
    let colors: [[u8; 4]; 6] = [
        [1, 0, 0, 255],
        [2, 0, 0, 255],
        [3, 0, 0, 255],
        [4, 0, 0, 255],
        [5, 0, 0, 255],
        [6, 0, 0, 255],
    ];
    let mut bytes = Vec::new();
    for color in colors {
        bytes.extend_from_slice(&color);
    }
    let overlay = Raster::new(3, 2, bytes).unwrap();
    for spacing in [1, 2] {
        let mut base = filled(11, 7, GREY);
        assert_eq!(tile(&mut base, &overlay, spacing), Ok(()));
        for y in 0..7 {
            for x in 0..11 {
                assert!(colors.contains(&pixel_at(&base, x, y)));
            }
        }
    }
    // With a spacing of two the copies do not overlap from row to row.
    let mut base = filled(4, 4, GREY);
    assert_eq!(tile(&mut base, &overlay, 2), Ok(()));
    assert_eq!(pixel_at(&base, 0, 0), [1, 0, 0, 255]);
    assert_eq!(pixel_at(&base, 1, 0), [2, 0, 0, 255]);
    assert_eq!(pixel_at(&base, 2, 0), [1, 0, 0, 255]);
    assert_eq!(pixel_at(&base, 3, 0), [2, 0, 0, 255]);
    assert_eq!(pixel_at(&base, 0, 1), [4, 0, 0, 255]);
    assert_eq!(pixel_at(&base, 3, 3), [5, 0, 0, 255]);
    // Beyond the overlay's size, gaps are left.
    let mut gaps = filled(11, 7, GREY);
    assert_eq!(tile(&mut gaps, &overlay, 3), Ok(()));
    assert_eq!(pixel_at(&gaps, 0, 2), GREY);
    assert_eq!(pixel_at(&gaps, 0, 3), [1, 0, 0, 255]);
}

#[test]
fn tiling_with_a_huge_spacing_places_one_copy() {
    let mut base = filled(5, 5, GREY);
    let overlay = filled(1, 1, RED);
    assert_eq!(tile(&mut base, &overlay, usize::MAX), Ok(()));
    assert_eq!(pixel_at(&base, 0, 0), RED);
    assert_eq!(pixel_at(&base, 4, 4), GREY);
    let mut empty = filled(0, 5, GREY);
    assert_eq!(tile(&mut empty, &overlay, 1), Ok(()));
    assert_eq!(empty.pixels().len(), 0);
}

#[test]
fn later_copies_lie_over_earlier_ones() {
    // Two-pixel overlay, spacing one: each copy's first pixel overwrites the
    // second pixel of the copy to its left.
    let mut base = filled(3, 1, GREY);
    let overlay = Raster::new(2, 1, vec![1, 1, 1, 255, 2, 2, 2, 255]).unwrap();
    assert_eq!(tile(&mut base, &overlay, 1), Ok(()));
    assert_eq!(pixel_at(&base, 0, 0), [1, 1, 1, 255]);
    assert_eq!(pixel_at(&base, 1, 0), [1, 1, 1, 255]);
    assert_eq!(pixel_at(&base, 2, 0), [1, 1, 1, 255]);
}

#[test]
fn zero_spacing_is_rejected() {
    let mut base = filled(4, 4, GREY);
    let overlay = filled(2, 2, RED);
    assert_eq!(
        tile(&mut base, &overlay, 0),
        Err(ConfigurationError::ZeroSpacing)
    );
    assert_eq!(
        apply(&mut base, &overlay, Position::FlatLay(0), 20),
        Err(WatermarkError::Configuration(
            ConfigurationError::ZeroSpacing
        ))
    );
    assert_eq!(base.pixels(), filled(4, 4, GREY).pixels());
    assert_eq!(
        ConfigurationError::ZeroSpacing.message(),
        "The tiling spacing must be greater than zero"
    );
    assert_eq!(
        WatermarkError::Configuration(ConfigurationError::ZeroSpacing).message(),
        "The tiling spacing must be greater than zero"
    );
}

#[test]
fn watermark_is_placed_at_the_resolved_corner() {
    let mut base = filled(10, 8, GREY);
    let overlay = filled(2, 2, RED);
    assert_eq!(apply(&mut base, &overlay, Position::BottomRight, 1), Ok(()));
    for y in 0..8 {
        for x in 0..10 {
            let covered = (7..9).contains(&x) && (5..7).contains(&y);
            assert_eq!(pixel_at(&base, x, y), if covered { RED } else { GREY });
        }
    }
    let mut other = filled(10, 8, GREY);
    assert_eq!(
        apply(&mut other, &overlay, Position::Custom(9, 7), 1),
        Ok(())
    );
    assert_eq!(pixel_at(&other, 9, 7), RED);
    assert_eq!(pixel_at(&other, 8, 7), GREY);
}

#[test]
fn watermark_that_does_not_fit_leaves_the_canvas_alone() {
    let mut base = filled(4, 4, GREY);
    let overlay = filled(3, 5, RED);
    assert_eq!(
        apply(&mut base, &overlay, Position::TopLeft, 2),
        Err(WatermarkError::Geometry(GeometryError::WidthExceedsCanvas))
    );
    assert_eq!(
        apply(&mut base, &overlay, Position::Center, 2),
        Err(WatermarkError::Geometry(GeometryError::HeightExceedsCanvas))
    );
    assert_eq!(base.pixels(), filled(4, 4, GREY).pixels());
    assert_eq!(
        WatermarkError::Geometry(GeometryError::HeightExceedsCanvas).message(),
        "The target is taller than the canvas allows"
    );
}

#[test]
fn text_frame_is_the_diagonal_rounded_up() {
    assert_eq!(
        text_frame(3, 4),
        Ok(Frame {
            side: 5,
            left: 1,
            top: 0
        })
    );
    assert_eq!(
        text_frame(0, 0),
        Ok(Frame {
            side: 0,
            left: 0,
            top: 0
        })
    );
    assert_eq!(
        text_frame(1, 1),
        Ok(Frame {
            side: 2,
            left: 1,
            top: 1
        })
    );
    assert_eq!(
        text_frame(100, 30),
        Ok(Frame {
            side: 105,
            left: 2,
            top: 37
        })
    );
    assert_eq!(
        text_frame(4000, 1),
        Ok(Frame {
            side: 4001,
            left: 0,
            top: 2000
        })
    );
    assert_eq!(
        text_frame(u32::MAX, 0),
        Ok(Frame {
            side: u32::MAX,
            left: 0,
            top: u32::MAX / 2
        })
    );
    assert_eq!(text_frame(u32::MAX, 1), Err(GeometryError::FrameTooLarge));
    assert_eq!(
        text_frame(u32::MAX, u32::MAX),
        Err(GeometryError::FrameTooLarge)
    );
    assert_eq!(
        GeometryError::FrameTooLarge.message(),
        "The text is too large to be framed"
    );
}
