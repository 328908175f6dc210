use ascii_spin::AnimState;
use ascii_spin::CharGrid;
use ascii_spin::LumaImage;
use ascii_spin::Trig;
use ascii_spin::Trig3;
use ascii_spin::grid_from_image;
use ascii_spin::render_frame;

fn black_png_2x2() -> Vec<u8> {
    let img = image::GrayImage::from_pixel(2, 2, image::Luma([0u8]));
    let mut buf = std::io::Cursor::new(Vec::new());
    image::DynamicImage::ImageLuma8(img)
        .write_to(&mut buf, image::ImageFormat::Png)
        .expect("encode");
    buf.into_inner()
}

#[test]
fn black_image_resized_to_grid_is_all_densest() {
    let bytes = black_png_2x2();
    let img = LumaImage::from_bytes(&bytes).expect("decodes");
    let g = grid_from_image(&img, 4, 4);
    assert_eq!(g.width, 4);
    assert_eq!(g.height, 4);
    for y in 0..4 {
        for x in 0..4 {
            assert_eq!(g.get(x, y), '@');
        }
    }
}

#[test]
fn undecodable_bytes_are_rejected() {
    let bytes = vec![1u8, 2, 3, 4];
    assert!(LumaImage::from_bytes(&bytes).is_none());
}

#[test]
fn render_pass_rotates_then_advances() {
    let cells: Vec<char> = "@%#MW&8B$*o!;:. ".chars().collect();
    let base = CharGrid { cells, width: 4, height: 4 };
    let zero = Trig { sin: 0, cos: 65536 };
    let t = Trig3 { x: zero, y: zero, z: zero };
    let mut state = AnimState::new();
    let frame = render_frame(&base, &t, &mut state, 1_000_000);
    for y in 0..4 {
        for x in 0..4 {
            assert_eq!(frame.get(x, y), base.get(x, y));
        }
    }
    assert_eq!(state.angle_z, 3_000_000);
}
