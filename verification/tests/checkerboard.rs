use scene_explorer::texture::checkerboard_pixels;

fn pixel(p: &[u8], size: usize, x: usize, y: usize) -> [u8; 4] {
    let i = 4 * (y * size + x);
    [p[i], p[i + 1], p[i + 2], p[i + 3]]
}

const DARK: [u8; 4] = [34, 110, 34, 255];
const LIGHT: [u8; 4] = [60, 179, 60, 255];

#[test]
fn checkerboard_of_the_ground_texture() {
    let p = checkerboard_pixels(256, 16);
    assert_eq!(p.len(), 256 * 256 * 4);
    assert_eq!(pixel(&p, 256, 0, 0), DARK);
    assert_eq!(pixel(&p, 256, 15, 15), DARK);
    assert_eq!(pixel(&p, 256, 16, 0), LIGHT);
    assert_eq!(pixel(&p, 256, 0, 16), LIGHT);
    assert_eq!(pixel(&p, 256, 16, 16), DARK);
    assert_eq!(pixel(&p, 256, 255, 255), DARK);
    assert_eq!(pixel(&p, 256, 40, 17), LIGHT);
    assert_eq!(pixel(&p, 256, 40, 40), DARK);
}

#[test]
fn checkerboard_small_exact() {
    let p = checkerboard_pixels(2, 1);
    let mut expected = Vec::new();
    for c in [DARK, LIGHT, LIGHT, DARK] {
        expected.extend_from_slice(&c);
    }
    assert_eq!(p, expected);
}

#[test]
fn checkerboard_neighbouring_squares_alternate() {
    let (size, check) = (64usize, 5usize);
    let p = checkerboard_pixels(size as u32, check as u32);
    for y in 0..size {
        for x in 0..size - check {
            assert_ne!(pixel(&p, size, x, y), pixel(&p, size, x + check, y));
        }
    }
    for y in 0..size - check {
        for x in 0..size {
            assert_ne!(pixel(&p, size, x, y), pixel(&p, size, x, y + check));
        }
    }
    for i in (3..p.len()).step_by(4) {
        assert_eq!(p[i], 255);
    }
}

#[test]
fn checkerboard_empty_image() {
    assert!(checkerboard_pixels(0, 3).is_empty());
}

#[test]
fn checkerboard_square_larger_than_image() {
    let p = checkerboard_pixels(4, 100);
    for y in 0..4 {
        for x in 0..4 {
            assert_eq!(pixel(&p, 4, x, y), DARK);
        }
    }
}

#[test]
fn checkerboard_empty_image_with_zero_squares() {
    assert!(checkerboard_pixels(0, 0).is_empty());
}
