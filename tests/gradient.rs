use fifo_window::gradient::{gradient_color, gradient_pixels};

#[test]
fn corner_colors() {
    assert_eq!(gradient_color(0, 0, 256, 256), 0xFFFF_0000);
    assert_eq!(gradient_color(255, 255, 256, 256), 0xFF00_0000);
    assert_eq!(gradient_color(128, 0, 256, 256), 0xFF7F_7F00);
    assert_eq!(gradient_color(0, 128, 256, 256), 0xFF7F_007F);
}

#[test]
fn small_picture_bytes() {
    let p = gradient_pixels(2, 2);
    assert_eq!(
        p,
        vec![0, 0, 255, 255, 0, 127, 127, 255, 127, 0, 127, 255, 127, 127, 127, 255]
    );
}

#[test]
fn picture_bytes_are_little_endian_colors() {
    let (w, h) = (256u32, 256u32);
    let p = gradient_pixels(w, h);
    assert_eq!(p.len(), (w * h * 4) as usize);
    for (index, chunk) in p.chunks_exact(4).enumerate() {
        let x = (index % w as usize) as u32;
        let y = (index / w as usize) as u32;
        assert_eq!(chunk, &gradient_color(x, y, w, h).to_le_bytes()[..]);
    }
}

#[test]
fn empty_picture() {
    assert!(gradient_pixels(0, 5).is_empty());
    assert!(gradient_pixels(5, 0).is_empty());
}
