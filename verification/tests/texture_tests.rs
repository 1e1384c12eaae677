use ray_tracing::texture::{clamp_index, ImageTexture, ImageTextureError};
use ray_tracing::Clampable;

#[test]
fn image_texture_accepts_matching_data() {
    let data = vec![1u8, 2, 3, 4, 5, 6];
    let tex = ImageTexture::new(2, 1, data).unwrap();
    assert_eq!(tex.width(), 2);
    assert_eq!(tex.height(), 1);
    assert_eq!(tex.get_pixel(0, 0), (1, 2, 3));
    assert_eq!(tex.get_pixel(1, 0), (4, 5, 6));
}

#[test]
fn image_texture_rejects_short_data() {
    let r = ImageTexture::new(2, 2, vec![0u8; 11]);
    assert!(matches!(r, Err(ImageTextureError::DecodeError)));
}

#[test]
fn image_texture_rejects_long_data() {
    let r = ImageTexture::new(1, 1, vec![0u8; 4]);
    assert!(matches!(r, Err(ImageTextureError::DecodeError)));
}

#[test]
fn clamp_index_stays_inside() {
    assert_eq!(clamp_index(0, 4), 0);
    assert_eq!(clamp_index(3, 4), 3);
    assert_eq!(clamp_index(4, 4), 3);
    assert_eq!(clamp_index(100, 4), 3);
}

#[test]
fn clampable_restricts_to_range() {
    assert_eq!(2u64.clamp_(0, 3), 2);
    assert_eq!(4u64.clamp_(0, 3), 3);
    assert_eq!(1usize.clamp_(2, 5), 2);
    assert_eq!(200u8.clamp_(10, 20), 20);
}
