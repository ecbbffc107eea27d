use std::io::Cursor;

use nova::shader::{label_from_file_name, source_label, ShaderSource};
use nova::texture::{
    default_white_texture, texture_from_bytes, Texture, TextureConfig, TextureDimension,
    TextureFormat, TextureSize, TextureUsages,
};
use nova::time::fixed_update_steps;
use nova::window::surface_resize;

fn png_bytes(width: u32, height: u32, pixels: Vec<u8>) -> Vec<u8> {
    let image = image::RgbaImage::from_raw(width, height, pixels).unwrap();
    let mut out = Cursor::new(Vec::new());
    image.write_to(&mut out, image::ImageFormat::Png).unwrap();
    out.into_inner()
}

#[test]
fn png_bytes_decode_to_an_rgba8_texture() {
    let pixels = vec![1, 2, 3, 255, 4, 5, 6, 128];
    let bytes = png_bytes(2, 1, pixels.clone());
    let texture = texture_from_bytes("png", &bytes, TextureConfig::new(7u8)).unwrap();
    assert_eq!(texture.data(), pixels.as_slice());
    assert_eq!(texture.size().width(), 2);
    assert_eq!(texture.size().height(), 1);
    assert_eq!(texture.size().depth(), 1);
    assert_eq!(texture.size().dimension(), TextureDimension::D2);
    assert_eq!(texture.config().sampler_config, 7u8);
    // The extension is matched without regard to case.
    assert!(texture_from_bytes("PNG", &bytes, TextureConfig::new(0u8)).is_ok());
}

#[test]
fn undecodable_bytes_or_unknown_formats_fail() {
    let bytes = png_bytes(1, 1, vec![0, 0, 0, 0]);
    assert!(texture_from_bytes("png", &[1, 2, 3], TextureConfig::new(())).is_err());
    assert!(texture_from_bytes("", &bytes, TextureConfig::new(())).is_err());
    assert!(texture_from_bytes("txt", &bytes, TextureConfig::new(())).is_err());
}

#[test]
fn texture_config_defaults() {
    let config = TextureConfig::new(());
    assert_eq!(config.format, TextureFormat::Rgba8UnormSrgb);
    assert_eq!(config.mip_level_count, 1);
    assert_eq!(config.sample_count, 1);
    assert_eq!(config.usage, TextureUsages::texture_binding().union(TextureUsages::copy_dst()));
    assert_eq!(config.label, "Texture");
}

#[test]
fn raw_textures_keep_what_they_are_given() {
    let texture = Texture::from_raw(vec![9; 16], TextureSize::new_texture2d(2, 2), TextureConfig::new(3u16));
    assert_eq!(texture.data(), &[9; 16]);
    assert_eq!(texture.size(), TextureSize::new_texture2d(2, 2));
    assert_eq!(texture.config().sampler_config, 3);
    let white = default_white_texture(());
    assert_eq!(white.data(), &[255, 255, 255, 255]);
    assert_eq!(white.size(), TextureSize::new_texture2d(1, 1));
    assert_eq!(white.config().label, "Texture");
}

#[test]
fn fixed_updates_run_once_per_whole_frame_time() {
    assert_eq!(fixed_update_steps(0, 50, 16), (3, 50));
    assert_eq!(fixed_update_steps(100, 15, 16), (0, 115));
    assert_eq!(fixed_update_steps(7, 32, 16), (2, 39));
}

#[test]
fn surface_is_resized_only_to_a_new_non_empty_size() {
    assert_eq!(surface_resize((800, 600), 1024, 768), Some((1024, 768)));
    assert_eq!(surface_resize((800, 600), 800, 600), None);
    assert_eq!(surface_resize((800, 600), 0, 768), None);
    assert_eq!(surface_resize((800, 600), 1024, 0), None);
    assert_eq!(surface_resize((800, 600), 800, 768), Some((800, 768)));
}

#[test]
fn shader_labels() {
    assert_eq!(label_from_file_name(Some("sprite.wgsl".to_owned())), "sprite.wgsl");
    assert_eq!(label_from_file_name(None), "Shader");
    assert_eq!(source_label(&ShaderSource::Inline("x".to_owned())), "Inline shader");
    assert_eq!(source_label(&ShaderSource::File("assets/circle.wgsl".into())), "circle.wgsl");
}
