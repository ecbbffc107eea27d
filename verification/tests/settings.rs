use std::path::PathBuf;

use nova::config::{CompositeAlphaMode, GraphicsConfiguration, PowerPreference, PresentMode};
use nova::material::{
    BindGroupLayout, BindGroupLayoutEntry, BindingKind, BlendMode, LayoutBinding,
};
use nova::shader::{source_label, ShaderEntryPoint, ShaderSource, ShaderStage};
use nova::texture::{
    TextureDimension, TextureSampleType, TextureSize, TextureUsages,
    TextureViewDimension,
};
use nova::time::{Clock, FrameDeadline};
use nova::uniform::UniformType;
use nova::window::WindowConfig;

#[test]
fn graphics_configuration_defaults_and_builders() {
    let config = GraphicsConfiguration::default();
    assert_eq!(config.power_preference, PowerPreference::HighPerformance);
    assert_eq!(config.present_mode, PresentMode::AutoVsync);
    assert_eq!(config.alpha_mode, CompositeAlphaMode::Auto);
    let changed = config
        .with_power_preference(PowerPreference::LowPower)
        .with_present_mode(PresentMode::Mailbox)
        .with_alpha_mode(CompositeAlphaMode::Opaque);
    assert_eq!(changed.power_preference, PowerPreference::LowPower);
    assert_eq!(changed.present_mode, PresentMode::Mailbox);
    assert_eq!(changed.alpha_mode, CompositeAlphaMode::Opaque);
}

#[test]
fn window_config_defaults() {
    let config = WindowConfig::default();
    assert_eq!(config.title, "New Window");
    assert_eq!(config.size, (500, 400));
    assert_eq!(config.min_size, None);
    assert_eq!(config.max_size, None);
    assert!(config.resizable);
    assert!(!config.maximized);
    assert!(config.visible);
    assert!(config.decoration);
}

#[test]
fn window_config_builders_change_one_field_each() {
    let config = WindowConfig::default()
        .with_title("Demo")
        .with_size((800, 600))
        .with_min_size((320, 240))
        .with_max_size((1920, 1080))
        .with_resizable(false)
        .with_maximized(true)
        .with_visible(false)
        .with_decoration(false);
    assert_eq!(config.title, "Demo");
    assert_eq!(config.size, (800, 600));
    assert_eq!(config.min_size, Some((320, 240)));
    assert_eq!(config.max_size, Some((1920, 1080)));
    assert!(!config.resizable);
    assert!(config.maximized);
    assert!(!config.visible);
    assert!(!config.decoration);
    let copy = config.clone();
    assert_eq!(copy.title, "Demo");
    assert_eq!(copy.size, (800, 600));
}

#[test]
fn texture_size_of_a_2d_texture() {
    let size = TextureSize::new_texture2d(256, 128);
    assert_eq!(size.width(), 256);
    assert_eq!(size.height(), 128);
    assert_eq!(size.depth(), 1);
    assert_eq!(size.dimension(), TextureDimension::D2);
}

#[test]
fn texture_usage_flags() {
    let usage = TextureUsages::texture_binding().union(TextureUsages::copy_dst());
    assert_eq!(usage.bits, 6);
    assert!(usage.contains(TextureUsages::copy_dst()));
    assert!(usage.contains(TextureUsages::texture_binding()));
    assert!(!usage.contains(TextureUsages::render_attachment()));
    assert!(usage.contains(TextureUsages::empty()));
    assert_eq!(TextureUsages::copy_src().bits, 1);
    assert_eq!(TextureUsages::storage_binding().bits, 8);
    assert_eq!(TextureUsages::render_attachment().bits, 16);
}

#[test]
fn union_contains_both_operands() {
    let a = TextureUsages::copy_src().union(TextureUsages::render_attachment());
    let b = TextureUsages::storage_binding();
    let both = a.union(b);
    assert!(both.contains(a));
    assert!(both.contains(b));
}

#[test]
fn only_float_filterable_samples_filter() {
    assert!(TextureSampleType::FloatFilterable.is_filterable());
    assert!(!TextureSampleType::FloatNonFilterable.is_filterable());
    assert!(!TextureSampleType::NonFiltering.is_filterable());
    assert!(!TextureSampleType::Comparison.is_filterable());
}

#[test]
fn bind_group_layout_lists_texture_and_sampler_bindings() {
    let layout = BindGroupLayout::new()
        .with_entry(BindGroupLayoutEntry::Uniform {
            binding_slot: 0,
            visibility: ShaderStage::Vertex,
            ty: UniformType::Mat4,
        })
        .with_entry(BindGroupLayoutEntry::Texture {
            binding_slot: 1,
            sampler_binding_slot: 2,
            visibility: ShaderStage::Fragment,
            view_dimension: TextureViewDimension::D2,
            sample_type: TextureSampleType::FloatFilterable,
        });
    assert_eq!(layout.entries.len(), 2);
    assert_eq!(layout.layout_entries(), vec![
        LayoutBinding {
            binding: 0,
            visibility: ShaderStage::Vertex,
            kind: BindingKind::UniformBuffer { min_binding_size: 64 },
        },
        LayoutBinding {
            binding: 1,
            visibility: ShaderStage::Fragment,
            kind: BindingKind::Texture {
                sample_type: TextureSampleType::FloatFilterable,
                view_dimension: TextureViewDimension::D2,
            },
        },
        LayoutBinding {
            binding: 2,
            visibility: ShaderStage::Fragment,
            kind: BindingKind::Sampler { sample_type: TextureSampleType::FloatFilterable },
        },
    ]);
}

#[test]
fn blend_mode_default_is_no_blending() {
    assert_eq!(BlendMode::default(), BlendMode::NoBlending);
}

#[test]
fn shader_entry_points_by_stage() {
    let both = ShaderEntryPoint::Both {
        vs_entry_point: "vs_main".to_string(),
        fs_entry_point: "fs_main".to_string(),
    };
    assert_eq!(both.vertex_entry_point().unwrap(), "vs_main");
    assert_eq!(both.fragment_entry_point().unwrap(), "fs_main");
    let vertex = ShaderEntryPoint::Vertex("main".to_string());
    assert_eq!(vertex.vertex_entry_point().unwrap(), "main");
    let err = vertex.fragment_entry_point().unwrap_err();
    assert_eq!((err.expected, err.found), (ShaderStage::Fragment, ShaderStage::Vertex));
    let fragment = ShaderEntryPoint::Fragment("main".to_string());
    let err = fragment.vertex_entry_point().unwrap_err();
    assert_eq!((err.expected, err.found), (ShaderStage::Vertex, ShaderStage::Fragment));
}

#[test]
fn shader_source_labels() {
    assert_eq!(source_label(&ShaderSource::Inline("fn main() {}".to_string())), "Inline shader");
    let file = ShaderSource::File(PathBuf::from("assets/shaders/sprite.wgsl"));
    assert_eq!(source_label(&file), "sprite.wgsl");
    assert_eq!(source_label(&ShaderSource::File(PathBuf::from("/"))), "Shader");
}

#[test]
fn clock_measures_elapsed_time() {
    let mut clock = Clock::new();
    let first = clock.elapsed();
    let second = clock.elapsed();
    assert!(second >= first);
    let before_restart = clock.restart();
    assert!(before_restart >= second);
}

#[test]
fn shader_mismatch_converts_into_resolution_error() {
    let vertex = ShaderEntryPoint::Vertex("main".to_string());
    let err: nova::resolve::ResolutionError = vertex.fragment_entry_point().unwrap_err().into();
    match err {
        nova::resolve::ResolutionError::ShaderTypeMismatch(m) => {
            assert_eq!(m.expected, ShaderStage::Fragment);
            assert_eq!(m.found, ShaderStage::Vertex);
        },
        nova::resolve::ResolutionError::UnresolvedDependecy => panic!("wrong variant"),
    }
}

#[test]
fn clock_measures_between_readings() {
    let mut clock = Clock::new();
    assert_eq!(clock.elapsed_at(1_500), 1_500);
    assert_eq!(clock.restart_at(1_500), 1_500);
    assert_eq!(clock.elapsed_at(1_400), 0);
    assert_eq!(clock.elapsed_at(2_000), 500);
    assert_eq!(clock.restart_at(2_250), 750);
    assert_eq!(clock.elapsed_at(2_250), 0);
    let reading = clock.now_nanos();
    assert!(clock.now_nanos() >= reading);
}

#[test]
fn frame_deadline_moves_only_once_passed() {
    let mut deadline = FrameDeadline::new(100);
    assert!(!deadline.reset_at(99, 16));
    assert_eq!(deadline.next(), 100);
    assert!(deadline.reset_at(100, 16));
    assert_eq!(deadline.next(), 116);
    assert!(!deadline.advance_at(110, 16));
    assert!(deadline.advance_at(130, 16));
    assert_eq!(deadline.next(), 132);
}
