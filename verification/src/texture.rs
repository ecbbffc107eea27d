//! Texture descriptions: dimensions, formats, usages and how textures are sampled.
use std::io::Cursor;
use std::sync::Arc;
use vstd::prelude::*;
use crate::error::AssetError;
use crate::handle::Asset;

verus! {

/// Engine-native texture dimension.
#[derive(Copy, Clone, Debug, PartialEq, Eq, Hash)]
pub enum TextureDimension {
    D1,
    D2,
    D3,
}

/// The extent of a texture and its dimensionality.
#[derive(Copy, Clone, Debug, PartialEq, Eq, Hash)]
pub struct TextureSize {
    width: u32,
    height: u32,
    depth: u32,
    tex_dim: TextureDimension,
}

/// The abstract content of a [`TextureSize`].
pub struct TextureSizeView {
    pub width: u32,
    pub height: u32,
    pub depth: u32,
    pub tex_dim: TextureDimension,
}

impl View for TextureSize {
    type V = TextureSizeView;

    closed spec fn view(&self) -> TextureSizeView {
        TextureSizeView {
            width: self.width,
            height: self.height,
            depth: self.depth,
            tex_dim: self.tex_dim,
        }
    }
}

impl TextureSize {
    /// A 2D texture of `width` by `height` texels (depth 1).
    pub fn new_texture2d(width: u32, height: u32) -> (r: Self)
        ensures
            r@ == (TextureSizeView { width, height, depth: 1, tex_dim: TextureDimension::D2 }),
    {
        TextureSize { width, height, depth: 1, tex_dim: TextureDimension::D2 }
    }

    pub fn width(&self) -> (r: u32)
        ensures
            r == self@.width,
    {
        self.width
    }

    pub fn height(&self) -> (r: u32)
        ensures
            r == self@.height,
    {
        self.height
    }

    /// Depth (or number of array layers).
    pub fn depth(&self) -> (r: u32)
        ensures
            r == self@.depth,
    {
        self.depth
    }

    pub fn dimension(&self) -> (r: TextureDimension)
        ensures
            r == self@.tex_dim,
    {
        self.tex_dim
    }
}

/// Engine-native texture format.
#[derive(Copy, Clone, Debug, PartialEq, Eq, Hash)]
pub enum TextureFormat {
    Rgba8UnormSrgb,
    Bgra8UnormSrgb,
    R8Unorm,
    R32Float,
    Rgba32Float,
}

/// A set of texture usage flags.
#[derive(Copy, Clone, Debug, PartialEq, Eq, Hash)]
pub struct TextureUsages {
    pub bits: u32,
}

impl TextureUsages {
    /// No usage.
    pub fn empty() -> (r: Self)
        ensures
            r.bits == 0,
    {
        TextureUsages { bits: 0 }
    }

    /// The texture can be the source of a copy.
    pub fn copy_src() -> (r: Self)
        ensures
            r.bits == 1,
    {
        TextureUsages { bits: 1 }
    }

    /// The texture can be the destination of a copy.
    pub fn copy_dst() -> (r: Self)
        ensures
            r.bits == 2,
    {
        TextureUsages { bits: 2 }
    }

    /// The texture can be bound for sampling.
    pub fn texture_binding() -> (r: Self)
        ensures
            r.bits == 4,
    {
        TextureUsages { bits: 4 }
    }

    /// The texture can be bound as storage.
    pub fn storage_binding() -> (r: Self)
        ensures
            r.bits == 8,
    {
        TextureUsages { bits: 8 }
    }

    /// The texture can be rendered into.
    pub fn render_attachment() -> (r: Self)
        ensures
            r.bits == 16,
    {
        TextureUsages { bits: 16 }
    }

    /// The flags of both sets.
    pub fn union(self, other: Self) -> (r: Self)
        ensures
            r.bits == self.bits | other.bits,
    {
        TextureUsages { bits: self.bits | other.bits }
    }

    /// Whether every flag of `other` is set here.
    pub fn contains(&self, other: Self) -> (r: bool)
        ensures
            r == (self.bits & other.bits == other.bits),
    {
        self.bits & other.bits == other.bits
    }
}

/// The union of two usage sets contains each of them.
pub proof fn lemma_union_contains(a: TextureUsages, b: TextureUsages)
    ensures
        (a.bits | b.bits) & a.bits == a.bits,
        (a.bits | b.bits) & b.bits == b.bits,
{
    let x = a.bits;
    let y = b.bits;
    assert((x | y) & x == x) by (bit_vector);
    assert((x | y) & y == y) by (bit_vector);
}

/// Engine-native texture view dimension.
#[derive(Copy, Clone, Debug, PartialEq, Eq, Hash)]
pub enum TextureViewDimension {
    D1,
    D2,
    D2Array,
    Cube,
    CubeArray,
    D3,
}

/// How a texture is sampled in a bind group layout.
#[derive(Copy, Clone, Debug, PartialEq, Eq, Hash)]
pub enum TextureSampleType {
    /// Float, filterable (standard color textures with linear filtering).
    FloatFilterable,
    /// Float, non-filterable (e.g. depth textures used as data).
    FloatNonFilterable,
    /// Non-filterable (integer textures, data textures).
    NonFiltering,
    /// Comparison sampling (depth comparison samplers).
    Comparison,
}

impl TextureSampleType {
    /// Returns `true` if this sample type is filterable.
    pub fn is_filterable(&self) -> (r: bool)
        ensures
            r == (*self is FloatFilterable),
    {
        match self {
            TextureSampleType::FloatFilterable => true,
            _ => false,
        }
    }
}

/// What decoding `bytes` as an image in the format that the file extension `format_hint` names
/// gives, converted to 8-bit RGBA: width, height and the pixels row by row; `None` when the
/// extension names no supported format or the bytes do not decode.
pub uninterp spec fn decoded_rgba8(format_hint: Seq<char>, bytes: Seq<u8>) -> Option<(u32, u32, Seq<u8>)>;

/// Decodes `bytes` with the `image` crate: `ImageReader` in the format `ImageFormat::from_extension`
/// gives for `format_hint` (none when it names none, and then decoding fails), `decode`, then
/// `to_rgba8`. Claims the result is [`decoded_rgba8`] of the arguments, and an error exactly when
/// that is `None`.
#[verifier::external_body]
fn decode_rgba8(format_hint: &str, bytes: &[u8]) -> (r: Result<(u32, u32, Vec<u8>), AssetError>)
    ensures
        match r {
            Ok((w, h, d)) => decoded_rgba8(format_hint@, bytes@) == Some((w, h, d@)),
            Err(_) => decoded_rgba8(format_hint@, bytes@) is None,
        },
{
    let reader = match image::ImageFormat::from_extension(format_hint) {
        Some(format) => image::ImageReader::with_format(Cursor::new(bytes), format),
        None => image::ImageReader::new(Cursor::new(bytes)),
    };
    match reader.decode() {
        Ok(image) => {
            let rgba = image.to_rgba8();
            Ok((rgba.width(), rgba.height(), rgba.into_raw()))
        },
        Err(e) => Err(AssetError::ImageError(Arc::new(e))),
    }
}

/// The settings a texture is created with on the GPU: format, mip levels, samples, usage, label,
/// and how it is sampled (`S`, whose settings hold floating-point clamps).
#[derive(Clone, Debug)]
pub struct TextureConfig<S> {
    pub format: TextureFormat,
    pub mip_level_count: u32,
    pub sample_count: u32,
    pub usage: TextureUsages,
    pub label: String,
    pub sampler_config: S,
}

impl<S> TextureConfig<S> {
    /// The default settings, sampled with `sampler_config`: sRGB RGBA8, one mip level, one
    /// sample, usable for sampling and as a copy destination, labelled "Texture".
    pub fn new(sampler_config: S) -> (r: Self)
        ensures
            r.format == TextureFormat::Rgba8UnormSrgb,
            r.mip_level_count == 1,
            r.sample_count == 1,
            r.usage.bits == 6,
            r.label@ == "Texture"@,
            r.sampler_config == sampler_config,
    {
        proof {
            reveal_strlit("Texture");
        }
        let usage = TextureUsages::texture_binding().union(TextureUsages::copy_dst());
        assert(4u32 | 2u32 == 6u32) by (bit_vector);
        TextureConfig {
            format: TextureFormat::Rgba8UnormSrgb,
            mip_level_count: 1,
            sample_count: 1,
            usage,
            label: "Texture".to_owned(),
            sampler_config,
        }
    }
}

/// A texture held on the CPU: RGBA8 pixel data, its size and its settings. The renderer uploads
/// it to the GPU on demand.
pub struct Texture<S> {
    data: Vec<u8>,
    size: TextureSize,
    config: TextureConfig<S>,
}

impl<S> View for Texture<S> {
    type V = (Seq<u8>, TextureSizeView);

    /// The pixel data and the size.
    closed spec fn view(&self) -> (Seq<u8>, TextureSizeView) {
        (self.data@, self.size@)
    }
}

impl<S: Send + Sync + 'static> Asset for Texture<S> {}

impl<S> Texture<S> {
    /// The settings of the texture.
    pub closed spec fn settings(&self) -> TextureConfig<S> {
        self.config
    }

    /// A texture of the given pixel data, size and settings.
    pub fn from_raw(data: Vec<u8>, size: TextureSize, config: TextureConfig<S>) -> (r: Self)
        ensures
            r@ == (data@, size@),
            r.settings() == config,
    {
        Texture { data, size, config }
    }

    /// The pixel data.
    pub fn data(&self) -> (r: &[u8])
        ensures
            r@ == self@.0,
    {
        self.data.as_slice()
    }

    /// The size.
    pub fn size(&self) -> (r: TextureSize)
        ensures
            r@ == self@.1,
    {
        self.size
    }

    /// The settings.
    pub fn config(&self) -> (r: &TextureConfig<S>)
        ensures
            *r == self.settings(),
    {
        &self.config
    }
}

/// The texture that decoding the image file bytes `bytes` gives, in the format that the file
/// extension `format_hint` names, converted to RGBA8: a 2D texture of the image's width and
/// height, with `config`. Fails exactly when the bytes do not decode in that format.
pub fn texture_from_bytes<S>(format_hint: &str, bytes: &[u8], config: TextureConfig<S>) -> (r: Result<
    Texture<S>,
    AssetError,
>)
    ensures
        r is Ok <==> decoded_rgba8(format_hint@, bytes@) is Some,
        r matches Ok(t) ==> decoded_rgba8(format_hint@, bytes@) matches Some((w, h, d)) && t@ == (
            d,
            TextureSizeView { width: w, height: h, depth: 1, tex_dim: TextureDimension::D2 },
        ) && t.settings() == config,
{
    match decode_rgba8(format_hint, bytes) {
        Ok((width, height, data)) => Ok(
            Texture::from_raw(data, TextureSize::new_texture2d(width, height), config),
        ),
        Err(e) => Err(e),
    }
}

/// A 1 by 1 opaque white RGBA8 texture with the default settings, sampled with `sampler_config`:
/// the default texture of sprite materials.
pub fn default_white_texture<S>(sampler_config: S) -> (r: Texture<S>)
    ensures
        r@ == (
            seq![255u8, 255u8, 255u8, 255u8],
            TextureSizeView { width: 1, height: 1, depth: 1, tex_dim: TextureDimension::D2 },
        ),
        r.settings().format == TextureFormat::Rgba8UnormSrgb,
        r.settings().mip_level_count == 1,
        r.settings().sample_count == 1,
        r.settings().usage.bits == 6,
        r.settings().label@ == "Texture"@,
        r.settings().sampler_config == sampler_config,
{
    let data: Vec<u8> = vec![255u8, 255u8, 255u8, 255u8];
    let config = TextureConfig::new(sampler_config);
    let r = Texture::from_raw(data, TextureSize::new_texture2d(1, 1), config);
    assert(r@.0 =~= seq![255u8, 255u8, 255u8, 255u8]);
    r
}

} // verus!