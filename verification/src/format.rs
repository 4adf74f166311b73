//! Engine-native pixel formats, image dimensions and colour spaces.

use vstd::prelude::*;

verus! {

/// Declares `wgpu::AstcBlock`, which occurs in `wgpu::TextureFormat`.
#[verifier::external_type_specification]
pub struct ExAstcBlock(wgpu::AstcBlock);

/// Declares `wgpu::AstcChannel`, which occurs in `wgpu::TextureFormat`.
#[verifier::external_type_specification]
pub struct ExAstcChannel(wgpu::AstcChannel);

/// Declares `wgpu::TextureFormat` with its variants, so that contracts can name them.
#[verifier::external_type_specification]
pub struct ExTextureFormat(wgpu::TextureFormat);

/// Declares `wgpu::TextureDimension` with its variants, so that contracts can name them.
#[verifier::external_type_specification]
pub struct ExTextureDimension(wgpu::TextureDimension);

/// GPU-independent pixel format: the byte layout of texels in memory.
///
/// It says nothing of the colour space, which is a rendering decision and joins
/// the format only in [`PixelFormat::to_wgpu`].
#[derive(Debug, Clone, Copy, PartialEq, Eq, Structural, Hash)]
pub enum PixelFormat {
    /// Four 8-bit unsigned normalised channels.
    Rgba8Unorm,
    /// Four 16-bit half-precision float channels.
    Rgba16Float,
    /// One 8-bit unsigned normalised channel.
    R8Unorm,
    /// Block-compressed, 4x4 texels in 8 bytes.
    Bc1,
    /// Block-compressed, 4x4 texels in 16 bytes.
    Bc3,
    /// Block-compressed, 4x4 texels in 16 bytes.
    Bc5,
    /// Block-compressed, 4x4 texels in 16 bytes.
    Bc6h,
    /// Block-compressed, 4x4 texels in 16 bytes.
    Bc7,
}

/// Spatial dimensionality of an image's texel grid.
#[derive(Debug, Clone, Copy, PartialEq, Eq, Structural, Hash)]
pub enum ImageDimension {
    D1,
    D2,
    D3,
}

/// How a shader is to interpret pixel data.
#[derive(Debug, Clone, Copy, PartialEq, Eq, Structural, Hash)]
pub enum ColorSpace {
    /// Non-linear sRGB encoding, converted to linear on every texture fetch.
    Srgb,
    /// Linear encoding, fetched as it is.
    Linear,
}

/// How many storage blocks of `side` texels it takes to cover `texels` texels,
/// a partial block at the edge counting in full.
pub open spec fn blocks_across(texels: nat, side: nat) -> nat
    recommends
        side > 0,
{
    ((texels + side - 1) / side as int) as nat
}

impl PixelFormat {
    /// Whether texels are stored in compressed blocks.
    pub open spec fn is_compressed(self) -> bool {
        self is Bc1 || self is Bc3 || self is Bc5 || self is Bc6h || self is Bc7
    }

    /// Texels along each side of one storage block.
    pub open spec fn block_side(self) -> nat {
        if self.is_compressed() {
            4
        } else {
            1
        }
    }

    /// Bytes of one storage block.
    pub open spec fn block_bytes(self) -> nat {
        match self {
            PixelFormat::R8Unorm => 1,
            PixelFormat::Rgba8Unorm => 4,
            PixelFormat::Rgba16Float | PixelFormat::Bc1 => 8,
            PixelFormat::Bc3 | PixelFormat::Bc5 | PixelFormat::Bc6h | PixelFormat::Bc7 => 16,
        }
    }

    /// Bytes of a two-dimensional level of `width` by `height` texels.
    pub open spec fn level_size(self, width: nat, height: nat) -> nat {
        blocks_across(width, self.block_side()) * blocks_across(height, self.block_side())
            * self.block_bytes()
    }

    /// Whether the GPU knows an sRGB variant of the format.
    pub open spec fn has_srgb_variant(self) -> bool {
        self is Rgba8Unorm || self is Bc1 || self is Bc3 || self is Bc7
    }

    /// The texture format in which the GPU reads texels of this layout, where
    /// `srgb` asks for the sRGB variant.
    pub open spec fn gpu_format(self, srgb: bool) -> wgpu::TextureFormat {
        match self {
            PixelFormat::Rgba8Unorm => if srgb {
                wgpu::TextureFormat::Rgba8UnormSrgb
            } else {
                wgpu::TextureFormat::Rgba8Unorm
            },
            PixelFormat::Rgba16Float => wgpu::TextureFormat::Rgba16Float,
            PixelFormat::R8Unorm => wgpu::TextureFormat::R8Unorm,
            PixelFormat::Bc1 => if srgb {
                wgpu::TextureFormat::Bc1RgbaUnormSrgb
            } else {
                wgpu::TextureFormat::Bc1RgbaUnorm
            },
            PixelFormat::Bc3 => if srgb {
                wgpu::TextureFormat::Bc3RgbaUnormSrgb
            } else {
                wgpu::TextureFormat::Bc3RgbaUnorm
            },
            PixelFormat::Bc5 => wgpu::TextureFormat::Bc5RgUnorm,
            PixelFormat::Bc6h => wgpu::TextureFormat::Bc6hRgbUfloat,
            PixelFormat::Bc7 => if srgb {
                wgpu::TextureFormat::Bc7RgbaUnormSrgb
            } else {
                wgpu::TextureFormat::Bc7RgbaUnorm
            },
        }
    }

    /// The texture format that results from the layout and the colour space.
    ///
    /// A format without an sRGB variant ignores the colour space.
    #[must_use]
    pub fn to_wgpu(self, color_space: ColorSpace) -> (r: wgpu::TextureFormat)
        ensures
            r == self.gpu_format(color_space is Srgb),
    {
        match (self, color_space) {
            (Self::Rgba8Unorm, ColorSpace::Srgb) => wgpu::TextureFormat::Rgba8UnormSrgb,
            (Self::Rgba8Unorm, ColorSpace::Linear) => wgpu::TextureFormat::Rgba8Unorm,
            (Self::Rgba16Float, _) => wgpu::TextureFormat::Rgba16Float,
            (Self::R8Unorm, _) => wgpu::TextureFormat::R8Unorm,
            (Self::Bc1, ColorSpace::Srgb) => wgpu::TextureFormat::Bc1RgbaUnormSrgb,
            (Self::Bc1, ColorSpace::Linear) => wgpu::TextureFormat::Bc1RgbaUnorm,
            (Self::Bc3, ColorSpace::Srgb) => wgpu::TextureFormat::Bc3RgbaUnormSrgb,
            (Self::Bc3, ColorSpace::Linear) => wgpu::TextureFormat::Bc3RgbaUnorm,
            (Self::Bc5, _) => wgpu::TextureFormat::Bc5RgUnorm,
            (Self::Bc6h, _) => wgpu::TextureFormat::Bc6hRgbUfloat,
            (Self::Bc7, ColorSpace::Srgb) => wgpu::TextureFormat::Bc7RgbaUnormSrgb,
            (Self::Bc7, ColorSpace::Linear) => wgpu::TextureFormat::Bc7RgbaUnorm,
        }
    }

    /// Bytes occupied by a single texel, or by one compressed block.
    #[must_use]
    pub fn block_copy_size(self) -> (r: u32)
        ensures
            r == self.block_bytes(),
    {
        match self {
            Self::Rgba8Unorm => 4,
            Self::Rgba16Float | Self::Bc1 => 8,
            Self::R8Unorm => 1,
            Self::Bc3 | Self::Bc5 | Self::Bc6h | Self::Bc7 => 16,
        }
    }

    /// Width and height of one storage block, in texels.
    #[must_use]
    pub fn block_dimensions(self) -> (r: (u32, u32))
        ensures
            r.0 == self.block_side(),
            r.1 == self.block_side(),
    {
        match self {
            Self::Bc1 | Self::Bc3 | Self::Bc5 | Self::Bc6h | Self::Bc7 => (4, 4),
            _ => (1, 1),
        }
    }

    /// Size in bytes of a two-dimensional mip level, partial edge blocks
    /// counting in full. `None` where the size does not fit in a `usize`.
    #[must_use]
    pub fn mip_byte_size(self, width: u32, height: u32) -> (r: Option<usize>)
        ensures
            r == (if self.level_size(width as nat, height as nat) <= usize::MAX {
                Some(self.level_size(width as nat, height as nat) as usize)
            } else {
                None
            }),
    {
        let (bw, bh) = self.block_dimensions();
        let across: usize = div_ceil(width, bw) as usize;
        let down: usize = div_ceil(height, bh) as usize;
        proof {
            lemma_block_count_product(across as int, down as int, self.block_bytes() as int);
        }
        match across.checked_mul(down) {
            Some(blocks) => blocks.checked_mul(self.block_copy_size() as usize),
            None => None,
        }
    }
}

impl ImageDimension {
    /// The texture dimension of the same name.
    pub open spec fn gpu_dimension(self) -> wgpu::TextureDimension {
        match self {
            ImageDimension::D1 => wgpu::TextureDimension::D1,
            ImageDimension::D2 => wgpu::TextureDimension::D2,
            ImageDimension::D3 => wgpu::TextureDimension::D3,
        }
    }

    /// The corresponding GPU texture dimension.
    #[must_use]
    pub fn to_wgpu(self) -> (r: wgpu::TextureDimension)
        ensures
            r == self.gpu_dimension(),
    {
        match self {
            Self::D1 => wgpu::TextureDimension::D1,
            Self::D2 => wgpu::TextureDimension::D2,
            Self::D3 => wgpu::TextureDimension::D3,
        }
    }
}

/// `texels` divided by `side`, rounded up.
fn div_ceil(texels: u32, side: u32) -> (r: u32)
    requires
        side == 1 || side == 4,
    ensures
        r == blocks_across(texels as nat, side as nat),
{
    if side == 1 {
        texels
    } else if texels % 4 == 0 {
        texels / 4
    } else {
        texels / 4 + 1
    }
}

/// A product of block counts never shrinks when it is scaled by a block size.
proof fn lemma_block_count_product(across: int, down: int, size: int)
    requires
        across >= 0,
        down >= 0,
        size >= 1,
    ensures
        0 <= across * down <= across * down * size,
{
    assert(0 <= across * down <= across * down * size) by (nonlinear_arith)
        requires
            across >= 0,
            down >= 0,
            size >= 1,
    ;
}

/// A format without an sRGB variant gives one texture format whatever the colour
/// space; any other tells the two colour spaces apart.
pub proof fn law_color_space_matters_only_with_srgb_variant(format: PixelFormat)
    ensures
        format.gpu_format(true) != format.gpu_format(false) <==> format.has_srgb_variant(),
{
}

/// Two different pixel formats never become the same texture format, in whatever
/// colour spaces they are read.
pub proof fn law_gpu_format_tells_pixel_formats_apart(
    a: PixelFormat,
    a_srgb: bool,
    b: PixelFormat,
    b_srgb: bool,
)
    requires
        a.gpu_format(a_srgb) == b.gpu_format(b_srgb),
    ensures
        a == b,
{
}

/// Image dimensions and texture dimensions correspond one to one.
pub proof fn law_dimensions_map_one_to_one(
    a: ImageDimension,
    b: ImageDimension,
    target: wgpu::TextureDimension,
)
    ensures
        a.gpu_dimension() == b.gpu_dimension() ==> a == b,
        exists|source: ImageDimension| #[trigger] source.gpu_dimension() == target,
{
    assert(ImageDimension::D1.gpu_dimension() is D1);
    assert(ImageDimension::D2.gpu_dimension() is D2);
    assert(ImageDimension::D3.gpu_dimension() is D3);
}

/// Every texture format comes from exactly one layout, and from one colour space
/// where it names one.
pub proof fn law_gpu_format_keeps_layout_and_color_space(format: PixelFormat, srgb: bool)
    ensures
        format.gpu_format(srgb) is Rgba8UnormSrgb <==> format is Rgba8Unorm && srgb,
        format.gpu_format(srgb) is Rgba8Unorm <==> format is Rgba8Unorm && !srgb,
        format.gpu_format(srgb) is Rgba16Float <==> format is Rgba16Float,
        format.gpu_format(srgb) is R8Unorm <==> format is R8Unorm,
        format.gpu_format(srgb) is Bc1RgbaUnormSrgb <==> format is Bc1 && srgb,
        format.gpu_format(srgb) is Bc1RgbaUnorm <==> format is Bc1 && !srgb,
        format.gpu_format(srgb) is Bc3RgbaUnormSrgb <==> format is Bc3 && srgb,
        format.gpu_format(srgb) is Bc3RgbaUnorm <==> format is Bc3 && !srgb,
        format.gpu_format(srgb) is Bc5RgUnorm <==> format is Bc5,
        format.gpu_format(srgb) is Bc6hRgbUfloat <==> format is Bc6h,
        format.gpu_format(srgb) is Bc7RgbaUnormSrgb <==> format is Bc7 && srgb,
        format.gpu_format(srgb) is Bc7RgbaUnorm <==> format is Bc7 && !srgb,
{
}

/// A texture has as many dimensions as the image.
pub proof fn law_gpu_dimension_keeps_dimension(dimension: ImageDimension)
    ensures
        dimension.gpu_dimension() is D1 <==> dimension is D1,
        dimension.gpu_dimension() is D2 <==> dimension is D2,
        dimension.gpu_dimension() is D3 <==> dimension is D3,
{
}

/// Compressed formats store four by four texels in a block of eight or sixteen
/// bytes; the others store each texel by itself, in one byte for each 8-bit channel
/// and two for each 16-bit channel.
pub proof fn law_block_geometry(format: PixelFormat)
    ensures
        format.block_side() == 1 || format.block_side() == 4,
        format.block_side() == 1 <==> format is Rgba8Unorm || format is Rgba16Float
            || format is R8Unorm,
        format.block_bytes() == 1 <==> format is R8Unorm,
        format.block_bytes() == 4 <==> format is Rgba8Unorm,
        format.block_bytes() == 8 <==> format is Rgba16Float || format is Bc1,
        format.block_bytes() == 16 <==> format is Bc3 || format is Bc5 || format is Bc6h
            || format is Bc7,
{
}

/// Blocks along a side cover all its texels, with less than one block to spare.
pub proof fn law_blocks_cover_texels(texels: nat, side: nat)
    requires
        side > 0,
    ensures
        blocks_across(texels, side) * side >= texels,
        blocks_across(texels, side) * side < texels + side,
{
    let padded = texels + side - 1;
    vstd::arithmetic::div_mod::lemma_fundamental_div_mod(padded, side as int);
    vstd::arithmetic::div_mod::lemma_mod_bound(padded, side as int);
    vstd::arithmetic::div_mod::lemma_div_pos_is_pos(padded, side as int);
    vstd::arithmetic::mul::lemma_mul_is_commutative(side as int, padded / (side as int));
}

/// However many blocks it takes to cover a level along each side with less than one
/// to spare, the level's size is that of so many blocks.
pub proof fn law_level_size_counts_covering_blocks(
    format: PixelFormat,
    width: nat,
    height: nat,
    across: nat,
    down: nat,
)
    requires
        width <= across * format.block_side() < width + format.block_side(),
        height <= down * format.block_side() < height + format.block_side(),
    ensures
        format.level_size(width, height) == across * down * format.block_bytes(),
{
    let side = format.block_side();
    assert(across == blocks_across(width, side));
    assert(down == blocks_across(height, side));
}

/// A level has room for every texel of its extent.
pub proof fn law_level_covers_its_texels(format: PixelFormat, width: nat, height: nat)
    ensures
        format.level_size(width, height) * format.block_side() * format.block_side() >= width
            * height * format.block_bytes(),
{
    let side = format.block_side();
    let size = format.block_bytes();
    let across = blocks_across(width, side);
    let down = blocks_across(height, side);
    law_blocks_cover_texels(width, side);
    law_blocks_cover_texels(height, side);
    law_level_size_counts_covering_blocks(format, width, height, across, down);
    assert(across * down * size * side * side == (across * side) * (down * side) * size)
        by (nonlinear_arith);
    assert((across * side) * (down * side) * size >= width * height * size) by (nonlinear_arith)
        requires
            across * side >= width,
            down * side >= height,
            width >= 0,
            height >= 0,
            size >= 0,
    ;
}

/// A level is stored in whole blocks: its size is a multiple of the block size,
/// and a level that has any texel takes at least one block.
pub proof fn law_levels_are_whole_blocks(format: PixelFormat, width: nat, height: nat)
    ensures
        format.level_size(width, height) % format.block_bytes() == 0,
        width > 0 && height > 0 ==> format.level_size(width, height) >= format.block_bytes(),
        width == 0 || height == 0 ==> format.level_size(width, height) == 0,
{
    let side = format.block_side();
    let size = format.block_bytes();
    let across = blocks_across(width, side);
    let down = blocks_across(height, side);
    assert((across * down * size) % size == 0) by {
        vstd::arithmetic::div_mod::lemma_mod_multiples_basic((across * down) as int, size as int);
    }
    if width > 0 && height > 0 {
        assert(across >= 1 && down >= 1);
        assert(across * down * size >= size) by (nonlinear_arith)
            requires
                across >= 1,
                down >= 1,
                size >= 1,
        ;
    } else {
        assert(across == 0 || down == 0);
        assert(across * down * size == 0) by (nonlinear_arith)
            requires
                across == 0 || down == 0,
        ;
    }
}

/// A level never takes fewer bytes than one that it covers.
pub proof fn law_level_size_grows_with_extent(
    format: PixelFormat,
    width: nat,
    height: nat,
    inner_width: nat,
    inner_height: nat,
)
    requires
        inner_width <= width,
        inner_height <= height,
    ensures
        format.level_size(inner_width, inner_height) <= format.level_size(width, height),
{
    let side = format.block_side();
    let size = format.block_bytes();
    let across = blocks_across(width, side);
    let down = blocks_across(height, side);
    let inner_across = blocks_across(inner_width, side);
    let inner_down = blocks_across(inner_height, side);
    assert(inner_across <= across && inner_down <= down);
    assert(inner_across * inner_down * size <= across * down * size) by (nonlinear_arith)
        requires
            0 <= inner_across <= across,
            0 <= inner_down <= down,
            size >= 1,
    ;
}

/// A level whose extents are multiples of the block side has no partial blocks:
/// its blocks hold exactly its texels.
pub proof fn law_aligned_level_has_no_padding(format: PixelFormat, width: nat, height: nat)
    requires
        width % format.block_side() == 0,
        height % format.block_side() == 0,
    ensures
        format.level_size(width, height) * format.block_side() * format.block_side() == width
            * height * format.block_bytes(),
{
    let side = format.block_side();
    let size = format.block_bytes();
    let across = blocks_across(width, side);
    let down = blocks_across(height, side);
    assert(across * side == width && down * side == height);
    assert(across * down * size * side * side == (across * side) * (down * side) * size)
        by (nonlinear_arith);
}

} // verus!
