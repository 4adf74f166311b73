use myth_image::format::{ColorSpace, ImageDimension, PixelFormat};

const ALL: [PixelFormat; 8] = [
    PixelFormat::Rgba8Unorm,
    PixelFormat::Rgba16Float,
    PixelFormat::R8Unorm,
    PixelFormat::Bc1,
    PixelFormat::Bc3,
    PixelFormat::Bc5,
    PixelFormat::Bc6h,
    PixelFormat::Bc7,
];

#[test]
fn texture_formats_combine_layout_and_color_space() {
    let srgb = ColorSpace::Srgb;
    let linear = ColorSpace::Linear;
    let expected = [
        (PixelFormat::Rgba8Unorm, srgb, wgpu::TextureFormat::Rgba8UnormSrgb),
        (PixelFormat::Rgba8Unorm, linear, wgpu::TextureFormat::Rgba8Unorm),
        (PixelFormat::Rgba16Float, srgb, wgpu::TextureFormat::Rgba16Float),
        (PixelFormat::Rgba16Float, linear, wgpu::TextureFormat::Rgba16Float),
        (PixelFormat::R8Unorm, srgb, wgpu::TextureFormat::R8Unorm),
        (PixelFormat::R8Unorm, linear, wgpu::TextureFormat::R8Unorm),
        (PixelFormat::Bc1, srgb, wgpu::TextureFormat::Bc1RgbaUnormSrgb),
        (PixelFormat::Bc1, linear, wgpu::TextureFormat::Bc1RgbaUnorm),
        (PixelFormat::Bc3, srgb, wgpu::TextureFormat::Bc3RgbaUnormSrgb),
        (PixelFormat::Bc3, linear, wgpu::TextureFormat::Bc3RgbaUnorm),
        (PixelFormat::Bc5, srgb, wgpu::TextureFormat::Bc5RgUnorm),
        (PixelFormat::Bc5, linear, wgpu::TextureFormat::Bc5RgUnorm),
        (PixelFormat::Bc6h, srgb, wgpu::TextureFormat::Bc6hRgbUfloat),
        (PixelFormat::Bc6h, linear, wgpu::TextureFormat::Bc6hRgbUfloat),
        (PixelFormat::Bc7, srgb, wgpu::TextureFormat::Bc7RgbaUnormSrgb),
        (PixelFormat::Bc7, linear, wgpu::TextureFormat::Bc7RgbaUnorm),
    ];
    for (format, space, texture) in expected {
        assert_eq!(format.to_wgpu(space), texture);
    }
}

#[test]
fn only_formats_with_an_srgb_variant_tell_color_spaces_apart() {
    for format in ALL {
        let differs = format.to_wgpu(ColorSpace::Srgb) != format.to_wgpu(ColorSpace::Linear);
        let has_variant = matches!(
            format,
            PixelFormat::Rgba8Unorm | PixelFormat::Bc1 | PixelFormat::Bc3 | PixelFormat::Bc7
        );
        assert_eq!(differs, has_variant);
    }
}

#[test]
fn different_layouts_have_different_texture_formats() {
    for a in ALL {
        for b in ALL {
            for space_a in [ColorSpace::Srgb, ColorSpace::Linear] {
                for space_b in [ColorSpace::Srgb, ColorSpace::Linear] {
                    if a.to_wgpu(space_a) == b.to_wgpu(space_b) {
                        assert_eq!(a, b);
                    }
                }
            }
        }
    }
}

#[test]
fn block_geometry_agrees_with_the_gpu_formats() {
    for format in ALL {
        let texture = format.to_wgpu(ColorSpace::Linear);
        assert_eq!(Some(format.block_copy_size()), texture.block_copy_size(None));
        assert_eq!(format.block_dimensions(), texture.block_dimensions());
    }
}

#[test]
fn block_sizes_are_exact() {
    let sizes = ALL.map(|format| format.block_copy_size());
    assert_eq!(sizes, [4, 8, 1, 8, 16, 16, 16, 16]);
    let sides = ALL.map(|format| format.block_dimensions());
    assert_eq!(sides, [(1, 1), (1, 1), (1, 1), (4, 4), (4, 4), (4, 4), (4, 4), (4, 4)]);
}

#[test]
fn level_sizes_count_whole_blocks() {
    assert_eq!(PixelFormat::Rgba8Unorm.mip_byte_size(7, 5), Some(140));
    assert_eq!(PixelFormat::Rgba16Float.mip_byte_size(7, 5), Some(280));
    assert_eq!(PixelFormat::R8Unorm.mip_byte_size(7, 5), Some(35));
    assert_eq!(PixelFormat::Bc7.mip_byte_size(8, 8), Some(64));
    assert_eq!(PixelFormat::Bc7.mip_byte_size(9, 8), Some(96));
    for format in ALL {
        let size = format.mip_byte_size(13, 3).unwrap();
        assert_eq!(size % format.block_copy_size() as usize, 0);
        assert!(format.mip_byte_size(12, 3).unwrap() <= size);
    }
}

#[test]
fn a_level_without_texels_takes_no_bytes() {
    for format in ALL {
        assert_eq!(format.mip_byte_size(0, 9), Some(0));
        assert_eq!(format.mip_byte_size(9, 0), Some(0));
        assert_eq!(format.mip_byte_size(1, 1), Some(format.block_copy_size() as usize));
    }
}

#[test]
fn aligned_levels_have_no_padding() {
    for format in ALL {
        let (bw, bh) = format.block_dimensions();
        let size = format.mip_byte_size(12, 8).unwrap() as u32;
        assert_eq!(size * bw * bh, 12 * 8 * format.block_copy_size());
    }
}

#[test]
fn a_level_size_beyond_memory_is_none() {
    assert_eq!(PixelFormat::Rgba8Unorm.mip_byte_size(u32::MAX, u32::MAX), None);
    assert_eq!(PixelFormat::Rgba16Float.mip_byte_size(u32::MAX, u32::MAX), None);
}

#[test]
fn dimensions_map_one_to_one() {
    assert_eq!(ImageDimension::D1.to_wgpu(), wgpu::TextureDimension::D1);
    assert_eq!(ImageDimension::D2.to_wgpu(), wgpu::TextureDimension::D2);
    assert_eq!(ImageDimension::D3.to_wgpu(), wgpu::TextureDimension::D3);
}
