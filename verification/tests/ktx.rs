use myth_image::error::{AssetError, Error};
use myth_image::format::{ImageDimension, PixelFormat};
use myth_image::image::Image;
use myth_image::ktx::{check_header, decode, invalid, pixel_format, HeaderFields};

fn header() -> ktx2::Header {
    ktx2::Header {
        format: Some(ktx2::Format::BC1_RGBA_UNORM_BLOCK),
        type_size: 1,
        pixel_width: 4,
        pixel_height: 4,
        pixel_depth: 0,
        layer_count: 0,
        face_count: 1,
        level_count: 2,
        supercompression_scheme: None,
        index: ktx2::Index {
            dfd_byte_offset: 128,
            dfd_byte_length: 4,
            kvd_byte_offset: 0,
            kvd_byte_length: 0,
            sgd_byte_offset: 0,
            sgd_byte_length: 0,
        },
    }
}

fn container(header: ktx2::Header) -> Vec<u8> {
    let mut bytes = header.as_bytes().to_vec();
    for offset in [144_u64, 136] {
        bytes.extend_from_slice(&offset.to_le_bytes());
        bytes.extend_from_slice(&8_u64.to_le_bytes());
        bytes.extend_from_slice(&8_u64.to_le_bytes());
    }
    bytes.resize(136, 0);
    bytes.extend_from_slice(&[2; 8]);
    bytes.extend_from_slice(&[1; 8]);
    bytes
}

fn fixture() -> Vec<u8> {
    container(header())
}

fn message(result: Result<Image, Error>) -> String {
    match result.unwrap_err() {
        Error::Asset(AssetError::Format(message)) => message,
    }
}

#[test]
fn authored_levels_are_uploaded_largest_first_without_decoding() {
    let image = decode(&fixture()).unwrap();
    assert_eq!(image.format, PixelFormat::Bc1);
    assert_eq!(image.mip_level_count(), 2);
    assert_eq!(
        &*image.data().unwrap(),
        &[1, 1, 1, 1, 1, 1, 1, 1, 2, 2, 2, 2, 2, 2, 2, 2]
    );
}

#[test]
fn truncated_and_wrong_sized_levels_are_rejected() {
    let mut bytes = fixture();
    bytes.pop();
    assert!(decode(&bytes).is_err());
    let mut bytes = fixture();
    bytes[88..96].copy_from_slice(&7_u64.to_le_bytes());
    assert!(decode(&bytes).is_err());
}

#[test]
fn a_loaded_image_takes_its_shape_from_the_header() {
    let image = decode(&fixture()).unwrap();
    assert_eq!((image.width, image.height, image.depth), (4, 4, 1));
    assert_eq!(image.dimension(), ImageDimension::D2);
    assert!(image.has_data() && !image.is_dynamic());
}

#[test]
fn every_cut_of_a_container_is_rejected() {
    let bytes = fixture();
    for len in 0..bytes.len() {
        assert_eq!(message(decode(&bytes[..len])), "KTX2: unexpected end of buffer");
    }
}

#[test]
fn a_container_without_a_level_count_has_one_level() {
    let mut plain = header();
    plain.level_count = 0;
    let image = decode(&container(plain)).unwrap();
    assert_eq!(image.mip_level_count(), 1);
    assert_eq!(&*image.data().unwrap(), &[1; 8]);
}

#[test]
fn parse_errors_keep_their_text() {
    let mut bytes = fixture();
    bytes[0] = 0;
    assert_eq!(message(decode(&bytes)), "KTX2: unexpected magic numbers");
    let mut flat = header();
    flat.pixel_width = 0;
    assert_eq!(message(decode(&container(flat))), "KTX2: zero pixel width");
    let mut faceless = header();
    faceless.face_count = 0;
    assert_eq!(message(decode(&container(faceless))), "KTX2: zero face count");
    assert_eq!(message(decode(&[])), "KTX2: unexpected end of buffer");
}

#[test]
fn sections_beyond_the_end_are_rejected() {
    let end = "KTX2: unexpected end of buffer";
    let mut dfd = header();
    dfd.index.dfd_byte_length = 3;
    assert_eq!(message(decode(&container(dfd))), end);
    let mut dfd = header();
    dfd.index.dfd_byte_offset = u32::MAX - 3;
    dfd.index.dfd_byte_length = 4;
    assert_eq!(message(decode(&container(dfd))), end);
    let mut dfd = header();
    dfd.index.dfd_byte_offset = 148;
    assert_eq!(message(decode(&container(dfd))), end);
    let mut dfd = header();
    dfd.index.dfd_byte_offset = 147;
    assert!(decode(&container(dfd)).is_ok());
    let mut kvd = header();
    kvd.index.kvd_byte_offset = 100;
    kvd.index.kvd_byte_length = 52;
    assert_eq!(message(decode(&container(kvd))), end);
    kvd.index.kvd_byte_length = 51;
    assert!(decode(&container(kvd)).is_ok());
    let mut sgd = header();
    sgd.index.sgd_byte_offset = u64::MAX;
    sgd.index.sgd_byte_length = 1;
    assert_eq!(message(decode(&container(sgd))), end);
    sgd.index.sgd_byte_offset = 151;
    sgd.index.sgd_byte_length = 0;
    assert!(decode(&container(sgd)).is_ok());
    let mut many = header();
    many.level_count = 4;
    assert_eq!(message(decode(&container(many))), end);
}

#[test]
fn only_plain_two_dimensional_images_are_loaded() {
    let expected = "KTX2: expected a native-format, unsupercompressed 2D image";
    let mut line = header();
    line.pixel_height = 0;
    assert_eq!(message(decode(&container(line))), expected);
    let mut volume = header();
    volume.pixel_depth = 1;
    assert_eq!(message(decode(&container(volume))), expected);
    let mut array = header();
    array.layer_count = 1;
    assert_eq!(message(decode(&container(array))), expected);
    let mut cube = header();
    cube.face_count = 6;
    assert_eq!(message(decode(&container(cube))), expected);
    let mut packed = header();
    packed.supercompression_scheme = Some(ktx2::SupercompressionScheme::Zstandard);
    assert_eq!(message(decode(&container(packed))), expected);
}

#[test]
fn unsupported_formats_are_named() {
    let mut snorm = header();
    snorm.format = Some(ktx2::Format::R8_SNORM);
    assert_eq!(message(decode(&container(snorm))), "KTX2: unsupported format Some(R8_SNORM)");
    let mut undefined = header();
    undefined.format = None;
    assert_eq!(message(decode(&container(undefined))), "KTX2: unsupported format None");
    let mut unknown = header();
    unknown.format = ktx2::Format::new(999_999);
    assert_eq!(
        message(decode(&container(unknown))),
        "KTX2: unsupported format Some(Format(999999))"
    );
}

#[test]
fn base_extents_must_be_whole_blocks() {
    let expected = "KTX2: base dimensions must be multiples of the storage block";
    let mut wide = header();
    wide.pixel_width = 6;
    assert_eq!(message(decode(&container(wide))), expected);
    let mut high = header();
    high.pixel_height = 6;
    assert_eq!(message(decode(&container(high))), expected);
}

#[test]
fn levels_must_have_the_size_of_their_extent() {
    let mut bytes = fixture();
    bytes[88..96].copy_from_slice(&7_u64.to_le_bytes());
    assert_eq!(message(decode(&bytes)), "KTX2: mip payload size does not match dimensions");
    let mut large = header();
    large.pixel_width = 8;
    assert_eq!(
        message(decode(&container(large))),
        "KTX2: mip payload size does not match dimensions"
    );
    let mut tiny = header();
    tiny.format = Some(ktx2::Format::R8_UNORM);
    tiny.pixel_width = 1;
    tiny.pixel_height = 1;
    assert_eq!(message(decode(&container(tiny))), "KTX2: invalid mip dimensions or count");
}

#[test]
fn formats_follow_the_container_crate() {
    let expected = [
        (ktx2::Format::R8G8B8A8_UNORM, PixelFormat::Rgba8Unorm),
        (ktx2::Format::R8G8B8A8_SRGB, PixelFormat::Rgba8Unorm),
        (ktx2::Format::R8_UNORM, PixelFormat::R8Unorm),
        (ktx2::Format::BC1_RGBA_UNORM_BLOCK, PixelFormat::Bc1),
        (ktx2::Format::BC1_RGBA_SRGB_BLOCK, PixelFormat::Bc1),
        (ktx2::Format::BC3_UNORM_BLOCK, PixelFormat::Bc3),
        (ktx2::Format::BC3_SRGB_BLOCK, PixelFormat::Bc3),
        (ktx2::Format::BC5_UNORM_BLOCK, PixelFormat::Bc5),
        (ktx2::Format::BC6H_UFLOAT_BLOCK, PixelFormat::Bc6h),
        (ktx2::Format::BC7_UNORM_BLOCK, PixelFormat::Bc7),
        (ktx2::Format::BC7_SRGB_BLOCK, PixelFormat::Bc7),
    ];
    for (code, format) in expected {
        assert_eq!(pixel_format(Some(code.value())), Some(format));
    }
    for code in 0..200 {
        let known = expected.iter().any(|(format, _)| format.value() == code);
        assert_eq!(pixel_format(Some(code)).is_some(), known);
    }
    assert_eq!(pixel_format(None), None);
}

#[test]
fn a_header_can_be_checked_by_itself() {
    let fields = HeaderFields {
        format: Some(145),
        pixel_width: 8,
        pixel_height: 12,
        pixel_depth: 0,
        layer_count: 0,
        face_count: 1,
        supercompression_scheme: None,
    };
    assert!(matches!(check_header(&fields), Ok(PixelFormat::Bc7)));
    let odd = HeaderFields { pixel_height: 13, ..fields };
    assert!(check_header(&odd).is_err());
}

#[test]
fn errors_name_the_container_format() {
    match invalid("reason") {
        Error::Asset(AssetError::Format(message)) => assert_eq!(message, "KTX2: reason"),
    }
}

#[test]
fn a_loaded_base_level_has_no_padding() {
    let image = decode(&fixture()).unwrap();
    let base = image.format.mip_byte_size(image.width, image.height).unwrap() as u32;
    let (bw, bh) = image.format.block_dimensions();
    assert_eq!(base * bw * bh, image.width * image.height * image.format.block_copy_size());
    assert_eq!(base, 8);
}

#[test]
fn linear_and_srgb_containers_load_alike() {
    let srgb = container(ktx2::Header {
        format: Some(ktx2::Format::BC1_RGBA_SRGB_BLOCK),
        ..header()
    });
    assert_ne!(srgb, fixture());
    let one = decode(&srgb).unwrap();
    let other = decode(&fixture()).unwrap();
    assert_eq!(one.format, other.format);
    assert_eq!((one.width, one.height, one.depth), (other.width, other.height, other.depth));
    assert_eq!(one.mip_level_count(), other.mip_level_count());
    assert_eq!(&*one.data().unwrap(), &*other.data().unwrap());
    assert_eq!(message(decode(&srgb[..151])), message(decode(&fixture()[..151])));
}
