use myth_image::error::DynamicImageError;
use myth_image::format::{ImageDimension, PixelFormat};
use myth_image::image::{Image, ImageDataRef};
use myth_image::shared::overwrite;

fn dynamic(bytes: Vec<u8>) -> Image {
    Image::new_dynamic(2, 1, 3, ImageDimension::D3, PixelFormat::Rgba8Unorm, bytes)
}

#[test]
fn partial_edge_blocks_and_tail_mips_retain_complete_blocks() {
    assert_eq!(PixelFormat::Bc1.mip_byte_size(7, 5), Some(32));
    assert_eq!(PixelFormat::Bc5.mip_byte_size(1, 1), Some(16));
    let image = Image::from_mip_levels(
        8,
        4,
        PixelFormat::Bc1,
        &[&[1; 16], &[2; 8], &[3; 8], &[4; 8]],
    )
    .unwrap();
    assert_eq!(image.mip_level_count(), 4);
    assert_eq!(image.data().unwrap().len(), 40);
}

#[test]
fn malformed_chains_fail_before_upload() {
    assert!(Image::from_mip_levels(0, 4, PixelFormat::Bc1, &[&[0; 8]]).is_err());
    assert!(Image::from_mip_levels(4, 4, PixelFormat::Bc1, &[]).is_err());
    assert!(Image::from_mip_levels(4, 4, PixelFormat::Bc1, &[&[0; 7]]).is_err());
    assert!(Image::from_mip_levels(1, 1, PixelFormat::Bc1, &[&[0; 8], &[0; 8]]).is_err());
}

#[test]
fn malformed_chains_say_what_is_wrong() {
    let count = "invalid mip dimensions or count";
    let size = "mip payload size does not match dimensions";
    let overflow = "mip size overflow";
    let bc1 = PixelFormat::Bc1;
    assert_eq!(Image::from_mip_levels(0, 4, bc1, &[&[0; 8]]).unwrap_err(), count);
    assert_eq!(Image::from_mip_levels(4, 0, bc1, &[&[0; 8]]).unwrap_err(), count);
    assert_eq!(Image::from_mip_levels(4, 4, bc1, &[]).unwrap_err(), count);
    assert_eq!(Image::from_mip_levels(1, 1, bc1, &[&[0; 8], &[0; 8]]).unwrap_err(), count);
    assert_eq!(Image::from_mip_levels(4, 4, bc1, &[&[0; 7]]).unwrap_err(), size);
    assert_eq!(Image::from_mip_levels(4, 4, bc1, &[&[0; 8], &[0; 9]]).unwrap_err(), size);
    let max = u32::MAX;
    assert_eq!(
        Image::from_mip_levels(max, max, PixelFormat::Rgba8Unorm, &[&[0; 8]]).unwrap_err(),
        overflow
    );
}

#[test]
fn a_full_chain_ends_in_one_texel() {
    let levels: [&[u8]; 4] = [&[1; 40], &[2; 8], &[3; 2], &[4; 1]];
    let image = Image::from_mip_levels(5, 8, PixelFormat::R8Unorm, &levels).unwrap();
    assert_eq!(image.mip_level_count(), 4);
    let longer: [&[u8]; 5] = [&[1; 40], &[2; 8], &[3; 2], &[4; 1], &[5; 1]];
    assert!(Image::from_mip_levels(5, 8, PixelFormat::R8Unorm, &longer).is_err());
}

#[test]
fn packed_levels_are_found_again_largest_first() {
    let levels: [&[u8]; 3] = [&[1; 16], &[2; 4], &[3; 1]];
    let image = Image::from_mip_levels(4, 4, PixelFormat::R8Unorm, &levels).unwrap();
    let data = image.data().unwrap();
    assert_eq!(data.len(), 21);
    assert_eq!(&data[0..16], levels[0]);
    assert_eq!(&data[16..20], levels[1]);
    assert_eq!(&data[20..21], levels[2]);
}

#[test]
fn a_chain_may_stop_early() {
    let image = Image::from_mip_levels(4, 4, PixelFormat::R8Unorm, &[&[7; 16]]).unwrap();
    assert_eq!(image.mip_level_count(), 1);
    assert_eq!((image.width, image.height, image.depth), (4, 4, 1));
    assert_eq!(image.dimension(), ImageDimension::D2);
    assert_eq!(image.format(), PixelFormat::R8Unorm);
    assert!(image.has_data() && !image.is_dynamic());
}

#[test]
fn an_image_without_data_is_empty() {
    let image = Image::new(3, 2, 5, ImageDimension::D1, PixelFormat::Bc7, None);
    assert_eq!((image.width, image.height, image.depth), (3, 2, 5));
    assert_eq!(image.dimension(), ImageDimension::D1);
    assert_eq!(image.format(), PixelFormat::Bc7);
    assert_eq!(image.mip_level_count(), 1);
    assert!(!image.has_data() && !image.is_dynamic());
    assert!(image.data().is_none());
    assert_eq!(image.with_data(|bytes| bytes.len()), None);
    assert_eq!(image.update_dynamic_data(&[]), Err(DynamicImageError::MissingData));
}

#[test]
fn a_static_image_never_changes() {
    let image = Image::new(1, 1, 1, ImageDimension::D2, PixelFormat::Rgba8Unorm, Some(vec![1, 2]));
    assert!(image.has_data() && !image.is_dynamic());
    assert!(matches!(image.data(), Some(ImageDataRef::Static(_))));
    assert_eq!(image.update_dynamic_data(&[3, 4]), Err(DynamicImageError::NotDynamic));
    assert_eq!(&*image.data().unwrap(), &[1, 2]);
    assert_eq!(image.with_data(|bytes| bytes.to_vec()), Some(vec![1, 2]));
}

#[test]
fn a_dynamic_image_gives_back_what_was_written() {
    let image = dynamic(vec![1, 2, 3]);
    assert!(image.has_data() && image.is_dynamic());
    assert_eq!((image.width, image.height, image.depth), (2, 1, 3));
    assert_eq!(image.dimension(), ImageDimension::D3);
    assert_eq!(image.mip_level_count(), 1);
    assert!(matches!(image.data(), Some(ImageDataRef::Dynamic(_))));
    assert_eq!(image.data().unwrap().as_ref(), &[1, 2, 3]);
    assert_eq!(image.update_dynamic_data(&[4, 5, 6]), Ok(()));
    assert_eq!(&*image.data().unwrap(), &[4, 5, 6]);
    assert_eq!(image.with_data(|bytes| bytes.to_vec()), Some(vec![4, 5, 6]));
}

#[test]
fn a_dynamic_image_keeps_its_length() {
    let image = dynamic(vec![1, 2, 3]);
    let mismatch = DynamicImageError::SizeMismatch { expected: 3, actual: 2 };
    assert_eq!(image.update_dynamic_data(&[4, 5]), Err(mismatch));
    assert_eq!(&*image.data().unwrap(), &[1, 2, 3]);
    assert_eq!(image.update_dynamic_data(&[7, 8, 9]), Ok(()));
    assert_eq!(image.data().unwrap().len(), 3);
}

#[test]
fn a_second_update_replaces_the_first() {
    let image = dynamic(vec![1, 2, 3]);
    assert_eq!(image.update_dynamic_data(&[4, 5, 6]), Ok(()));
    assert_eq!(image.update_dynamic_data(&[7, 8, 9]), Ok(()));
    assert_eq!(&*image.data().unwrap(), &[7, 8, 9]);
}

#[test]
fn a_read_finds_the_last_update_that_was_not_refused() {
    let image = dynamic(vec![0; 2]);
    assert_eq!(image.update_dynamic_data(&[4, 5]), Ok(()));
    assert!(image.update_dynamic_data(&[6]).is_err());
    assert!(image.update_dynamic_data(&[7, 8, 9]).is_err());
    assert_eq!(&*image.data().unwrap(), &[4, 5]);
    assert_eq!(&*image.data().unwrap(), &[4, 5]);
}

#[test]
fn several_readers_share_a_dynamic_image() {
    let image = dynamic(vec![5; 4]);
    let one = image.data().unwrap();
    let other = image.data().unwrap();
    assert_eq!(&*one, &*other);
}

#[test]
fn overwriting_a_buffer_of_another_length_leaves_it() {
    let mut buffer = [1, 2, 3];
    let mismatch = DynamicImageError::SizeMismatch { expected: 3, actual: 4 };
    assert_eq!(overwrite(&mut buffer, &[9; 4]), Err(mismatch));
    assert_eq!(buffer, [1, 2, 3]);
    assert_eq!(overwrite(&mut buffer, &[9, 8, 7]), Ok(()));
    assert_eq!(buffer, [9, 8, 7]);
}

#[test]
fn update_errors_have_messages() {
    assert_eq!(DynamicImageError::MissingData.message(), "image has no resident CPU data");
    assert_eq!(
        DynamicImageError::NotDynamic.message(),
        "image was not created with Image::new_dynamic"
    );
    assert_eq!(
        DynamicImageError::SizeMismatch { expected: 1024, actual: 7 }.message(),
        "image byte length mismatch: expected 1024, got 7"
    );
    assert_eq!(
        DynamicImageError::SizeMismatch { expected: 0, actual: usize::MAX }.message(),
        format!("image byte length mismatch: expected 0, got {}", usize::MAX)
    );
}

#[test]
fn images_have_random_identifiers() {
    let one = Image::solid_color([0; 4]);
    let other = Image::solid_color([0; 4]);
    assert_ne!(one.uuid, other.uuid);
    assert_eq!(one.uuid.get_version_num(), 4);
}

#[test]
fn a_solid_color_is_one_texel() {
    let image = Image::solid_color([10, 20, 30, 40]);
    assert_eq!((image.width, image.height, image.depth), (1, 1, 1));
    assert_eq!(image.format(), PixelFormat::Rgba8Unorm);
    assert_eq!(image.dimension(), ImageDimension::D2);
    assert_eq!(&*image.data().unwrap(), &[10, 20, 30, 40]);
}

#[test]
fn a_checkerboard_alternates() {
    let image = Image::checkerboard(5, 4, 2);
    assert_eq!((image.width, image.height, image.depth), (5, 4, 1));
    let data = image.data().unwrap();
    assert_eq!(data.len(), 80);
    for y in 0..4 {
        for x in 0..5 {
            let start = (y * 5 + x) * 4;
            let c = if (x / 2 + y / 2) % 2 == 0 { 255 } else { 80 };
            assert_eq!(&data[start..start + 4], &[c, c, c, 255]);
        }
    }
}

#[test]
fn an_empty_checkerboard_needs_no_cells() {
    let image = Image::checkerboard(0, 3, 0);
    assert_eq!(image.data().unwrap().len(), 0);
    assert_eq!(Image::checkerboard(3, 0, 0).data().unwrap().len(), 0);
}

#[test]
fn only_the_sizes_of_levels_decide() {
    let format = PixelFormat::R8Unorm;
    assert!(Image::from_mip_levels(2, 2, format, &[&[0; 4], &[0; 1]]).is_ok());
    assert!(Image::from_mip_levels(2, 2, format, &[&[9; 4], &[7; 1]]).is_ok());
    assert_eq!(
        Image::from_mip_levels(2, 2, format, &[&[0; 4], &[0; 2]]).unwrap_err(),
        Image::from_mip_levels(2, 2, format, &[&[9; 4], &[7; 2]]).unwrap_err()
    );
}
