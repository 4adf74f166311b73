//! Native-format two-dimensional KTX2 images, with the mip levels that they were
//! authored with.

use vstd::prelude::*;

use crate::error::{AssetError, Error};
use crate::format::{law_aligned_level_has_no_padding, ImageDimension, PixelFormat};
use crate::image::{Image, ImageModel, Pixels};
use crate::mip;

verus! {

/// `VK_FORMAT_R8_UNORM`.
pub const R8_UNORM: u32 = 9;

/// `VK_FORMAT_R8G8B8A8_UNORM`.
pub const R8G8B8A8_UNORM: u32 = 37;

/// `VK_FORMAT_R8G8B8A8_SRGB`.
pub const R8G8B8A8_SRGB: u32 = 43;

/// `VK_FORMAT_BC1_RGBA_UNORM_BLOCK`.
pub const BC1_RGBA_UNORM_BLOCK: u32 = 133;

/// `VK_FORMAT_BC1_RGBA_SRGB_BLOCK`.
pub const BC1_RGBA_SRGB_BLOCK: u32 = 134;

/// `VK_FORMAT_BC3_UNORM_BLOCK`.
pub const BC3_UNORM_BLOCK: u32 = 137;

/// `VK_FORMAT_BC3_SRGB_BLOCK`.
pub const BC3_SRGB_BLOCK: u32 = 138;

/// `VK_FORMAT_BC5_UNORM_BLOCK`.
pub const BC5_UNORM_BLOCK: u32 = 141;

/// `VK_FORMAT_BC6H_UFLOAT_BLOCK`.
pub const BC6H_UFLOAT_BLOCK: u32 = 143;

/// `VK_FORMAT_BC7_UNORM_BLOCK`.
pub const BC7_UNORM_BLOCK: u32 = 145;

/// `VK_FORMAT_BC7_SRGB_BLOCK`.
pub const BC7_SRGB_BLOCK: u32 = 146;

/// What a KTX2 header says of the image.
#[derive(Debug, Clone, Copy, PartialEq, Eq, Structural)]
pub struct HeaderFields {
    /// The `VkFormat` of the texels; `None` where it is undefined.
    pub format: Option<u32>,
    pub pixel_width: u32,
    pub pixel_height: u32,
    pub pixel_depth: u32,
    pub layer_count: u32,
    pub face_count: u32,
    /// The supercompression scheme; `None` where the levels are stored plainly.
    pub supercompression_scheme: Option<u32>,
}

/// Declares `ktx2::ParseError` with its variants, so that contracts can name them.
#[verifier::external_type_specification]
pub struct ExParseError(ktx2::ParseError);

/// A KTX2 container that was found to be intact.
#[verifier::external_body]
pub struct Container<'a> {
    reader: ktx2::Reader<&'a [u8]>,
}

/// The bytes of a container.
pub uninterp spec fn container_bytes(container: Container) -> Seq<u8>;

/// How the `ktx2` crate writes the format of a header for people.
pub uninterp spec fn format_debug(format: Option<u32>) -> Seq<char>;

/// The little-endian 32-bit number at `at`.
pub open spec fn le_u32(bytes: Seq<u8>, at: int) -> u32 {
    (bytes[at] + 0x100 * bytes[at + 1] + 0x1_0000 * bytes[at + 2] + 0x100_0000 * bytes[at
        + 3]) as u32
}

/// The little-endian 64-bit number at `at`.
pub open spec fn le_u64(bytes: Seq<u8>, at: int) -> nat {
    (le_u32(bytes, at) + 0x1_0000_0000 * le_u32(bytes, at + 4)) as nat
}

/// A code that is absent where it is zero.
pub open spec fn nonzero(code: u32) -> Option<u32> {
    if code == 0 {
        None
    } else {
        Some(code)
    }
}

/// The header at the start of a container.
pub open spec fn header_fields(bytes: Seq<u8>) -> HeaderFields {
    HeaderFields {
        format: nonzero(le_u32(bytes, 12)),
        pixel_width: le_u32(bytes, 20),
        pixel_height: le_u32(bytes, 24),
        pixel_depth: le_u32(bytes, 28),
        layer_count: le_u32(bytes, 32),
        face_count: le_u32(bytes, 36),
        supercompression_scheme: nonzero(le_u32(bytes, 44)),
    }
}

/// How many levels a container stores: as many as its header says, and at least one.
pub open spec fn level_count(bytes: Seq<u8>) -> nat {
    if le_u32(bytes, 40) == 0 {
        1
    } else {
        le_u32(bytes, 40) as nat
    }
}

/// Where a level's bytes start, as the index behind the 80 bytes of the header says.
pub open spec fn level_start(bytes: Seq<u8>, level: int) -> nat {
    le_u64(bytes, 80 + 24 * level)
}

/// Where a level's bytes end, as the index says.
pub open spec fn level_end(bytes: Seq<u8>, level: int) -> nat {
    level_start(bytes, level) + le_u64(bytes, 88 + 24 * level)
}

/// The levels of a container, largest first.
pub open spec fn level_payloads(bytes: Seq<u8>) -> Seq<Seq<u8>> {
    Seq::new(
        level_count(bytes),
        |level: int|
            bytes.subrange(level_start(bytes, level) as int, level_end(bytes, level) as int),
    )
}

/// The identifier with which a container starts.
pub open spec fn magic() -> Seq<u8> {
    seq![0xAB, 0x4B, 0x54, 0x58, 0x20, 0x32, 0x30, 0xBB, 0x0D, 0x0A, 0x1A, 0x0A]
}

/// Whether the format descriptor, the key/value data and the supercompression data
/// lie inside the container.
pub open spec fn sections_in_bounds(bytes: Seq<u8>) -> bool {
    let dfd_end = le_u32(bytes, 48) + le_u32(bytes, 52);
    let kvd_end = le_u32(bytes, 56) + le_u32(bytes, 60);
    &&& le_u32(bytes, 52) >= 4
    &&& dfd_end <= u32::MAX && dfd_end < bytes.len()
    &&& kvd_end <= u32::MAX && kvd_end < bytes.len()
    &&& le_u64(bytes, 64) + le_u64(bytes, 72) < bytes.len()
}

/// Whether the level index and every level lie inside the container.
pub open spec fn levels_in_bounds(bytes: Seq<u8>) -> bool {
    &&& 80 + 24 * level_count(bytes) <= bytes.len()
    &&& forall|level: int|
        0 <= level < level_count(bytes) ==> #[trigger] level_end(bytes, level) <= bytes.len()
}

/// Why bytes are not an intact container, if they are not.
pub open spec fn container_fault(bytes: Seq<u8>) -> Option<ktx2::ParseError> {
    if bytes.len() < 80 {
        Some(ktx2::ParseError::UnexpectedEnd)
    } else if bytes.take(12) != magic() {
        Some(ktx2::ParseError::BadMagic)
    } else if le_u32(bytes, 20) == 0 {
        Some(ktx2::ParseError::ZeroWidth)
    } else if le_u32(bytes, 36) == 0 {
        Some(ktx2::ParseError::ZeroFaceCount)
    } else if !sections_in_bounds(bytes) || !levels_in_bounds(bytes) {
        Some(ktx2::ParseError::UnexpectedEnd)
    } else {
        None
    }
}

/// The text of a parse error.
pub open spec fn parse_error_message(error: ktx2::ParseError) -> Seq<char> {
    if error is BadMagic {
        "unexpected magic numbers"@
    } else if error is ZeroWidth {
        "zero pixel width"@
    } else if error is ZeroFaceCount {
        "zero face count"@
    } else if error is InvalidSampleBitLength {
        "invalid sample bit length"@
    } else {
        "unexpected end of buffer"@
    }
}

/// The pixel format of a `VkFormat` that images can be stored in, if there is one.
pub open spec fn native_format(format: Option<u32>) -> Option<PixelFormat> {
    match format {
        None => None,
        Some(code) => if code == R8G8B8A8_UNORM || code == R8G8B8A8_SRGB {
            Some(PixelFormat::Rgba8Unorm)
        } else if code == R8_UNORM {
            Some(PixelFormat::R8Unorm)
        } else if code == BC1_RGBA_UNORM_BLOCK || code == BC1_RGBA_SRGB_BLOCK {
            Some(PixelFormat::Bc1)
        } else if code == BC3_UNORM_BLOCK || code == BC3_SRGB_BLOCK {
            Some(PixelFormat::Bc3)
        } else if code == BC5_UNORM_BLOCK {
            Some(PixelFormat::Bc5)
        } else if code == BC6H_UFLOAT_BLOCK {
            Some(PixelFormat::Bc6h)
        } else if code == BC7_UNORM_BLOCK || code == BC7_SRGB_BLOCK {
            Some(PixelFormat::Bc7)
        } else {
            None
        },
    }
}

/// Whether a header describes a plain two-dimensional image: no volume, array or
/// cube map, and no supercompression.
pub open spec fn is_plain_2d(header: HeaderFields) -> bool {
    &&& header.pixel_height != 0
    &&& header.pixel_depth == 0
    &&& header.layer_count == 0
    &&& header.face_count == 1
    &&& header.supercompression_scheme is None
}

/// Why an image with this header cannot be loaded, if it cannot.
pub open spec fn header_fault(header: HeaderFields) -> Option<Seq<char>> {
    if !is_plain_2d(header) {
        Some("expected a native-format, unsupercompressed 2D image"@)
    } else {
        match native_format(header.format) {
            None => Some("unsupported format "@ + format_debug(header.format)),
            Some(format) => if header.pixel_width as nat % format.block_side() != 0
                || header.pixel_height as nat % format.block_side() != 0 {
                Some("base dimensions must be multiples of the storage block"@)
            } else {
                None
            },
        }
    }
}

/// Why bytes cannot be loaded as an image, if they cannot.
pub open spec fn decode_fault(bytes: Seq<u8>) -> Option<Seq<char>> {
    let header = header_fields(bytes);
    match container_fault(bytes) {
        Some(error) => Some(parse_error_message(error)),
        None => match header_fault(header) {
            Some(message) => Some(message),
            None => mip::chain_fault(
                native_format(header.format)->0,
                header.pixel_width as nat,
                header.pixel_height as nat,
                level_payloads(bytes),
            ),
        },
    }
}

/// The image in a container that can be loaded.
pub open spec fn decoded_image(bytes: Seq<u8>) -> ImageModel {
    ImageModel {
        width: header_fields(bytes).pixel_width,
        height: header_fields(bytes).pixel_height,
        depth: 1,
        mip_level_count: level_count(bytes) as u32,
        dimension: ImageDimension::D2,
        format: native_format(header_fields(bytes).format)->0,
        pixels: Pixels::Static(level_payloads(bytes).flatten()),
    }
}

/// `ktx2::Reader::new`: checks that the bytes are an intact container. It fails,
/// with the error that [`container_fault`] gives, on bytes that end before the
/// header does, on another identifier, on a zero width or face count, and where a
/// section, the level index or a level reaches beyond the end; on no other bytes.
/// The container holds the bytes that were given.
#[verifier::external_body]
fn open_container<'a>(bytes: &'a [u8]) -> (r: Result<Container<'a>, ktx2::ParseError>)
    ensures
        match r {
            Ok(container) => container_fault(bytes@) is None && container_bytes(container) == bytes@,
            Err(error) => container_fault(bytes@) == Some(error),
        },
{
    ktx2::Reader::new(bytes).map(|reader| Container { reader })
}

/// `ktx2::Reader::header`: the header fields, each a little-endian number at its
/// place in the first 80 bytes.
#[verifier::external_body]
fn read_header(container: &Container<'_>) -> (r: HeaderFields)
    ensures
        r == header_fields(container_bytes(*container)),
{
    let header = container.reader.header();
    HeaderFields {
        format: header.format.map(|format| format.value()),
        pixel_width: header.pixel_width,
        pixel_height: header.pixel_height,
        pixel_depth: header.pixel_depth,
        layer_count: header.layer_count,
        face_count: header.face_count,
        supercompression_scheme: header.supercompression_scheme.map(|scheme| scheme.value()),
    }
}

/// `ktx2::Reader::levels`: the bytes of each level, in the order of the level
/// index, each the part of the container that its entry in the index names.
#[verifier::external_body]
fn read_levels<'a>(container: &'a Container<'_>) -> (r: Vec<&'a [u8]>)
    ensures
        mip::payloads(r@) == level_payloads(container_bytes(*container)),
{
    container.reader.levels().map(|level| level.data).collect()
}

/// `Display` of `ktx2::ParseError`: a fixed text for each error.
#[verifier::external_body]
fn parse_error_text(error: &ktx2::ParseError) -> (r: String)
    ensures
        r@ == parse_error_message(*error),
{
    error.to_string()
}

/// `Debug` of an optional `ktx2::Format`: its text, which depends on the format's
/// code alone.
#[verifier::external_body]
fn format_text(format: Option<u32>) -> (r: String)
    ensures
        r@ == format_debug(format),
{
    format!("{:?}", format.and_then(ktx2::Format::new))
}

/// The error for a file that cannot be loaded.
pub fn invalid(message: &str) -> (r: Error)
    ensures
        r.text() == "KTX2: "@ + message@,
        r matches Error::Asset(AssetError::Format(text)) && text@ == "KTX2: "@ + message@,
{
    Error::Asset(AssetError::Format("KTX2: ".to_owned().concat(message)))
}

/// The pixel format of a `VkFormat`, if images can be stored in it.
pub fn pixel_format(format: Option<u32>) -> (r: Option<PixelFormat>)
    ensures
        r == native_format(format),
{
    match format {
        Some(R8G8B8A8_UNORM | R8G8B8A8_SRGB) => Some(PixelFormat::Rgba8Unorm),
        Some(R8_UNORM) => Some(PixelFormat::R8Unorm),
        Some(BC1_RGBA_UNORM_BLOCK | BC1_RGBA_SRGB_BLOCK) => Some(PixelFormat::Bc1),
        Some(BC3_UNORM_BLOCK | BC3_SRGB_BLOCK) => Some(PixelFormat::Bc3),
        Some(BC5_UNORM_BLOCK) => Some(PixelFormat::Bc5),
        Some(BC6H_UFLOAT_BLOCK) => Some(PixelFormat::Bc6h),
        Some(BC7_UNORM_BLOCK | BC7_SRGB_BLOCK) => Some(PixelFormat::Bc7),
        _ => None,
    }
}

/// The pixel format of the image with this header, if such an image can be loaded.
pub fn check_header(header: &HeaderFields) -> (r: Result<PixelFormat, Error>)
    ensures
        match r {
            Ok(format) => header_fault(*header) is None && native_format(header.format) == Some(
                format,
            ),
            Err(error) => header_fault(*header) matches Some(message) && error.text() == "KTX2: "@
                + message,
        },
{
    if header.pixel_height == 0 || header.pixel_depth != 0 || header.layer_count != 0
        || header.face_count != 1 || header.supercompression_scheme.is_some() {
        return Err(invalid("expected a native-format, unsupercompressed 2D image"));
    }
    let format = match pixel_format(header.format) {
        Some(format) => format,
        None => {
            let message = "unsupported format ".to_owned().concat(
                format_text(header.format).as_str(),
            );
            return Err(invalid(message.as_str()));
        },
    };
    let (bw, bh) = format.block_dimensions();
    if header.pixel_width % bw != 0 || header.pixel_height % bh != 0 {
        return Err(invalid("base dimensions must be multiples of the storage block"));
    }
    Ok(format)
}

/// Loads the image in a KTX2 container, its levels as they were authored.
pub fn decode(bytes: &[u8]) -> (r: Result<Image, Error>)
    ensures
        match r {
            Ok(image) => {
                &&& decode_fault(bytes@) is None
                &&& image.well_formed()
                &&& image@ == decoded_image(bytes@)
                &&& image.width == le_u32(bytes@, 20)
                &&& image.height == le_u32(bytes@, 24)
                &&& image.depth == 1 && image.dimension is D2
                &&& native_format(nonzero(le_u32(bytes@, 12))) == Some(image.format)
                &&& image@.mip_level_count == level_count(bytes@)
                &&& image@.pixels == Pixels::Static(level_payloads(bytes@).flatten())
            },
            Err(error) => decode_fault(bytes@) matches Some(message) && error.text() == "KTX2: "@
                + message,
        },
{
    let container = match open_container(bytes) {
        Ok(container) => container,
        Err(error) => {
            return Err(invalid(parse_error_text(&error).as_str()));
        },
    };
    let header = read_header(&container);
    let format = match check_header(&header) {
        Ok(format) => format,
        Err(error) => {
            return Err(error);
        },
    };
    let levels = read_levels(&container);
    match Image::from_mip_levels(
        header.pixel_width,
        header.pixel_height,
        format,
        levels.as_slice(),
    ) {
        Ok(image) => Ok(image),
        Err(message) => Err(invalid(message)),
    }
}

/// Numbers in a container are stored lowest byte first, in four bytes or in eight.
pub proof fn law_numbers_are_little_endian(bytes: Seq<u8>, at: int)
    ensures
        le_u32(bytes, at) == bytes[at] + 256 * bytes[at + 1] + 65_536 * bytes[at + 2] + 16_777_216
            * bytes[at + 3],
        le_u64(bytes, at) == le_u32(bytes, at) + 4_294_967_296 * le_u32(bytes, at + 4),
{
}

/// The shape of a loaded image is what its header says: the width stands at byte 20,
/// the height at byte 24, the number of levels at byte 40, where none means one, and
/// the image is two-dimensional and one layer deep.
pub proof fn law_loaded_shape_is_the_authored_one(bytes: Seq<u8>)
    requires
        decode_fault(bytes) is None,
    ensures
        ({
            let image = decoded_image(bytes);
            let levels = le_u32(bytes, 40);
            &&& bytes.len() >= 80
            &&& image.width == bytes[20] + 256 * bytes[21] + 65_536 * bytes[22] + 16_777_216
                * bytes[23]
            &&& image.height == bytes[24] + 256 * bytes[25] + 65_536 * bytes[26] + 16_777_216
                * bytes[27]
            &&& image.depth == 1
            &&& image.dimension is D2
            &&& levels == 0 ==> image.mip_level_count == 1
            &&& levels > 0 ==> image.mip_level_count == levels
            &&& image.mip_level_count == level_payloads(bytes).len()
            &&& image.pixels == Pixels::Static(level_payloads(bytes).flatten())
        }),
{
    law_numbers_are_little_endian(bytes, 20);
    law_numbers_are_little_endian(bytes, 24);
}

/// The codes of the formats that can be loaded, by the layout they are stored in; no
/// other code can.
pub proof fn law_format_codes(code: u32)
    ensures
        native_format(None) is None,
        native_format(Some(code)) == Some(PixelFormat::Rgba8Unorm) <==> code == 37 || code == 43,
        native_format(Some(code)) == Some(PixelFormat::R8Unorm) <==> code == 9,
        native_format(Some(code)) == Some(PixelFormat::Bc1) <==> code == 133 || code == 134,
        native_format(Some(code)) == Some(PixelFormat::Bc3) <==> code == 137 || code == 138,
        native_format(Some(code)) == Some(PixelFormat::Bc5) <==> code == 141,
        native_format(Some(code)) == Some(PixelFormat::Bc6h) <==> code == 143,
        native_format(Some(code)) == Some(PixelFormat::Bc7) <==> code == 145 || code == 146,
        native_format(Some(code)) != Some(PixelFormat::Rgba16Float),
{
}

/// A loaded image has the layout whose code stands at byte 12 of the container, and
/// its extents are whole blocks of that layout.
pub proof fn law_loaded_format_is_the_authored_one(bytes: Seq<u8>)
    requires
        decode_fault(bytes) is None,
    ensures
        le_u32(bytes, 12) != 0,
        native_format(Some(le_u32(bytes, 12))) == Some(decoded_image(bytes).format),
        le_u32(bytes, 20) as nat % decoded_image(bytes).format.block_side() == 0,
        le_u32(bytes, 24) as nat % decoded_image(bytes).format.block_side() == 0,
{
}

/// Each level is the part of the container that its entry in the index names: the
/// entries are 24 bytes each, behind a header of 80, and give first where the level
/// starts and then how many bytes it has.
pub proof fn law_levels_stand_where_the_index_says(bytes: Seq<u8>, level: int)
    requires
        container_fault(bytes) is None,
        0 <= level < level_payloads(bytes).len(),
    ensures
        level_payloads(bytes).len() == (if le_u32(bytes, 40) == 0 {
            1
        } else {
            le_u32(bytes, 40) as nat
        }),
        ({
            let start = le_u64(bytes, 80 + 24 * level);
            let len = le_u64(bytes, 80 + 24 * level + 8);
            &&& start + len <= bytes.len()
            &&& level_payloads(bytes)[level].len() == len
            &&& level_payloads(bytes)[level] == bytes.subrange(start as int, start as int + len)
            &&& level_start(bytes, level) == start
            &&& level_end(bytes, level) == start + len
        }),
{
    assert(level_end(bytes, level) <= bytes.len());
}

/// A container is intact exactly when it has its whole header, starts with the KTX2
/// identifier, has a width and a face, has at least the length of a format descriptor,
/// and each of its sections, the level index and each level lie inside it.
pub proof fn law_what_is_an_intact_container(bytes: Seq<u8>)
    ensures
        container_fault(bytes) is None <==> {
            &&& bytes.len() >= 80
            &&& bytes.take(12) == seq![
                0xABu8,
                0x4Bu8,
                0x54u8,
                0x58u8,
                0x20u8,
                0x32u8,
                0x30u8,
                0xBBu8,
                0x0Du8,
                0x0Au8,
                0x1Au8,
                0x0Au8,
            ]
            &&& le_u32(bytes, 20) != 0
            &&& le_u32(bytes, 36) != 0
            &&& sections_in_bounds(bytes)
            &&& levels_in_bounds(bytes)
        },
        sections_in_bounds(bytes) <==> {
            &&& le_u32(bytes, 52) >= 4
            &&& le_u32(bytes, 48) + le_u32(bytes, 52) <= u32::MAX
            &&& le_u32(bytes, 48) + le_u32(bytes, 52) < bytes.len()
            &&& le_u32(bytes, 56) + le_u32(bytes, 60) <= u32::MAX
            &&& le_u32(bytes, 56) + le_u32(bytes, 60) < bytes.len()
            &&& le_u64(bytes, 64) + le_u64(bytes, 72) < bytes.len()
        },
        levels_in_bounds(bytes) <==> {
            &&& 80 + 24 * level_count(bytes) <= bytes.len()
            &&& forall|level: int|
                0 <= level < level_count(bytes) ==> #[trigger] level_end(bytes, level)
                    <= bytes.len()
        },
        forall|level: int| #[trigger]
            level_end(bytes, level) == le_u64(bytes, 80 + 24 * level) + le_u64(
                bytes,
                88 + 24 * level,
            ),
        level_count(bytes) == (if le_u32(bytes, 40) == 0 {
            1
        } else {
            le_u32(bytes, 40) as nat
        }),
{
}

/// An intact container is loaded exactly when its header has a height, no depth, no
/// layers, one face, no supercompression and the code of a known layout, and both
/// extents are multiples of that layout's block side, and its levels form a mip chain.
pub proof fn law_which_intact_containers_can_be_loaded(bytes: Seq<u8>)
    requires
        container_fault(bytes) is None,
    ensures
        decode_fault(bytes) is None <==> {
            let format = native_format(Some(le_u32(bytes, 12)));
            &&& le_u32(bytes, 24) != 0
            &&& le_u32(bytes, 28) == 0
            &&& le_u32(bytes, 32) == 0
            &&& le_u32(bytes, 36) == 1
            &&& le_u32(bytes, 44) == 0
            &&& format is Some
            &&& le_u32(bytes, 20) as nat % format->0.block_side() == 0
            &&& le_u32(bytes, 24) as nat % format->0.block_side() == 0
            &&& mip::chain_fault(
                format->0,
                le_u32(bytes, 20) as nat,
                le_u32(bytes, 24) as nat,
                level_payloads(bytes),
            ) is None
        },
{
}

/// What is told of a header that cannot be loaded: that it is no plain image comes
/// first, then that its format is unknown, and last that an extent is not of whole
/// blocks.
pub proof fn law_header_faults_are_named(header: HeaderFields)
    ensures
        ({
            let plain = header.pixel_height != 0 && header.pixel_depth == 0 && header.layer_count
                == 0 && header.face_count == 1 && header.supercompression_scheme is None;
            let format = native_format(header.format);
            let side = format->0.block_side();
            let whole = header.pixel_width as nat % side == 0 && header.pixel_height as nat % side
                == 0;
            &&& !plain ==> header_fault(header) == Some(
                "expected a native-format, unsupercompressed 2D image"@,
            )
            &&& plain && format is None ==> header_fault(header) == Some(
                "unsupported format "@ + format_debug(header.format),
            )
            &&& plain && format is Some && !whole ==> header_fault(header) == Some(
                "base dimensions must be multiples of the storage block"@,
            )
            &&& plain && format is Some && whole ==> header_fault(header) is None
        }),
{
}

/// What is told of bytes that cannot be loaded: what is wrong with the container,
/// or else with its header, or else with its levels.
pub proof fn law_load_faults_are_named(bytes: Seq<u8>)
    ensures
        ({
            let header = header_fields(bytes);
            &&& container_fault(bytes) matches Some(error) ==> decode_fault(bytes) == Some(
                parse_error_message(error),
            )
            &&& container_fault(bytes) is None && header_fault(header) is Some ==> decode_fault(
                bytes,
            ) == header_fault(header)
            &&& container_fault(bytes) is None && header_fault(header) is None ==> decode_fault(
                bytes,
            ) == mip::chain_fault(
                native_format(header.format)->0,
                header.pixel_width as nat,
                header.pixel_height as nat,
                level_payloads(bytes),
            )
        }),
{
}

/// Each field of a header is the number at its place; a format or a scheme whose
/// code is zero is absent.
pub proof fn law_header_fields_stand_at_their_places(bytes: Seq<u8>)
    ensures
        ({
            let header = header_fields(bytes);
            &&& header.format is None <==> le_u32(bytes, 12) == 0
            &&& header.format matches Some(code) ==> code == le_u32(bytes, 12)
            &&& header.pixel_width == le_u32(bytes, 20)
            &&& header.pixel_height == le_u32(bytes, 24)
            &&& header.pixel_depth == le_u32(bytes, 28)
            &&& header.layer_count == le_u32(bytes, 32)
            &&& header.face_count == le_u32(bytes, 36)
            &&& header.supercompression_scheme is None <==> le_u32(bytes, 44) == 0
            &&& header.supercompression_scheme matches Some(code) ==> code == le_u32(bytes, 44)
        }),
{
}

/// Bytes can be loaded exactly when they are an intact container of a plain
/// two-dimensional image, in a known format, whose extents are whole blocks, with no
/// more levels than its extent allows and each level of its size.
pub proof fn law_what_can_be_loaded(bytes: Seq<u8>)
    ensures
        decode_fault(bytes) is None <==> {
            let header = header_fields(bytes);
            let format = native_format(header.format)->0;
            let width = header.pixel_width as nat;
            let height = header.pixel_height as nat;
            &&& container_fault(bytes) is None
            &&& is_plain_2d(header)
            &&& native_format(header.format) is Some
            &&& width % format.block_side() == 0
            &&& height % format.block_side() == 0
            &&& level_count(bytes) <= mip::chain_limit(width, height)
            &&& forall|level: int|
                0 <= level < level_count(bytes) ==> (#[trigger] level_payloads(bytes)[level]).len()
                    == mip::level_bytes(format, width, height, level as nat)
                    && level_payloads(bytes)[level].len() <= usize::MAX
        },
{
    let header = header_fields(bytes);
    mip::law_chain_accepted_iff_sizes_match(
        native_format(header.format)->0,
        header.pixel_width as nat,
        header.pixel_height as nat,
        level_payloads(bytes),
    );
}

/// The bytes of a loaded image are the authored levels, largest first and not
/// decoded: at the offset of each level stands the part of the container that the
/// level index names.
pub proof fn law_loaded_levels_are_the_authored_ones(bytes: Seq<u8>, level: nat)
    requires
        decode_fault(bytes) is None,
        level < level_count(bytes),
    ensures
        ({
            let image = decoded_image(bytes);
            let start = mip::level_offset(
                image.format,
                image.width as nat,
                image.height as nat,
                level,
            );
            let end = mip::level_offset(
                image.format,
                image.width as nat,
                image.height as nat,
                level + 1,
            );
            let payload = image.pixels->Static_0;
            &&& start <= end <= payload.len()
            &&& payload.subrange(start as int, end as int) == bytes.subrange(
                level_start(bytes, level as int) as int,
                level_end(bytes, level as int) as int,
            )
        }),
{
    let image = decoded_image(bytes);
    mip::law_packed_levels_are_recovered(
        image.format,
        image.width as nat,
        image.height as nat,
        level_payloads(bytes),
        level,
    );
}

/// Whether two containers differ at most in the format that their headers name.
pub open spec fn same_but_format(bytes: Seq<u8>, others: Seq<u8>) -> bool {
    &&& bytes.len() == others.len()
    &&& forall|i: int|
        0 <= i < bytes.len() && !(12 <= i < 16) ==> #[trigger] bytes[i] == #[trigger] others[i]
}

/// Whether a level of a container shares no byte with the format in the header.
pub open spec fn level_clear_of_format(bytes: Seq<u8>, level: int) -> bool {
    level_start(bytes, level) >= 16 || level_end(bytes, level) <= 12
}

/// Containers that differ only in whether their format is linear or sRGB load alike:
/// they fail alike, they give images of one format and shape, and the images have the
/// same bytes where no level shares a byte with the format in the header.
pub proof fn law_linear_and_srgb_load_alike(bytes: Seq<u8>, others: Seq<u8>)
    requires
        same_but_format(bytes, others),
        native_format(header_fields(bytes).format) is Some,
        native_format(header_fields(bytes).format) == native_format(header_fields(others).format),
    ensures
        decode_fault(bytes) == decode_fault(others),
        decode_fault(bytes) is None ==> decoded_image(others) == (ImageModel {
            pixels: decoded_image(others).pixels,
            ..decoded_image(bytes)
        }),
        decode_fault(bytes) is None && (forall|level: int|
            0 <= level < level_count(bytes) ==> #[trigger] level_clear_of_format(bytes, level))
            ==> decoded_image(others) == decoded_image(bytes),
{
    if bytes.len() >= 80 {
        assert(bytes.take(12) == magic() <==> others.take(12) == magic()) by {
            assert(bytes.take(12) =~= others.take(12));
        }
        if 80 + 24 * level_count(bytes) <= bytes.len() {
            assert forall|level: int|
                #![trigger level_end(bytes, level)]
                #![trigger level_end(others, level)]
                0 <= level < level_count(bytes) implies level_start(bytes, level) == level_start(
                others,
                level,
            ) && level_end(bytes, level) == level_end(others, level) by {}
        }
        assert(levels_in_bounds(bytes) == levels_in_bounds(others));
        assert(sections_in_bounds(bytes) == sections_in_bounds(others));
    }
    if container_fault(bytes) is None {
        let parts = level_payloads(bytes);
        let other_parts = level_payloads(others);
        assert forall|k: int| 0 <= k < parts.len() implies (#[trigger] parts[k]).len() == (
        #[trigger] other_parts[k]).len() by {
            assert(level_end(bytes, k) == level_end(others, k));
        }
        mip::law_chain_depends_on_sizes_alone(
            native_format(header_fields(bytes).format)->0,
            header_fields(bytes).pixel_width as nat,
            header_fields(bytes).pixel_height as nat,
            parts,
            other_parts,
        );
        if forall|level: int|
            0 <= level < level_count(bytes) ==> #[trigger] level_clear_of_format(bytes, level) {
            assert forall|k: int| 0 <= k < parts.len() implies parts[k] == other_parts[k] by {
                assert(level_clear_of_format(bytes, k));
                assert(level_end(bytes, k) == level_end(others, k));
                assert(parts[k] =~= other_parts[k]);
            }
            assert(parts =~= other_parts);
        }
    }
}

/// Bytes that end before one of the levels does are rejected.
pub proof fn law_truncated_container_is_rejected(bytes: Seq<u8>, len: nat, level: int)
    requires
        len <= bytes.len(),
        0 <= level < level_count(bytes),
        len < level_end(bytes, level),
    ensures
        decode_fault(bytes.take(len as int)) is Some,
{
    let cut = bytes.take(len as int);
    if len >= 80 && 80 + 24 * level_count(cut) <= len {
        assert(level_count(cut) == level_count(bytes));
        assert(level_end(cut, level) == level_end(bytes, level));
        assert(!levels_in_bounds(cut));
    }
}

/// A container with a level that is not of the size that the image's extent asks
/// for is rejected, and so is one with more levels than the extent allows.
pub proof fn law_wrong_sized_level_is_rejected(bytes: Seq<u8>, level: int)
    requires
        0 <= level < level_count(bytes),
        ({
            let image = decoded_image(bytes);
            let width = image.width as nat;
            let height = image.height as nat;
            ||| level_payloads(bytes)[level].len() != mip::level_bytes(
                image.format,
                width,
                height,
                level as nat,
            )
            ||| level_count(bytes) > mip::chain_limit(width, height)
        }),
    ensures
        decode_fault(bytes) is Some,
{
    let image = decoded_image(bytes);
    mip::law_chain_accepted_iff_sizes_match(
        image.format,
        image.width as nat,
        image.height as nat,
        level_payloads(bytes),
    );
}

/// The base level of a loaded image has no partial blocks.
pub proof fn law_loaded_base_level_has_no_padding(bytes: Seq<u8>)
    requires
        decode_fault(bytes) is None,
    ensures
        ({
            let image = decoded_image(bytes);
            level_payloads(bytes)[0].len() * image.format.block_side() * image.format.block_side()
                == image.width * image.height * image.format.block_bytes()
        }),
{
    let image = decoded_image(bytes);
    let width = image.width as nat;
    let height = image.height as nat;
    law_aligned_level_has_no_padding(image.format, width, height);
    mip::law_chain_accepted_iff_sizes_match(image.format, width, height, level_payloads(bytes));
    mip::law_extent_halves(width, 0);
    mip::law_extent_halves(height, 0);
    assert(level_payloads(bytes)[0].len() == mip::level_bytes(image.format, width, height, 0));
}

} // verus!
