//! Raw image data.
//!
//! [`Image`] holds pixel bytes and what is needed to upload them. It owns no GPU
//! resources. [`Image::new`] makes a static image, or an empty one whose data has
//! not arrived; [`Image::new_dynamic`] makes one whose bytes are replaced in place,
//! for video frames or camera feeds.

use std::ops::Deref;

use uuid::Uuid;
use vstd::prelude::*;

use crate::error::DynamicImageError;
use crate::format::{ImageDimension, PixelFormat};
use crate::mip;
use crate::shared;
use crate::shared::{ReadGuard, SharedBuffer};

verus! {

/// Declares `uuid::Uuid`, which is carried and never looked into.
#[verifier::external_type_specification]
#[verifier::external_body]
pub struct ExUuid(Uuid);

/// `uuid::Uuid::new_v4`: a random identifier. Nothing is stated of it: its bits
/// are chance but for the version and variant fields, and an identifier cannot be
/// looked into here.
#[verifier::external_body]
fn random_uuid() -> Uuid {
    Uuid::new_v4()
}

/// Backing storage for an image's bytes.
#[derive(Debug)]
pub enum ImageStorage {
    /// No bytes yet.
    Empty,
    /// Bytes that do not change.
    Static(Vec<u8>),
    /// Bytes that are replaced in place.
    Dynamic(SharedBuffer),
}

/// What an image holds.
#[verifier::ext_equal]
pub enum Pixels {
    /// No bytes.
    Empty,
    /// These bytes, always.
    Static(Seq<u8>),
    /// Always `len` bytes. Between updates they are in turn those of `history`: first
    /// what the image was made with, then what each update leaves.
    Dynamic { len: nat, history: Seq<Seq<u8>> },
}

impl Pixels {
    /// Whether these are all the bytes, at some time when no update is under way.
    pub open spec fn hold(self, bytes: Seq<u8>) -> bool {
        match self {
            Pixels::Empty => false,
            Pixels::Static(data) => bytes == data,
            Pixels::Dynamic { len, history } => bytes.len() == len && history.contains(bytes),
        }
    }

    /// Whether these are all the bytes of a dynamic image after `turn` updates.
    pub open spec fn hold_after(self, turn: int, bytes: Seq<u8>) -> bool {
        &&& self is Dynamic
        &&& bytes.len() == self->len
        &&& 0 <= turn < self->history.len()
        &&& bytes == self->history[turn]
    }

    /// Whether the update of a dynamic image after `turn` others is one with
    /// `new_data`.
    pub open spec fn update_after(self, turn: int, new_data: Seq<u8>) -> bool {
        self is Dynamic && shared::is_update(self->len, self->history, turn, new_data)
    }

    /// Whether the update of a dynamic image after `turn` others is refused.
    pub open spec fn refusal_after(self, turn: int) -> bool {
        exists|new_data: Seq<u8>|
            new_data.len() != self->len && self.update_after(turn, new_data)
    }
}

/// An image but for its identifier.
#[verifier::ext_equal]
pub struct ImageModel {
    pub width: u32,
    pub height: u32,
    pub depth: u32,
    pub mip_level_count: u32,
    pub dimension: ImageDimension,
    pub format: PixelFormat,
    pub pixels: Pixels,
}

/// Borrowed image bytes: a plain slice of a static image, or shared access to the
/// buffer of a dynamic one.
pub enum ImageDataRef<'a> {
    Static(&'a [u8]),
    Dynamic(ReadGuard<'a>),
}

impl<'a> View for ImageDataRef<'a> {
    type V = Seq<u8>;

    open spec fn view(&self) -> Seq<u8> {
        match self {
            ImageDataRef::Static(data) => data@,
            ImageDataRef::Dynamic(guard) => guard@,
        }
    }
}

impl Deref for ImageDataRef<'_> {
    type Target = [u8];

    fn deref(&self) -> (r: &[u8])
        ensures
            r@ == self@,
            match self {
                ImageDataRef::Static(data) => r@ == data@,
                ImageDataRef::Dynamic(guard) => r@ == guard@,
            },
    {
        match self {
            Self::Static(data) => data,
            Self::Dynamic(guard) => guard.as_slice(),
        }
    }
}

impl AsRef<[u8]> for ImageDataRef<'_> {
    fn as_ref(&self) -> (r: &[u8])
        ensures
            r@ == self@,
            match self {
                ImageDataRef::Static(data) => r@ == data@,
                ImageDataRef::Dynamic(guard) => r@ == guard@,
            },
    {
        self.deref()
    }
}

/// The bytes of an image and how many mip levels they hold.
#[derive(Debug)]
pub struct ImageContent {
    mip_level_count: u32,
    storage: ImageStorage,
}

impl ImageContent {
    /// Number of mip levels that the bytes hold.
    pub closed spec fn levels(&self) -> u32 {
        self.mip_level_count
    }

    /// The bytes.
    pub closed spec fn pixels(&self) -> Pixels {
        match self.storage {
            ImageStorage::Empty => Pixels::Empty,
            ImageStorage::Static(data) => Pixels::Static(data@),
            ImageStorage::Dynamic(buffer) => Pixels::Dynamic {
                len: buffer.spec_len(),
                history: buffer.history(),
            },
        }
    }
}

/// Image data in CPU memory: pixel bytes, and the size, format and dimension that
/// an upload needs.
#[derive(Debug)]
pub struct Image {
    pub uuid: Uuid,
    pub width: u32,
    pub height: u32,
    pub depth: u32,
    pub dimension: ImageDimension,
    pub format: PixelFormat,
    /// The bytes and their mip levels, which the constructors alone make.
    pub content: ImageContent,
}

impl View for Image {
    type V = ImageModel;

    open spec fn view(&self) -> ImageModel {
        ImageModel {
            width: self.width,
            height: self.height,
            depth: self.depth,
            mip_level_count: self.content.levels(),
            dimension: self.dimension,
            format: self.format,
            pixels: self.content.pixels(),
        }
    }
}

/// The value of one byte of a checkerboard: byte `channel` of the texel in column
/// `x` and row `y`. Cells alternate between white and grey, and all are opaque.
pub open spec fn checker_byte(x: nat, y: nat, channel: nat, cell_size: nat) -> u8 {
    if channel == 3 || (x / cell_size + y / cell_size) % 2 == 0 {
        255
    } else {
        80
    }
}

/// The bytes of a checkerboard, row by row.
pub open spec fn checker_bytes(width: nat, height: nat, cell_size: nat) -> Seq<u8> {
    Seq::new(
        width * height * 4,
        |i: int| checker_byte(i as nat / 4 % width, i as nat / 4 / width, i as nat % 4, cell_size),
    )
}

/// Appends bytes to a vector.
fn append(data: &mut Vec<u8>, bytes: &[u8])
    ensures
        final(data)@ == old(data)@ + bytes@,
{
    data.extend_from_slice(bytes);
    assert(data@ =~= old(data)@ + bytes@);
}

impl Image {
    /// Whether these are the image's bytes, at some time when no update is under way.
    pub open spec fn holds(&self, bytes: Seq<u8>) -> bool {
        self@.pixels.hold(bytes)
    }

    /// What every image keeps: it has a level, and only static bytes hold more
    /// than one.
    pub open spec fn well_formed(&self) -> bool {
        &&& self@.mip_level_count >= 1
        &&& self@.mip_level_count > 1 ==> self@.pixels is Static
    }

    /// A new image of this size, with pixel data if there is any.
    #[must_use]
    pub fn new(
        width: u32,
        height: u32,
        depth_or_array_layers: u32,
        dimension: ImageDimension,
        format: PixelFormat,
        data: Option<Vec<u8>>,
    ) -> (r: Self)
        ensures
            r.well_formed(),
            r.width == width && r.height == height && r.depth == depth_or_array_layers,
            r.dimension == dimension && r.format == format,
            r@ == (ImageModel {
                width,
                height,
                depth: depth_or_array_layers,
                mip_level_count: 1,
                dimension,
                format,
                pixels: match data {
                    Some(data) => Pixels::Static(data@),
                    None => Pixels::Empty,
                },
            }),
    {
        Self {
            uuid: random_uuid(),
            width,
            height,
            depth: depth_or_array_layers,
            dimension,
            format,
            content: ImageContent {
                mip_level_count: 1,
                storage: match data {
                    Some(data) => ImageStorage::Static(data),
                    None => ImageStorage::Empty,
                },
            },
        }
    }

    /// A static two-dimensional image with tightly packed mip levels, largest first.
    ///
    /// Fails on a zero extent, on more levels than the extent allows or none, and
    /// on a payload that is not of the size of its level.
    pub fn from_mip_levels(
        width: u32,
        height: u32,
        format: PixelFormat,
        levels: &[&[u8]],
    ) -> (r: Result<Self, &'static str>)
        ensures
            match r {
                Ok(image) => {
                    &&& mip::chain_fault(format, width as nat, height as nat, mip::payloads(levels@))
                        is None
                    &&& image.well_formed()
                    &&& image.width == width && image.height == height && image.depth == 1
                    &&& image.dimension is D2 && image.format == format
                    &&& image@ == (ImageModel {
                        width,
                        height,
                        depth: 1,
                        mip_level_count: levels@.len() as u32,
                        dimension: ImageDimension::D2,
                        format,
                        pixels: Pixels::Static(mip::payloads(levels@).flatten()),
                    })
                    &&& image@.mip_level_count == levels@.len()
                },
                Err(message) => mip::chain_fault(
                    format,
                    width as nat,
                    height as nat,
                    mip::payloads(levels@),
                ) == Some(message@),
            },
    {
        if width == 0 || height == 0 || levels.len() == 0 {
            return Err("invalid mip dimensions or count");
        }
        let longest: u32 = if width >= height {
            width
        } else {
            height
        };
        let limit: u32 = mip::floor_log2(longest) + 1;
        if levels.len() > limit as usize {
            return Err("invalid mip dimensions or count");
        }
        let ghost parts = mip::payloads(levels@);
        let mut data: Vec<u8> = Vec::new();
        let mut level: usize = 0;
        assert(parts.take(0) =~= Seq::<Seq<u8>>::empty());
        while level < levels.len()
            invariant
                level <= levels@.len() <= 32,
                parts == mip::payloads(levels@),
                mip::count_fits(width as nat, height as nat, parts.len()),
                mip::first_fault(format, width as nat, height as nat, parts, level as nat) is None,
                data@ == parts.take(level as int).flatten(),
            decreases levels@.len() - level,
        {
            let bytes: &[u8] = levels[level];
            assert(bytes@ == parts[level as int]);
            proof {
                mip::lemma_fault_persists(
                    format,
                    width as nat,
                    height as nat,
                    parts,
                    (level + 1) as nat,
                    parts.len(),
                );
            }
            match format.mip_byte_size(
                mip::level_extent(width, level as u32),
                mip::level_extent(height, level as u32),
            ) {
                None => {
                    return Err("mip size overflow");
                },
                Some(expected) => {
                    if bytes.len() != expected {
                        return Err("mip payload size does not match dimensions");
                    }
                },
            }
            append(&mut data, bytes);
            proof {
                mip::lemma_flatten_next(parts, level as nat);
            }
            level += 1;
        }
        assert(parts.take(level as int) =~= parts);
        let mut image = Self::new(width, height, 1, ImageDimension::D2, format, Some(data));
        image.content.mip_level_count = levels.len() as u32;
        Ok(image)
    }

    /// Number of mip levels that the bytes hold.
    #[must_use]
    pub fn mip_level_count(&self) -> (r: u32)
        ensures
            r == self@.mip_level_count,
    {
        self.content.mip_level_count
    }

    /// An image whose bytes can be replaced in place.
    ///
    /// The buffer keeps its length for the life of the image.
    #[must_use]
    pub fn new_dynamic(
        width: u32,
        height: u32,
        depth_or_array_layers: u32,
        dimension: ImageDimension,
        format: PixelFormat,
        initial_data: Vec<u8>,
    ) -> (r: Self)
        ensures
            r.well_formed(),
            r.width == width && r.height == height && r.depth == depth_or_array_layers,
            r.dimension == dimension && r.format == format,
            r.holds(initial_data@),
            r@.pixels.hold_after(0, initial_data@),
            r@ == (ImageModel {
                width,
                height,
                depth: depth_or_array_layers,
                mip_level_count: 1,
                dimension,
                format,
                pixels: Pixels::Dynamic {
                    len: initial_data@.len(),
                    history: r@.pixels->history,
                },
            }),
    {
        let ghost bytes = initial_data@;
        let image = Self {
            uuid: random_uuid(),
            width,
            height,
            depth: depth_or_array_layers,
            dimension,
            format,
            content: ImageContent {
                mip_level_count: 1,
                storage: ImageStorage::Dynamic(SharedBuffer::new(initial_data)),
            },
        };
        assert(image@.pixels.hold_after(0, bytes));
        image
    }

    /// The pixel format.
    #[must_use]
    pub fn format(&self) -> (r: PixelFormat)
        ensures
            r == self@.format,
            r == self.format,
    {
        self.format
    }

    /// The spatial dimensionality.
    #[must_use]
    pub fn dimension(&self) -> (r: ImageDimension)
        ensures
            r == self@.dimension,
            r == self.dimension,
    {
        self.dimension
    }

    /// Whether the image has bytes in memory.
    #[must_use]
    pub fn has_data(&self) -> (r: bool)
        ensures
            r == !(self@.pixels is Empty),
    {
        !matches!(self.content.storage, ImageStorage::Empty)
    }

    /// Whether the image's bytes can be replaced in place.
    #[must_use]
    pub fn is_dynamic(&self) -> (r: bool)
        ensures
            r == self@.pixels is Dynamic,
    {
        matches!(self.content.storage, ImageStorage::Dynamic(_))
    }

    /// Borrows the bytes that the image holds now, if it has any.
    ///
    /// Of a dynamic image the value gives shared access, and updates wait until it
    /// is dropped. It finds what the last update before it left.
    #[must_use]
    pub fn data(&self) -> (r: Option<ImageDataRef<'_>>)
        ensures
            match self@.pixels {
                Pixels::Empty => r is None,
                Pixels::Static(bytes) => r matches Some(ImageDataRef::Static(data)) && data@ == bytes,
                Pixels::Dynamic { len, history } => r matches Some(ImageDataRef::Dynamic(guard))
                    && self.holds(guard@) && self@.pixels.hold_after(guard.turn() as int, guard@)
                    && guard.turn() < history.len() && guard@ == history[guard.turn() as int]
                    && guard@.len() == len,
            },
    {
        match &self.content.storage {
            ImageStorage::Empty => None,
            ImageStorage::Static(data) => Some(ImageDataRef::Static(data.as_slice())),
            ImageStorage::Dynamic(buffer) => Some(ImageDataRef::Dynamic(buffer.read())),
        }
    }

    /// Calls `f` with the bytes that the image holds now, if it has any.
    pub fn with_data<R>(&self, f: impl FnOnce(&[u8]) -> R) -> (r: Option<R>)
        requires
            forall|bytes: &[u8]| self.holds(bytes@) ==> f.requires((bytes,)),
        ensures
            match r {
                None => self@.pixels is Empty,
                Some(value) => exists|bytes: &[u8]|
                    self.holds(bytes@) && f.ensures((bytes,), value),
            },
            match self@.pixels {
                Pixels::Empty => r is None,
                Pixels::Static(data) => r matches Some(value) && exists|bytes: &[u8]|
                    bytes@ == data && f.ensures((bytes,), value),
                Pixels::Dynamic { len, history } => r matches Some(value) && exists|bytes: &[u8]|
                    bytes@.len() == len && history.contains(bytes@) && f.ensures((bytes,), value),
            },
    {
        match self.data() {
            None => None,
            Some(data) => {
                let bytes: &[u8] = data.as_ref();
                Some(f(bytes))
            },
        }
    }

    /// Overwrites the bytes of a dynamic image in place.
    ///
    /// The new bytes must be as many as the buffer holds. The call waits for
    /// readers to drop what [`Image::data`] gave them, so a thread must not make it
    /// while it holds such a value of the same image. It takes its turn among the
    /// updates of the image: it finds what the one before it left, and leaves the
    /// new bytes, or on an error what it found. It takes one turn; the contract says
    /// that the turn is among those of the image, but not that there is no other.
    pub fn update_dynamic_data(&self, new_data: &[u8]) -> (r: Result<(), DynamicImageError>)
        ensures
            match self@.pixels {
                Pixels::Empty => r == Err::<(), DynamicImageError>(DynamicImageError::MissingData),
                Pixels::Static(_) => r == Err::<(), DynamicImageError>(
                    DynamicImageError::NotDynamic,
                ),
                Pixels::Dynamic { len, .. } => {
                    &&& r == shared::overwrite_result(len, new_data@)
                    &&& new_data@.len() == len <==> r is Ok
                    &&& new_data@.len() != len ==> r == Err::<(), DynamicImageError>(
                        DynamicImageError::SizeMismatch {
                            expected: len as usize,
                            actual: new_data@.len() as usize,
                        },
                    )
                    &&& exists|turn: int| self@.pixels.update_after(turn, new_data@)
                },
            },
            r is Ok ==> self.holds(new_data@),
    {
        match &self.content.storage {
            ImageStorage::Empty => Err(DynamicImageError::MissingData),
            ImageStorage::Static(_) => Err(DynamicImageError::NotDynamic),
            ImageStorage::Dynamic(buffer) => {
                let result = buffer.replace(new_data);
                proof {
                    let turn = choose|turn: int|
                        shared::is_update(buffer.spec_len(), buffer.history(), turn, new_data@);
                    assert(self@.pixels.update_after(turn, new_data@));
                }
                result
            },
        }
    }

    /// A single RGBA texel of this colour.
    #[must_use]
    pub fn solid_color(rgba: [u8; 4]) -> (r: Self)
        ensures
            r.well_formed(),
            r.width == 1 && r.height == 1 && r.depth == 1,
            r.dimension is D2 && r.format is Rgba8Unorm,
            r@ == (ImageModel {
                width: 1,
                height: 1,
                depth: 1,
                mip_level_count: 1,
                dimension: ImageDimension::D2,
                format: PixelFormat::Rgba8Unorm,
                pixels: Pixels::Static(rgba@),
            }),
    {
        let data = vstd::slice::slice_to_vec(rgba.as_slice());
        Self::new(1, 1, 1, ImageDimension::D2, PixelFormat::Rgba8Unorm, Some(data))
    }

    /// A checkerboard of opaque white and grey cells.
    #[must_use]
    pub fn checkerboard(width: u32, height: u32, cell_size: u32) -> (r: Self)
        requires
            width * height * 4 <= u32::MAX,
            width > 0 && height > 0 ==> cell_size > 0,
        ensures
            r.well_formed(),
            r.width == width && r.height == height && r.depth == 1,
            r.dimension is D2 && r.format is Rgba8Unorm,
            r@ == (ImageModel {
                width,
                height,
                depth: 1,
                mip_level_count: 1,
                dimension: ImageDimension::D2,
                format: PixelFormat::Rgba8Unorm,
                pixels: Pixels::Static(
                    checker_bytes(width as nat, height as nat, cell_size as nat),
                ),
            }),
    {
        let ghost board = checker_bytes(width as nat, height as nat, cell_size as nat);
        proof {
            lemma_texel_count(width as int, height as int);
        }
        let mut data: Vec<u8> = Vec::with_capacity((width * height * 4) as usize);
        let mut y: u32 = 0;
        while y < height
            invariant
                y <= height,
                width > 0 && height > 0 ==> cell_size > 0,
                board == checker_bytes(width as nat, height as nat, cell_size as nat),
                data@.len() == y * width * 4,
                data@.len() <= board.len(),
                data@ == board.take(data@.len() as int),
            decreases height - y,
        {
            let mut x: u32 = 0;
            while x < width
                invariant
                    x <= width,
                    y < height,
                    width > 0 && height > 0 ==> cell_size > 0,
                    board == checker_bytes(width as nat, height as nat, cell_size as nat),
                    data@.len() == (y * width + x) * 4,
                    data@.len() <= board.len(),
                    data@ == board.take(data@.len() as int),
                decreases width - x,
            {
                let is_white: bool = (x / cell_size) % 2 == (y / cell_size) % 2;
                let c: u8 = if is_white {
                    255
                } else {
                    80
                };
                proof {
                    law_checkerboard_texel_bytes(
                        width as nat,
                        height as nat,
                        cell_size as nat,
                        x as nat,
                        y as nat,
                    );
                }
                let ghost before = data@;
                data.push(c);
                data.push(c);
                data.push(c);
                data.push(255);
                assert(data@ =~= board.take(before.len() as int + 4));
                x += 1;
            }
            proof {
                assert((y + 1) * width == y * width + width) by (nonlinear_arith);
            }
            y += 1;
        }
        assert(board.len() == height * width * 4) by (nonlinear_arith)
            requires
                board.len() == width * height * 4,
        ;
        assert(data@ =~= board);
        Self::new(width, height, 1, ImageDimension::D2, PixelFormat::Rgba8Unorm, Some(data))
    }
}

/// A product of two extents is not negative and not larger than four times itself.
proof fn lemma_texel_count(width: int, height: int)
    requires
        width >= 0,
        height >= 0,
    ensures
        0 <= width * height <= width * height * 4,
{
    assert(0 <= width * height) by (nonlinear_arith)
        requires
            width >= 0,
            height >= 0,
    ;
}

/// A checkerboard stores its texels row by row, four bytes each.
pub proof fn law_checkerboard_texel_bytes(width: nat, height: nat, cell_size: nat, x: nat, y: nat)
    requires
        x < width,
        y < height,
        cell_size > 0,
    ensures
        (y * width + x) * 4 + 4 <= checker_bytes(width, height, cell_size).len(),
        ({
            let board = checker_bytes(width, height, cell_size);
            let start = (y * width + x) * 4int;
            &&& board[start] == checker_byte(x, y, 0, cell_size)
            &&& board[start + 1] == checker_byte(x, y, 1, cell_size)
            &&& board[start + 2] == checker_byte(x, y, 2, cell_size)
            &&& board[start + 3] == checker_byte(x, y, 3, cell_size)
        }),
{
    let texel = y * width + x;
    assert(texel + 1 <= width * height) by (nonlinear_arith)
        requires
            texel == y * width + x,
            x < width,
            y < height,
    ;
    vstd::arithmetic::div_mod::lemma_fundamental_div_mod_converse(
        texel as int,
        width as int,
        y as int,
        x as int,
    );
    assert((texel * 4) / 4 == texel && (texel * 4 + 1) / 4 == texel);
    assert((texel * 4 + 2) / 4 == texel && (texel * 4 + 3) / 4 == texel);
}

/// The bytes of a checkerboard, cell by cell: in column `i` and row `j` of the cells,
/// every texel is opaque, and white where `i` and `j` are both even or both odd, and
/// grey elsewhere. It has four bytes for each texel and no others.
pub proof fn law_checkerboard_cells_are_white_or_grey(
    width: nat,
    height: nat,
    cell_size: nat,
    i: nat,
    j: nat,
    dx: nat,
    dy: nat,
)
    requires
        dx < cell_size,
        dy < cell_size,
        i * cell_size + dx < width,
        j * cell_size + dy < height,
    ensures
        checker_bytes(width, height, cell_size).len() == width * height * 4,
        ({
            let board = checker_bytes(width, height, cell_size);
            let start = ((j * cell_size + dy) * width + i * cell_size + dx) * 4int;
            let shade: u8 = if i % 2 == j % 2 {
                255
            } else {
                80
            };
            &&& 0 <= start && start + 4 <= board.len()
            &&& board[start] == shade
            &&& board[start + 1] == shade
            &&& board[start + 2] == shade
            &&& board[start + 3] == 255
        }),
{
    let x = i * cell_size + dx;
    let y = j * cell_size + dy;
    law_checkerboard_texel_bytes(width, height, cell_size, x, y);
    vstd::arithmetic::div_mod::lemma_fundamental_div_mod_converse(
        x as int,
        cell_size as int,
        i as int,
        dx as int,
    );
    vstd::arithmetic::div_mod::lemma_fundamental_div_mod_converse(
        y as int,
        cell_size as int,
        j as int,
        dy as int,
    );
}

/// A board without texels has no bytes.
pub proof fn law_checkerboard_without_texels_is_empty(width: nat, height: nat, cell_size: nat)
    requires
        width == 0 || height == 0,
    ensures
        checker_bytes(width, height, cell_size).len() == 0,
{
    assert(width * height == 0) by (nonlinear_arith)
        requires
            width == 0 || height == 0,
    ;
}

/// An image's model says what its fields say.
pub proof fn law_model_is_the_fields(image: Image)
    ensures
        image@.width == image.width,
        image@.height == image.height,
        image@.depth == image.depth,
        image@.dimension == image.dimension,
        image@.format == image.format,
        image@.mip_level_count == image.content.levels(),
        image@.pixels == image.content.pixels(),
{
}

/// What images hold: nothing, always the same bytes, or one after the other the bytes
/// that were there at first and those that updates left.
pub proof fn law_what_images_hold(image: Image, bytes: Seq<u8>)
    ensures
        match image@.pixels {
            Pixels::Empty => !image.holds(bytes),
            Pixels::Static(data) => image.holds(bytes) <==> bytes == data,
            Pixels::Dynamic { len, history } => image.holds(bytes) <==> bytes.len() == len
                && exists|turn: int| 0 <= turn < history.len() && #[trigger] history[turn] == bytes,
        },
{
}

/// A static image gives the same bytes to every reader.
pub proof fn law_static_image_never_changes(image: Image, one: Seq<u8>, other: Seq<u8>)
    requires
        image@.pixels is Static,
        image.holds(one),
        image.holds(other),
    ensures
        one == other,
{
}

/// A dynamic image gives equally many bytes to every reader, whatever updates came
/// between, and exactly the updates with that many bytes succeed.
pub proof fn law_dynamic_image_keeps_its_length(image: Image, found: Seq<u8>, new_data: Seq<u8>)
    requires
        image@.pixels is Dynamic,
        image.holds(found),
    ensures
        found.len() == image@.pixels->len,
        shared::overwrite_result(image@.pixels->len, new_data) is Ok <==> new_data.len()
            == found.len(),
{
}

/// The last successful update wins: a read after it finds its bytes, whole, as long
/// as every update that came between was refused.
pub proof fn law_read_finds_last_update(
    image: Image,
    update: int,
    new_data: Seq<u8>,
    turn: int,
    found: Seq<u8>,
)
    requires
        image@.pixels.update_after(update, new_data),
        new_data.len() == image@.pixels->len,
        update < turn,
        forall|other: int| update < other < turn ==> image@.pixels.refusal_after(other),
        image@.pixels.hold_after(turn, found),
    ensures
        found == new_data,
    decreases turn - update,
{
    if turn > update + 1 {
        let refused = turn - 1;
        assert(image@.pixels.refusal_after(refused));
        law_read_finds_last_update(image, update, new_data, refused, image@.pixels->history[refused]);
    }
}

/// Of two updates of the right length, one after the other, both succeed, and a read
/// that comes next finds the second one's bytes and nothing of the first's.
pub proof fn law_second_update_replaces_first(
    image: Image,
    turn: int,
    first: Seq<u8>,
    second: Seq<u8>,
    found: Seq<u8>,
)
    requires
        image@.pixels.update_after(turn, first),
        image@.pixels.update_after(turn + 1, second),
        first.len() == image@.pixels->len,
        second.len() == image@.pixels->len,
        image@.pixels.hold_after(turn + 2, found),
    ensures
        shared::overwrite_result(image@.pixels->len, first) is Ok,
        shared::overwrite_result(image@.pixels->len, second) is Ok,
        found == second,
{
}

/// First bytes and updates fix what a dynamic image holds: two that start with the
/// same bytes and take the same updates in the same order hold the same at each turn.
pub proof fn law_updates_fix_the_history(one: Image, other: Image, updates: Seq<Seq<u8>>, turn: int)
    requires
        one@.pixels is Dynamic,
        other@.pixels is Dynamic,
        one@.pixels->len == other@.pixels->len,
        one@.pixels->history[0] == other@.pixels->history[0],
        0 <= turn <= updates.len(),
        forall|k: int| 0 <= k < turn ==> one@.pixels.update_after(k, #[trigger] updates[k]),
        forall|k: int| 0 <= k < turn ==> other@.pixels.update_after(k, #[trigger] updates[k]),
    ensures
        one@.pixels->history[turn] == other@.pixels->history[turn],
    decreases turn,
{
    if turn > 0 {
        law_updates_fix_the_history(one, other, updates, turn - 1);
        assert(one@.pixels.update_after(turn - 1, updates[turn - 1]));
        assert(other@.pixels.update_after(turn - 1, updates[turn - 1]));
    }
}

/// A refused update leaves a dynamic image as it was.
pub proof fn law_refused_update_changes_nothing(
    image: Image,
    turn: int,
    new_data: Seq<u8>,
    before: Seq<u8>,
    after: Seq<u8>,
)
    requires
        image@.pixels.update_after(turn, new_data),
        shared::overwrite_result(image@.pixels->len, new_data) is Err,
        image@.pixels.hold_after(turn, before),
        image@.pixels.hold_after(turn + 1, after),
    ensures
        after == before,
{
}

/// A dynamic image gives the same bytes to all readers between two updates.
pub proof fn law_reads_between_updates_agree(image: Image, turn: int, one: Seq<u8>, other: Seq<u8>)
    requires
        image@.pixels.hold_after(turn, one),
        image@.pixels.hold_after(turn, other),
    ensures
        one == other,
{
}

/// Only an image without data gives nothing to readers, and such an image is not
/// dynamic.
pub proof fn law_only_empty_images_hold_nothing(image: Image, bytes: Seq<u8>)
    requires
        image@.pixels is Empty,
    ensures
        !image.holds(bytes),
        !(image@.pixels is Dynamic),
{
}

/// Texels of one cell of a checkerboard look alike, and cells side by side or one
/// above the other differ in colour but not in opacity.
pub proof fn law_checkerboard_cells_alternate(
    x: nat,
    y: nat,
    near_x: nat,
    near_y: nat,
    channel: nat,
    cell_size: nat,
)
    requires
        cell_size > 0,
        near_x / cell_size == x / cell_size,
        near_y / cell_size == y / cell_size,
        channel < 4,
    ensures
        checker_byte(near_x, near_y, channel, cell_size) == checker_byte(x, y, channel, cell_size),
        channel < 3 <==> checker_byte(x + cell_size, y, channel, cell_size) != checker_byte(
            x,
            y,
            channel,
            cell_size,
        ),
        channel < 3 <==> checker_byte(x, y + cell_size, channel, cell_size) != checker_byte(
            x,
            y,
            channel,
            cell_size,
        ),
{
    vstd::arithmetic::div_mod::lemma_div_plus_one(x as int, cell_size as int);
    vstd::arithmetic::div_mod::lemma_div_plus_one(y as int, cell_size as int);
}

} // verus!
