//! Textures: an 80-byte header, then the pixels of the first mip level, either
//! as they are or block-compressed.

use vstd::prelude::*;
use crate::binary::{copy_range, read_u16_le, read_u32_le, spec_u16_le, spec_u32_le};

verus! {

/// The number of bytes of a texture's header.
pub const TEX_HEADER_SIZE: usize = 80;

/// The attribute bits of a texture.
#[derive(PartialEq, Eq, Structural, Clone, Copy, Debug)]
pub struct TextureAttribute {
    pub bits: u32,
}

/// The texture is discarded with every frame.
pub const DISCARD_PER_FRAME: u32 = 0x1;

/// The texture is discarded with every map.
pub const DISCARD_PER_MAP: u32 = 0x2;

/// The texture is managed.
pub const MANAGED: u32 = 0x4;

/// The texture is managed by the user.
pub const USER_MANAGED: u32 = 0x8;

/// The processor may read the texture.
pub const CPU_READ: u32 = 0x10;

/// The texture lies in main memory.
pub const LOCATION_MAIN: u32 = 0x20;

/// The graphics processor does not read the texture.
pub const NO_GPU_READ: u32 = 0x40;

/// The size of the texture is aligned.
pub const ALIGNED_SIZE: u32 = 0x80;

/// Edges are culled.
pub const EDGE_CULLING: u32 = 0x100;

/// The texture lies in onion memory.
pub const LOCATION_ONION: u32 = 0x200;

/// The texture is read and written.
pub const READ_WRITE: u32 = 0x400;

/// The texture does not change.
pub const IMMUTABLE: u32 = 0x800;

/// The texture is a render target.
pub const TEXTURE_RENDER_TARGET: u32 = 0x100000;

/// The texture holds depth and stencil.
pub const TEXTURE_DEPTH_STENCIL: u32 = 0x200000;

/// The texture has one dimension.
pub const TEXTURE_TYPE1_D: u32 = 0x400000;

/// The texture has two dimensions.
pub const TEXTURE_TYPE2_D: u32 = 0x800000;

/// The texture has three dimensions.
pub const TEXTURE_TYPE3_D: u32 = 0x1000000;

/// The texture is a cube.
pub const TEXTURE_TYPE_CUBE: u32 = 0x2000000;

/// The bits that hold the type of the texture.
pub const TEXTURE_TYPE_MASK: u32 = 0x3C00000;

/// The texture is swizzled.
pub const TEXTURE_SWIZZLE: u32 = 0x4000000;

/// The texture is not tiled.
pub const TEXTURE_NO_TILED: u32 = 0x8000000;

/// The texture is not swizzled.
pub const TEXTURE_NO_SWIZZLE: u32 = 0x80000000;

impl TextureAttribute {
    /// Whether all the bits of `flags` are set.
    pub fn contains(&self, flags: u32) -> (all: bool)
        ensures
            all == (self.bits & flags == flags),
    {
        self.bits & flags == flags
    }
}

/// How the pixels of a texture are stored.
#[derive(PartialEq, Eq, Structural, Clone, Copy, Debug)]
pub enum TextureFormat {
    B8G8R8A8,
    BC1,
    BC3,
    BC5,
}

/// A block compression.
#[derive(PartialEq, Eq, Structural, Clone, Copy, Debug)]
pub enum BlockCompression {
    Bc1,
    Bc3,
    Bc5,
}

/// The format that a format code stands for.
pub open spec fn spec_texture_format(code: u32) -> Option<TextureFormat> {
    if code == 0x1450 {
        Some(TextureFormat::B8G8R8A8)
    } else if code == 0x3420 {
        Some(TextureFormat::BC1)
    } else if code == 0x3431 {
        Some(TextureFormat::BC3)
    } else if code == 0x6230 {
        Some(TextureFormat::BC5)
    } else {
        None
    }
}

/// The block compression of a format, if it has one.
pub open spec fn spec_block_compression(format: TextureFormat) -> Option<BlockCompression> {
    match format {
        TextureFormat::B8G8R8A8 => None,
        TextureFormat::BC1 => Some(BlockCompression::Bc1),
        TextureFormat::BC3 => Some(BlockCompression::Bc3),
        TextureFormat::BC5 => Some(BlockCompression::Bc5),
    }
}

/// The number by which the pixel decoder knows a block compression: 1, 3 or 5.
pub open spec fn spec_compression_number(compression: BlockCompression) -> int {
    match compression {
        BlockCompression::Bc1 => 1,
        BlockCompression::Bc3 => 3,
        BlockCompression::Bc5 => 5,
    }
}

/// The number of bytes of one compressed block of four by four pixels.
pub open spec fn spec_block_size(compression: BlockCompression) -> int {
    match compression {
        BlockCompression::Bc1 => 8,
        BlockCompression::Bc3 => 16,
        BlockCompression::Bc5 => 16,
    }
}

/// The number of blocks that cover `size` pixels in one direction.
pub open spec fn spec_blocks(size: int) -> int {
    (size + 3) / 4
}

/// The number of bytes of a compressed image.
pub open spec fn spec_compressed_size(compression: BlockCompression, width: int, height: int) -> int {
    spec_blocks(width) * spec_blocks(height) * spec_block_size(compression)
}

impl TextureFormat {
    /// The format that a format code stands for, if it stands for one.
    pub fn from_code(code: u32) -> (format: Option<TextureFormat>)
        ensures
            format == spec_texture_format(code),
    {
        match code {
            0x1450 => Some(TextureFormat::B8G8R8A8),
            0x3420 => Some(TextureFormat::BC1),
            0x3431 => Some(TextureFormat::BC3),
            0x6230 => Some(TextureFormat::BC5),
            _ => None,
        }
    }

    /// The block compression of the format, if it has one.
    pub fn block_compression(self) -> (compression: Option<BlockCompression>)
        ensures
            compression == spec_block_compression(self),
    {
        match self {
            TextureFormat::B8G8R8A8 => None,
            TextureFormat::BC1 => Some(BlockCompression::Bc1),
            TextureFormat::BC3 => Some(BlockCompression::Bc3),
            TextureFormat::BC5 => Some(BlockCompression::Bc5),
        }
    }
}

/// The header of a texture.
#[derive(PartialEq, Eq, Clone, Copy, Debug)]
pub struct TexHeader {
    pub attribute: TextureAttribute,
    pub format: TextureFormat,
    pub width: u16,
    pub height: u16,
    pub depth: u16,
    pub mip_levels: u16,
    pub lod_offsets: [u32; 3],
    pub offset_to_surface: [u32; 13],
}

/// The header stored in the first 80 bytes of `s`: attribute bits, format
/// code, width, height, depth, mip levels, three level offsets and thirteen
/// surface offsets, all little-endian. There is none where the buffer is
/// shorter or the format code stands for nothing.
pub open spec fn spec_tex_header(s: Seq<u8>) -> Option<TexHeader> {
    if s.len() < 80 {
        None
    } else {
        match spec_texture_format(spec_u32_le(s, 4) as u32) {
            None => None,
            Some(format) => Some(
                TexHeader {
                    attribute: TextureAttribute { bits: spec_u32_le(s, 0) as u32 },
                    format,
                    width: spec_u16_le(s, 8) as u16,
                    height: spec_u16_le(s, 10) as u16,
                    depth: spec_u16_le(s, 12) as u16,
                    mip_levels: spec_u16_le(s, 14) as u16,
                    lod_offsets: [
                        spec_u32_le(s, 16) as u32,
                        spec_u32_le(s, 20) as u32,
                        spec_u32_le(s, 24) as u32,
                    ],
                    offset_to_surface: [
                        spec_u32_le(s, 28) as u32,
                        spec_u32_le(s, 32) as u32,
                        spec_u32_le(s, 36) as u32,
                        spec_u32_le(s, 40) as u32,
                        spec_u32_le(s, 44) as u32,
                        spec_u32_le(s, 48) as u32,
                        spec_u32_le(s, 52) as u32,
                        spec_u32_le(s, 56) as u32,
                        spec_u32_le(s, 60) as u32,
                        spec_u32_le(s, 64) as u32,
                        spec_u32_le(s, 68) as u32,
                        spec_u32_le(s, 72) as u32,
                        spec_u32_le(s, 76) as u32,
                    ],
                },
            ),
        }
    }
}

impl TexHeader {
    /// Reads the header at the start of `data`.
    pub fn read(data: &[u8]) -> (header: Option<TexHeader>)
        ensures
            header == spec_tex_header(data@),
    {
        if data.len() < 80 {
            return None;
        }
        let format = match TextureFormat::from_code(read_u32_le(data, 4)) {
            Some(format) => format,
            None => { return None; },
        };
        Some(
            TexHeader {
                attribute: TextureAttribute { bits: read_u32_le(data, 0) },
                format,
                width: read_u16_le(data, 8),
                height: read_u16_le(data, 10),
                depth: read_u16_le(data, 12),
                mip_levels: read_u16_le(data, 14),
                lod_offsets: [
                    read_u32_le(data, 16),
                    read_u32_le(data, 20),
                    read_u32_le(data, 24),
                ],
                offset_to_surface: [
                    read_u32_le(data, 28),
                    read_u32_le(data, 32),
                    read_u32_le(data, 36),
                    read_u32_le(data, 40),
                    read_u32_le(data, 44),
                    read_u32_le(data, 48),
                    read_u32_le(data, 52),
                    read_u32_le(data, 56),
                    read_u32_le(data, 60),
                    read_u32_le(data, 64),
                    read_u32_le(data, 68),
                    read_u32_le(data, 72),
                    read_u32_le(data, 76),
                ],
            },
        )
    }
}

/// A texture as raw pixels.
#[derive(Debug)]
pub struct Texture {
    /// Width of the texture in pixels
    pub width: u32,
    /// Height of the texture in pixels
    pub height: u32,
    /// Raw RGBA data
    pub rgba: Vec<u8>,
}

/// What a texture holds.
pub struct TextureView {
    pub width: u32,
    pub height: u32,
    pub rgba: Seq<u8>,
}

impl View for Texture {
    type V = TextureView;

    open spec fn view(&self) -> TextureView {
        TextureView { width: self.width, height: self.height, rgba: self.rgba@ }
    }
}

/// The pixels that the block decoder gives for compressed data of the given
/// compression (1, 3 or 5), width and height: four bytes for each pixel, row
/// by row.
pub uninterp spec fn block_pixels(compression: int, data: Seq<u8>, width: int, height: int) -> Seq<
    u8,
>;

/// Decodes a block-compressed image into `output`.
///
/// Trusted: this is `texpresso::Format::decompress`. It walks the output in
/// rows of four pixel lines and, for every block of four by four pixels,
/// decodes the block's bytes from `data` and writes the pixels that lie inside
/// the image. It reads and writes by index, so the data must hold every block
/// and the output every pixel, and the width must not be zero. What it writes
/// depends on the compression, the data and the two dimensions alone, and it
/// writes every pixel; the length of the output cannot change.
#[verifier::external_body]
fn decompress_blocks(
    compression: BlockCompression,
    data: &[u8],
    width: usize,
    height: usize,
    output: &mut Vec<u8>,
)
    requires
        0 < width <= 0xFFFF,
        height <= 0xFFFF,
        old(output)@.len() == 4 * width * height,
        data@.len() >= spec_compressed_size(compression, width as int, height as int),
    ensures
        final(output)@ == block_pixels(
            spec_compression_number(compression),
            data@,
            width as int,
            height as int,
        ),
        final(output)@.len() == old(output)@.len(),
{
    let decoder = match compression {
        BlockCompression::Bc1 => texpresso::Format::Bc1,
        BlockCompression::Bc3 => texpresso::Format::Bc3,
        BlockCompression::Bc5 => texpresso::Format::Bc5,
    };
    decoder.decompress(data, width, height, output.as_mut_slice());
}

/// The pixels of a texture with the given header and the given bytes after
/// the header. Uncompressed pixels are the bytes as they are. A compressed
/// image without pixels has none; otherwise its pixels are those that the
/// block decoder gives. There are none where the bytes do not hold every
/// block, or the number of bytes of the pixels is beyond what the machine can
/// address.
pub open spec fn spec_texture_pixels(header: TexHeader, body: Seq<u8>) -> Option<Seq<u8>> {
    match spec_block_compression(header.format) {
        None => Some(body),
        Some(compression) => if header.width == 0 || header.height == 0 {
            Some(Seq::<u8>::empty())
        } else if body.len() < spec_compressed_size(
            compression,
            header.width as int,
            header.height as int,
        ) || 4 * header.width * header.height > usize::MAX {
            None
        } else {
            Some(
                block_pixels(
                    spec_compression_number(compression),
                    body,
                    header.width as int,
                    header.height as int,
                ),
            )
        },
    }
}

/// The texture stored in `s`, if its header and its pixels can be read.
pub open spec fn spec_texture(s: Seq<u8>) -> Option<TextureView> {
    match spec_tex_header(s) {
        None => None,
        Some(header) => match spec_texture_pixels(header, s.subrange(80, s.len() as int)) {
            None => None,
            Some(rgba) => Some(
                TextureView { width: header.width as u32, height: header.height as u32, rgba },
            ),
        },
    }
}

/// The number of bytes of a compressed image.
pub fn compressed_size(compression: BlockCompression, width: u16, height: u16) -> (size: u64)
    ensures
        size == spec_compressed_size(compression, width as int, height as int),
        size <= 0x1_0000_0000,
{
    let across: u64 = (width as u64 + 3) / 4;
    let down: u64 = (height as u64 + 3) / 4;
    let block: u64 = match compression {
        BlockCompression::Bc1 => 8,
        BlockCompression::Bc3 => 16,
        BlockCompression::Bc5 => 16,
    };
    assert(across * down <= 0x4000 * 0x4000) by (nonlinear_arith)
        requires
            across <= 0x4000,
            down <= 0x4000,
    ;
    assert(across * down * block <= 0x4000 * 0x4000 * 16) by (nonlinear_arith)
        requires
            across * down <= 0x4000 * 0x4000,
            block <= 16,
    ;
    across * down * block
}

impl Texture {
    /// The texture with the dimensions of the header and the given pixels.
    pub fn with_pixels(header: &TexHeader, rgba: Vec<u8>) -> (texture: Texture)
        ensures
            texture@ == (TextureView {
                width: header.width as u32,
                height: header.height as u32,
                rgba: rgba@,
            }),
    {
        Texture { width: header.width as u32, height: header.height as u32, rgba }
    }

    /// The pixels of a texture with the given header and the given bytes
    /// after the header.
    pub fn pixels(header: &TexHeader, body: &[u8]) -> (rgba: Option<Vec<u8>>)
        ensures
            match rgba {
                Some(rgba) => spec_texture_pixels(*header, body@) == Some(rgba@),
                None => spec_texture_pixels(*header, body@).is_none(),
            },
            rgba.is_some() && header.format != TextureFormat::B8G8R8A8 ==> rgba.unwrap()@.len()
                == 4 * header.width * header.height,
    {
        let compression = match header.format.block_compression() {
            Some(compression) => compression,
            None => {
                let rgba = copy_range(body, 0, body.len());
                assert(rgba@ =~= body@);
                return Some(rgba);
            },
        };
        if header.width == 0 || header.height == 0 {
            let rgba: Vec<u8> = Vec::new();
            assert(4 * header.width * header.height == 0) by (nonlinear_arith)
                requires
                    header.width == 0 || header.height == 0,
            ;
            return Some(rgba);
        }
        let needed: u64 = compressed_size(compression, header.width, header.height);
        assert(header.width * header.height <= 0xFFFF * 0xFFFF) by (nonlinear_arith)
            requires
                header.width <= 0xFFFF,
                header.height <= 0xFFFF,
        ;
        let pixels: u64 = header.width as u64 * header.height as u64;
        assert(4 * header.width * header.height == 4 * pixels) by (nonlinear_arith)
            requires
                pixels == header.width * header.height,
        ;
        if (body.len() as u64) < needed || 4 * pixels > usize::MAX as u64 {
            return None;
        }
        let mut rgba: Vec<u8> = vec![0u8; (4 * pixels) as usize];
        assert(4 * (header.width as usize) * (header.height as usize) == 4 * pixels)
            by (nonlinear_arith)
            requires
                pixels == header.width * header.height,
        ;
        decompress_blocks(
            compression,
            body,
            header.width as usize,
            header.height as usize,
            &mut rgba,
        );
        Some(rgba)
    }

    /// Reads an existing TEX file.
    ///
    /// Returns the texture that the bytes store, and nothing where the buffer
    /// is shorter than a header, the format code stands for nothing, or the
    /// bytes after the header do not hold every block of a compressed image.
    /// The pixels of a compressed image take four bytes each.
    pub fn from_existing(buffer: &[u8]) -> (texture: Option<Texture>)
        ensures
            match texture {
                Some(texture) => spec_texture(buffer@) == Some(texture@),
                None => spec_texture(buffer@).is_none(),
            },
            texture.is_some() && spec_tex_header(buffer@).unwrap().format
                != TextureFormat::B8G8R8A8 ==> texture.unwrap().rgba@.len() == 4
                * texture.unwrap().width * texture.unwrap().height,
    {
        let header = match TexHeader::read(buffer) {
            Some(header) => header,
            None => { return None; },
        };
        let body = vstd::slice::slice_subrange(buffer, 80, buffer.len());
        match Texture::pixels(&header, body) {
            Some(rgba) => Some(Texture::with_pixels(&header, rgba)),
            None => None,
        }
    }
}

} // verus!
