use physis::tex::{compressed_size, BlockCompression, TexHeader, Texture, TextureFormat};

fn tex_bytes(format: u32, width: u16, height: u16, body: &[u8]) -> Vec<u8> {
    let mut bytes: Vec<u8> = Vec::new();
    bytes.extend_from_slice(&0x0080_0000u32.to_le_bytes());
    bytes.extend_from_slice(&format.to_le_bytes());
    bytes.extend_from_slice(&width.to_le_bytes());
    bytes.extend_from_slice(&height.to_le_bytes());
    bytes.extend_from_slice(&1u16.to_le_bytes());
    bytes.extend_from_slice(&1u16.to_le_bytes());
    for i in 0..16u32 {
        bytes.extend_from_slice(&(i * 3).to_le_bytes());
    }
    assert_eq!(bytes.len(), 80);
    bytes.extend_from_slice(body);
    bytes
}

#[test]
fn header_is_read() {
    let bytes = tex_bytes(0x3431, 64, 32, &[]);
    let header = TexHeader::read(&bytes).unwrap();
    assert_eq!(header.attribute.bits, 0x0080_0000);
    assert!(header.attribute.contains(physis::tex::TEXTURE_TYPE2_D));
    assert!(!header.attribute.contains(physis::tex::TEXTURE_TYPE_CUBE));
    assert_eq!(header.format, TextureFormat::BC3);
    assert_eq!(header.width, 64);
    assert_eq!(header.height, 32);
    assert_eq!(header.depth, 1);
    assert_eq!(header.mip_levels, 1);
    assert_eq!(header.lod_offsets, [0, 3, 6]);
    assert_eq!(header.offset_to_surface[0], 9);
    assert_eq!(header.offset_to_surface[12], 45);
}

#[test]
fn uncompressed_pixels_pass_through() {
    let body: Vec<u8> = (0..64u8).collect();
    let texture = Texture::from_existing(&tex_bytes(0x1450, 4, 4, &body)).unwrap();
    assert_eq!(texture.width, 4);
    assert_eq!(texture.height, 4);
    assert_eq!(texture.rgba, body);
}

#[test]
fn bc1_block_is_decoded() {
    // Both colours white, every pixel the first colour.
    let block = [0xFF, 0xFF, 0xFF, 0xFF, 0, 0, 0, 0];
    let texture = Texture::from_existing(&tex_bytes(0x3420, 4, 4, &block)).unwrap();
    assert_eq!(texture.rgba.len(), 64);
    assert!(texture.rgba.iter().all(|byte| *byte == 255));

    // Pure red against pure blue, every pixel the second colour.
    let block = [0x00, 0xF8, 0x1F, 0x00, 0x55, 0x55, 0x55, 0x55];
    let texture = Texture::from_existing(&tex_bytes(0x3420, 4, 4, &block)).unwrap();
    for pixel in texture.rgba.chunks(4) {
        assert_eq!(pixel, &[0, 0, 255, 255]);
    }
}

#[test]
fn compressed_output_has_four_bytes_for_each_pixel() {
    for (format, block) in [(0x3420u32, 8usize), (0x3431, 16), (0x6230, 16)] {
        for (width, height) in [(4u16, 4u16), (5, 3), (16, 32), (1, 1), (7, 9)] {
            let blocks = ((width as usize + 3) / 4) * ((height as usize + 3) / 4);
            let body = vec![0x5Au8; blocks * block];
            let texture = Texture::from_existing(&tex_bytes(format, width, height, &body)).unwrap();
            assert_eq!(texture.rgba.len(), width as usize * height as usize * 4);
            assert_eq!(texture.width, width as u32);
            assert_eq!(texture.height, height as u32);
        }
    }
}

#[test]
fn bc3_alpha_is_decoded() {
    // Alpha end points 255 and 0 with every pixel the first, colour white.
    let block = [0xFF, 0x00, 0, 0, 0, 0, 0, 0, 0xFF, 0xFF, 0xFF, 0xFF, 0, 0, 0, 0];
    let texture = Texture::from_existing(&tex_bytes(0x3431, 4, 4, &block)).unwrap();
    for pixel in texture.rgba.chunks(4) {
        assert_eq!(pixel, &[255, 255, 255, 255]);
    }
    // The same with the end points exchanged: every pixel takes alpha zero.
    let block = [0x00, 0xFF, 0, 0, 0, 0, 0, 0, 0xFF, 0xFF, 0xFF, 0xFF, 0, 0, 0, 0];
    let texture = Texture::from_existing(&tex_bytes(0x3431, 4, 4, &block)).unwrap();
    for pixel in texture.rgba.chunks(4) {
        assert_eq!(pixel, &[255, 255, 255, 0]);
    }
}

#[test]
fn textures_that_cannot_be_read() {
    assert!(Texture::from_existing(&[]).is_none());
    assert!(Texture::from_existing(&[0u8; 79]).is_none());
    // A format code that stands for nothing.
    assert!(Texture::from_existing(&tex_bytes(0x1234, 4, 4, &[0u8; 64])).is_none());
    // Compressed data that does not hold every block.
    assert!(Texture::from_existing(&tex_bytes(0x3420, 8, 8, &[0u8; 31])).is_none());
    assert!(Texture::from_existing(&tex_bytes(0x6230, 4, 4, &[0u8; 15])).is_none());
}

#[test]
fn compressed_images_without_pixels() {
    let texture = Texture::from_existing(&tex_bytes(0x3420, 0, 5, &[])).unwrap();
    assert!(texture.rgba.is_empty());
    let texture = Texture::from_existing(&tex_bytes(0x3431, 5, 0, &[1, 2, 3])).unwrap();
    assert!(texture.rgba.is_empty());
}

#[test]
fn test_invalid() {
    // Feeding it invalid data should not panic
    let mut state: u32 = 0x1234_5678;
    for length in [0usize, 1, 79, 80, 81, 200, 4096] {
        let mut bytes: Vec<u8> = Vec::with_capacity(length);
        for _ in 0..length {
            state = state.wrapping_mul(1664525).wrapping_add(1013904223);
            bytes.push((state >> 24) as u8);
        }
        Texture::from_existing(&bytes);
    }
}

#[test]
fn sizes_of_compressed_images() {
    assert_eq!(compressed_size(BlockCompression::Bc1, 16, 32), 256);
    assert_eq!(compressed_size(BlockCompression::Bc1, 15, 32), 256);
    assert_eq!(compressed_size(BlockCompression::Bc3, 16, 32), 512);
    assert_eq!(compressed_size(BlockCompression::Bc5, 15, 32), 512);
    assert_eq!(compressed_size(BlockCompression::Bc5, 0, 32), 0);
}
