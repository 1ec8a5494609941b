//! Texture files.

use pumicite::bytes::read_u32;
use pumicite::dds::{
    dds_format_to_texture_format, dds_texture, load_dds, start_data, DdsError, DdsHeader,
    DdsHeader10, DDS_MAGIC, DXGI_B8G8R8A8_TYPELESS, DXGI_BC2_UNORM, DXGI_BC6H_SF16,
    DXGI_BC7_UNORM_SRGB, DXGI_R10G10B10A2_UNORM, DXGI_R16_FLOAT, DXGI_R8G8B8A8_UNORM, FOURCC_ATI2,
    FOURCC_DX10, FOURCC_DXT1, FOURCC_DXT5,
};
use pumicite::ktx::{
    data_distance, level_index_size, load_ktx, total_data_size, KtxError, KtxLoaderSettings,
    ParseError,
};
use pumicite::loader::{
    image_format, image_texture, load_image, texture_format, texture_length, texture_of_image,
    write_pixels, ImageColor, ImageFormat, ImageLoadingError, TextureAsset,
    TextureLoadPreferences,
};
use pumicite::png_loader::{open_png, png_texture, read_frames, texture_size, PngColor, PngInfo};
use pumicite::vk;
use std::io::Cursor;

const USAGE: u32 = vk::IMAGE_USAGE_SAMPLED | vk::IMAGE_USAGE_TRANSFER_DST;

fn png_file(
    color: png::ColorType,
    depth: png::BitDepth,
    width: u32,
    height: u32,
    data: &[u8],
) -> Vec<u8> {
    let mut out: Vec<u8> = Vec::new();
    let mut encoder = png::Encoder::new(&mut out, width, height);
    encoder.set_color(color);
    encoder.set_depth(depth);
    let mut writer = encoder.write_header().unwrap();
    writer.write_image_data(data).unwrap();
    writer.finish().unwrap();
    out
}

#[test]
fn numbers_are_little_endian() {
    assert_eq!(read_u32(&[9, 0x78, 0x56, 0x34, 0x12], 1), 0x1234_5678);
}

#[test]
fn textures_have_preferences() {
    let p = TextureLoadPreferences::default();
    assert!(!p.is_srgb);
    assert!(p.register_bindless);
    let asset = TextureAsset::new(7, Some(3));
    assert_eq!(asset.handle(), 3);
    assert_eq!(asset.release(), Some(3));
    assert_eq!(TextureAsset::new(7, None).release(), None);
}

#[test]
fn colors_have_formats() {
    assert_eq!(texture_format(ImageColor::L8, true), Some(vk::FORMAT_R8_SRGB));
    assert_eq!(texture_format(ImageColor::La8, false), Some(vk::FORMAT_R8G8_UNORM));
    assert_eq!(texture_format(ImageColor::Rgb8, true), Some(vk::FORMAT_R8G8B8A8_SRGB));
    assert_eq!(texture_format(ImageColor::Rgba8, false), Some(vk::FORMAT_R8G8B8A8_UNORM));
    assert_eq!(texture_format(ImageColor::L16, true), Some(vk::FORMAT_R16_UNORM));
    assert_eq!(texture_format(ImageColor::La16, true), Some(vk::FORMAT_R16G16_UNORM));
    assert_eq!(texture_format(ImageColor::Rgb16, true), Some(vk::FORMAT_R16G16B16A16_UNORM));
    assert_eq!(
        texture_format(ImageColor::Rgba32F, true),
        Some(vk::FORMAT_R32G32B32A32_SFLOAT)
    );
    assert_eq!(texture_format(ImageColor::Other, true), None);
    assert!(image_texture(ImageColor::Other, 1, 1, true, USAGE).is_none());
    let t = image_texture(ImageColor::L8, 5, 6, false, USAGE).unwrap();
    assert_eq!((t.width, t.height, t.depth, t.array_layers, t.mip_levels), (5, 6, 1, 1, 1));
    assert_eq!(t.image_type, vk::IMAGE_TYPE_TYPE_2D);
    assert_eq!(image_format("png"), Some(ImageFormat::Png));
    assert_eq!(image_format("jpg"), Some(ImageFormat::Jpeg));
    assert_eq!(image_format("tiff"), Some(ImageFormat::Tiff));
    assert_eq!(image_format("bmp"), None);
}

#[test]
fn pixels_are_spread() {
    let mut texels = [9u8; 8];
    assert_eq!(texture_length(ImageColor::Rgb8, 2), 8);
    assert_eq!(texture_length(ImageColor::L16, 3), 6);
    assert_eq!(texture_length(ImageColor::Rgb32F, 1), 16);
    write_pixels(ImageColor::Rgb8, &[1, 2, 3, 4, 5, 6], &mut texels);
    assert_eq!(texels, [1, 2, 3, 9, 4, 5, 6, 9]);
    let mut wide = [9u8; 8];
    write_pixels(ImageColor::Rgb16, &[1, 2, 3, 4, 5, 6], &mut wide);
    assert_eq!(wide, [1, 2, 3, 4, 5, 6, 9, 9]);
    let mut same = [0u8; 4];
    write_pixels(ImageColor::La8, &[1, 2, 3, 4], &mut same);
    assert_eq!(same, [1, 2, 3, 4]);
    let mut floats = [7u8; 16];
    write_pixels(ImageColor::Rgb32F, &[1u8; 12], &mut floats);
    assert_eq!(&floats[10..], &[1, 1, 7, 7, 7, 7]);
}

#[test]
fn images_are_decoded() {
    let file = png_file(png::ColorType::Rgb, png::BitDepth::Eight, 2, 1, &[1, 2, 3, 4, 5, 6]);
    for format in [Some(ImageFormat::Png), None] {
        let (info, image) = load_image(format, &file, true, USAGE).unwrap();
        assert_eq!(info.format, vk::FORMAT_R8G8B8A8_SRGB);
        assert_eq!((info.width, info.height, info.usage), (2, 1, USAGE));
        assert_eq!(image.color, ImageColor::Rgb8);
        assert_eq!(image.bytes, vec![1, 2, 3, 4, 5, 6]);
    }
    let mut tiff: Vec<u8> = Vec::new();
    image::GrayImage::from_raw(3, 1, vec![10, 20, 30])
        .unwrap()
        .write_to(&mut Cursor::new(&mut tiff), image::ImageFormat::Tiff)
        .unwrap();
    let (info, image) = load_image(Some(ImageFormat::Tiff), &tiff, false, USAGE).unwrap();
    assert_eq!(info.format, vk::FORMAT_R8_UNORM);
    assert_eq!(image.bytes, vec![10, 20, 30]);
    let mut jpeg: Vec<u8> = Vec::new();
    image::GrayImage::from_pixel(8, 8, image::Luma([128]))
        .write_to(&mut Cursor::new(&mut jpeg), image::ImageFormat::Jpeg)
        .unwrap();
    let (info, image) = load_image(Some(ImageFormat::Jpeg), &jpeg, true, USAGE).unwrap();
    assert_eq!((info.format, info.width), (vk::FORMAT_R8_SRGB, 8));
    assert_eq!(image.bytes.len(), 64);
    assert!(matches!(
        load_image(Some(ImageFormat::Png), &jpeg, true, USAGE),
        Err(ImageLoadingError::ImageError(_))
    ));
}

#[test]
fn decoded_images_become_textures() {
    let pixels = image::RgbaImage::from_raw(1, 2, vec![1, 2, 3, 4, 5, 6, 7, 8]).unwrap();
    let (info, decoded) =
        texture_of_image(image::DynamicImage::ImageRgba8(pixels), false, USAGE).unwrap();
    assert_eq!(info.format, vk::FORMAT_R8G8B8A8_UNORM);
    assert_eq!((info.width, info.height, info.usage), (1, 2, USAGE));
    assert_eq!(decoded.color, ImageColor::Rgba8);
    assert_eq!((decoded.width, decoded.height), (1, 2));
    assert_eq!(decoded.bytes, vec![1, 2, 3, 4, 5, 6, 7, 8]);

    // Samples of two bytes are in the order of the machine.
    let file = png_file(png::ColorType::Grayscale, png::BitDepth::Sixteen, 1, 1, &[1, 2]);
    let (info, decoded) = load_image(Some(ImageFormat::Png), &file, true, USAGE).unwrap();
    assert_eq!(info.format, vk::FORMAT_R16_UNORM);
    assert_eq!(decoded.bytes, 0x0102u16.to_ne_bytes().to_vec());
}

#[test]
fn png_files_are_loaded() {
    let data = [1, 2, 3, 4, 5, 6];
    let file = png_file(png::ColorType::Rgb, png::BitDepth::Eight, 2, 1, &data);
    let (mut reader, info, texture) = open_png(file).unwrap();
    assert_eq!(info.color, PngColor::Rgb);
    assert_eq!((info.bits, info.width, info.height, info.bytes_per_pixel), (8, 2, 1, 3));
    assert!(!info.animated);
    assert_eq!(texture.format, vk::FORMAT_R8G8B8A8_UNORM);
    assert_eq!(texture.array_layers, 1);
    let mut texels = [0u8; 8];
    read_frames(&mut reader, &info, &mut texels).unwrap();
    assert_eq!(texels, [1, 2, 3, 255, 4, 5, 6, 255]);

    let file = png_file(png::ColorType::GrayscaleAlpha, png::BitDepth::Eight, 1, 2, &data[..4]);
    let (mut reader, info, texture) = open_png(file).unwrap();
    assert_eq!(texture.format, vk::FORMAT_R8G8_UNORM);
    let mut texels = [9u8; 6];
    read_frames(&mut reader, &info, &mut texels).unwrap();
    assert_eq!(texels, [1, 2, 3, 4, 9, 9]);

    let file = png_file(png::ColorType::Rgba, png::BitDepth::Sixteen, 1, 1, &[0; 8]);
    assert!(matches!(open_png(file), Err(ImageLoadingError::UnknownTextureColorType)));
    assert!(matches!(
        open_png(vec![1, 2, 3]),
        Err(ImageLoadingError::PngDecodingError(_))
    ));
}

#[test]
fn broken_frames_are_told() {
    let file = png_file(png::ColorType::Grayscale, png::BitDepth::Eight, 64, 64, &[77; 4096]);
    let cut = file.len() - 30;
    let (mut reader, info, _) = open_png(file[..cut].to_vec()).unwrap();
    let mut texels = vec![0u8; 4096];
    assert!(matches!(
        read_frames(&mut reader, &info, &mut texels),
        Err(ImageLoadingError::PngDecodingError(_))
    ));
}

#[test]
fn frames_become_layers() {
    let mut file: Vec<u8> = Vec::new();
    let mut encoder = png::Encoder::new(&mut file, 2, 1);
    encoder.set_color(png::ColorType::Rgb);
    encoder.set_depth(png::BitDepth::Eight);
    encoder.set_animated(2, 0).unwrap();
    let mut writer = encoder.write_header().unwrap();
    writer.write_image_data(&[1, 2, 3, 4, 5, 6]).unwrap();
    writer.write_image_data(&[7, 8, 9, 10, 11, 12]).unwrap();
    writer.finish().unwrap();
    let (mut reader, info, texture) = open_png(file).unwrap();
    assert!(info.animated);
    assert_eq!(info.animation_frames, Some(2));
    assert_eq!(texture.array_layers, 2);
    let mut texels = [0u8; 16];
    read_frames(&mut reader, &info, &mut texels).unwrap();
    assert_eq!(texels, [1, 2, 3, 255, 4, 5, 6, 255, 7, 8, 9, 255, 10, 11, 12, 255]);
}

#[test]
fn png_colors_have_formats() {
    let info = |color: PngColor, bits: u8| PngInfo {
        color,
        bits,
        width: 4,
        height: 4,
        bytes_per_pixel: 1,
        animated: false,
        animation_frames: None,
    };
    let format = |color: PngColor, bits: u8| png_texture(&info(color, bits)).map(|t| t.format);
    assert_eq!(format(PngColor::Grayscale, 8), Some(vk::FORMAT_R8_UNORM));
    assert_eq!(format(PngColor::Grayscale, 4), None);
    assert_eq!(format(PngColor::Rgba, 8), Some(vk::FORMAT_R8G8B8A8_UNORM));
    assert_eq!(format(PngColor::Rgb, 4), Some(vk::FORMAT_R4G4B4A4_UNORM_PACK16));
    assert_eq!(format(PngColor::GrayscaleAlpha, 4), Some(vk::FORMAT_R4G4_UNORM_PACK8));
    assert_eq!(format(PngColor::Indexed, 8), None);
}

fn put(bytes: &mut [u8], at: usize, value: u32) {
    bytes[at..at + 4].copy_from_slice(&value.to_le_bytes());
}

/// The first bytes of a file of 64 by 32 pixels.
fn dds_file(fourcc: u32) -> [u8; 128] {
    let mut start = [0u8; 128];
    put(&mut start, 0, DDS_MAGIC);
    put(&mut start, 4, 124);
    put(&mut start, 8, 0x1007 | 0x2_0000);
    put(&mut start, 12, 32);
    put(&mut start, 16, 64);
    put(&mut start, 28, 7);
    put(&mut start, 76, 32);
    put(&mut start, 80, 4);
    put(&mut start, 84, fourcc);
    start
}

fn second_header(dxgi: u32, array_size: u32) -> [u8; 20] {
    let mut next = [0u8; 20];
    put(&mut next, 0, dxgi);
    put(&mut next, 4, 3);
    put(&mut next, 12, array_size);
    next
}

#[test]
fn dds_files_are_loaded() {
    assert_eq!(DDS_MAGIC.to_le_bytes(), *b"DDS ");
    let (info, second) = load_dds(&dds_file(FOURCC_DXT5), &[5; 20], true).unwrap();
    assert!(!second);
    assert_eq!(info.format, vk::FORMAT_BC3_SRGB_BLOCK);
    assert_eq!((info.width, info.height, info.depth), (64, 32, 1));
    assert_eq!((info.mip_levels, info.array_layers), (7, 1));
    assert_eq!(info.image_type, vk::IMAGE_TYPE_TYPE_2D);

    let next = second_header(DXGI_BC7_UNORM_SRGB, 4);
    let (info, second) = load_dds(&dds_file(FOURCC_DX10), &next, false).unwrap();
    assert!(second);
    assert_eq!(info.format, vk::FORMAT_BC7_UNORM_BLOCK);
    assert_eq!(info.array_layers, 4);

    let mut cube = dds_file(FOURCC_ATI2);
    put(&mut cube, 112, 0x200);
    assert_eq!(load_dds(&cube, &[0; 20], false).unwrap().0.array_layers, 6);
    let mut volume = dds_file(FOURCC_DXT1);
    put(&mut volume, 8, 0x80_1007);
    put(&mut volume, 24, 9);
    let (info, _) = load_dds(&volume, &[0; 20], false).unwrap();
    assert_eq!((info.image_type, info.depth, info.mip_levels), (vk::IMAGE_TYPE_TYPE_3D, 9, 1));

    let mut bad = dds_file(FOURCC_DXT1);
    bad[0] = 0;
    assert!(matches!(load_dds(&bad, &[0; 20], true), Err(DdsError::DdsParseError(ddsfile::Error::BadMagicNumber))));
    let mut short = dds_file(FOURCC_DXT1);
    put(&mut short, 4, 123);
    assert!(matches!(load_dds(&short, &[0; 20], true), Err(DdsError::DdsParseError(_))));
    assert!(matches!(
        load_dds(&dds_file(0x1234), &[0; 20], true),
        Err(DdsError::FormatRequiresTranscodingError)
    ));
}

#[test]
fn second_headers_name_known_formats() {
    for n in 0u32..300 {
        let known = ddsfile::Header10::read(&second_header(n, 1)[..]).is_ok();
        assert_eq!(known, n <= 115 || (130..=132).contains(&n), "{n}");
        let r = load_dds(&dds_file(FOURCC_DX10), &second_header(n, 1), true);
        assert_eq!(matches!(r, Err(DdsError::DdsParseError(_))), !known);
    }
    let mut next = second_header(28, 1);
    put(&mut next, 4, 5);
    assert!(matches!(
        load_dds(&dds_file(FOURCC_DX10), &next, true),
        Err(DdsError::DdsParseError(_))
    ));
}

#[test]
fn dds_formats_have_texture_formats() {
    let header = DdsHeader {
        width: 1,
        height: 1,
        depth: None,
        mip_map_count: None,
        fourcc: None,
        cubemap: false,
    };
    let format = |dxgi: u32, is_srgb: bool| {
        let second = Some(DdsHeader10 { dxgi_format: dxgi, array_size: 1 });
        dds_format_to_texture_format(&header, &second, is_srgb).ok()
    };
    assert_eq!(format(DXGI_R8G8B8A8_UNORM, false), Some(vk::FORMAT_R8G8B8A8_UNORM));
    assert_eq!(format(DXGI_B8G8R8A8_TYPELESS, true), Some(vk::FORMAT_B8G8R8A8_SRGB));
    assert_eq!(format(DXGI_BC6H_SF16, true), Some(vk::FORMAT_BC6H_SFLOAT_BLOCK));
    assert_eq!(format(DXGI_R16_FLOAT, false), Some(vk::FORMAT_R16_SFLOAT));
    assert_eq!(
        format(DXGI_R10G10B10A2_UNORM, false),
        Some(vk::FORMAT_A2B10G10R10_UNORM_PACK32)
    );
    assert_eq!(format(DXGI_BC2_UNORM, false), Some(vk::FORMAT_BC2_SRGB_BLOCK));
    assert_eq!(format(DXGI_BC7_UNORM_SRGB, true), Some(vk::FORMAT_BC7_SRGB_BLOCK));
    assert_eq!(format(115, false), None);
    assert_eq!(dds_format_to_texture_format(&header, &None, true).ok(), None);
    assert!(matches!(
        dds_texture(&header, &None, true),
        Err(DdsError::FormatRequiresTranscodingError)
    ));
    assert_eq!(DXGI_BC7_UNORM_SRGB, ddsfile::DxgiFormat::BC7_UNorm_sRGB as u32);
    assert_eq!(DXGI_R16_FLOAT, ddsfile::DxgiFormat::R16_Float as u32);
}

#[test]
fn data_starts_behind_the_headers() {
    let next: Vec<u8> = (1..=20).collect();
    let mut slice = [0u8; 24];
    assert_eq!(start_data(&next, false, &mut slice), 20);
    assert_eq!(&slice[..20], next.as_slice());
    assert_eq!(&slice[20..], &[0; 4]);
    let mut untouched = [0u8; 24];
    assert_eq!(start_data(&next, true, &mut untouched), 0);
    assert_eq!(untouched, [0; 24]);
}

fn ktx_file() -> [u8; 80] {
    let mut h = [0u8; 80];
    h[..12].copy_from_slice(&[
        0xAB, 0x4B, 0x54, 0x58, 0x20, 0x32, 0x30, 0xBB, 0x0D, 0x0A, 0x1A, 0x0A,
    ]);
    put(&mut h, 12, vk::FORMAT_R8G8B8A8_UNORM as u32);
    put(&mut h, 20, 4);
    put(&mut h, 24, 4);
    put(&mut h, 36, 1);
    put(&mut h, 40, 3);
    put(&mut h, 64, 200);
    put(&mut h, 72, 16);
    h
}

#[test]
fn ktx_files_are_loaded() {
    let settings = KtxLoaderSettings::default();
    let (h, info) = load_ktx(&ktx_file(), &settings).unwrap();
    assert_eq!(info.image_type, vk::IMAGE_TYPE_TYPE_2D);
    assert_eq!(info.format, vk::FORMAT_R8G8B8A8_UNORM);
    assert_eq!((info.width, info.height, info.mip_levels, info.array_layers), (4, 4, 3, 1));
    assert_eq!(info.usage, vk::IMAGE_USAGE_SAMPLED);
    assert_eq!(level_index_size(&h), 72);
    assert_eq!(data_distance(&h), 200 - 80 - 72 + 16);
    assert_eq!(total_data_size(&h, 4), (16 + 4 + 1) * 4);

    let mut cube = ktx_file();
    put(&mut cube, 36, 6);
    assert_eq!(load_ktx(&cube, &settings).unwrap().1.array_layers, 6);
    let mut line = ktx_file();
    put(&mut line, 24, 0);
    assert_eq!(load_ktx(&line, &settings).unwrap().1.image_type, vk::IMAGE_TYPE_TYPE_1D);
    let mut volume = ktx_file();
    put(&mut volume, 28, 2);
    assert_eq!(load_ktx(&volume, &settings).unwrap().1.image_type, vk::IMAGE_TYPE_TYPE_3D);
}

fn ktx_error(at: usize, value: u32) -> ParseError {
    let mut file = ktx_file();
    put(&mut file, at, value);
    match load_ktx(&file, &KtxLoaderSettings::default()) {
        Err(KtxError::KtxParseError(e)) => e,
        Ok(_) => panic!("an error was expected"),
    }
}

#[test]
fn faults_of_ktx_files_are_told() {
    assert_eq!(ktx_error(0, 0), ParseError::BadMagic);
    assert_eq!(ktx_error(20, 0), ParseError::ZeroWidth);
    assert_eq!(ktx_error(36, 0), ParseError::ZeroFaceCount);
    assert_eq!(ktx_error(32, 5), ParseError::ZeroFaceCount);
}

#[test]
fn png_textures_have_room_for_every_frame() {
    let mut info = PngInfo {
        color: PngColor::Rgb,
        bits: 8,
        width: 3,
        height: 2,
        bytes_per_pixel: 3,
        animated: true,
        animation_frames: Some(5),
    };
    assert_eq!(texture_size(&info), Some(3 * 2 * 4 * 5));
    info.animated = false;
    info.color = PngColor::GrayscaleAlpha;
    info.bytes_per_pixel = 2;
    assert_eq!(texture_size(&info), Some(3 * 2 * 2));
    info.animated = true;
    info.animation_frames = Some(u32::MAX);
    info.width = u32::MAX;
    info.height = u32::MAX;
    assert_eq!(texture_size(&info), None);
}
