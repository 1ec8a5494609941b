//! Strips and tiles of TIFF files.

use pumicite::loader::{load_image, ImageColor, ImageFormat, ImageLoadingError};
use pumicite::tiff::{
    tiff_chunks_fit, IMAGE_LENGTH, IMAGE_WIDTH, PLANAR_CONFIGURATION, ROWS_PER_STRIP,
    SAMPLES_PER_PIXEL, STRIP_OFFSETS, TILE_LENGTH, TILE_OFFSETS, TILE_WIDTH,
};
use pumicite::vk;

const BITS_PER_SAMPLE: u16 = 258;
const PHOTOMETRIC_INTERPRETATION: u16 = 262;
const STRIP_BYTE_COUNTS: u16 = 279;
const TILE_BYTE_COUNTS: u16 = 325;

fn size(ty: u16) -> usize {
    match ty {
        3 => 2,
        16 => 8,
        _ => 4,
    }
}

/// How a file is written: the order of bytes, and whether places take eight.
#[derive(Clone, Copy)]
struct Writer {
    big: bool,
    large: bool,
}

impl Writer {
    fn number(&self, value: u64, size: usize) -> Vec<u8> {
        let bytes = value.to_be_bytes();
        let mut out = bytes[8 - size..].to_vec();
        if !self.big {
            out.reverse();
        }
        out
    }

    /// A file whose directory follows its header. Places are those of the data,
    /// which comes last.
    fn file(
        &self,
        entries: &[(u16, u16, Vec<u64>)],
        places: &[(u16, Vec<u64>)],
        data: &[u8],
    ) -> Vec<u8> {
        let (head, word, entry) = if self.large { (16, 8, 20) } else { (8, 4, 12) };
        let count = entries.len() + places.len();
        let counter = if self.large { 8 } else { 2 };
        let mut end = head + counter + count * entry + word;
        let mut all: Vec<(u16, u16, Vec<u64>)> = entries.to_vec();
        let outside: usize = entries
            .iter()
            .map(|e| e.2.len() * size(e.1))
            .chain(places.iter().map(|p| p.1.len() * 4))
            .filter(|bytes| *bytes > word)
            .sum();
        for (tag, list) in places {
            let list: Vec<u64> = list.iter().map(|p| p + (end + outside) as u64).collect();
            all.push((*tag, 4, list));
        }
        let mut out: Vec<u8> = if self.big { b"MM".to_vec() } else { b"II".to_vec() };
        if self.large {
            out.extend(self.number(43, 2));
            out.extend(self.number(8, 2));
            out.extend(self.number(0, 2));
        } else {
            out.extend(self.number(42, 2));
        }
        out.extend(self.number(head as u64, word));
        out.extend(self.number(count as u64, counter));
        let mut tail: Vec<u8> = Vec::new();
        for (tag, ty, values) in &all {
            out.extend(self.number(*tag as u64, 2));
            out.extend(self.number(*ty as u64, 2));
            out.extend(self.number(values.len() as u64, word));
            let mut bytes: Vec<u8> = Vec::new();
            for v in values {
                bytes.extend(self.number(*v, size(*ty)));
            }
            if bytes.len() > word {
                out.extend(self.number(end as u64, word));
                end += bytes.len();
                tail.extend(bytes);
            } else {
                bytes.resize(word, 0);
                out.extend(bytes);
            }
        }
        out.extend(self.number(0, word));
        out.extend(tail);
        out.extend(data);
        out
    }
}

const LITTLE: Writer = Writer { big: false, large: false };
const BIG: Writer = Writer { big: true, large: false };
const LARGE: Writer = Writer { big: false, large: true };

/// An image of one byte for each sample.
fn image(width: u64, height: u64, samples: u64, planar: u64) -> Vec<(u16, u16, Vec<u64>)> {
    vec![
        (IMAGE_WIDTH, 4, vec![width]),
        (IMAGE_LENGTH, 4, vec![height]),
        (BITS_PER_SAMPLE, 3, vec![8]),
        (PHOTOMETRIC_INTERPRETATION, 3, vec![if samples == 1 { 1 } else { 2 }]),
        (SAMPLES_PER_PIXEL, 3, vec![samples]),
        (PLANAR_CONFIGURATION, 3, vec![planar]),
    ]
}

fn strips(rows: u64) -> Vec<(u16, u16, Vec<u64>)> {
    vec![(ROWS_PER_STRIP, 4, vec![rows]), (STRIP_BYTE_COUNTS, 4, vec![1])]
}

fn tiles(width: u64, length: u64, counts: Vec<u64>) -> Vec<(u16, u16, Vec<u64>)> {
    vec![
        (TILE_WIDTH, 4, vec![width]),
        (TILE_LENGTH, 4, vec![length]),
        (TILE_BYTE_COUNTS, 3, counts),
    ]
}

fn is_refused(file: &[u8]) -> bool {
    let load = |format| {
        matches!(load_image(format, file, false, 0), Err(ImageLoadingError::TiffChunks))
    };
    let refused = !tiff_chunks_fit(file);
    assert_eq!(load(Some(ImageFormat::Tiff)), refused);
    assert_eq!(load(None), refused);
    refused
}

#[test]
fn strips_of_all_planes_are_counted() {
    for writer in [LITTLE, BIG, LARGE] {
        let file = |height: u64, rows: u64, samples: u64, planar: u64| {
            let entries = [image(1, height, samples, planar), strips(rows)].concat();
            writer.file(&entries, &[(STRIP_OFFSETS, vec![0])], &[7])
        };
        assert!(is_refused(&file(0xFFFF_FFFF, 1, 3, 2)));
        assert!(!is_refused(&file(0xFFFF_FFFF, 1, 3, 1)));
        assert!(is_refused(&file(0x8000_0000, 1, 2, 2)));
        assert!(!is_refused(&file(0x7FFF_FFFF, 1, 2, 2)));
        assert!(!is_refused(&file(0xFFFF_FFFF, 0, 3, 2)));
        let (info, image) =
            load_image(Some(ImageFormat::Tiff), &file(1, 1, 1, 1), false, 0).unwrap();
        assert_eq!((info.format, info.width, info.height), (vk::FORMAT_R8_UNORM, 1, 1));
        assert_eq!((image.color, image.bytes), (ImageColor::L8, vec![7]));
    }
}

#[test]
fn tiles_end_with_the_image() {
    // Four tiles of two by two pixels, for three by three.
    let chunky = [image(3, 3, 1, 1), tiles(2, 2, vec![4; 4])].concat();
    let pixels = [1, 2, 4, 5, 3, 0, 6, 0, 7, 8, 0, 0, 9, 0, 0, 0];
    let places = [(TILE_OFFSETS, vec![0, 4, 8, 12])];
    for writer in [LITTLE, BIG, LARGE] {
        let file = writer.file(&chunky, &places, &pixels);
        assert!(!is_refused(&file));
        let (_, image) = load_image(Some(ImageFormat::Tiff), &file, false, 0).unwrap();
        assert_eq!(image.bytes, vec![1, 2, 3, 4, 5, 6, 7, 8, 9]);
    }

    // Three planes of one tile.
    let planar = |height: u64| {
        let entries = [image(2, height, 3, 2), tiles(2, 2, vec![4; 3])].concat();
        let samples = [1, 2, 3, 4, 5, 6, 7, 8, 9, 10, 11, 12];
        LITTLE.file(&entries, &[(TILE_OFFSETS, vec![0, 4, 8])], &samples)
    };
    assert!(!is_refused(&planar(2)));
    let (_, decoded) = load_image(Some(ImageFormat::Tiff), &planar(2), false, 0).unwrap();
    assert_eq!(decoded.color, ImageColor::Rgb8);
    assert_eq!(decoded.bytes, vec![1, 5, 9, 2, 6, 10, 3, 7, 11, 4, 8, 12]);
    assert!(is_refused(&planar(1)));
    let many = [image(0xFFFF_FFFF, 0xFFFF_FFFF, 1, 1), tiles(1, 1, vec![4])].concat();
    assert!(is_refused(&LITTLE.file(&many, &[(TILE_OFFSETS, vec![0])], &[1])));
}

#[test]
fn the_last_entry_of_a_tag_counts() {
    let with = |height: (u16, Vec<u64>)| {
        let mut entries = [image(1, 1, 3, 2), strips(1)].concat();
        // An entry of an unknown type is passed over.
        entries.push((IMAGE_LENGTH, 14, vec![1]));
        entries.push((IMAGE_LENGTH, height.0, height.1));
        LITTLE.file(&entries, &[(STRIP_OFFSETS, vec![0])], &[1])
    };
    assert!(is_refused(&with((4, vec![0xFFFF_FFFF]))));
    assert!(!is_refused(&with((3, vec![9]))));
    // Not one number, and a number of eight bytes, which is elsewhere.
    assert!(!is_refused(&with((3, vec![9, 9]))));
    assert!(is_refused(&with((16, vec![0xFFFF_FFFF]))));
    assert!(!is_refused(&with((16, vec![0x1_0000_0000]))));
    assert!(!is_refused(&with((2, vec![1]))));
}

#[test]
fn files_that_end_early_have_no_chunks() {
    let entries = [image(1, 0xFFFF_FFFF, 3, 2), strips(1)].concat();
    let file = LITTLE.file(&entries, &[(STRIP_OFFSETS, vec![0])], &[7]);
    assert!(is_refused(&file));
    for end in [0, 2, 7, 8, 9, 20, 50] {
        assert!(!is_refused(&file[..end]));
    }
    assert!(tiff_chunks_fit(b"not a TIFF file at all"));
    // A PNG or JPEG decoder is handed any file.
    assert!(matches!(
        load_image(Some(ImageFormat::Png), &file, false, 0),
        Err(ImageLoadingError::ImageError(_))
    ));
}
