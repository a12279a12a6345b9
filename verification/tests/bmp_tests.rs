use webmaths::bmp::{BMPHeader, HEADER_BYTES};
use webmaths::image::ImageBuffer;

#[test]
fn header_of_a_small_image() {
    let h = BMPHeader::for_image(4, 2);
    assert_eq!(h.file_type, [66, 77]);
    assert_eq!(h.file_size, 4 * 2 * 3 + 54);
    assert_eq!((h.x_size, h.y_size), (4, 2));
    assert_eq!((h.pixel_offset, h.header_size, h.planes, h.bpp), (54, 40, 1, 24));
    assert_eq!((h.reserved_1, h.reserved_2, h.compression, h.image_size), (0, 0, 0, 0));
    assert_eq!((h.x_ppm, h.y_ppm, h.used_colors, h.important_colors), (0, 0, 0, 0));
}

#[test]
fn packed_header_is_little_endian() {
    let bytes = BMPHeader::for_image(640, 480).pack();
    assert_eq!(bytes.len(), HEADER_BYTES);
    let size: u32 = 640 * 480 * 3 + 54;
    let mut want = vec![b'B', b'M'];
    want.extend_from_slice(&size.to_le_bytes());
    want.extend_from_slice(&[0, 0, 0, 0]);
    want.extend_from_slice(&54u32.to_le_bytes());
    want.extend_from_slice(&40u32.to_le_bytes());
    want.extend_from_slice(&640u32.to_le_bytes());
    want.extend_from_slice(&480u32.to_le_bytes());
    want.extend_from_slice(&1u16.to_le_bytes());
    want.extend_from_slice(&24u16.to_le_bytes());
    want.extend_from_slice(&[0; 24]);
    assert_eq!(bytes, want);
}

#[test]
fn packed_header_keeps_every_field_apart() {
    let h = BMPHeader {
        file_type: [1, 2],
        file_size: 0x0403_0201,
        reserved_1: 0x0605,
        reserved_2: 0x0807,
        pixel_offset: 0x0c0b_0a09,
        header_size: 0x100f_0e0d,
        x_size: 0x1413_1211,
        y_size: 0x1817_1615,
        planes: 0x1a19,
        bpp: 0x1c1b,
        compression: 0x201f_1e1d,
        image_size: 0x2423_2221,
        x_ppm: 0x2827_2625,
        y_ppm: 0x2c2b_2a29,
        used_colors: 0x302f_2e2d,
        important_colors: 0xffff_fffe,
    };
    let bytes = h.pack();
    assert_eq!(&bytes[..2], &[1, 2]);
    for i in 0..48 {
        assert_eq!(bytes[2 + i], (i + 1) as u8);
    }
    assert_eq!(&bytes[50..], &[0xfe, 0xff, 0xff, 0xff]);
}

#[test]
fn header_sizes_beyond_32_bits_are_cut() {
    if usize::BITS >= 64 {
        let w: usize = 1 << 33;
        let h = BMPHeader::for_image(w + 5, 1);
        assert_eq!(h.x_size, 5);
        assert_eq!(h.file_size, 15 + 54);
    }
}

fn sample() -> ImageBuffer<[u8; 3]> {
    let mut data = Vec::new();
    for i in 0..8u8 {
        data.push([10 * i + 1, 10 * i + 2, 10 * i + 3]);
    }
    ImageBuffer::new(4, 2, data)
}

#[test]
fn rgb8_buffer_runs_top_down_blue_first() {
    let got = sample().get_rgb8_buffer();
    let mut want = Vec::new();
    for i in 0..8u8 {
        want.extend_from_slice(&[10 * i + 3, 10 * i + 2, 10 * i + 1]);
    }
    assert_eq!(got, want);
}

#[test]
fn bmp_pixel_data_runs_bottom_up() {
    let got = sample().bmp_pixel_data();
    let mut want = Vec::new();
    for i in [4u8, 5, 6, 7, 0, 1, 2, 3] {
        want.extend_from_slice(&[10 * i + 3, 10 * i + 2, 10 * i + 1]);
    }
    assert_eq!(got, want);
}

#[test]
fn streams_of_an_empty_image_are_empty() {
    let none: ImageBuffer<[u8; 3]> = ImageBuffer::new(0, 3, Vec::new());
    assert!(none.get_rgb8_buffer().is_empty());
    assert!(none.bmp_pixel_data().is_empty());
}

fn image(width: usize, height: usize) -> ImageBuffer<[u8; 3]> {
    let mut data = Vec::new();
    for i in 0..(width * height) as u8 {
        data.push([3 * i + 1, 3 * i + 2, 3 * i + 3]);
    }
    ImageBuffer::new(width, height, data)
}

#[test]
fn rows_are_padded_to_whole_words() {
    // one pixel in a row: three bytes and one zero byte
    assert_eq!(image(1, 2).bmp_pixel_data(), vec![6, 5, 4, 0, 3, 2, 1, 0]);
    // two pixels in a row: six bytes and two zero bytes
    assert_eq!(
        image(2, 2).bmp_pixel_data(),
        vec![9, 8, 7, 12, 11, 10, 0, 0, 3, 2, 1, 6, 5, 4, 0, 0]
    );
    // three pixels in a row: nine bytes and three zero bytes
    assert_eq!(image(3, 1).bmp_pixel_data(), vec![3, 2, 1, 6, 5, 4, 9, 8, 7, 0, 0, 0]);
}

#[test]
fn every_width_gives_rows_of_whole_words() {
    for width in 0..10 {
        for height in 0..4 {
            let data = image(width, height).bmp_pixel_data();
            let row = (width * 3 + 3) / 4 * 4;
            assert_eq!(data.len(), row * height, "{width} by {height}");
            for y in 0..height {
                for x in 0..width {
                    let i = ((height - 1 - y) * width + x) as u8;
                    let at = y * row + 3 * x;
                    assert_eq!(&data[at..at + 3], &[3 * i + 3, 3 * i + 2, 3 * i + 1]);
                }
                assert!(data[y * row + 3 * width..(y + 1) * row].iter().all(|b| *b == 0));
            }
        }
    }
}

#[test]
fn rgb8_buffer_is_never_padded() {
    assert_eq!(image(1, 2).get_rgb8_buffer(), vec![3, 2, 1, 6, 5, 4]);
}
