use webmaths::image::{render_image, render_slice, ImageBuffer};

fn numbered(width: usize, height: usize) -> ImageBuffer<u32> {
    let mut data = Vec::new();
    for i in 0..width * height {
        data.push(i as u32);
    }
    ImageBuffer::new(width, height, data)
}

#[test]
fn alloc_fills_every_pixel() {
    let buf = ImageBuffer::alloc_data_buf(3, 2, 7u8);
    assert_eq!(buf, vec![7u8; 6]);
    let none = ImageBuffer::alloc_data_buf(0, 5, 1u8);
    assert!(none.is_empty());
}

#[test]
fn new_starts_at_line_zero() {
    let img = ImageBuffer::new(2, 2, vec![1u8, 2, 3, 4]);
    assert_eq!((img.width, img.height, img.first_line), (2, 2, 0));
    assert_eq!(img.data, vec![1u8, 2, 3, 4]);
}

#[test]
fn pixels_are_stored_row_by_row() {
    let mut img = ImageBuffer::new(3, 2, ImageBuffer::alloc_data_buf(3, 2, 0u32));
    img.set_pixel(1, 0, 10);
    img.set_pixel(2, 1, 20);
    assert_eq!(img.data, vec![0, 10, 0, 0, 0, 20]);
    assert_eq!(img.pixel(1, 0), 10);
    assert_eq!(img.pixel(2, 1), 20);
    assert_eq!(img.pixel(0, 1), 0);
}

#[test]
fn pixel_past_the_row_end_is_the_next_rows() {
    let img = numbered(3, 2);
    assert_eq!(img.pixel(4, 0), 4);
}

#[test]
fn split_into_equal_slices() {
    let parts = numbered(2, 6).get_split_buffers(3);
    assert_eq!(parts.len(), 3);
    for (i, p) in parts.iter().enumerate() {
        assert_eq!((p.width, p.height, p.first_line), (2, 2, 2 * i));
    }
    assert_eq!(parts[0].data, vec![0, 1, 2, 3]);
    assert_eq!(parts[1].data, vec![4, 5, 6, 7]);
    assert_eq!(parts[2].data, vec![8, 9, 10, 11]);
}

#[test]
fn last_slice_takes_the_rest() {
    let parts = numbered(1, 10).get_split_buffers(3);
    assert_eq!(parts.len(), 3);
    assert_eq!((parts[0].first_line, parts[0].height), (0, 3));
    assert_eq!((parts[1].first_line, parts[1].height), (3, 3));
    assert_eq!((parts[2].first_line, parts[2].height), (6, 4));
    assert_eq!(parts[2].data, vec![6, 7, 8, 9]);
}

#[test]
fn more_slices_than_rows() {
    let parts = numbered(2, 2).get_split_buffers(3);
    assert_eq!(parts.len(), 3);
    assert_eq!((parts[0].first_line, parts[0].height), (0, 0));
    assert_eq!((parts[1].first_line, parts[1].height), (0, 0));
    assert_eq!((parts[2].first_line, parts[2].height), (0, 2));
    assert_eq!(parts[2].data, vec![0, 1, 2, 3]);
}

#[test]
fn one_slice_is_the_whole() {
    let parts = numbered(3, 2).get_split_buffers(1);
    assert_eq!(parts.len(), 1);
    assert_eq!((parts[0].width, parts[0].height, parts[0].first_line), (3, 2, 0));
    assert_eq!(parts[0].data, numbered(3, 2).data);
}

#[test]
fn split_of_a_slice_counts_lines_of_the_full_image() {
    let mut parts = numbered(1, 8).get_split_buffers(2);
    let lower = parts.pop().unwrap();
    assert_eq!(lower.first_line, 4);
    let quarters = lower.get_split_buffers(2);
    assert_eq!((quarters[0].first_line, quarters[0].height), (4, 2));
    assert_eq!((quarters[1].first_line, quarters[1].height), (6, 2));
}

#[test]
fn join_undoes_split() {
    for splits in 1..6 {
        let parts = numbered(3, 7).get_split_buffers(splits);
        let whole = ImageBuffer::join_split_buffers(parts).unwrap();
        assert_eq!((whole.width, whole.height, whole.first_line), (3, 7, 0));
        assert_eq!(whole.data, numbered(3, 7).data);
    }
}

#[test]
fn join_refuses_what_does_not_fit() {
    let none: Vec<ImageBuffer<u32>> = Vec::new();
    assert!(ImageBuffer::join_split_buffers(none).is_none());

    let mut swapped = numbered(2, 4).get_split_buffers(2);
    swapped.reverse();
    assert!(ImageBuffer::join_split_buffers(swapped).is_none());

    let mut uneven = numbered(2, 4).get_split_buffers(2);
    uneven[1].width = 1;
    assert!(ImageBuffer::join_split_buffers(uneven).is_none());

    let mut short = numbered(2, 4).get_split_buffers(2);
    short[0].data.pop();
    assert!(ImageBuffer::join_split_buffers(short).is_none());

    let mut gap = numbered(2, 4).get_split_buffers(2);
    gap[1].first_line = 3;
    assert!(ImageBuffer::join_split_buffers(gap).is_none());
}

#[test]
fn join_refuses_rows_beyond_count() {
    let a = ImageBuffer { width: 0, height: usize::MAX, first_line: 0, data: Vec::<u8>::new() };
    let b = ImageBuffer { width: 0, height: 1, first_line: usize::MAX, data: Vec::<u8>::new() };
    assert!(ImageBuffer::join_split_buffers(vec![a, b]).is_none());
}

#[test]
fn render_gives_each_pixel_its_place_in_the_full_image() {
    let mut parts = ImageBuffer::new(3, 4, ImageBuffer::alloc_data_buf(3, 4, (0usize, 0usize)))
        .get_split_buffers(2);
    for p in parts.iter_mut() {
        render_slice(p, &|x: usize, y: usize| (x, y));
    }
    assert_eq!(parts[0].data, vec![(0, 0), (1, 0), (2, 0), (0, 1), (1, 1), (2, 1)]);
    assert_eq!(parts[1].data, vec![(0, 2), (1, 2), (2, 2), (0, 3), (1, 3), (2, 3)]);
    let whole = ImageBuffer::join_split_buffers(parts).unwrap();
    for y in 0..4 {
        for x in 0..3 {
            assert_eq!(whole.pixel(x, y), (x, y));
        }
    }
}

#[test]
fn render_works_with_float_pixels() {
    let mut img = ImageBuffer::new(2, 1, ImageBuffer::alloc_data_buf(2, 1, [0.0f32, 0.5, 0.0]));
    render_slice(&mut img, &|x: usize, _y: usize| [x as f32, 1.0, 2.0]);
    assert_eq!(img.pixel(1, 0), [1.0, 1.0, 2.0]);
}

#[test]
fn image_is_the_same_however_it_is_split() {
    let shade = |x: usize, y: usize| (10 * y + x) as u32;
    let whole = render_image(3, 5, 1, 0u32, &shade);
    assert_eq!((whole.width, whole.height, whole.first_line), (3, 5, 0));
    for y in 0..5 {
        for x in 0..3 {
            assert_eq!(whole.pixel(x, y), (10 * y + x) as u32);
        }
    }
    for splits in 2..8 {
        let image = render_image(3, 5, splits, 0u32, &shade);
        assert_eq!((image.width, image.height, image.first_line), (3, 5, 0));
        assert_eq!(image.data, whole.data);
    }
}

#[test]
fn image_without_pixels() {
    let image = render_image(0, 4, 2, 0u8, &|_x: usize, _y: usize| 1u8);
    assert_eq!((image.width, image.height), (0, 4));
    assert!(image.data.is_empty());
    let image = render_image(4, 0, 3, 0u8, &|_x: usize, _y: usize| 1u8);
    assert_eq!((image.width, image.height), (4, 0));
    assert!(image.data.is_empty());
}
