use raytracer::color::RGBColour;
use raytracer::framebuffer::{frame_coords, line_bytes, merge_lines, write_line};
use raytracer::schedule::worker_rows;
use raytracer::viewport::Viewport;

#[test]
fn viewport_holds_configuration() {
    let vp = Viewport::new(1920, 1080, 100, 50);
    assert_eq!(vp.width, 1920);
    assert_eq!(vp.height, 1080);
    assert_eq!(vp.samples, 100);
    assert_eq!(vp.depth, 50);
    assert_eq!(vp.area(), 1920 * 1080);
}

#[test]
fn viewport_area_of_empty_image_is_zero() {
    assert_eq!(Viewport::new(0, 5, 1, 1).area(), 0);
    assert_eq!(Viewport::new(5, 0, 1, 1).area(), 0);
}

#[test]
fn default_colour_is_black() {
    let c: RGBColour = Default::default();
    assert_eq!(c, RGBColour { r: 0, g: 0, b: 0 });
}

#[test]
fn worker_rows_walk_top_down_in_round_robin_stripes() {
    assert_eq!(worker_rows(10, 3, 0), vec![9, 6, 3, 0]);
    assert_eq!(worker_rows(10, 3, 1), vec![7, 4, 1]);
    assert_eq!(worker_rows(10, 3, 2), vec![8, 5, 2]);
}

#[test]
fn worker_rows_single_worker_owns_every_row() {
    assert_eq!(worker_rows(5, 1, 0), vec![4, 3, 2, 1, 0]);
}

#[test]
fn worker_rows_one_worker_per_row() {
    assert_eq!(worker_rows(4, 4, 0), vec![0]);
    assert_eq!(worker_rows(4, 4, 1), vec![1]);
    assert_eq!(worker_rows(4, 4, 2), vec![2]);
    assert_eq!(worker_rows(4, 4, 3), vec![3]);
}

#[test]
fn scanline_partition_covers_every_row_exactly_once() {
    let height = 37u32;
    for workers in 1..=height {
        let mut seen = vec![0u32; height as usize];
        for worker in 0..workers {
            for row in worker_rows(height, workers, worker) {
                seen[row as usize] += 1;
            }
        }
        assert!(seen.iter().all(|&count| count == 1));
    }
}

#[test]
fn line_bytes_flattens_pixels_in_rgb_order() {
    let pixels = vec![
        RGBColour { r: 1, g: 2, b: 3 },
        RGBColour { r: 200, g: 100, b: 0 },
    ];
    assert_eq!(line_bytes(&pixels), vec![1, 2, 3, 200, 100, 0]);
}

#[test]
fn line_bytes_of_no_pixels_is_empty() {
    assert_eq!(line_bytes(&Vec::new()), Vec::<u8>::new());
}

#[test]
fn write_line_places_a_row_with_vertical_flip() {
    let mut buf = vec![0u8; 18];
    write_line(&mut buf, 2, 3, 2, &vec![9, 8, 7, 6, 5, 4]);
    assert_eq!(&buf[0..6], &[9, 8, 7, 6, 5, 4]);
    assert!(buf[6..].iter().all(|&b| b == 0));
    write_line(&mut buf, 2, 3, 0, &vec![1, 2, 1, 2, 1, 2]);
    assert_eq!(&buf[12..18], &[1, 2, 1, 2, 1, 2]);
    assert_eq!(&buf[0..6], &[9, 8, 7, 6, 5, 4]);
    assert!(buf[6..12].iter().all(|&b| b == 0));
}

#[test]
fn merge_lines_assembles_rows_and_leaves_missing_rows_black() {
    let lines = vec![(vec![1u8; 6], 0u32), (vec![2u8; 6], 2u32)];
    let buf = merge_lines(2, 3, &lines);
    assert_eq!(buf.len(), 18);
    assert!(buf[0..6].iter().all(|&b| b == 2));
    assert!(buf[6..12].iter().all(|&b| b == 0));
    assert!(buf[12..18].iter().all(|&b| b == 1));
}

#[test]
fn merge_lines_of_nothing_is_black() {
    let buf = merge_lines(3, 2, &Vec::new());
    assert_eq!(buf, vec![0u8; 18]);
}

#[test]
fn frame_coords_walk_rows_top_down() {
    assert_eq!(frame_coords(0, 4, 3), (0, 2));
    assert_eq!(frame_coords(3, 4, 3), (3, 2));
    assert_eq!(frame_coords(5, 4, 3), (1, 1));
    assert_eq!(frame_coords(11, 4, 3), (3, 0));
}
