use mandelbrot::config::{HEIGHT, WIDTH};
use mandelbrot::work::pixel_tasks;

#[test]
fn tasks_cover_every_pixel_once() {
    let tasks = pixel_tasks(WIDTH, HEIGHT);
    assert_eq!(tasks.len(), 120_000);
    let mut seen = vec![0u32; 120_000];
    for (x, y) in tasks.iter() {
        assert!(*x < WIDTH && *y < HEIGHT);
        seen[(*y * WIDTH + *x) as usize] += 1;
    }
    assert!(seen.iter().all(|c| *c == 1));
}

#[test]
fn tasks_are_row_major() {
    let tasks = pixel_tasks(WIDTH, HEIGHT);
    assert_eq!(tasks[0], (0, 0));
    assert_eq!(tasks[1], (1, 0));
    assert_eq!(tasks[399], (399, 0));
    assert_eq!(tasks[400], (0, 1));
    assert_eq!(tasks[119_999], (399, 299));
}

#[test]
fn tasks_of_small_image() {
    assert_eq!(pixel_tasks(3, 2), vec![(0, 0), (1, 0), (2, 0), (0, 1), (1, 1), (2, 1)]);
}

#[test]
fn tasks_of_empty_image() {
    assert!(pixel_tasks(0, 5).is_empty());
    assert!(pixel_tasks(5, 0).is_empty());
}
