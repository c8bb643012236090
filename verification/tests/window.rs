//! The window: its icon, its frames, its colors and the time.

use std::io::Cursor;

use sicompass_ui::app_state::{PaletteTheme, MAX_FRAMES_IN_FLIGHT};
use sicompass_ui::clock::{sdl_ticks, ticks_of};
use sicompass_ui::icon::{pitch, window_icon, APP_ID, APP_NAME};
use sicompass_ui::rectangle::{has_room, split_color, Rgba, MAX_RECT_VERTICES, VERTS_PER_RECT};
use sicompass_ui::render::{
    after_acquire, after_present, check_runtime_files, choose_extent, choose_image_count,
    choose_present_mode, choose_surface_format, find_queue_families, is_device_suitable,
    is_visible, next_frame, runtime_files, shares_images, Acquired, Extent, FrameStep, Presented,
    QueueFamilies, QueueFamily, SurfaceCapabilities, SurfaceFormat, B8G8R8A8_SRGB, FIFO, MAILBOX,
    RuntimeFile, SRGB_NONLINEAR,
};

// --- the icon ---

#[test]
fn an_icon_is_read_as_four_bytes_for_each_pixel() {
    let pixels = image::RgbImage::from_pixel(3, 2, image::Rgb([10, 20, 30]));
    let mut png = Cursor::new(Vec::new());
    pixels.write_to(&mut png, image::ImageFormat::Png).unwrap();
    let (rgba, width, height) = window_icon(png.get_ref()).unwrap();
    assert_eq!((width, height), (3, 2));
    assert_eq!(rgba.len(), 3 * 2 * 4);
    assert_eq!(&rgba[..4], &[10, 20, 30, 255]);
    assert_eq!(pitch(width), Some(12));
}

#[test]
fn what_is_no_picture_is_an_error() {
    assert!(window_icon(b"no picture").is_err());
}

#[test]
fn a_row_too_long_to_count_has_no_pitch() {
    assert_eq!(pitch(256), Some(1024));
    assert_eq!(pitch(u32::MAX), None);
}

#[test]
fn the_desktop_finds_the_window_by_its_name() {
    assert_eq!(APP_ID, "sicompass");
    assert_eq!(APP_NAME, "Sicompass");
}

// --- what the graphics interface offers ---

fn layout(format: i32, color_space: i32) -> SurfaceFormat {
    SurfaceFormat { format, color_space }
}

#[test]
fn the_preferred_format_is_chosen_where_it_is_offered() {
    let preferred = layout(B8G8R8A8_SRGB, SRGB_NONLINEAR);
    assert_eq!(choose_surface_format(&vec![layout(37, 0), preferred]), preferred);
    assert_eq!(choose_surface_format(&vec![layout(37, 0), layout(44, 0)]), layout(37, 0));
}

#[test]
fn frames_are_shown_as_soon_as_they_can_be() {
    assert_eq!(choose_present_mode(&vec![FIFO, MAILBOX]), MAILBOX);
    assert_eq!(choose_present_mode(&vec![0, FIFO]), FIFO);
    assert_eq!(choose_present_mode(&vec![]), FIFO);
}

fn capabilities(width: u32, count: u32, max_count: u32) -> SurfaceCapabilities {
    SurfaceCapabilities {
        current_extent: Extent { width, height: 600 },
        min_image_extent: Extent { width: 100, height: 50 },
        max_image_extent: Extent { width: 2000, height: 1000 },
        min_image_count: count,
        max_image_count: max_count,
    }
}

#[test]
fn a_size_that_is_fixed_is_taken_and_another_brought_within_bounds() {
    let window = Extent { width: 4000, height: 10 };
    let fixed = choose_extent(&capabilities(800, 2, 0), window);
    assert_eq!(fixed, Extent { width: 800, height: 600 });
    let free = choose_extent(&capabilities(u32::MAX, 2, 0), window);
    assert_eq!(free, Extent { width: 2000, height: 50 });
}

#[test]
fn one_image_more_than_needed_is_asked_for() {
    assert_eq!(choose_image_count(&capabilities(800, 2, 0)), 3);
    assert_eq!(choose_image_count(&capabilities(800, 2, 8)), 3);
    assert_eq!(choose_image_count(&capabilities(800, 2, 2)), 2);
}

#[test]
fn queues_are_found_for_drawing_and_for_showing() {
    let both = QueueFamily { graphics: true, present: true };
    let draws = QueueFamily { graphics: true, present: false };
    let shows = QueueFamily { graphics: false, present: true };
    let apart = find_queue_families(&vec![draws, shows]).unwrap();
    assert_eq!(apart, QueueFamilies { graphics: 0, present: 1 });
    assert!(shares_images(apart));
    let one = find_queue_families(&vec![both, shows]).unwrap();
    assert_eq!(one, QueueFamilies { graphics: 0, present: 0 });
    assert!(!shares_images(one));
    assert_eq!(find_queue_families(&vec![draws, draws]), None);
}

#[test]
fn a_device_needs_queues_extensions_formats_and_modes() {
    let families = Some(QueueFamilies { graphics: 0, present: 0 });
    let swapchain = vec!["VK_KHR_swapchain".to_owned()];
    let formats = vec![layout(37, 0)];
    let modes = vec![FIFO];
    assert!(is_device_suitable(families, &swapchain, &swapchain, &formats, &modes));
    assert!(!is_device_suitable(None, &swapchain, &swapchain, &formats, &modes));
    assert!(!is_device_suitable(families, &vec![], &swapchain, &formats, &modes));
    assert!(!is_device_suitable(families, &swapchain, &swapchain, &vec![], &modes));
    assert!(!is_device_suitable(families, &swapchain, &swapchain, &formats, &vec![]));
}

// --- frames ---

#[test]
fn a_frame_is_drawn_where_there_is_an_image() {
    assert_eq!(after_acquire(Acquired::Image(2)), FrameStep::Draw(2));
    assert_eq!(after_acquire(Acquired::OutOfDate), FrameStep::Recreate);
    assert_eq!(after_acquire(Acquired::Failed), FrameStep::Stop);
}

#[test]
fn a_resize_is_not_lost_when_showing_fails() {
    assert_eq!(after_present(Presented::Failed, true), (false, true));
    assert_eq!(after_present(Presented::Shown, true), (true, false));
    assert_eq!(after_present(Presented::Shown, false), (false, false));
    assert_eq!(after_present(Presented::Suboptimal, false), (true, false));
    assert_eq!(after_present(Presented::OutOfDate, false), (true, false));
}

#[test]
fn the_frames_take_turns() {
    let mut frame: usize = 0;
    for _ in 0..MAX_FRAMES_IN_FLIGHT {
        frame = next_frame(frame);
    }
    assert_eq!(frame, 0);
}

#[test]
fn a_window_without_a_size_is_not_drawn_in() {
    assert!(is_visible(Extent { width: 1, height: 1 }));
    assert!(!is_visible(Extent { width: 0, height: 1 }));
    assert!(!is_visible(Extent { width: 1, height: 0 }));
}

#[test]
fn missing_files_are_reported() {
    let file = |name: &str, there: bool| RuntimeFile { name: name.to_owned(), there };
    let (lines, code) = check_runtime_files(&vec![file("a.ttf", true)]);
    assert_eq!(lines, vec!["OK: a.ttf", "All runtime files present"]);
    assert_eq!(code, 0);
    let (lines, code) = check_runtime_files(&vec![file("a.ttf", true), file("b.spv", false)]);
    assert_eq!(lines, vec!["OK: a.ttf", "MISSING: b.spv", "1 file(s) missing"]);
    assert_eq!(code, 1);
}

#[test]
fn no_files_are_needed_beside_the_program() {
    assert!(runtime_files().is_empty());
    let (lines, code) = check_runtime_files(&vec![]);
    assert_eq!(lines, vec!["All runtime files present"]);
    assert_eq!(code, 0);
}

// --- colors and rectangles ---

#[test]
fn a_color_is_split_into_its_parts() {
    assert_eq!(split_color(0x11223344), Rgba { r: 0x11, g: 0x22, b: 0x33, a: 0x44 });
    assert_ne!(split_color(0x11223344), split_color(0x11223345));
}

#[test]
fn rectangles_are_added_while_there_is_room() {
    let mut corners: usize = 0;
    while has_room(corners) {
        corners += VERTS_PER_RECT;
    }
    assert_eq!(corners, MAX_RECT_VERTICES);
}

#[test]
fn the_themes_differ() {
    assert_ne!(PaletteTheme::Dark.palette(), PaletteTheme::Light.palette());
}

// --- the time ---

#[test]
fn the_clock_counts_milliseconds_of_this_century() {
    let before = sdl_ticks();
    assert!(before > 946_684_800_000);
    assert!(sdl_ticks() >= before);
}

#[test]
fn the_time_keeps_the_lower_bits_of_the_milliseconds() {
    assert_eq!(ticks_of(Some(1_700_000_000_000)), 1_700_000_000_000);
    assert_eq!(ticks_of(Some(u64::MAX as u128)), u64::MAX);
    assert_eq!(ticks_of(Some((1u128 << 64) + 5)), 5);
}

#[test]
fn a_clock_before_1970_gives_zero() {
    assert_eq!(ticks_of(None), 0);
}
