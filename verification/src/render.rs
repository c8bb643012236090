//! What is decided about the window and its frames. The values are those of
//! the graphics interface: formats, modes and sizes as it numbers them.

use vstd::prelude::*;

use crate::app_state;
use crate::text;

verus! {

/// How the colors of a pixel are laid out: the format and the color space.
#[derive(Debug, Clone, Copy, PartialEq, Eq, Structural)]
pub struct SurfaceFormat {
    pub format: i32,
    pub color_space: i32,
}

/// Blue, green, red and alpha, a byte each, with the colors in sRGB.
pub const B8G8R8A8_SRGB: i32 = 50;

/// The color space of sRGB.
pub const SRGB_NONLINEAR: i32 = 0;

/// A frame is shown when the next one is ready, and a newer one takes its
/// place.
pub const MAILBOX: i32 = 1;

/// Frames are shown one after the other.
pub const FIFO: i32 = 2;

/// Whether a format is the preferred one.
pub open spec fn is_preferred(f: SurfaceFormat) -> bool {
    f.format == B8G8R8A8_SRGB && f.color_space == SRGB_NONLINEAR
}

/// Choose how the colors are laid out: as preferred where that can be had,
/// else the first way.
pub fn choose_surface_format(formats: &Vec<SurfaceFormat>) -> (res: SurfaceFormat)
    requires
        formats.len() > 0,
    ensures
        formats@.contains(res),
        (exists|i: int| 0 <= i < formats@.len() && is_preferred(#[trigger] formats@[i]))
            ==> is_preferred(res),
        !(exists|i: int| 0 <= i < formats@.len() && is_preferred(#[trigger] formats@[i])) ==> res
            == formats@[0],
{
    let mut i: usize = 0;
    while i < formats.len()
        invariant
            i <= formats.len(),
            forall|j: int| 0 <= j < i ==> !is_preferred(#[trigger] formats@[j]),
        decreases formats.len() - i,
    {
        let f = formats[i];
        if f.format == B8G8R8A8_SRGB && f.color_space == SRGB_NONLINEAR {
            assert(formats@[i as int] == f);
            return f;
        }
        i = i + 1;
    }
    assert(formats@[0] == formats[0]);
    formats[0]
}

/// Choose when frames are shown.
pub fn choose_present_mode(modes: &Vec<i32>) -> (res: i32)
    ensures
        res == if modes@.contains(MAILBOX) {
            MAILBOX
        } else {
            FIFO
        },
{
    let mut i: usize = 0;
    while i < modes.len()
        invariant
            i <= modes.len(),
            forall|j: int| 0 <= j < i ==> #[trigger] modes@[j] != MAILBOX,
        decreases modes.len() - i,
    {
        if modes[i] == MAILBOX {
            assert(modes@[i as int] == MAILBOX);
            return MAILBOX;
        }
        i = i + 1;
    }
    FIFO
}

/// A size in pixels.
#[derive(Debug, Clone, Copy, PartialEq, Eq, Structural)]
pub struct Extent {
    pub width: u32,
    pub height: u32,
}

/// What the images of a window can be like.
#[derive(Debug, Clone, Copy, PartialEq, Eq, Structural)]
pub struct SurfaceCapabilities {
    /// The size, where it is fixed.
    pub current_extent: Extent,
    pub min_image_extent: Extent,
    pub max_image_extent: Extent,
    pub min_image_count: u32,
    /// The largest number of images; 0 where there is none.
    pub max_image_count: u32,
}

/// `n`, brought between `low` and `high`.
pub open spec fn between(n: u32, low: u32, high: u32) -> u32 {
    if n < low {
        low
    } else if n > high {
        high
    } else {
        n
    }
}

fn clamp(n: u32, low: u32, high: u32) -> (res: u32)
    requires
        low <= high,
    ensures
        res == between(n, low, high),
        low <= res <= high,
{
    if n < low {
        low
    } else if n > high {
        high
    } else {
        n
    }
}

/// The size of the images of a window.
pub open spec fn extent_of(caps: SurfaceCapabilities, window: Extent) -> Extent {
    if caps.current_extent.width != u32::MAX {
        caps.current_extent
    } else {
        Extent {
            width: between(
                window.width,
                caps.min_image_extent.width,
                caps.max_image_extent.width,
            ),
            height: between(
                window.height,
                caps.min_image_extent.height,
                caps.max_image_extent.height,
            ),
        }
    }
}

/// Choose the size of the images of a window.
pub fn choose_extent(caps: &SurfaceCapabilities, window: Extent) -> (res: Extent)
    requires
        caps.current_extent.width == u32::MAX ==> {
            &&& caps.min_image_extent.width <= caps.max_image_extent.width
            &&& caps.min_image_extent.height <= caps.max_image_extent.height
        },
    ensures
        res == extent_of(*caps, window),
        caps.current_extent.width == u32::MAX ==> {
            &&& caps.min_image_extent.width <= res.width <= caps.max_image_extent.width
            &&& caps.min_image_extent.height <= res.height <= caps.max_image_extent.height
        },
{
    if caps.current_extent.width != u32::MAX {
        return caps.current_extent;
    }
    Extent {
        width: clamp(window.width, caps.min_image_extent.width, caps.max_image_extent.width),
        height: clamp(window.height, caps.min_image_extent.height, caps.max_image_extent.height),
    }
}

/// Choose the number of images of a window: one more than is needed, but not
/// more than there may be.
pub fn choose_image_count(caps: &SurfaceCapabilities) -> (res: u32)
    requires
        caps.min_image_count < u32::MAX,
    ensures
        res == if caps.max_image_count > 0 && caps.max_image_count < caps.min_image_count + 1 {
            caps.max_image_count as int
        } else {
            caps.min_image_count + 1
        },
{
    let n = caps.min_image_count + 1;
    if caps.max_image_count > 0 && caps.max_image_count < n {
        caps.max_image_count
    } else {
        n
    }
}

/// What a family of queues can do.
#[derive(Debug, Clone, Copy, PartialEq, Eq, Structural)]
pub struct QueueFamily {
    pub graphics: bool,
    pub present: bool,
}

/// The families of queues that are used.
#[derive(Debug, Clone, Copy, PartialEq, Eq, Structural)]
pub struct QueueFamilies {
    pub graphics: u32,
    pub present: u32,
}

/// The last of the first `n` families that can draw.
pub open spec fn last_graphics(families: Seq<QueueFamily>, n: int) -> Option<u32>
    decreases n,
{
    if n <= 0 {
        None
    } else if families[n - 1].graphics {
        Some((n - 1) as u32)
    } else {
        last_graphics(families, n - 1)
    }
}

/// The last of the first `n` families that can show what is drawn.
pub open spec fn last_present(families: Seq<QueueFamily>, n: int) -> Option<u32>
    decreases n,
{
    if n <= 0 {
        None
    } else if families[n - 1].present {
        Some((n - 1) as u32)
    } else {
        last_present(families, n - 1)
    }
}

/// Whether the first `n` families can draw and show.
pub open spec fn suffice(families: Seq<QueueFamily>, n: int) -> bool {
    last_graphics(families, n) is Some && last_present(families, n) is Some
}

/// The families that are used: of the fewest first ones that suffice, the last
/// that can draw and the last that can show.
pub fn find_queue_families(families: &Vec<QueueFamily>) -> (res: Option<QueueFamilies>)
    requires
        families.len() <= u32::MAX,
    ensures
        match res {
            Some(q) => exists|n: int|
                {
                    &&& 0 < n <= families@.len()
                    &&& #[trigger] suffice(families@, n)
                    &&& !suffice(families@, n - 1)
                    &&& q.graphics == last_graphics(families@, n)->0
                    &&& q.present == last_present(families@, n)->0
                },
            None => !suffice(families@, families@.len() as int),
        },
{
    let mut graphics: Option<u32> = None;
    let mut present: Option<u32> = None;
    let mut i: usize = 0;
    while i < families.len()
        invariant
            i <= families.len() <= u32::MAX,
            graphics == last_graphics(families@, i as int),
            present == last_present(families@, i as int),
            !suffice(families@, i as int),
        decreases families.len() - i,
    {
        let f = families[i];
        if f.graphics {
            graphics = Some(i as u32);
        }
        if f.present {
            present = Some(i as u32);
        }
        match (graphics, present) {
            (Some(g), Some(p)) => {
                assert(suffice(families@, i + 1));
                return Some(QueueFamilies { graphics: g, present: p });
            },
            _ => {},
        }
        i = i + 1;
    }
    None
}

/// Whether a device can be used: it has the queues and the extensions, and
/// there is a way to lay out the colors and to show frames.
pub fn is_device_suitable(
    families: Option<QueueFamilies>,
    extensions: &Vec<String>,
    required: &Vec<String>,
    formats: &Vec<SurfaceFormat>,
    modes: &Vec<i32>,
) -> (res: bool)
    ensures
        res == {
            &&& families is Some
            &&& forall|i: int|
                0 <= i < required@.len() ==> text::texts(extensions@).contains(
                    (#[trigger] required@[i])@,
                )
            &&& formats@.len() > 0
            &&& modes@.len() > 0
        },
{
    if families.is_none() {
        return false;
    }
    let mut i: usize = 0;
    while i < required.len()
        invariant
            i <= required.len(),
            forall|j: int|
                0 <= j < i ==> text::texts(extensions@).contains((#[trigger] required@[j])@),
        decreases required.len() - i,
    {
        if !has_name(extensions, required[i].as_str()) {
            assert(!text::texts(extensions@).contains(required@[i as int]@));
            return false;
        }
        i = i + 1;
    }
    formats.len() > 0 && modes.len() > 0
}

fn has_name(names: &Vec<String>, name: &str) -> (b: bool)
    ensures
        b == text::texts(names@).contains(name@),
{
    let ghost views = text::texts(names@);
    let mut i: usize = 0;
    while i < names.len()
        invariant
            i <= names.len(),
            views == text::texts(names@),
            forall|j: int| 0 <= j < i ==> #[trigger] views[j] != name@,
        decreases names.len() - i,
    {
        assert(views[i as int] == names@[i as int]@);
        if text::same(names[i].as_str(), name) {
            return true;
        }
        i = i + 1;
    }
    false
}

/// Whether the images are shared between the queues that draw and those that
/// show.
pub fn shares_images(q: QueueFamilies) -> (res: bool)
    ensures
        res == (q.graphics != q.present),
{
    q.graphics != q.present
}

/// What came of asking for an image to draw.
#[derive(Debug, Clone, Copy, PartialEq, Eq, Structural)]
pub enum Acquired {
    Image(u32),
    /// The images do not fit the window any more.
    OutOfDate,
    Failed,
}

/// What is done next in a frame.
#[derive(Debug, Clone, Copy, PartialEq, Eq, Structural)]
pub enum FrameStep {
    /// Draw the image and show it.
    Draw(u32),
    /// Make new images; the frame ends.
    Recreate,
    /// The frame ends.
    Stop,
}

/// What is done with what came of asking for an image.
pub fn after_acquire(acquired: Acquired) -> (res: FrameStep)
    ensures
        res == match acquired {
            Acquired::Image(i) => FrameStep::Draw(i),
            Acquired::OutOfDate => FrameStep::Recreate,
            Acquired::Failed => FrameStep::Stop,
        },
{
    match acquired {
        Acquired::Image(i) => FrameStep::Draw(i),
        Acquired::OutOfDate => FrameStep::Recreate,
        Acquired::Failed => FrameStep::Stop,
    }
}

/// What came of showing an image.
#[derive(Debug, Clone, Copy, PartialEq, Eq, Structural)]
pub enum Presented {
    Shown,
    /// It was shown, but the images do not fit the window well.
    Suboptimal,
    /// The images do not fit the window any more.
    OutOfDate,
    Failed,
}

/// Whether new images are made after one was shown, and whether the window
/// still counts as resized then.
pub open spec fn presented(p: Presented, resized: bool) -> (bool, bool) {
    match p {
        Presented::OutOfDate | Presented::Suboptimal => (true, false),
        Presented::Failed => (false, resized),
        Presented::Shown => (resized, false),
    }
}

/// Whether new images are made after one was shown, and whether the window
/// still counts as resized then.
pub fn after_present(p: Presented, resized: bool) -> (res: (bool, bool))
    ensures
        res == presented(p, resized),
{
    match p {
        Presented::OutOfDate | Presented::Suboptimal => (true, false),
        Presented::Failed => (false, resized),
        Presented::Shown => (resized, false),
    }
}

/// The frame that is prepared next.
pub fn next_frame(frame: usize) -> (res: usize)
    requires
        frame < app_state::MAX_FRAMES_IN_FLIGHT,
    ensures
        res == (frame + 1) % (app_state::MAX_FRAMES_IN_FLIGHT as int),
        res < app_state::MAX_FRAMES_IN_FLIGHT,
{
    (frame + 1) % app_state::MAX_FRAMES_IN_FLIGHT
}

/// A resize is never lost: new images are made, or the window still counts as
/// resized.
pub proof fn law_resize_is_kept(p: Presented)
    ensures
        presented(p, true).0 || presented(p, true).1,
{
}

/// Whether a window that is that large can be drawn in.
pub fn is_visible(window: Extent) -> (res: bool)
    ensures
        res == (window.width > 0 && window.height > 0),
{
    window.width > 0 && window.height > 0
}

/// A file that a program needs beside it, and whether it is there.
pub struct RuntimeFile {
    pub name: String,
    pub there: bool,
}

/// What a [`RuntimeFile`] is, as values.
pub struct RuntimeFileView {
    pub name: Seq<char>,
    pub there: bool,
}

/// What the files are.
pub open spec fn runtime_views(files: Seq<RuntimeFile>) -> Seq<RuntimeFileView> {
    Seq::new(files.len(), |i: int| RuntimeFileView { name: files[i].name@, there: files[i].there })
}

/// The names of the files that a program needs beside it: none, since the
/// fonts, the shaders and the icon are compiled in.
pub fn runtime_files() -> (res: Vec<String>)
    ensures
        res@.len() == 0,
{
    Vec::new()
}

/// How many of the first `n` files are missing.
pub open spec fn missing(files: Seq<RuntimeFileView>, n: int) -> nat
    decreases n,
{
    if n <= 0 {
        0
    } else {
        missing(files, n - 1) + if files[n - 1].there {
            0nat
        } else {
            1nat
        }
    }
}

/// What is said of the files: one line for each, and one for all.
pub open spec fn report(files: Seq<RuntimeFileView>) -> Seq<Seq<char>> {
    Seq::new(
        files.len(),
        |i: int|
            if files[i].there {
                "OK: "@ + files[i].name
            } else {
                "MISSING: "@ + files[i].name
            },
    ).push(
        if missing(files, files.len() as int) > 0 {
            text::decimal(missing(files, files.len() as int)) + " file(s) missing"@
        } else {
            "All runtime files present"@
        },
    )
}

/// What is said of the files that have to be there, and the exit code: 0 where
/// all are, else 1.
pub fn check_runtime_files(files: &Vec<RuntimeFile>) -> (res: (Vec<String>, i32))
    ensures
        text::texts(res.0@) == report(runtime_views(files@)),
        res.1 == if missing(runtime_views(files@), files@.len() as int) > 0 {
            1i32
        } else {
            0i32
        },
{
    let mut lines: Vec<String> = Vec::new();
    let mut count: u64 = 0;
    let mut i: usize = 0;
    let ghost views = runtime_views(files@);
    let ghost all = report(views);
    while i < files.len()
        invariant
            i <= files.len(),
            views == runtime_views(files@),
            all == report(views),
            lines.len() == i,
            forall|j: int| 0 <= j < i ==> (#[trigger] lines@[j])@ == all[j],
            count == missing(views, i as int),
            count <= i,
        decreases files.len() - i,
    {
        if files[i].there {
            lines.push(text::concat("OK: ", files[i].name.as_str()));
        } else {
            lines.push(text::concat("MISSING: ", files[i].name.as_str()));
            count = count + 1;
        }
        assert(lines@[i as int]@ == all[i as int]);
        i = i + 1;
    }
    if count > 0 {
        lines.push(text::concat(text::number(count).as_str(), " file(s) missing"));
    } else {
        lines.push("All runtime files present".to_owned());
    }
    assert(text::texts(lines@) =~= all);
    (
        lines,
        if count > 0 {
            1
        } else {
            0
        },
    )
}

} // verus!
