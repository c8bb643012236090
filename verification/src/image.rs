//! Which image is in which slot: the slots that hold what was drawn last, and
//! what is drawn in a frame.

use vstd::prelude::*;

use crate::text;

verus! {

/// How many images are held.
pub const MAX_CACHED_IMAGES: usize = 16;

/// How many corners the two triangles of an image have.
pub const VERTS_PER_QUAD: usize = 6;

/// An image that is held.
pub struct CachedTexture {
    pub path: String,
    pub width: u32,
    pub height: u32,
    /// The frame that it was drawn in last.
    pub last_used_frame: u64,
}

/// What an image that is held is.
#[verifier::ext_equal]
pub struct TextureView {
    pub path: Seq<char>,
    pub width: u32,
    pub height: u32,
    pub last_used_frame: u64,
}

impl View for CachedTexture {
    type V = TextureView;

    open spec fn view(&self) -> TextureView {
        TextureView {
            path: self.path@,
            width: self.width,
            height: self.height,
            last_used_frame: self.last_used_frame,
        }
    }
}

/// What a slot holds.
pub open spec fn slot_view(slot: Option<CachedTexture>) -> Option<TextureView> {
    match slot {
        Some(t) => Some(t@),
        None => None,
    }
}

/// What the slots hold.
pub open spec fn slots(cache: Seq<Option<CachedTexture>>) -> Seq<Option<TextureView>> {
    Seq::new(cache.len(), |i: int| slot_view(cache[i]))
}

/// Whether the slot `i` is the one to give up: the first empty one, else the
/// first of those that were drawn longest ago; the first where there is none.
pub open spec fn is_evicted(cache: Seq<Option<TextureView>>, i: int) -> bool {
    if cache.len() == 0 {
        i == 0
    } else {
        &&& 0 <= i < cache.len()
        &&& if exists|j: int| 0 <= j < cache.len() && #[trigger] cache[j] is None {
            &&& cache[i] is None
            &&& forall|j: int| 0 <= j < i ==> #[trigger] cache[j] is Some
        } else {
            &&& forall|j: int|
                0 <= j < cache.len() ==> cache[i]->0.last_used_frame <= (
                #[trigger] cache[j])->0.last_used_frame
            &&& forall|j: int|
                0 <= j < i ==> cache[i]->0.last_used_frame < (
                #[trigger] cache[j])->0.last_used_frame
        }
    }
}

/// The slot to give up.
pub fn find_evict_slot_in(cache: &Vec<Option<CachedTexture>>) -> (res: usize)
    ensures
        is_evicted(slots(cache@), res as int),
{
    let ghost views = slots(cache@);
    assert(views.len() == cache@.len());
    let mut i: usize = 0;
    let mut best: usize = 0;
    let mut least: u64 = 0;
    while i < cache.len()
        invariant
            i <= cache.len(),
            views == slots(cache@),
            views.len() == cache@.len(),
            forall|j: int| 0 <= j < i ==> #[trigger] views[j] is Some,
            i == 0 ==> best == 0,
            i > 0 ==> {
                &&& best < i
                &&& least == views[best as int]->0.last_used_frame
                &&& forall|j: int|
                    0 <= j < i ==> least <= (#[trigger] views[j])->0.last_used_frame
                &&& forall|j: int|
                    0 <= j < best ==> least < (#[trigger] views[j])->0.last_used_frame
            },
        decreases cache.len() - i,
    {
        assert(views[i as int] == slot_view(cache@[i as int]));
        match &cache[i] {
            Some(t) => {
                if i == 0 || t.last_used_frame < least {
                    best = i;
                    least = t.last_used_frame;
                }
            },
            None => {
                return i;
            },
        }
        i = i + 1;
    }
    best
}

/// The image that is drawn in a slot, and where its corners start.
#[derive(Debug, Clone, Copy, PartialEq, Eq, Structural)]
pub struct ImageDraw {
    pub slot: usize,
    pub vertex_offset: u32,
}

/// The images that are held, and those that are drawn in the frame.
pub struct ImageCache {
    pub cache: Vec<Option<CachedTexture>>,
    pub draws: Vec<ImageDraw>,
    pub current_frame: u64,
}

/// The images that are held, and those that are drawn, as values.
#[verifier::ext_equal]
pub struct CacheView {
    pub cache: Seq<Option<TextureView>>,
    pub draws: Seq<ImageDraw>,
    pub current_frame: u64,
}

impl View for ImageCache {
    type V = CacheView;

    open spec fn view(&self) -> CacheView {
        CacheView {
            cache: slots(self.cache@),
            draws: self.draws@,
            current_frame: self.current_frame,
        }
    }
}

/// Whether the slot `i` holds the image at `path`.
pub open spec fn holds(cache: Seq<Option<TextureView>>, i: int, path: Seq<char>) -> bool {
    0 <= i < cache.len() && (cache[i] matches Some(t) && t.path == path)
}

/// Whether `cache` is as it should be: all slots are there, no image is held
/// twice, and what is drawn is in a slot, one image behind the other.
pub open spec fn cache_ok(v: CacheView) -> bool {
    &&& v.cache.len() == MAX_CACHED_IMAGES
    &&& forall|i: int, j: int, path: Seq<char>|
        #[trigger] holds(v.cache, i, path) && #[trigger] holds(v.cache, j, path) ==> i == j
    &&& v.draws.len() <= MAX_CACHED_IMAGES
    &&& forall|k: int|
        0 <= k < v.draws.len() ==> (#[trigger] v.draws[k]).slot < MAX_CACHED_IMAGES
            && v.draws[k].vertex_offset == k * VERTS_PER_QUAD
}

/// The images with the one in the slot `i` drawn now.
pub open spec fn drawn_now(v: CacheView, i: int) -> CacheView {
    CacheView {
        cache: v.cache.update(
            i,
            Some(TextureView { last_used_frame: v.current_frame, ..v.cache[i]->0 }),
        ),
        ..v
    }
}

impl ImageCache {
    /// No images.
    pub fn new() -> (res: Self)
        ensures
            res@ == (CacheView {
                cache: Seq::new(MAX_CACHED_IMAGES as nat, |i: int| None),
                draws: Seq::empty(),
                current_frame: 0,
            }),
            cache_ok(res@),
    {
        let mut cache: Vec<Option<CachedTexture>> = Vec::new();
        let mut i: usize = 0;
        while i < MAX_CACHED_IMAGES
            invariant
                i <= MAX_CACHED_IMAGES,
                cache.len() == i,
                forall|j: int| 0 <= j < i ==> #[trigger] cache@[j] is None,
            decreases MAX_CACHED_IMAGES - i,
        {
            cache.push(None);
            i = i + 1;
        }
        let res = ImageCache { cache, draws: Vec::new(), current_frame: 0 };
        assert(res@.cache =~= Seq::new(MAX_CACHED_IMAGES as nat, |i: int| None));
        res
    }

    /// Start a frame.
    pub fn begin_image_rendering(&mut self)
        requires
            cache_ok(old(self)@),
            old(self)@.current_frame < u64::MAX,
        ensures
            final(self)@ == (CacheView {
                cache: old(self)@.cache,
                draws: Seq::empty(),
                current_frame: (old(self)@.current_frame + 1) as u64,
            }),
            cache_ok(final(self)@),
    {
        self.draws = Vec::new();
        self.current_frame = self.current_frame + 1;
    }

    /// The slot that holds the image at `path`, which is drawn now.
    pub fn find_cached(&mut self, path: &str) -> (res: Option<usize>)
        requires
            cache_ok(old(self)@),
        ensures
            match res {
                Some(i) => holds(old(self)@.cache, i as int, path@) && final(self)@ == drawn_now(
                    old(self)@,
                    i as int,
                ),
                None => final(self)@ == old(self)@ && forall|i: int|
                    !#[trigger] holds(old(self)@.cache, i, path@),
            },
            cache_ok(final(self)@),
    {
        let ghost before = self@;
        let mut i: usize = 0;
        while i < self.cache.len()
            invariant
                i <= self.cache.len(),
                self@ == before,
                before == old(self)@,
                cache_ok(before),
                forall|j: int| j < i ==> !#[trigger] holds(before.cache, j, path@),
            decreases self.cache.len() - i,
        {
            assert(before.cache[i as int] == slot_view(self.cache@[i as int]));
            let found = match &self.cache[i] {
                Some(t) => text::same(t.path.as_str(), path),
                None => false,
            };
            if found {
                let frame = self.current_frame;
                match &mut self.cache[i] {
                    Some(t) => {
                        t.last_used_frame = frame;
                    },
                    None => {},
                }
                proof {
                    assert(self@.cache =~= drawn_now(before, i as int).cache);
                    lemma_same_paths(before.cache, self@.cache);
                }
                return Some(i);
            }
            i = i + 1;
        }
        None
    }

    /// Empty the slot for an image that is not held, and say which it is.
    pub fn evict(&mut self) -> (res: (usize, Option<CachedTexture>))
        requires
            cache_ok(old(self)@),
        ensures
            is_evicted(old(self)@.cache, res.0 as int),
            res.0 < MAX_CACHED_IMAGES,
            slot_view(res.1) == old(self)@.cache[res.0 as int],
            final(self)@ == (CacheView {
                cache: old(self)@.cache.update(res.0 as int, None),
                ..old(self)@
            }),
            cache_ok(final(self)@),
    {
        let ghost before = self@;
        let slot = find_evict_slot_in(&self.cache);
        let mut old_texture: Option<CachedTexture> = None;
        std::mem::swap(&mut self.cache[slot], &mut old_texture);
        proof {
            assert(self@.cache =~= before.cache.update(slot as int, None));
            assert forall|i: int, p: Seq<char>| #[trigger] holds(self@.cache, i, p) implies holds(
                before.cache,
                i,
                p,
            ) by {}
        }
        (slot, old_texture)
    }

    /// Put an image in an empty slot.
    pub fn store(&mut self, slot: usize, path: String, width: u32, height: u32)
        requires
            cache_ok(old(self)@),
            slot < MAX_CACHED_IMAGES,
            forall|i: int| !#[trigger] holds(old(self)@.cache, i, path@),
        ensures
            final(self)@ == (CacheView {
                cache: old(self)@.cache.update(
                    slot as int,
                    Some(
                        TextureView {
                            path: path@,
                            width,
                            height,
                            last_used_frame: old(self)@.current_frame,
                        },
                    ),
                ),
                ..old(self)@
            }),
            cache_ok(final(self)@),
    {
        let ghost before = self@;
        let t = CachedTexture { path, width, height, last_used_frame: self.current_frame };
        let ghost put = t@;
        self.cache.set(slot, Some(t));
        proof {
            assert(self@.cache =~= before.cache.update(slot as int, Some(put)));
            assert forall|i: int, j: int, p: Seq<char>| #[trigger]
                holds(self@.cache, i, p) && #[trigger] holds(self@.cache, j, p) implies i == j by {
                if i != slot as int {
                    assert(holds(before.cache, i, p));
                }
                if j != slot as int {
                    assert(holds(before.cache, j, p));
                }
            }
        }
    }

    /// Draw the image in a slot in this frame, where there is room.
    pub fn prepare_image(&mut self, slot: usize) -> (res: bool)
        requires
            cache_ok(old(self)@),
            slot < MAX_CACHED_IMAGES,
        ensures
            res == (old(self)@.draws.len() < MAX_CACHED_IMAGES),
            final(self)@ == if res {
                CacheView {
                    draws: old(self)@.draws.push(
                        ImageDraw {
                            slot,
                            vertex_offset: (old(self)@.draws.len() * VERTS_PER_QUAD) as u32,
                        },
                    ),
                    ..old(self)@
                }
            } else {
                old(self)@
            },
            cache_ok(final(self)@),
    {
        if self.draws.len() >= MAX_CACHED_IMAGES {
            return false;
        }
        let n: u32 = self.draws.len() as u32;
        let vertex_offset: u32 = n * 6;
        self.draws.push(ImageDraw { slot, vertex_offset });
        true
    }

    /// The size of the image in a slot.
    pub fn texture_size(&self, slot: usize) -> (res: Option<(u32, u32)>)
        ensures
            res == if slot < self@.cache.len() {
                match self@.cache[slot as int] {
                    Some(t) => Some((t.width, t.height)),
                    None => None,
                }
            } else {
                None
            },
    {
        if slot < self.cache.len() {
            match &self.cache[slot] {
                Some(t) => Some((t.width, t.height)),
                None => None,
            }
        } else {
            None
        }
    }
}

proof fn lemma_same_paths(a: Seq<Option<TextureView>>, b: Seq<Option<TextureView>>)
    requires
        a.len() == b.len(),
        forall|i: int|
            0 <= i < a.len() ==> match (#[trigger] a[i], b[i]) {
                (Some(s), Some(t)) => s.path == t.path,
                (None, None) => true,
                _ => false,
            },
        forall|i: int, j: int, path: Seq<char>|
            #[trigger] holds(a, i, path) && #[trigger] holds(a, j, path) ==> i == j,
    ensures
        forall|i: int, j: int, path: Seq<char>|
            #[trigger] holds(b, i, path) && #[trigger] holds(b, j, path) ==> i == j,
{
    assert forall|i: int, j: int, path: Seq<char>| #[trigger]
        holds(b, i, path) && #[trigger] holds(b, j, path) implies i == j by {
        assert(holds(a, i, path));
        assert(holds(a, j, path));
    }
}

/// An image that was put in the slot that was given up is found there.
pub proof fn law_stored_image_is_found(v: CacheView, slot: int, t: TextureView)
    requires
        0 <= slot < v.cache.len(),
    ensures
        holds(v.cache.update(slot, Some(t)), slot, t.path),
{
}

/// No image that is held is given up while a slot is empty, and none that was
/// drawn after another one.
pub proof fn law_longest_unused_goes_first(cache: Seq<Option<TextureView>>, i: int, j: int)
    requires
        cache.len() > 0,
        is_evicted(cache, i),
        0 <= j < cache.len(),
    ensures
        cache[j] is None ==> cache[i] is None,
        cache[i] matches Some(t) ==> (cache[j] matches Some(s) && t.last_used_frame
            <= s.last_used_frame),
{
}

} // verus!
