//! Glyph atlas packing: where each rasterized glyph lives in the atlas
//! texture. Rectangles are handed out by `guillotiere`'s allocator.

use vstd::prelude::*;

use crate::font::GlyphKey;

verus! {

/// The guillotine rectangle allocator of the `guillotiere` crate.
#[verifier::external_type_specification]
#[verifier::external_body]
pub struct ExAtlasAllocator(guillotiere::AtlasAllocator);

/// Width and height of the area an allocator was created for.
pub uninterp spec fn atlas_extent(a: guillotiere::AtlasAllocator) -> (int, int);

/// The rectangles `(x, y, width, height)` an allocator has handed out and
/// not taken back, by the serialized id of their allocation.
pub uninterp spec fn allocations(a: guillotiere::AtlasAllocator) -> Map<u32, (int, int, int, int)>;

/// The free rectangles `(x, y, width, height)` of an allocator: the areas
/// it has not handed out, as its tree of free nodes holds them.
pub uninterp spec fn free_rects(a: guillotiere::AtlasAllocator) -> Set<(int, int, int, int)>;

/// The allocations of an allocator that has handed nothing out.
pub open spec fn no_allocations() -> Map<u32, (int, int, int, int)> {
    Map::empty()
}

/// Some rectangle of `free` is at least `width` by `height`.
pub open spec fn room_for(free: Set<(int, int, int, int)>, width: int, height: int) -> bool {
    exists|q: (int, int, int, int)| #[trigger] free.contains(q) && q.2 >= width && q.3 >= height
}

/// `states` are allocator states, the first of them `start`, each after the
/// first holding the allocations of the one before less the next id of
/// `ids`, and none with a free rectangle of `width` by `height`: the states
/// an atlas passed through while it evicted one allocation after another
/// for want of room.
pub open spec fn no_room_chain(
    states: Seq<guillotiere::AtlasAllocator>,
    start: guillotiere::AtlasAllocator,
    ids: Seq<u32>,
    width: int,
    height: int,
) -> bool {
    &&& states.len() > 0 ==> states[0] == start
    &&& forall|k: int|
        0 <= k < states.len() ==> !room_for(free_rects(#[trigger] states[k]), width, height)
    &&& forall|k: int|
        0 <= k < states.len() - 1 ==> allocations(#[trigger] states[k + 1]) == allocations(
            states[k],
        ).remove(ids[k])
}

/// `n` glyphs were evicted for a `glyph_width` by `glyph_height` glyph,
/// through the `n` states `states` of `no_room_chain` for its padded size.
pub open spec fn evicted_for_want_of_room(
    n: int,
    states: Seq<guillotiere::AtlasAllocator>,
    start: guillotiere::AtlasAllocator,
    ids: Seq<u32>,
    glyph_width: u32,
    glyph_height: u32,
) -> bool {
    &&& states.len() == n
    &&& no_room_chain(states, start, ids, glyph_width + 2, glyph_height + 2)
}

/// Two rectangles `(x, y, width, height)` share no pixel.
pub open spec fn rects_disjoint(a: (int, int, int, int), b: (int, int, int, int)) -> bool {
    a.0 + a.2 <= b.0 || b.0 + b.2 <= a.0 || a.1 + a.3 <= b.1 || b.1 + b.3 <= a.1
}

/// `guillotiere::AtlasAllocator::new`: an allocator for a `width` by
/// `height` area with nothing allocated and the whole area as its one free
/// rectangle. The crate asserts that both sides are positive.
#[verifier::external_body]
fn new_allocator(width: i32, height: i32) -> (r: guillotiere::AtlasAllocator)
    requires
        width > 0,
        height > 0,
    ensures
        atlas_extent(r) == (width as int, height as int),
        allocations(r) == no_allocations(),
        free_rects(r) == set![(0int, 0int, width as int, height as int)],
{
    guillotiere::AtlasAllocator::new(guillotiere::Size::new(width, height))
}

/// `guillotiere::AtlasAllocator::allocate` with the default options
/// (alignment 1), its `AllocId` serialized: an empty request (a side of 0
/// or less) gives `None`; a positive request gives `None` exactly when no
/// free rectangle is at least as large (the search looks at every free
/// rectangle of the request's size class or above, and no smaller class can
/// hold it). `None` changes nothing. Otherwise the result is the top-left
/// corner of a free rectangle large enough and the id of a new allocation
/// of exactly the requested size there: inside the area, clear of every
/// rectangle handed out before, under an id no live allocation has. Which
/// free rectangle is chosen, and the free rectangles after a success, are
/// not stated.
#[verifier::external_body]
fn allocate_rect(a: &mut guillotiere::AtlasAllocator, width: i32, height: i32) -> (r: Option<
    (i32, i32, u32),
>)
    ensures
        atlas_extent(*final(a)) == atlas_extent(*old(a)),
        width <= 0 || height <= 0 ==> r is None,
        width > 0 && height > 0 ==> (r is None <==> !room_for(
            free_rects(*old(a)),
            width as int,
            height as int,
        )),
        r is None ==> allocations(*final(a)) == allocations(*old(a)),
        r is None ==> free_rects(*final(a)) == free_rects(*old(a)),
        r matches Some((x, y, id)) ==> {
            &&& exists|q: (int, int, int, int)|
                #[trigger] free_rects(*old(a)).contains(q) && q.0 == x && q.1 == y && q.2 >= width
                    && q.3 >= height
            &&& 0 <= x && x + width <= atlas_extent(*old(a)).0
            &&& 0 <= y && y + height <= atlas_extent(*old(a)).1
            &&& forall|k: u32| #[trigger]
                allocations(*old(a)).contains_key(k) ==> rects_disjoint(
                    (x as int, y as int, width as int, height as int),
                    allocations(*old(a))[k],
                )
            &&& !allocations(*old(a)).contains_key(id)
            &&& allocations(*final(a)) == allocations(*old(a)).insert(
                id,
                (x as int, y as int, width as int, height as int),
            )
        },
{
    a.allocate(guillotiere::Size::new(width, height)).map(
        |al| (al.rectangle.min.x, al.rectangle.min.y, al.id.serialize()),
    )
}

/// `guillotiere::AtlasAllocator::deallocate` of the allocation with
/// serialized id `id` (`AllocId::deserialize`): that rectangle is taken
/// back, every other allocation stays. The crate asserts that the id names
/// a live allocation. The free rectangles afterwards are not stated.
#[verifier::external_body]
fn deallocate_rect(a: &mut guillotiere::AtlasAllocator, id: u32)
    requires
        allocations(*old(a)).contains_key(id),
    ensures
        atlas_extent(*final(a)) == atlas_extent(*old(a)),
        allocations(*final(a)) == allocations(*old(a)).remove(id),
{
    a.deallocate(guillotiere::AllocId::deserialize(id))
}

/// `guillotiere::AtlasAllocator::clear`: every rectangle is dropped and the
/// allocator is back in its initial state, the whole area free.
#[verifier::external_body]
fn clear_allocator(a: &mut guillotiere::AtlasAllocator)
    ensures
        atlas_extent(*final(a)) == atlas_extent(*old(a)),
        allocations(*final(a)) == no_allocations(),
        free_rects(*final(a)) == set![
            (0int, 0int, atlas_extent(*old(a)).0, atlas_extent(*old(a)).1),
        ],
{
    a.clear()
}

/// Coordinates of a glyph within the atlas texture, in pixels.
#[derive(Debug, Clone, Copy, PartialEq, Eq, Structural)]
pub struct AtlasRegion {
    /// X position in the atlas.
    pub x: u32,
    /// Y position in the atlas.
    pub y: u32,
    /// Width of the glyph.
    pub width: u32,
    /// Height of the glyph.
    pub height: u32,
}

/// The rectangle a glyph region reserves: the glyph plus a 2-pixel margin
/// on its right and bottom.
pub open spec fn padded_rect(r: AtlasRegion) -> (int, int, int, int) {
    (r.x as int, r.y as int, r.width + 2, r.height + 2)
}

/// Keys and regions of an association list, as a map.
pub open spec fn region_map(entries: Seq<(GlyphKey, AtlasRegion)>) -> Map<GlyphKey, AtlasRegion>
    decreases entries.len(),
{
    if entries.len() == 0 {
        Map::empty()
    } else {
        region_map(entries.drop_last()).insert(entries.last().0, entries.last().1)
    }
}

/// Packs glyphs into an atlas of fixed size and remembers where each went.
/// When a new glyph finds no room, the least recently used glyphs are
/// evicted, oldest first, until it does.
pub struct GlyphAtlasPacker {
    /// The rectangle packer.
    allocator: guillotiere::AtlasAllocator,
    /// Glyph key and atlas region of every packed glyph (no key twice),
    /// least recently used first.
    regions: Vec<(GlyphKey, AtlasRegion)>,
    /// The allocation id of each entry of `regions`, at the same index.
    ids: Vec<u32>,
    /// Atlas dimensions.
    width: u32,
    height: u32,
}

impl GlyphAtlasPacker {
    /// The packed glyphs and their regions, least recently used first.
    pub closed spec fn entries(&self) -> Seq<(GlyphKey, AtlasRegion)> {
        self.regions@
    }

    /// Where each packed glyph lives.
    pub open spec fn regions_map(&self) -> Map<GlyphKey, AtlasRegion> {
        region_map(self.entries())
    }

    /// The state of the rectangle allocator.
    pub closed spec fn allocator_state(&self) -> guillotiere::AtlasAllocator {
        self.allocator
    }

    /// The allocation ids of the entries, in the order of `entries`.
    pub closed spec fn alloc_ids(&self) -> Seq<u32> {
        self.ids@
    }

    /// The free rectangles of the atlas, where new glyphs can go.
    pub closed spec fn free_space(&self) -> Set<(int, int, int, int)> {
        free_rects(self.allocator)
    }

    /// Width of the atlas.
    pub closed spec fn atlas_width(&self) -> u32 {
        self.width
    }

    /// Height of the atlas.
    pub closed spec fn atlas_height(&self) -> u32 {
        self.height
    }

    /// No key is stored twice; each entry's padded rectangle is a live
    /// allocation under its own id; the padded rectangles of distinct
    /// entries are disjoint and inside the atlas; the allocator covers the
    /// whole atlas.
    pub closed spec fn wf(&self) -> bool {
        &&& atlas_extent(self.allocator) == (self.width as int, self.height as int)
        &&& self.ids@.len() == self.regions@.len()
        &&& forall|i: int, j: int|
            0 <= i < j < self.regions@.len() ==> self.regions@[i].0 != self.regions@[j].0
        &&& forall|i: int, j: int|
            0 <= i < j < self.ids@.len() ==> self.ids@[i] != self.ids@[j]
        &&& forall|i: int|
            0 <= i < self.regions@.len() ==> {
                &&& allocations(self.allocator).contains_key(#[trigger] self.ids@[i])
                &&& allocations(self.allocator)[self.ids@[i]] == padded_rect(self.regions@[i].1)
            }
        &&& forall|i: int, j: int|
            0 <= i < self.regions@.len() && 0 <= j < self.regions@.len() && i != j
                ==> rects_disjoint(
                #[trigger] padded_rect(self.regions@[i].1),
                #[trigger] padded_rect(self.regions@[j].1),
            )
        &&& forall|i: int|
            0 <= i < self.regions@.len() ==> {
                let r = #[trigger] self.regions@[i].1;
                r.x + r.width + 2 <= self.width && r.y + r.height + 2 <= self.height
            }
    }

    /// An empty atlas of `width` by `height` pixels.
    pub fn new(width: u32, height: u32) -> (r: Self)
        requires
            0 < width <= i32::MAX,
            0 < height <= i32::MAX,
        ensures
            r.wf(),
            r.entries() == Seq::<(GlyphKey, AtlasRegion)>::empty(),
            r.regions_map() == Map::<GlyphKey, AtlasRegion>::empty(),
            r.free_space() == set![(0int, 0int, width as int, height as int)],
            r.atlas_width() == width,
            r.atlas_height() == height,
    {
        GlyphAtlasPacker {
            allocator: new_allocator(width as i32, height as i32),
            regions: Vec::new(),
            ids: Vec::new(),
            width,
            height,
        }
    }

    /// The index of `key` among the entries, if it is there.
    fn position(&self, key: &GlyphKey) -> (r: Option<usize>)
        requires
            self.wf(),
        ensures
            match r {
                Some(i) => i < self.entries().len() && self.entries()[i as int].0 == *key,
                None => !self.regions_map().contains_key(*key),
            },
    {
        let n = self.regions.len();
        let mut i: usize = 0;
        while i < n
            invariant
                n == self.regions@.len(),
                i <= n,
                forall|k: int| 0 <= k < i ==> self.regions@[k].0 != *key,
            decreases n - i,
        {
            if self.regions[i].0 == *key {
                return Some(i);
            }
            i = i + 1;
        }
        proof {
            lemma_region_map_keys(self.regions@, *key);
        }
        None
    }

    /// The region of `key`, if the glyph has been packed.
    pub fn get(&self, key: &GlyphKey) -> (r: Option<AtlasRegion>)
        requires
            self.wf(),
        ensures
            r == (if self.regions_map().contains_key(*key) {
                Some(self.regions_map()[*key])
            } else {
                None
            }),
    {
        match self.position(key) {
            Some(i) => {
                proof {
                    lemma_region_map_entry(self.regions@, i as int);
                }
                Some(self.regions[i].1)
            },
            None => None,
        }
    }

    /// Mark entry `i` as the most recently used: move it to the end.
    fn touch(&mut self, i: usize)
        requires
            old(self).wf(),
            i < old(self).entries().len(),
        ensures
            final(self).wf(),
            final(self).entries() == old(self).entries().remove(i as int).push(
                old(self).entries()[i as int],
            ),
            final(self).regions_map() == old(self).regions_map(),
            final(self).free_space() == old(self).free_space(),
            final(self).atlas_width() == old(self).atlas_width(),
            final(self).atlas_height() == old(self).atlas_height(),
    {
        let ghost e = self.regions@;
        let ghost d = self.ids@;
        let entry = self.regions.remove(i);
        let id = self.ids.remove(i);
        self.regions.push(entry);
        self.ids.push(id);
        proof {
            let e2 = self.regions@;
            let d2 = self.ids@;
            let n = e.len() as int;
            // Where each new index came from.
            assert forall|k: int| 0 <= k < n implies #[trigger] e2[k] == e[src_index(k, i as int, n)]
                && d2[k] == d[src_index(k, i as int, n)] by {}
            assert forall|a: int, b: int| 0 <= a < b < n implies e2[a].0 != e2[b].0 by {
                assert(e2[a] == e[src_index(a, i as int, n)]);
                assert(e2[b] == e[src_index(b, i as int, n)]);
            }
            assert forall|a: int, b: int| 0 <= a < b < n implies d2[a] != d2[b] by {
                assert(d2[a] == d[src_index(a, i as int, n)]);
                assert(d2[b] == d[src_index(b, i as int, n)]);
            }
            assert forall|k: int| 0 <= k < n implies {
                &&& allocations(self.allocator).contains_key(#[trigger] d2[k])
                &&& allocations(self.allocator)[d2[k]] == padded_rect(e2[k].1)
            } by {
                assert(e2[k] == e[src_index(k, i as int, n)]);
            }
            assert forall|a: int, b: int| 0 <= a < n && 0 <= b < n && a != b implies rects_disjoint(
                #[trigger] padded_rect(e2[a].1),
                #[trigger] padded_rect(e2[b].1),
            ) by {
                assert(e2[a] == e[src_index(a, i as int, n)]);
                assert(e2[b] == e[src_index(b, i as int, n)]);
            }
            assert forall|k: int| 0 <= k < n implies {
                let r = #[trigger] e2[k].1;
                r.x + r.width + 2 <= self.width && r.y + r.height + 2 <= self.height
            } by {
                assert(e2[k] == e[src_index(k, i as int, n)]);
            }
            assert(e2 =~= e.remove(i as int).push(e[i as int]));
            lemma_region_map_moved(e, e2, i as int);
        }
    }

    /// Evict the least recently used glyph and give its rectangle back.
    fn evict_oldest(&mut self)
        requires
            old(self).wf(),
            old(self).entries().len() > 0,
        ensures
            final(self).wf(),
            final(self).entries() == old(self).entries().skip(1),
            final(self).alloc_ids() == old(self).alloc_ids().skip(1),
            allocations(final(self).allocator) == allocations(old(self).allocator).remove(
                old(self).alloc_ids()[0],
            ),
            final(self).atlas_width() == old(self).atlas_width(),
            final(self).atlas_height() == old(self).atlas_height(),
    {
        let ghost e = self.regions@;
        let ghost d = self.ids@;
        let ghost before = allocations(self.allocator);
        let id = self.ids[0];
        deallocate_rect(&mut self.allocator, id);
        self.regions.remove(0);
        self.ids.remove(0);
        proof {
            let e2 = self.regions@;
            let d2 = self.ids@;
            assert(e2 =~= e.skip(1));
            assert(d2 =~= d.skip(1));
            assert forall|k: int| 0 <= k < e2.len() implies #[trigger] e2[k] == e[k + 1] && d2[k]
                == d[k + 1] by {}
            assert forall|a: int, b: int| 0 <= a < b < e2.len() implies e2[a].0 != e2[b].0 by {
                assert(e2[a] == e[a + 1]);
                assert(e2[b] == e[b + 1]);
            }
            assert forall|a: int, b: int| 0 <= a < b < d2.len() implies d2[a] != d2[b] by {
                assert(e2[a] == e[a + 1]);
                assert(e2[b] == e[b + 1]);
            }
            assert forall|k: int| 0 <= k < e2.len() implies {
                &&& allocations(self.allocator).contains_key(#[trigger] d2[k])
                &&& allocations(self.allocator)[d2[k]] == padded_rect(e2[k].1)
            } by {
                assert(e2[k] == e[k + 1]);
                assert(d[k + 1] != d[0]);
                assert(before.contains_key(d[k + 1]));
            }
            assert forall|a: int, b: int|
                0 <= a < e2.len() && 0 <= b < e2.len() && a != b implies rects_disjoint(
                #[trigger] padded_rect(e2[a].1),
                #[trigger] padded_rect(e2[b].1),
            ) by {
                assert(e2[a] == e[a + 1]);
                assert(e2[b] == e[b + 1]);
            }
            assert forall|k: int| 0 <= k < e2.len() implies {
                let r = #[trigger] e2[k].1;
                r.x + r.width + 2 <= self.width && r.y + r.height + 2 <= self.height
            } by {
                assert(e2[k] == e[k + 1]);
            }
        }
    }

    /// Remember `key` at `region`, allocated under `id`, as the most
    /// recently used glyph.
    fn push_entry(&mut self, key: GlyphKey, region: AtlasRegion, id: u32)
        requires
            old(self).wf_except_new(key, region, id),
        ensures
            final(self).wf(),
            final(self).entries() == old(self).entries().push((key, region)),
            final(self).free_space() == old(self).free_space(),
            final(self).atlas_width() == old(self).atlas_width(),
            final(self).atlas_height() == old(self).atlas_height(),
    {
        let ghost e = self.regions@;
        let ghost d = self.ids@;
        self.regions.push((key, region));
        self.ids.push(id);
        proof {
            let e2 = self.regions@;
            let d2 = self.ids@;
            assert forall|k: int| 0 <= k < e.len() implies #[trigger] e2[k] == e[k] && d2[k] == d[k]
                by {}
            assert forall|a: int, b: int|
                0 <= a < e2.len() && 0 <= b < e2.len() && a != b implies rects_disjoint(
                #[trigger] padded_rect(e2[a].1),
                #[trigger] padded_rect(e2[b].1),
            ) by {
                if a < e.len() {
                    assert(e2[a] == e[a]);
                }
                if b < e.len() {
                    assert(e2[b] == e[b]);
                }
            }
            assert forall|k: int| 0 <= k < e2.len() implies {
                &&& allocations(self.allocator).contains_key(#[trigger] d2[k])
                &&& allocations(self.allocator)[d2[k]] == padded_rect(e2[k].1)
            } by {
                if k < e.len() {
                    assert(e2[k] == e[k]);
                }
            }
            assert forall|a: int, b: int| 0 <= a < b < e2.len() implies e2[a].0 != e2[b].0 by {
                assert(e2[a] == e[a]);
                if b < e.len() {
                    assert(e2[b] == e[b]);
                }
            }
            assert forall|a: int, b: int| 0 <= a < b < d2.len() implies d2[a] != d2[b] by {
                assert(e2[a] == e[a]);
                if b < e.len() {
                    assert(e2[b] == e[b]);
                }
            }
            assert forall|k: int| 0 <= k < e2.len() implies {
                let r = #[trigger] e2[k].1;
                r.x + r.width + 2 <= self.width && r.y + r.height + 2 <= self.height
            } by {
                if k < e.len() {
                    assert(e2[k] == e[k]);
                }
            }
        }
    }

    /// The state right after `region` was allocated under `id` for the new
    /// glyph `key`, before the entry is recorded.
    closed spec fn wf_except_new(&self, key: GlyphKey, region: AtlasRegion, id: u32) -> bool {
        &&& atlas_extent(self.allocator) == (self.width as int, self.height as int)
        &&& self.ids@.len() == self.regions@.len()
        &&& forall|i: int, j: int|
            0 <= i < j < self.regions@.len() ==> self.regions@[i].0 != self.regions@[j].0
        &&& forall|i: int, j: int|
            0 <= i < j < self.ids@.len() ==> self.ids@[i] != self.ids@[j]
        &&& forall|i: int| 0 <= i < self.regions@.len() ==> self.regions@[i].0 != key
        &&& forall|i: int| 0 <= i < self.ids@.len() ==> self.ids@[i] != id
        &&& forall|i: int|
            0 <= i < self.regions@.len() ==> {
                &&& allocations(self.allocator).contains_key(#[trigger] self.ids@[i])
                &&& allocations(self.allocator)[self.ids@[i]] == padded_rect(self.regions@[i].1)
            }
        &&& allocations(self.allocator).contains_key(id)
        &&& allocations(self.allocator)[id] == padded_rect(region)
        &&& forall|i: int, j: int|
            0 <= i < self.regions@.len() && 0 <= j < self.regions@.len() && i != j
                ==> rects_disjoint(
                #[trigger] padded_rect(self.regions@[i].1),
                #[trigger] padded_rect(self.regions@[j].1),
            )
        &&& forall|i: int|
            0 <= i < self.regions@.len() ==> rects_disjoint(
                #[trigger] padded_rect(self.regions@[i].1),
                padded_rect(region),
            ) && rects_disjoint(padded_rect(region), padded_rect(self.regions@[i].1))
        &&& forall|i: int|
            0 <= i < self.regions@.len() ==> {
                let r = #[trigger] self.regions@[i].1;
                r.x + r.width + 2 <= self.width && r.y + r.height + 2 <= self.height
            }
        &&& region.x + region.width + 2 <= self.width
        &&& region.y + region.height + 2 <= self.height
    }

    /// Try to allocate the padded rectangle of a new glyph and record it.
    fn try_place(&mut self, key: GlyphKey, glyph_width: u32, glyph_height: u32) -> (r: Option<
        AtlasRegion,
    >)
        requires
            old(self).wf(),
            !old(self).regions_map().contains_key(key),
            glyph_width < i32::MAX - 1,
            glyph_height < i32::MAX - 1,
        ensures
            final(self).wf(),
            final(self).atlas_width() == old(self).atlas_width(),
            final(self).atlas_height() == old(self).atlas_height(),
            r is Some <==> room_for(old(self).free_space(), glyph_width + 2, glyph_height + 2),
            r is None ==> final(self).entries() == old(self).entries() && final(self).free_space()
                == old(self).free_space() && final(self).alloc_ids() == old(self).alloc_ids()
                && allocations(final(self).allocator) == allocations(old(self).allocator),
            r matches Some(region) ==> {
                &&& region.width == glyph_width
                &&& region.height == glyph_height
                &&& final(self).entries() == old(self).entries().push((key, region))
            },
    {
        let w = glyph_width as i32 + 2;
        let h = glyph_height as i32 + 2;
        let ghost before = allocations(self.allocator);
        match allocate_rect(&mut self.allocator, w, h) {
            None => None,
            Some((ax, ay, id)) => {
                let region = AtlasRegion {
                    x: ax as u32,
                    y: ay as u32,
                    width: glyph_width,
                    height: glyph_height,
                };
                proof {
                    assert(w == glyph_width + 2 && h == glyph_height + 2);
                    assert(padded_rect(region) == (ax as int, ay as int, w as int, h as int));
                    let e = self.regions@;
                    let d = self.ids@;
                    assert forall|i: int| 0 <= i < e.len() implies e[i].0 != key by {
                        if e[i].0 == key {
                            lemma_region_map_entry(e, i);
                        }
                    }
                    assert forall|i: int| 0 <= i < d.len() implies d[i] != id by {
                        assert(before.contains_key(d[i]));
                    }
                    assert forall|i: int| 0 <= i < e.len() implies {
                        &&& allocations(self.allocator).contains_key(#[trigger] d[i])
                        &&& allocations(self.allocator)[d[i]] == padded_rect(e[i].1)
                    } by {
                        assert(before.contains_key(d[i]));
                        assert(d[i] != id);
                    }
                    assert forall|i: int| 0 <= i < e.len() implies rects_disjoint(
                        #[trigger] padded_rect(e[i].1),
                        padded_rect(region),
                    ) && rects_disjoint(padded_rect(region), padded_rect(e[i].1)) by {
                        assert(before.contains_key(d[i]));
                        assert(rects_disjoint(padded_rect(region), before[d[i]]));
                    }
                }
                self.push_entry(key, region, id);
                Some(region)
            },
        }
    }

    /// The region of `key`, which becomes the most recently used glyph.
    /// When the glyph is new, a `(glyph_width + 2) x (glyph_height + 2)`
    /// rectangle is reserved for it (2 pixels of padding); when the atlas
    /// has no free rectangle that large, the least recently used glyphs are
    /// evicted, oldest first, until one is: each glyph is evicted only while
    /// the atlas, as the earlier evictions left it, had no room
    /// (`evicted_for_want_of_room`). `None` when the padded glyph is larger
    /// than the atlas itself; then nothing is evicted. The glyph's size
    /// matters only for a new glyph.
    pub fn get_or_insert(&mut self, key: GlyphKey, glyph_width: u32, glyph_height: u32) -> (r:
        Option<AtlasRegion>)
        requires
            old(self).wf(),
            !old(self).regions_map().contains_key(key) ==> glyph_width < i32::MAX - 1
                && glyph_height < i32::MAX - 1,
        ensures
            final(self).wf(),
            final(self).atlas_width() == old(self).atlas_width(),
            final(self).atlas_height() == old(self).atlas_height(),
            old(self).regions_map().contains_key(key) ==> {
                &&& r == Some(old(self).regions_map()[key])
                &&& final(self).regions_map() == old(self).regions_map()
                &&& final(self).free_space() == old(self).free_space()
                &&& exists|i: int|
                    0 <= i < old(self).entries().len() && old(self).entries()[i].0 == key
                        && final(self).entries() == old(self).entries().remove(i).push(
                        old(self).entries()[i],
                    )
            },
            !old(self).regions_map().contains_key(key) && !(glyph_width + 2 <= old(
                self,
            ).atlas_width() && glyph_height + 2 <= old(self).atlas_height()) ==> {
                &&& r is None
                &&& final(self).entries() == old(self).entries()
                &&& final(self).free_space() == old(self).free_space()
            },
            !old(self).regions_map().contains_key(key) && glyph_width + 2 <= old(self).atlas_width()
                && glyph_height + 2 <= old(self).atlas_height() ==> match r {
                Some(region) => {
                    &&& region.width == glyph_width
                    &&& region.height == glyph_height
                    &&& exists|n: int, states: Seq<guillotiere::AtlasAllocator>|
                        #[trigger] evicted_for_want_of_room(
                            n,
                            states,
                            old(self).allocator_state(),
                            old(self).alloc_ids(),
                            glyph_width,
                            glyph_height,
                        ) && 0 <= n <= old(self).entries().len() && (room_for(
                            old(self).free_space(),
                            glyph_width + 2,
                            glyph_height + 2,
                        ) ==> n == 0) && final(self).entries() == old(self).entries().skip(
                            n,
                        ).push((key, region))
                },
                None => false,
            },
    {
        match self.position(&key) {
            Some(i) => {
                proof {
                    lemma_region_map_entry(self.regions@, i as int);
                }
                let region = self.regions[i].1;
                self.touch(i);
                return Some(region);
            },
            None => {},
        }
        if !(glyph_width + 2 <= self.width && glyph_height + 2 <= self.height) {
            return None;
        }
        let ghost old_self = *self;
        let ghost old_entries = self.regions@;
        let ghost mut n: int = 0;
        let ghost mut states: Seq<guillotiere::AtlasAllocator> = Seq::empty();
        loop
            invariant
                states.len() == n,
                no_room_chain(
                    states,
                    old_self.allocator,
                    old_self.ids@,
                    glyph_width + 2,
                    glyph_height + 2,
                ),
                n == 0 ==> self.allocator == old_self.allocator,
                n > 0 ==> allocations(self.allocator) == allocations(states[n - 1]).remove(
                    old_self.ids@[n - 1],
                ),
                self.ids@ == old_self.ids@.skip(n),
                old_self.ids@.len() == old_entries.len(),
                self.wf(),
                old_self == *old(self),
                self.width == old_self.width,
                self.height == old_self.height,
                glyph_width < i32::MAX - 1,
                glyph_height < i32::MAX - 1,
                glyph_width + 2 <= self.width,
                glyph_height + 2 <= self.height,
                0 <= n <= old_entries.len(),
                self.regions@ == old_entries.skip(n),
                old_entries == old_self.regions@,
                !region_map(old_entries).contains_key(key),
                n == 0 ==> self.free_space() == old_self.free_space(),
                n > 0 ==> !room_for(old_self.free_space(), glyph_width + 2, glyph_height + 2),
            decreases self.regions@.len(),
        {
            proof {
                lemma_region_map_skip_absent(old_entries, n, key);
            }
            let ghost here = self.allocator;
            match self.try_place(key, glyph_width, glyph_height) {
                Some(region) => {
                    proof {
                        assert(evicted_for_want_of_room(
                            n,
                            states,
                            old(self).allocator_state(),
                            old(self).alloc_ids(),
                            glyph_width,
                            glyph_height,
                        ));
                    }
                    return Some(region);
                },
                None => {},
            }
            if self.regions.len() == 0 {
                clear_allocator(&mut self.allocator);
                proof {
                    let q = (0int, 0int, self.width as int, self.height as int);
                    assert(self.free_space().contains(q));
                    assert(room_for(self.free_space(), glyph_width + 2, glyph_height + 2));
                }
                let r = self.try_place(key, glyph_width, glyph_height);
                proof {
                    assert(evicted_for_want_of_room(
                        n,
                        states,
                        old(self).allocator_state(),
                        old(self).alloc_ids(),
                        glyph_width,
                        glyph_height,
                    ));
                }
                return r;
            }
            self.evict_oldest();
            proof {
                assert(old_entries.skip(n).skip(1) =~= old_entries.skip(n + 1));
                assert(old_self.ids@.skip(n).skip(1) =~= old_self.ids@.skip(n + 1));
                assert(old_self.ids@.skip(n)[0] == old_self.ids@[n]);
                let next = states.push(here);
                assert(next[n] == here);
                assert forall|k: int| 0 <= k < next.len() implies !room_for(
                    free_rects(#[trigger] next[k]),
                    glyph_width + 2,
                    glyph_height + 2,
                ) by {
                    if k < n {
                        assert(next[k] == states[k]);
                    }
                }
                assert forall|k: int| 0 <= k < next.len() - 1 implies allocations(
                    #[trigger] next[k + 1],
                ) == allocations(next[k]).remove(old_self.ids@[k]) by {
                    if k + 1 < n {
                        assert(next[k + 1] == states[k + 1]);
                        assert(next[k] == states[k]);
                    } else {
                        assert(next[k] == states[k]);
                    }
                }
                states = next;
                n = n + 1;
            }
        }
    }
}

/// Where entry `k` of the sequence after moving entry `i` (of `n`) to the
/// end came from.
spec fn src_index(k: int, i: int, n: int) -> int {
    if k < i {
        k
    } else if k < n - 1 {
        k + 1
    } else {
        i
    }
}

proof fn lemma_region_map_keys(entries: Seq<(GlyphKey, AtlasRegion)>, key: GlyphKey)
    requires
        forall|k: int| 0 <= k < entries.len() ==> entries[k].0 != key,
    ensures
        !region_map(entries).contains_key(key),
    decreases entries.len(),
{
    if entries.len() > 0 {
        lemma_region_map_keys(entries.drop_last(), key);
    }
}

proof fn lemma_region_map_entry(entries: Seq<(GlyphKey, AtlasRegion)>, i: int)
    requires
        0 <= i < entries.len(),
        forall|a: int, b: int| 0 <= a < b < entries.len() ==> entries[a].0 != entries[b].0,
    ensures
        region_map(entries).contains_key(entries[i].0),
        region_map(entries)[entries[i].0] == entries[i].1,
    decreases entries.len(),
{
    if i < entries.len() - 1 {
        lemma_region_map_entry(entries.drop_last(), i);
    }
}

/// Any two glyphs in a well-formed atlas occupy disjoint rectangles (with
/// their padding), and every rectangle lies inside the atlas.
pub proof fn law_atlas_regions_disjoint(p: &GlyphAtlasPacker, k1: GlyphKey, k2: GlyphKey)
    requires
        p.wf(),
        p.regions_map().contains_key(k1),
        p.regions_map().contains_key(k2),
        k1 != k2,
    ensures
        rects_disjoint(padded_rect(p.regions_map()[k1]), padded_rect(p.regions_map()[k2])),
        p.regions_map()[k1].x + p.regions_map()[k1].width + 2 <= p.atlas_width(),
        p.regions_map()[k1].y + p.regions_map()[k1].height + 2 <= p.atlas_height(),
{
    let e = p.regions@;
    let i = lemma_region_map_index(e, k1);
    let j = lemma_region_map_index(e, k2);
    lemma_region_map_entry(e, i);
    lemma_region_map_entry(e, j);
}

proof fn lemma_region_map_index(entries: Seq<(GlyphKey, AtlasRegion)>, key: GlyphKey) -> (i: int)
    requires
        region_map(entries).contains_key(key),
    ensures
        0 <= i < entries.len(),
        entries[i].0 == key,
    decreases entries.len(),
{
    if entries.last().0 == key {
        (entries.len() - 1) as int
    } else {
        lemma_region_map_index(entries.drop_last(), key)
    }
}

/// An empty atlas has room for a glyph exactly when the glyph and its
/// 2-pixel padding fit inside the atlas.
pub proof fn law_empty_atlas_room(width: int, height: int, glyph_width: int, glyph_height: int)
    ensures
        room_for(set![(0int, 0int, width, height)], glyph_width + 2, glyph_height + 2) <==> (
        glyph_width + 2 <= width && glyph_height + 2 <= height),
{
    let q = (0int, 0int, width, height);
    if glyph_width + 2 <= width && glyph_height + 2 <= height {
        assert(set![q].contains(q));
    }
}

/// Any key of the list is a key of its map.
proof fn lemma_region_map_has(entries: Seq<(GlyphKey, AtlasRegion)>, i: int)
    requires
        0 <= i < entries.len(),
    ensures
        region_map(entries).contains_key(entries[i].0),
    decreases entries.len(),
{
    if i < entries.len() - 1 {
        lemma_region_map_has(entries.drop_last(), i);
    }
}

/// Dropping entries from the front keeps an absent key absent.
proof fn lemma_region_map_skip_absent(entries: Seq<(GlyphKey, AtlasRegion)>, n: int, key: GlyphKey)
    requires
        0 <= n <= entries.len(),
        !region_map(entries).contains_key(key),
    ensures
        !region_map(entries.skip(n)).contains_key(key),
{
    let s = entries.skip(n);
    assert forall|k: int| 0 <= k < s.len() implies s[k].0 != key by {
        assert(s[k] == entries[k + n]);
        lemma_region_map_has(entries, k + n);
    }
    lemma_region_map_keys(s, key);
}

/// Where entry `j` of a list goes when entry `i` (of `n`) is moved to the end.
spec fn dst_index(j: int, i: int, n: int) -> int {
    if j < i {
        j
    } else if j == i {
        n - 1
    } else {
        j - 1
    }
}

/// Moving one entry of a list without repeated keys to the end keeps its map.
proof fn lemma_region_map_moved(
    e: Seq<(GlyphKey, AtlasRegion)>,
    e2: Seq<(GlyphKey, AtlasRegion)>,
    i: int,
)
    requires
        0 <= i < e.len(),
        forall|a: int, b: int| 0 <= a < b < e.len() ==> e[a].0 != e[b].0,
        e2 == e.remove(i).push(e[i]),
    ensures
        region_map(e2) == region_map(e),
{
    let n = e.len() as int;
    assert(e2.len() == n);
    assert forall|k: int| 0 <= k < n implies #[trigger] e2[k] == e[src_index(k, i, n)] by {}
    assert forall|j: int| 0 <= j < n implies #[trigger] e[j] == e2[dst_index(j, i, n)] by {
        assert(src_index(dst_index(j, i, n), i, n) == j);
    }
    assert forall|a: int, b: int| 0 <= a < b < n implies e2[a].0 != e2[b].0 by {
        assert(e2[a] == e[src_index(a, i, n)]);
        assert(e2[b] == e[src_index(b, i, n)]);
        assert(src_index(a, i, n) != src_index(b, i, n));
    }
    assert forall|key: GlyphKey| #[trigger] region_map(e2).contains_key(key) == region_map(
        e,
    ).contains_key(key) by {
        if region_map(e).contains_key(key) {
            if forall|j: int| 0 <= j < n ==> e[j].0 != key {
                lemma_region_map_keys(e, key);
            }
            let j = choose|j: int| 0 <= j < n && e[j].0 == key;
            assert(e[j] == e2[dst_index(j, i, n)]);
            lemma_region_map_has(e2, dst_index(j, i, n));
        }
        if region_map(e2).contains_key(key) {
            if forall|j: int| 0 <= j < n ==> e2[j].0 != key {
                lemma_region_map_keys(e2, key);
            }
            let j = choose|j: int| 0 <= j < n && e2[j].0 == key;
            assert(e2[j] == e[src_index(j, i, n)]);
            lemma_region_map_has(e, src_index(j, i, n));
        }
    }
    assert forall|key: GlyphKey| #[trigger] region_map(e).contains_key(key) implies region_map(
        e2,
    )[key] == region_map(e)[key] by {
        if forall|j: int| 0 <= j < n ==> e[j].0 != key {
            lemma_region_map_keys(e, key);
        }
        let j = choose|j: int| 0 <= j < n && e[j].0 == key;
        lemma_region_map_entry(e, j);
        assert(e[j] == e2[dst_index(j, i, n)]);
        lemma_region_map_entry(e2, dst_index(j, i, n));
    }
    assert(region_map(e2) =~= region_map(e));
}

} // verus!
