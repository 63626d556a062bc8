//! The face culling engine: a cache of per-state metadata and the face
//! visibility test.
use vstd::prelude::*;
use vstd::hash_map::StringHashMap;
use std::sync::Arc;
use crate::cull::classify::{compute_block_cull_meta, meta_spec, quads_view, ElementQuad};
use crate::cull::parse::parse_ok;
use crate::cull::rect_ops::{completely_occluded, is_face_completely_occluded};
use crate::cull::rules::{should_skip_rendering, skip_spec};
use crate::cull::types::{
    full_face, full_face_rect, BlockCullMeta, CullCategory, GlassCullMode, LeavesCullMode, MetaView,
};
use crate::direction::{dir_index, dir_offset, dir_opposite, mask_has, Direction};
use crate::geometry::Aabb2d;
use crate::text::{chars_of, ends_with, str_eq, str_ends_with, string_from};

verus! {

/// Most block states the metadata cache holds at once.
pub const META_CACHE_CAPACITY: usize = 8192;

/// Whether the face of block `a` towards `dir` is rendered, given the neighbour
/// block `nb` on that side (`None` when there is none).
///
/// Air never renders; a face towards nothing or towards air always renders. A
/// solid or glass face next to a non-occluding block, or next to a partial block
/// other than a slab or stairs, renders (unless it is a top face under a snow
/// layer). A face against a full face of the neighbour is hidden, except the top
/// of a fluid. Then the special skipping rules apply; a neighbour side with no
/// shape hides nothing; a face with no own shape (and no quad shape given) shows;
/// otherwise the face's boxes (the given quad boxes, else its own shapes, else
/// the full face) are tested against the neighbour's boxes on the touching side.
pub open spec fn render_spec(
    leaves: LeavesCullMode,
    glass: GlassCullMode,
    a: MetaView,
    nb: Option<MetaView>,
    dir: Direction,
    quad: Option<Seq<Aabb2d>>,
    pa: Option<(i32, i32, i32)>,
    pb: Option<(i32, i32, i32)>,
) -> bool {
    if a.is_air {
        false
    } else {
        match nb {
            None => true,
            Some(b) => if b.is_air {
                true
            } else {
                let opp = dir_opposite(dir);
                let snow_cover = dir == Direction::Up && (b.block_name == "snow"@ || ends_with(
                    b.block_name,
                    ":snow"@,
                )) && mask_has(b.full_face_mask, Direction::Down);
                if (a.category == CullCategory::SolidOpaque || a.category == CullCategory::GlassTranslucent)
                    && !snow_cover && (b.category == CullCategory::NonOccluding || (b.category
                    == CullCategory::PartialShape && !(ends_with(b.block_name, "_slab"@) || ends_with(
                    b.block_name,
                    "_stairs"@,
                )))) {
                    true
                } else if mask_has(b.full_face_mask, opp) && !(a.category == CullCategory::Fluid && dir
                    == Direction::Up) {
                    false
                } else if skip_spec(a, b, dir, leaves, glass, pa, pb) {
                    false
                } else if mask_has(b.empty_face_mask, opp) {
                    true
                } else if quad is None && mask_has(a.empty_face_mask, dir) {
                    true
                } else {
                    let own = a.face_shapes[dir_index(dir)];
                    let target = match quad {
                        Some(q) => q,
                        None => if own.len() == 0 {
                            seq![full_face()]
                        } else {
                            own
                        },
                    };
                    !completely_occluded(target, b.face_shapes[dir_index(opp)])
                }
            },
        }
    }
}

/// Keys in the order they entered the cache after caching key `k`.
pub open spec fn keys_after(keys: Seq<Seq<char>>, k: Seq<char>) -> Seq<Seq<char>> {
    if keys.contains(k) {
        keys
    } else if keys.len() >= META_CACHE_CAPACITY {
        keys.drop_first().push(k)
    } else {
        keys.push(k)
    }
}

/// Cache content after caching `v` under `k`: when the cache is full and `k` is
/// new, the oldest entry leaves first.
pub open spec fn view_after(
    view: Map<Seq<char>, MetaView>,
    keys: Seq<Seq<char>>,
    k: Seq<char>,
    v: MetaView,
) -> Map<Seq<char>, MetaView> {
    if !keys.contains(k) && keys.len() >= META_CACHE_CAPACITY {
        view.remove(keys[0]).insert(k, v)
    } else {
        view.insert(k, v)
    }
}

/// A bounded cache of block state metadata, oldest entries dropped first.
pub struct MetaCache {
    map: StringHashMap<Arc<BlockCullMeta>>,
    order: Vec<String>,
}

impl MetaCache {
    /// The cached states, oldest first.
    pub closed spec fn keys(&self) -> Seq<Seq<char>> {
        self.order@.map_values(|s: String| s@)
    }

    /// The cached metadata by state string.
    pub closed spec fn view_map(&self) -> Map<Seq<char>, MetaView> {
        self.map@.map_values(|m: Arc<BlockCullMeta>| m@)
    }

    /// Every cached state once, in order of entry, at most `META_CACHE_CAPACITY` of
    /// them, and a cached value for exactly the listed states.
    pub closed spec fn wf(&self) -> bool {
        &&& self.keys().no_duplicates()
        &&& forall|k: Seq<char>| self.map@.contains_key(k) <==> self.keys().contains(k)
        &&& self.keys().len() <= META_CACHE_CAPACITY
    }

    /// An empty cache.
    pub fn new() -> (c: MetaCache)
        ensures
            c.wf(),
            c.keys().len() == 0,
            c.view_map() == Map::<Seq<char>, MetaView>::empty(),
    {
        let c = MetaCache { map: StringHashMap::new(), order: Vec::new() };
        assert(c.view_map() =~= Map::<Seq<char>, MetaView>::empty());
        c
    }

    /// The cached metadata of a state.
    pub fn lookup(&self, k: &str) -> (r: Option<&Arc<BlockCullMeta>>)
        ensures
            match r {
                Some(m) => self.view_map().contains_key(k@) && m@ == self.view_map()[k@],
                None => !self.view_map().contains_key(k@),
            },
    {
        self.map.get(k)
    }

    /// A cache with the same entries in the same order.
    pub fn duplicate(&self) -> (r: MetaCache)
        ensures
            r.wf(),
            self.wf() ==> r.keys() == self.keys() && r.view_map() == self.view_map(),
    {
        let mut r = MetaCache::new();
        let mut i: usize = 0;
        while i < self.order.len()
            invariant
                i <= self.order.len(),
                r.wf(),
                self.wf() ==> r.keys() == self.keys().take(i as int),
                self.wf() ==> forall|k: Seq<char>| #[trigger]
                    r.view_map().contains_key(k) == self.keys().take(i as int).contains(k),
                self.wf() ==> forall|k: Seq<char>| #[trigger]
                    r.view_map().contains_key(k) ==> r.view_map()[k] == self.view_map()[k],
            decreases self.order.len() - i,
        {
            let key = self.order[i].as_str();
            match self.lookup(key) {
                Some(m) => {
                    let ghost before_keys = r.keys();
                    let ghost before_view = r.view_map();
                    r.store(key, Arc::clone(m));
                    proof {
                        if self.wf() {
                            let ks = self.keys();
                            assert(ks[i as int] == key@);
                            assert(ks.take(i + 1) =~= ks.take(i as int).push(key@));
                            assert(!ks.take(i as int).contains(key@)) by {
                                if ks.take(i as int).contains(key@) {
                                    let t0 = ks.take(i as int);
                                    let j = choose|j: int| 0 <= j < t0.len() && t0[j] == key@;
                                    assert(ks[j] == ks[i as int]);
                                }
                            }
                            assert(before_keys.len() == i);
                            assert forall|k: Seq<char>| #[trigger] r.view_map().contains_key(k) == ks.take(i + 1).contains(k) by {
                                if k == key@ {
                                    assert(ks.take(i + 1)[i as int] == k);
                                } else if ks.take(i + 1).contains(k) {
                                    let t1 = ks.take(i + 1);
                                    let j = choose|j: int| 0 <= j < t1.len() && t1[j] == k;
                                    assert(ks.take(i as int)[j] == k);
                                } else if ks.take(i as int).contains(k) {
                                    let t0 = ks.take(i as int);
                                    let j = choose|j: int| 0 <= j < t0.len() && t0[j] == k;
                                    assert(ks.take(i + 1)[j] == k);
                                }
                            }
                        }
                    }
                },
                None => {
                    proof {
                        if self.wf() {
                            assert(self.keys()[i as int] == key@);
                            assert(self.keys().contains(key@));
                        }
                    }
                },
            }
            i += 1;
        }
        proof {
            if self.wf() {
                assert(self.keys().take(self.order.len() as int) =~= self.keys());
                assert(r.view_map() =~= self.view_map());
            }
        }
        r
    }

    /// Drops the oldest entry.
    fn evict_oldest(&mut self)
        requires
            old(self).wf(),
            old(self).keys().len() > 0,
        ensures
            final(self).keys() == old(self).keys().drop_first(),
            final(self).view_map() == old(self).view_map().remove(old(self).keys()[0]),
            final(self).keys().no_duplicates(),
            forall|k: Seq<char>| final(self).map@.contains_key(k) <==> final(self).keys().contains(k),
    {
        let ghost old_keys = self.keys();
        let ghost old_view = self.view_map();
        let oldest = self.order.remove(0);
        self.map.remove(oldest.as_str());
        proof {
            assert(oldest@ == old_keys[0]);
            assert(self.keys() =~= old_keys.drop_first());
            assert(self.view_map() =~= old_view.remove(old_keys[0]));
            assert forall|k: Seq<char>| self.map@.contains_key(k) <==> self.keys().contains(k) by {
                if k == old_keys[0] {
                    assert(!old_keys.drop_first().contains(k));
                } else if old_keys.contains(k) {
                    let i = choose|i: int| 0 <= i < old_keys.len() && old_keys[i] == k;
                    assert(old_keys.drop_first()[i - 1] == k);
                } else if old_keys.drop_first().contains(k) {
                    let i = choose|i: int| 0 <= i < old_keys.drop_first().len() && old_keys.drop_first()[i] == k;
                    assert(old_keys[i + 1] == k);
                }
            }
        }
    }

    /// Caches `v` under `k` (see `keys_after` and `view_after`).
    pub fn store(&mut self, k: &str, v: Arc<BlockCullMeta>)
        requires
            old(self).wf(),
        ensures
            final(self).wf(),
            final(self).keys() == keys_after(old(self).keys(), k@),
            final(self).view_map() == view_after(old(self).view_map(), old(self).keys(), k@, v@),
    {
        let ghost old_keys = self.keys();
        let ghost old_view = self.view_map();
        let present = self.map.contains_key(k);
        if !present && self.order.len() >= META_CACHE_CAPACITY {
            self.evict_oldest();
        }
        let ghost mid_keys = self.keys();
        let ghost mid_map = self.map@;
        assert(forall|q: Seq<char>| mid_map.contains_key(q) <==> mid_keys.contains(q));
        assert(mid_keys.no_duplicates());
        if !present {
            let key = string_from(chars_of(k).as_slice());
            self.order.push(key);
            proof {
                assert(self.keys() =~= mid_keys.push(k@));
                assert forall|q: Seq<char>| #![auto] mid_keys.push(k@).contains(q) <==> (mid_keys.contains(q)
                    || q == k@) by {
                    if mid_keys.push(k@).contains(q) && q != k@ {
                        let i = choose|i: int| 0 <= i < mid_keys.push(k@).len() && mid_keys.push(k@)[i] == q;
                        assert(mid_keys[i] == q);
                    }
                    if q == k@ {
                        assert(mid_keys.push(k@)[mid_keys.len() as int] == q);
                    }
                    if mid_keys.contains(q) {
                        let i = choose|i: int| 0 <= i < mid_keys.len() && mid_keys[i] == q;
                        assert(mid_keys.push(k@)[i] == q);
                    }
                }
            }
        }
        let key2 = string_from(chars_of(k).as_slice());
        self.map.insert(key2, v);
        proof {
            assert(self.view_map() =~= view_after(old_view, old_keys, k@, v@));
            if !present {
                assert(!mid_keys.contains(k@));
                let nk = mid_keys.push(k@);
                assert forall|i: int, j: int| 0 <= i < nk.len() && 0 <= j < nk.len() && i != j implies nk[i]
                    != nk[j] by {
                    if i < mid_keys.len() && j < mid_keys.len() {
                        assert(nk[i] == mid_keys[i] && nk[j] == mid_keys[j]);
                    } else if i < mid_keys.len() {
                        assert(nk[i] == mid_keys[i]);
                    } else if j < mid_keys.len() {
                        assert(nk[j] == mid_keys[j]);
                    }
                }
                assert(self.keys().no_duplicates());
            }
            assert forall|q: Seq<char>| self.map@.contains_key(q) <==> self.keys().contains(q) by {
                if q != k@ {
                    assert(self.map@.contains_key(q) == mid_map.contains_key(q));
                    if !present {
                        if mid_keys.contains(q) {
                            let i = choose|i: int| 0 <= i < mid_keys.len() && mid_keys[i] == q;
                            assert(self.keys()[i] == q);
                        }
                        if self.keys().contains(q) {
                            let i = choose|i: int| 0 <= i < self.keys().len() && self.keys()[i] == q;
                            assert(mid_keys[i] == q);
                        }
                    }
                } else if !present {
                    assert(self.keys()[mid_keys.len() as int] == q);
                }
            }
        }
    }
}

/// The face culling engine, with a bounded cache of block state metadata.
pub struct FaceCuller {
    pub leaves_cull_mode: LeavesCullMode,
    pub glass_cull_mode: GlassCullMode,
    pub meta_cache: MetaCache,
}

impl FaceCuller {
    /// The cached states, oldest first.
    pub open spec fn cache_keys(&self) -> Seq<Seq<char>> {
        self.meta_cache.keys()
    }

    /// The cached metadata by state string.
    pub open spec fn cache_view(&self) -> Map<Seq<char>, MetaView> {
        self.meta_cache.view_map()
    }

    /// The cache is consistent.
    pub open spec fn wf(&self) -> bool {
        self.meta_cache.wf()
    }

    /// Every cached entry is what the state computes to without model quads or
    /// opacity hint.
    pub open spec fn cache_plain(&self) -> bool {
        forall|k: Seq<char>| #[trigger]
            self.cache_view().contains_key(k) ==> self.cache_view()[k] == meta_spec(k, None, None)
    }

    /// Creates a culler with the given leaves and glass modes and an empty cache.
    pub fn new(leaves_cull_mode: LeavesCullMode, glass_cull_mode: GlassCullMode) -> (c: FaceCuller)
        ensures
            c.wf(),
            c.leaves_cull_mode == leaves_cull_mode,
            c.glass_cull_mode == glass_cull_mode,
            c.cache_keys().len() == 0,
            c.cache_view() == Map::<Seq<char>, MetaView>::empty(),
            c.cache_plain(),
    {
        FaceCuller { leaves_cull_mode, glass_cull_mode, meta_cache: MetaCache::new() }
    }

    /// Clears the cached metadata.
    pub fn clear_cache(&mut self)
        ensures
            final(self).wf(),
            final(self).leaves_cull_mode == old(self).leaves_cull_mode,
            final(self).glass_cull_mode == old(self).glass_cull_mode,
            final(self).cache_keys().len() == 0,
            final(self).cache_view() == Map::<Seq<char>, MetaView>::empty(),
            final(self).cache_plain(),
    {
        self.meta_cache = MetaCache::new();
    }

    /// Number of cached metadata entries.
    pub fn cache_len(&self) -> (n: usize)
        ensures
            n == self.cache_keys().len(),
    {
        self.meta_cache.order.len()
    }

    /// Whether metadata for the state is cached.
    pub fn cache_contains(&self, state_str: &str) -> (b: bool)
        requires
            self.wf(),
        ensures
            b == self.cache_keys().contains(state_str@),
            b == self.cache_view().contains_key(state_str@),
    {
        self.meta_cache.map.contains_key(state_str)
    }

    /// Returns the metadata of a block state, from the cache or freshly computed.
    ///
    /// A cached entry is used unless model quads are given and the entry was
    /// computed without them. A fresh result is cached; when the cache is full and
    /// the state is new, the oldest entry is dropped first. With no quads and no
    /// hint, and a cache holding only such entries, the result is exactly what the
    /// state computes to.
    pub fn get_meta(
        &mut self,
        state_str: &str,
        element_quads: Option<&[ElementQuad]>,
        is_opaque_hint: Option<bool>,
    ) -> (r: Arc<BlockCullMeta>)
        requires
            old(self).wf(),
            parse_ok(state_str@),
        ensures
            final(self).wf(),
            final(self).leaves_cull_mode == old(self).leaves_cull_mode,
            final(self).glass_cull_mode == old(self).glass_cull_mode,
            ({
                let hit = old(self).cache_view().contains_key(state_str@) && !(element_quads is Some
                    && !old(self).cache_view()[state_str@].has_baked_model);
                &&& hit ==> r@ == old(self).cache_view()[state_str@]
                    && final(self).cache_view() == old(self).cache_view()
                    && final(self).cache_keys() == old(self).cache_keys()
                &&& !hit ==> r@ == meta_spec(state_str@, quads_view(element_quads), is_opaque_hint)
                    && final(self).cache_keys() == keys_after(old(self).cache_keys(), state_str@)
                    && final(self).cache_view() == view_after(
                    old(self).cache_view(),
                    old(self).cache_keys(),
                    state_str@,
                    r@,
                )
            }),
            old(self).cache_plain() && element_quads is None && is_opaque_hint is None ==> r@
                == meta_spec(state_str@, None, None) && final(self).cache_plain(),
    {
        let cached: Option<Arc<BlockCullMeta>> = match self.meta_cache.lookup(state_str) {
            Some(m) => {
                if element_quads.is_some() && !m.has_baked_model {
                    None
                } else {
                    Some(Arc::clone(m))
                }
            },
            None => None,
        };
        match cached {
            Some(m) => {
                return m;
            },
            None => {},
        }
        let meta = Arc::new(compute_block_cull_meta(state_str, element_quads, is_opaque_hint));
        self.meta_cache.store(state_str, Arc::clone(&meta));
        meta
    }

    /// Evaluates whether the face of `state_meta` towards `direction` is rendered
    /// (`true`) or culled (`false`), given the neighbour on that side (see `render_spec`).
    pub fn should_render_face(
        &self,
        state_meta: &BlockCullMeta,
        neighbor_meta: Option<&BlockCullMeta>,
        direction: Direction,
        quad_face_shape: Option<&[Aabb2d]>,
        block_pos: Option<(i32, i32, i32)>,
        neighbor_pos: Option<(i32, i32, i32)>,
    ) -> (r: bool)
        ensures
            r == render_spec(
                self.leaves_cull_mode,
                self.glass_cull_mode,
                state_meta@,
                meta_opt_view(neighbor_meta),
                direction,
                shape_opt_view(quad_face_shape),
                block_pos,
                neighbor_pos,
            ),
    {
        if state_meta.is_air {
            return false;
        }
        let neighbor = match neighbor_meta {
            Some(n) => {
                if n.is_air {
                    return true;
                }
                n
            },
            None => {
                return true;
            },
        };
        let opp_dir = direction.opposite();
        let nname = neighbor.block_name.as_str();
        let is_snow_cover = direction == Direction::Up && (str_eq(nname, "snow") || str_ends_with(
            nname,
            ":snow",
        )) && neighbor.has_full_face(Direction::Down);
        if (state_meta.category == CullCategory::SolidOpaque || state_meta.category
            == CullCategory::GlassTranslucent) && !is_snow_cover && (neighbor.category
            == CullCategory::NonOccluding || (neighbor.category == CullCategory::PartialShape && !(
        str_ends_with(nname, "_slab") || str_ends_with(nname, "_stairs")))) {
            return true;
        }
        if neighbor.has_full_face(opp_dir) {
            if !(state_meta.category == CullCategory::Fluid && direction == Direction::Up) {
                return false;
            }
        }
        if should_skip_rendering(
            state_meta,
            neighbor,
            direction,
            self.leaves_cull_mode,
            self.glass_cull_mode,
            block_pos,
            neighbor_pos,
        ) {
            return false;
        }
        if neighbor.has_empty_face(opp_dir) {
            return true;
        }
        if quad_face_shape.is_none() && state_meta.has_empty_face(direction) {
            return true;
        }
        let own = state_meta.get_face_shapes(direction);
        let default_shape = [full_face_rect()];
        let target: &[Aabb2d] = match quad_face_shape {
            Some(shapes) => shapes,
            None => {
                if own.len() == 0 {
                    proof {
                        assert(default_shape@ == seq![full_face()]);
                    }
                    default_shape.as_slice()
                } else {
                    own
                }
            },
        };
        let neighbor_shapes = neighbor.get_face_shapes(opp_dir);
        !is_face_completely_occluded(target, neighbor_shapes)
    }
}

/// The view of an optional metadata reference.
pub open spec fn meta_opt_view(m: Option<&BlockCullMeta>) -> Option<MetaView> {
    match m {
        Some(x) => Some(x@),
        None => None,
    }
}

/// The boxes of an optional box slice.
pub open spec fn shape_opt_view(s: Option<&[Aabb2d]>) -> Option<Seq<Aabb2d>> {
    match s {
        Some(x) => Some(x@),
        None => None,
    }
}

impl Clone for FaceCuller {
    /// A culler with the same modes and the same cached entries.
    fn clone(&self) -> (c: FaceCuller)
        ensures
            c.wf(),
            c.leaves_cull_mode == self.leaves_cull_mode,
            c.glass_cull_mode == self.glass_cull_mode,
            self.wf() ==> c.cache_keys() == self.cache_keys() && c.cache_view() == self.cache_view(),
    {
        FaceCuller {
            leaves_cull_mode: self.leaves_cull_mode,
            glass_cull_mode: self.glass_cull_mode,
            meta_cache: self.meta_cache.duplicate(),
        }
    }
}

impl Default for FaceCuller {
    fn default() -> (c: FaceCuller)
        ensures
            c.wf(),
            c.leaves_cull_mode == LeavesCullMode::SingleFace,
            c.glass_cull_mode == GlassCullMode::Group,
            c.cache_keys().len() == 0,
            c.cache_plain(),
    {
        FaceCuller::new(LeavesCullMode::SingleFace, GlassCullMode::Group)
    }
}

/// The block position one step from `pos` towards `d`.
pub open spec fn step(pos: (i32, i32, i32), d: Direction) -> (i32, i32, i32) {
    (
        (pos.0 + dir_offset(d).0) as i32,
        (pos.1 + dir_offset(d).1) as i32,
        (pos.2 + dir_offset(d).2) as i32,
    )
}

/// No coordinate of the position is at the edge of the `i32` range.
pub open spec fn pos_inner(pos: (i32, i32, i32)) -> bool {
    i32::MIN < pos.0 < i32::MAX && i32::MIN < pos.1 < i32::MAX && i32::MIN < pos.2 < i32::MAX
}

/// The visible directions among the first `k` in index order.
pub open spec fn visible_upto(
    leaves: LeavesCullMode,
    glass: GlassCullMode,
    a: MetaView,
    ns: Seq<Option<MetaView>>,
    pos: (i32, i32, i32),
    k: nat,
) -> Seq<Direction>
    decreases k,
{
    if k == 0 {
        seq![]
    } else {
        let rest = visible_upto(leaves, glass, a, ns, pos, (k - 1) as nat);
        let d = crate::direction::dir_from_index(k - 1)->0;
        if render_spec(leaves, glass, a, ns[k - 1], d, None, Some(pos), Some(step(pos, d))) {
            rest.push(d)
        } else {
            rest
        }
    }
}

/// The directions, in index order, whose face of block `a` at `pos` is rendered
/// against the neighbours `ns` (by direction index).
pub open spec fn visible_dirs(
    leaves: LeavesCullMode,
    glass: GlassCullMode,
    a: MetaView,
    ns: Seq<Option<MetaView>>,
    pos: (i32, i32, i32),
) -> Seq<Direction> {
    visible_upto(leaves, glass, a, ns, pos, 6)
}

/// The views of optional shared metadata.
pub open spec fn arc_opts_view(v: Seq<Option<Arc<BlockCullMeta>>>) -> Seq<Option<MetaView>> {
    v.map_values(|m: Option<Arc<BlockCullMeta>>| match m {
        Some(x) => Some(x@),
        None => None,
    })
}

/// The metadata of optional neighbour state strings, each computed without quads or hint.
pub open spec fn neighbor_metas(states: Seq<Option<Seq<char>>>) -> Seq<Option<MetaView>> {
    states.map_values(|s: Option<Seq<char>>| match s {
        Some(t) => Some(meta_spec(t, None, None)),
        None => None,
    })
}

/// The text of an optional state string.
pub open spec fn opt_text(o: Option<String>) -> Option<Seq<char>> {
    match o {
        Some(t) => Some(t@),
        None => None,
    }
}

/// The neighbour of `pos` in the direction of index `j`.
pub open spec fn neighbor_pos(pos: (i32, i32, i32), j: int) -> (i32, i32, i32) {
    step(pos, crate::direction::dir_from_index(j)->0)
}

/// `s` is a state (as text) that `f` may give for the block at `p`.
pub open spec fn answered<F: Fn(i32, i32, i32) -> Option<String>>(
    f: F,
    p: (i32, i32, i32),
    s: Option<Seq<char>>,
) -> bool {
    exists|o: Option<String>| #[trigger] call_ensures(f, (p.0, p.1, p.2), o) && opt_text(o) == s
}

impl FaceCuller {
    /// The directions whose faces of a block at `pos` are rendered, given the
    /// metadata of its six neighbours by direction index (see `visible_dirs`).
    pub fn visible_face_directions_from(
        &self,
        meta: &BlockCullMeta,
        pos: (i32, i32, i32),
        neighbors: &Vec<Option<Arc<BlockCullMeta>>>,
    ) -> (r: Vec<Direction>)
        requires
            neighbors.len() == 6,
            pos_inner(pos),
        ensures
            r@ == visible_dirs(self.leaves_cull_mode, self.glass_cull_mode, meta@, arc_opts_view(neighbors@), pos),
    {
        let mut visible: Vec<Direction> = Vec::new();
        let mut i: usize = 0;
        while i < 6
            invariant
                i <= 6,
                neighbors.len() == 6,
                pos_inner(pos),
                visible@ == visible_upto(
                    self.leaves_cull_mode,
                    self.glass_cull_mode,
                    meta@,
                    arc_opts_view(neighbors@),
                    pos,
                    i as nat,
                ),
            decreases 6 - i,
        {
            let dir = Direction::ALL[i];
            proof {
                assert(Direction::ALL@[i as int] == crate::direction::dir_from_index(i as int)->0);
            }
            let (dx, dy, dz) = dir.offset();
            let n_pos = (pos.0 + dx, pos.1 + dy, pos.2 + dz);
            let n_meta: Option<&BlockCullMeta> = match &neighbors[i] {
                Some(m) => Some(&**m),
                None => None,
            };
            proof {
                assert(meta_opt_view(n_meta) == arc_opts_view(neighbors@)[i as int]);
            }
            if self.should_render_face(meta, n_meta, dir, None, Some(pos), Some(n_pos)) {
                visible.push(dir);
            }
            i += 1;
        }
        visible
    }
}

/// A cache as its keys in order of entry and its content.
pub type CacheState = (Seq<Seq<char>>, Map<Seq<char>, MetaView>);

/// The cache state of a culler.
pub open spec fn cache_state(c: FaceCuller) -> CacheState {
    (c.cache_keys(), c.cache_view())
}

/// The metadata `get_meta` gives for state `s` without quads or hint: the cached
/// entry when there is one, else what the state computes to.
pub open spec fn lookup_meta(c: CacheState, s: Seq<char>) -> MetaView {
    if c.1.contains_key(s) {
        c.1[s]
    } else {
        meta_spec(s, None, None)
    }
}

/// The cache after `get_meta` looks up state `s` without quads or hint: unchanged
/// on a hit, the fresh entry stored (oldest entry dropped when full) on a miss.
pub open spec fn lookup_step(c: CacheState, s: Seq<char>) -> CacheState {
    if c.1.contains_key(s) {
        c
    } else {
        (keys_after(c.0, s), view_after(c.1, c.0, s, meta_spec(s, None, None)))
    }
}

/// Looking up the neighbour states in order, from cache `c`: the metadata of
/// each (`None` where there is no block) and the cache afterwards.
pub open spec fn neighbor_lookups(c: CacheState, states: Seq<Option<Seq<char>>>) -> (
    Seq<Option<MetaView>>,
    CacheState,
)
    decreases states.len(),
{
    if states.len() == 0 {
        (seq![], c)
    } else {
        let prev = neighbor_lookups(c, states.drop_last());
        match states.last() {
            Some(t) => (prev.0.push(Some(lookup_meta(prev.1, t))), lookup_step(prev.1, t)),
            None => (prev.0.push(None), prev.1),
        }
    }
}

/// Looking a state up twice: after the first lookup the state is cached, so the
/// second gives the same metadata and leaves the cache as the first left it.
pub proof fn lemma_lookup_repeat(c: CacheState, s: Seq<char>)
    ensures
        lookup_step(c, s).1.contains_key(s),
        lookup_meta(lookup_step(c, s), s) == lookup_meta(c, s),
        lookup_step(lookup_step(c, s), s) == lookup_step(c, s),
{
}

/// Every cached entry is what its state computes to without quads or hint.
pub open spec fn plain_view(v: Map<Seq<char>, MetaView>) -> bool {
    forall|k: Seq<char>| #[trigger] v.contains_key(k) ==> v[k] == meta_spec(k, None, None)
}

/// From a cache holding only plain entries, lookups give what the states
/// compute to, and the cache stays plain.
pub proof fn lemma_plain_lookups(c: CacheState, states: Seq<Option<Seq<char>>>)
    requires
        plain_view(c.1),
    ensures
        neighbor_lookups(c, states).0 == neighbor_metas(states),
        plain_view(neighbor_lookups(c, states).1.1),
    decreases states.len(),
{
    if states.len() > 0 {
        lemma_plain_lookups(c, states.drop_last());
        let prev = neighbor_lookups(c, states.drop_last());
        match states.last() {
            Some(t) => {
                lemma_plain_step(prev.1, t);
            },
            None => {},
        }
        assert(neighbor_lookups(c, states).0 =~= neighbor_metas(states));
    }
}

/// One lookup from a plain cache gives what the state computes to and keeps the
/// cache plain.
pub proof fn lemma_plain_step(c: CacheState, s: Seq<char>)
    requires
        plain_view(c.1),
    ensures
        lookup_meta(c, s) == meta_spec(s, None, None),
        plain_view(lookup_step(c, s).1),
{
    let v = lookup_step(c, s).1;
    assert forall|k: Seq<char>| #[trigger] v.contains_key(k) implies v[k] == meta_spec(k, None, None) by {
        if k != s {
            assert(c.1.contains_key(k));
        }
    }
}

/// Computes the visible face directions of the block with state `state_str` at
/// `(x, y, z)`, asking `get_neighbor_state` for the state at each neighbouring
/// position (`None` where there is no block).
///
/// An empty state has no visible faces and leaves the cache as it is. Otherwise
/// the state's metadata is looked up (see `lookup_meta` and `lookup_step`); an
/// air state has no visible faces. Else the callback is asked once for each
/// neighbour position, in direction index order, their metadata is looked up in
/// that order, and the result is the directions of `visible_dirs` for those
/// metadata. From a cache holding only entries computed without quads or hints,
/// the metadata are what the states compute to (see `lemma_plain_lookups`).
pub fn get_visible_face_directions<F>(
    x: i32,
    y: i32,
    z: i32,
    state_str: &str,
    culler: &mut FaceCuller,
    get_neighbor_state: F,
) -> (r: Vec<Direction>) where F: Fn(i32, i32, i32) -> Option<String>
    requires
        old(culler).wf(),
        parse_ok(state_str@),
        pos_inner((x, y, z)),
        forall|a: i32, b: i32, c: i32| call_requires(get_neighbor_state, (a, b, c)),
        forall|a: i32, b: i32, c: i32, s: Option<String>|
            call_ensures(get_neighbor_state, (a, b, c), s) ==> (s matches Some(t) ==> parse_ok(t@)),
    ensures
        final(culler).wf(),
        final(culler).leaves_cull_mode == old(culler).leaves_cull_mode,
        final(culler).glass_cull_mode == old(culler).glass_cull_mode,
        old(culler).cache_plain() ==> final(culler).cache_plain(),
        state_str@.len() == 0 ==> r@.len() == 0 && cache_state(*final(culler)) == cache_state(*old(culler)),
        state_str@.len() > 0 && lookup_meta(cache_state(*old(culler)), state_str@).is_air ==> r@.len() == 0
            && cache_state(*final(culler)) == lookup_step(cache_state(*old(culler)), state_str@),
        state_str@.len() > 0 && !lookup_meta(cache_state(*old(culler)), state_str@).is_air
            ==> exists|states: Seq<Option<Seq<char>>>|
            states.len() == 6 && (forall|j: int|
                0 <= j < 6 ==> #[trigger] answered(get_neighbor_state, neighbor_pos((x, y, z), j), states[j]))
                && #[trigger] visible_dirs(
                old(culler).leaves_cull_mode,
                old(culler).glass_cull_mode,
                lookup_meta(cache_state(*old(culler)), state_str@),
                neighbor_lookups(lookup_step(cache_state(*old(culler)), state_str@), states).0,
                (x, y, z),
            ) == r@ && cache_state(*final(culler)) == neighbor_lookups(
                lookup_step(cache_state(*old(culler)), state_str@),
                states,
            ).1,
{
    if state_str.is_empty() {
        return Vec::new();
    }
    let ghost c0 = cache_state(*culler);
    let meta = culler.get_meta(state_str, None, None);
    let ghost c1 = lookup_step(c0, state_str@);
    proof {
        assert(meta@ == lookup_meta(c0, state_str@));
        assert(cache_state(*culler) == c1);
        if old(culler).cache_plain() {
            assert(plain_view(c0.1));
            lemma_plain_step(c0, state_str@);
        }
    }
    if meta.is_air {
        let empty: Vec<Direction> = Vec::new();
        assert(empty@ == Seq::<Direction>::empty());
        return empty;
    }
    let pos = (x, y, z);
    let mut neighbors: Vec<Option<Arc<BlockCullMeta>>> = Vec::new();
    let ghost mut states: Seq<Option<Seq<char>>> = seq![];
    let mut i: usize = 0;
    while i < 6
        invariant
            i <= 6,
            culler.wf(),
            neighbors.len() == i,
            states.len() == i,
            culler.leaves_cull_mode == old(culler).leaves_cull_mode,
            culler.glass_cull_mode == old(culler).glass_cull_mode,
            pos_inner((x, y, z)),
            forall|a: i32, b: i32, c: i32| call_requires(get_neighbor_state, (a, b, c)),
            forall|a: i32, b: i32, c: i32, s: Option<String>|
                call_ensures(get_neighbor_state, (a, b, c), s) ==> (s matches Some(t) ==> parse_ok(t@)),
            arc_opts_view(neighbors@) == neighbor_lookups(c1, states).0,
            cache_state(*culler) == neighbor_lookups(c1, states).1,
            forall|j: int|
                0 <= j < i ==> #[trigger] answered(get_neighbor_state, neighbor_pos((x, y, z), j), states[j]),
        decreases 6 - i,
    {
        let dir = Direction::ALL[i];
        let (dx, dy, dz) = dir.offset();
        let nx: i32 = x + dx;
        let ny: i32 = y + dy;
        let nz: i32 = z + dz;
        let n_state = get_neighbor_state(nx, ny, nz);
        proof {
            assert(Direction::ALL@[i as int] == crate::direction::dir_from_index(i as int)->0);
            assert(neighbor_pos((x, y, z), i as int) == (nx, ny, nz));
        }
        let ghost cb = cache_state(*culler);
        let n_meta = match &n_state {
            Some(s) => Some(culler.get_meta(s.as_str(), None, None)),
            None => None,
        };
        let ghost old_nb = neighbors@;
        let ghost old_states = states;
        let ghost sv: Option<Seq<char>> = match &n_state {
            Some(s) => Some(s@),
            None => None,
        };
        let ghost mv: Option<MetaView> = match &n_meta {
            Some(m) => Some(m@),
            None => None,
        };
        proof {
            let np = neighbor_pos((x, y, z), i as int);
            assert(np.0 == nx && np.1 == ny && np.2 == nz);
            assert((np.0, np.1, np.2) == (nx, ny, nz));
            assert(call_ensures(get_neighbor_state, (np.0, np.1, np.2), n_state) && opt_text(n_state) == sv);
            assert(answered(get_neighbor_state, neighbor_pos((x, y, z), i as int), sv));
            states = states.push(sv);
            assert(states.drop_last() =~= old_states);
            assert forall|j: int| 0 <= j < i + 1 implies #[trigger] answered(
                get_neighbor_state,
                neighbor_pos((x, y, z), j),
                states[j],
            ) by {
                if j < i {
                    assert(states[j] == old_states[j]);
                }
            }
            match sv {
                Some(t) => {
                    assert(mv == Some(lookup_meta(cb, t)));
                    assert(cache_state(*culler) == lookup_step(cb, t));
                },
                None => {
                    assert(cache_state(*culler) == cb);
                },
            }
        }
        neighbors.push(n_meta);
        proof {
            assert(arc_opts_view(neighbors@) =~= arc_opts_view(old_nb).push(mv));
            assert(neighbor_lookups(c1, states).0 =~= neighbor_lookups(c1, old_states).0.push(mv));
        }
        i += 1;
    }
    let r = culler.visible_face_directions_from(&meta, pos, &neighbors);
    proof {
        assert(visible_dirs(
            old(culler).leaves_cull_mode,
            old(culler).glass_cull_mode,
            lookup_meta(c0, state_str@),
            neighbor_lookups(c1, states).0,
            (x, y, z),
        ) == r@);
        if old(culler).cache_plain() {
            lemma_plain_lookups(c1, states);
            assert(plain_view(culler.cache_view()));
        }
    }
    r
}

} // verus!
