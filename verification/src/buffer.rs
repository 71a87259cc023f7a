//! The tile cache: a fixed arena of texture slots keyed by cell, with
//! least-recently-used eviction that never touches a root cell or a
//! cell of the current visible set, and nearest-resident-ancestor
//! lookup for cells whose tile has not arrived yet.

use vstd::prelude::*;

use crate::cell::HEALPixCell;
use crate::cell::MAX_DEPTH;
use crate::cell::lemma_ancestor_wf;
use crate::cell::pow4;
use crate::view::HEALPixCells;

verus! {

/// Static description of one survey: where its tiles come from and how
/// its texture storage is laid out.
#[derive(Debug)]
pub struct HiPSConfig {
    pub root_url: String,
    pub max_depth: u8,
    pub texture_size: u32,
    pub num_slots: usize,
    pub is_color: bool,
    pub min_cutout: i64,
    pub max_cutout: i64,
    pub hysteresis_margin: i64,
}

/// Why a survey description was rejected.
#[derive(Clone, Copy, PartialEq, Eq, Structural, Debug)]
pub enum ConfigError {
    DepthTooDeep,
    BadTextureSize,
    TooFewSlots,
    TooManySlots,
    BadHysteresisMargin,
}

/// The conditions a survey description must meet.
pub open spec fn config_args_valid(
    max_depth: u8,
    texture_size: u32,
    num_slots: usize,
    hysteresis_margin: i64,
) -> bool {
    &&& max_depth <= MAX_DEPTH
    &&& 0 < texture_size <= 0x10000
    &&& 12 <= num_slots <= 0x4000_0000
    &&& 0 <= hysteresis_margin <= crate::geometry::GRID_WIDTH
}

/// Which rejection an invalid description earns: the checks run in a
/// fixed order and the first failing one decides.
pub open spec fn spec_config_error(
    max_depth: u8,
    texture_size: u32,
    num_slots: usize,
    hysteresis_margin: i64,
) -> ConfigError {
    if max_depth > MAX_DEPTH {
        ConfigError::DepthTooDeep
    } else if texture_size == 0 || texture_size > 0x10000 {
        ConfigError::BadTextureSize
    } else if num_slots < 12 {
        ConfigError::TooFewSlots
    } else if num_slots > 0x4000_0000 {
        ConfigError::TooManySlots
    } else {
        ConfigError::BadHysteresisMargin
    }
}

impl HiPSConfig {
    pub open spec fn wf(self) -> bool {
        &&& self.max_depth <= MAX_DEPTH
        &&& 0 < self.texture_size <= 0x10000
        &&& 12 <= self.num_slots <= 0x4000_0000
        &&& 0 <= self.hysteresis_margin <= crate::geometry::GRID_WIDTH
    }

    /// Accepts a survey description exactly when the grid supports its
    /// depth, the texture size is positive and bounded, and the cache
    /// holds at least the 12 never-evicted root tiles.
    pub fn new(
        root_url: String,
        max_depth: u8,
        texture_size: u32,
        num_slots: usize,
        is_color: bool,
        min_cutout: i64,
        max_cutout: i64,
        hysteresis_margin: i64,
    ) -> (r: Result<HiPSConfig, ConfigError>)
        ensures
            r is Ok <==> config_args_valid(max_depth, texture_size, num_slots, hysteresis_margin),
            r matches Ok(c) ==> c.wf() && c.root_url@ == root_url@ && c.max_depth == max_depth
                && c.texture_size == texture_size && c.num_slots == num_slots && c.is_color
                == is_color && c.min_cutout == min_cutout && c.max_cutout == max_cutout
                && c.hysteresis_margin == hysteresis_margin,
            r matches Err(e) ==> e == spec_config_error(
                max_depth,
                texture_size,
                num_slots,
                hysteresis_margin,
            ),
    {
        if max_depth > MAX_DEPTH {
            return Err(ConfigError::DepthTooDeep);
        }
        if texture_size == 0 || texture_size > 0x10000 {
            return Err(ConfigError::BadTextureSize);
        }
        if num_slots < 12 {
            return Err(ConfigError::TooFewSlots);
        }
        if num_slots > 0x4000_0000 {
            return Err(ConfigError::TooManySlots);
        }
        if hysteresis_margin < 0 || hysteresis_margin > crate::geometry::GRID_WIDTH {
            return Err(ConfigError::BadHysteresisMargin);
        }
        Ok(
            HiPSConfig {
                root_url,
                max_depth,
                texture_size,
                num_slots,
                is_color,
                min_cutout,
                max_cutout,
                hysteresis_margin,
            },
        )
    }

    pub fn get_max_depth(&self) -> (d: u8)
        ensures
            d == self.max_depth,
    {
        self.max_depth
    }

    pub fn get_texture_size(&self) -> (s: u32)
        ensures
            s == self.texture_size,
    {
        self.texture_size
    }
}

/// One resident tile: which cell it shows, when it was admitted (the
/// blend start), when it was requested, whether it is the permanent
/// placeholder for a missing tile, and its region of the atlas.
#[derive(Clone, Copy, PartialEq, Eq, Structural, Debug)]
pub struct Texture {
    pub cell: HEALPixCell,
    pub start_time: u64,
    pub time_request: u64,
    pub missing: bool,
    pub slot_idx: usize,
    pub last_used: u64,
}

impl Texture {
    pub fn start_time(&self) -> (t: u64)
        ensures
            t == self.start_time,
    {
        self.start_time
    }

    pub fn cell(&self) -> (c: HEALPixCell)
        ensures
            c == self.cell,
    {
        self.cell
    }
}

/// The texture store of one survey: a flat arena of slots plus the
/// edge-triggered flag that tells the draw path new tiles arrived.
pub struct ImageSurveyTextures {
    pub config: HiPSConfig,
    pub slots: Vec<Option<Texture>>,
    pub available_tiles_flag: bool,
}

impl ImageSurveyTextures {
    pub open spec fn wf(self) -> bool {
        &&& self.config.wf()
        &&& self.slots@.len() == self.config.num_slots
        &&& forall|i: int|
            0 <= i < self.slots@.len() && self.slots@[i] is Some ==> (
            #[trigger] self.slots@[i]).unwrap().cell.wf() && self.slots@[i].unwrap().slot_idx == i
        &&& forall|i: int, j: int|
            0 <= i < self.slots@.len() && 0 <= j < self.slots@.len() && i != j && self.slots@[i]
                is Some && self.slots@[j] is Some ==> (#[trigger] self.slots@[i]).unwrap().cell != (
            #[trigger] self.slots@[j]).unwrap().cell
    }

    /// The cell's tile is in the cache.
    pub open spec fn resident(self, c: HEALPixCell) -> bool {
        exists|i: int|
            0 <= i < self.slots@.len() && (#[trigger] self.slots@[i]) is Some
                && self.slots@[i].unwrap().cell == c
    }

    /// All 12 root tiles are resident; nothing is drawn before this
    /// holds, since no fallback chain could terminate.
    pub open spec fn spec_is_ready(self) -> bool {
        forall|r: int| 0 <= r < 12 ==> self.resident(#[trigger] crate::view::root_cell(r))
    }

    pub open spec fn empty_at(self, i: int) -> bool {
        0 <= i < self.slots@.len() && self.slots@[i] is None
    }

    /// A slot the policy may evict: occupied, not a root tile, and not
    /// showing a cell of the protected (currently visible) set.
    pub open spec fn evictable_at(self, i: int, protected: Seq<HEALPixCell>) -> bool {
        &&& 0 <= i < self.slots@.len()
        &&& self.slots@[i] is Some
        &&& self.slots@[i].unwrap().cell.depth > 0
        &&& !protected.contains(self.slots@[i].unwrap().cell)
    }

    pub fn new(config: HiPSConfig) -> (t: ImageSurveyTextures)
        requires
            config.wf(),
        ensures
            t.wf(),
            t.config == config,
            forall|c: HEALPixCell| !t.resident(c),
            !t.available_tiles_flag,
    {
        let n = config.num_slots;
        let mut slots: Vec<Option<Texture>> = Vec::new();
        let mut i: usize = 0;
        while i < n
            invariant
                0 <= i <= n,
                slots@.len() == i,
                forall|j: int| 0 <= j < i ==> (#[trigger] slots@[j]) is None,
            decreases n - i,
        {
            slots.push(None);
            i = i + 1;
        }
        ImageSurveyTextures { config, slots, available_tiles_flag: false }
    }

    pub fn config(&self) -> (c: &HiPSConfig)
        ensures
            *c == self.config,
    {
        &self.config
    }

    /// The index of the slot showing the cell, if any.
    fn find_slot_of(&self, cell: &HEALPixCell) -> (r: Option<usize>)
        ensures
            match r {
                Some(i) => 0 <= i < self.slots@.len() && self.slots@[i as int] is Some
                    && self.slots@[i as int].unwrap().cell == *cell,
                None => !self.resident(*cell),
            },
    {
        let mut i: usize = 0;
        while i < self.slots.len()
            invariant
                0 <= i <= self.slots@.len(),
                forall|j: int|
                    0 <= j < i ==> !((#[trigger] self.slots@[j]) is Some && self.slots@[j].unwrap().cell
                        == *cell),
            decreases self.slots@.len() - i,
        {
            if let Some(t) = &self.slots[i] {
                if t.cell.depth == cell.depth && t.cell.idx == cell.idx {
                    assert(self.slots@[i as int].unwrap().cell == *cell);
                    return Some(i);
                }
            }
            i = i + 1;
        }
        None
    }

    pub fn contains(&self, cell: &HEALPixCell) -> (b: bool)
        ensures
            b == self.resident(*cell),
    {
        match self.find_slot_of(cell) {
            Some(_) => true,
            None => false,
        }
    }

    /// The texture showing the cell. Callers check `contains` first;
    /// an absent cell yields None, the cache-miss condition.
    pub fn get(&self, cell: &HEALPixCell) -> (r: Option<Texture>)
        requires
            self.wf(),
        ensures
            r is Some <==> self.resident(*cell),
            r matches Some(t) ==> t.cell == *cell && 0 <= t.slot_idx < self.slots@.len()
                && self.slots@[t.slot_idx as int] == Some(t) && t == spec_texture(*self, *cell),
    {
        match self.find_slot_of(cell) {
            Some(i) => {
                proof {
                    let j = choose|j: int|
                        0 <= j < self.slots@.len() && (#[trigger] self.slots@[j]) is Some
                            && self.slots@[j].unwrap().cell == *cell;
                    assert(self.slots@[i as int] is Some && self.slots@[i as int].unwrap().cell
                        == *cell);
                    assert(j == i as int);
                }
                self.slots[i]
            },
            None => None,
        }
    }

    /// True once all 12 root tiles are resident.
    pub fn is_ready(&self) -> (b: bool)
        ensures
            b == self.spec_is_ready(),
    {
        let mut r: u64 = 0;
        while r < 12
            invariant
                0 <= r <= 12,
                forall|j: int| 0 <= j < r ==> self.resident(#[trigger] crate::view::root_cell(j)),
            decreases 12 - r,
        {
            let root = HEALPixCell { depth: 0, idx: r };
            if !self.contains(&root) {
                assert(!self.resident(crate::view::root_cell(r as int)));
                return false;
            }
            r = r + 1;
        }
        true
    }

    /// The nearest resident proper ancestor of the cell (the cell
    /// itself if it is a root): climbs parent links until a resident
    /// cell is found, which takes at most `depth` steps because every
    /// root is resident once the cache is ready.
    pub fn get_nearest_parent(&self, cell: &HEALPixCell) -> (a: HEALPixCell)
        requires
            self.wf(),
            cell.wf(),
            self.spec_is_ready(),
        ensures
            a == spec_nearest_parent(*self, *cell),
            a.wf(),
            self.resident(a),
            cell.has_ancestor(a),
            cell.depth == 0 ==> a == *cell,
            cell.depth > 0 ==> a.depth < cell.depth,
            forall|m: HEALPixCell|
                m.wf() && cell.has_ancestor(m) && a.depth < m.depth < cell.depth
                    ==> !self.resident(m),
    {
        let mut c: HEALPixCell = *cell;
        proof {
            assert(c.spec_ancestor(0) == c);
        }
        if c.depth == 0 {
            proof {
                lemma_ancestor_wf(*cell, 0);
                assert(crate::view::root_cell(c.idx as int) == c) by {
                    assert(pow4(0) == 1);
                }
            }
            return c;
        }
        while c.depth > 0
            invariant
                c.wf(),
                self.wf(),
                self.spec_is_ready(),
                cell.wf(),
                c.depth <= cell.depth,
                cell.has_ancestor(c),
                spec_nearest_parent(*self, *cell) == spec_nearest_parent(*self, c),
                forall|m: HEALPixCell|
                    m.wf() && cell.has_ancestor(m) && c.depth <= m.depth < cell.depth
                        ==> !self.resident(m),
            decreases c.depth,
        {
            proof {
                crate::cell::lemma_ancestor_step(*cell, (cell.depth - c.depth) as nat);
            }
            let p = c.parent();
            proof {
                assert(cell.has_ancestor(p));
            }
            if self.contains(&p) {
                return p;
            }
            proof {
                assert forall|m: HEALPixCell|
                    m.wf() && cell.has_ancestor(m) && p.depth <= m.depth
                        < cell.depth implies !self.resident(m) by {
                    if m.depth == p.depth {
                        assert(m == cell.spec_ancestor((cell.depth - m.depth) as nat));
                        assert(m == p);
                    }
                }
            }
            c = p;
        }
        proof {
            assert(c.depth == 0);
            lemma_ancestor_wf(*cell, cell.depth as nat);
            assert(crate::view::root_cell(c.idx as int) == c) by {
                assert(pow4(0) == 1);
            }
            assert(self.resident(c));
        }
        c
    }

    /// The first free slot, if any.
    fn find_empty(&self) -> (r: Option<usize>)
        ensures
            match r {
                Some(i) => self.empty_at(i as int),
                None => forall|i: int| 0 <= i < self.slots@.len() ==> !self.empty_at(i),
            },
    {
        let mut i: usize = 0;
        while i < self.slots.len()
            invariant
                0 <= i <= self.slots@.len(),
                forall|j: int| 0 <= j < i ==> !self.empty_at(j),
            decreases self.slots@.len() - i,
        {
            if self.slots[i].is_none() {
                return Some(i);
            }
            i = i + 1;
        }
        None
    }

    /// The evictable slot least recently used, if any slot may be
    /// evicted at all.
    fn find_lru_evictable(&self, protected: &HEALPixCells) -> (r: Option<usize>)
        ensures
            match r {
                Some(i) => self.evictable_at(i as int, protected.cells@) && forall|j: int|
                    self.evictable_at(j, protected.cells@) ==> self.slots@[i as int].unwrap().last_used
                        <= self.slots@[j].unwrap().last_used,
                None => forall|j: int| !self.evictable_at(j, protected.cells@),
            },
    {
        let mut best: Option<usize> = None;
        let mut i: usize = 0;
        while i < self.slots.len()
            invariant
                0 <= i <= self.slots@.len(),
                match best {
                    Some(b) => self.evictable_at(b as int, protected.cells@) && forall|j: int|
                        0 <= j < i && self.evictable_at(j, protected.cells@)
                            ==> self.slots@[b as int].unwrap().last_used
                            <= self.slots@[j].unwrap().last_used,
                    None => forall|j: int| 0 <= j < i ==> !self.evictable_at(j, protected.cells@),
                },
            decreases self.slots@.len() - i,
        {
            if let Some(t) = &self.slots[i] {
                if t.cell.depth > 0 && !protected.contains(&t.cell) {
                    assert(self.evictable_at(i as int, protected.cells@));
                    match best {
                        Some(b) => {
                            if t.last_used < self.slots[b].unwrap().last_used {
                                best = Some(i);
                            }
                        },
                        None => {
                            best = Some(i);
                        },
                    }
                }
            }
            i = i + 1;
        }
        best
    }

    /// Advances one slot's recency stamp: the draw path touches the
    /// slots it reads, so eviction prefers tiles not recently drawn.
    pub fn touch_slot(&mut self, idx: usize, now: u64)
        requires
            old(self).wf(),
        ensures
            final(self).wf(),
            final(self).config == old(self).config,
            final(self).available_tiles_flag == old(self).available_tiles_flag,
            idx < old(self).slots@.len() && old(self).slots@[idx as int] is Some ==> final(self).slots@
                == old(self).slots@.update(
                idx as int,
                Some(Texture { last_used: now, ..old(self).slots@[idx as int].unwrap() }),
            ),
            !(idx < old(self).slots@.len() && old(self).slots@[idx as int] is Some)
                ==> *final(self) == *old(self),
    {
        if idx < self.slots.len() {
            match self.slots[idx] {
                Some(t) => {
                    self.slots.set(idx, Some(Texture { last_used: now, ..t }));
                },
                None => {},
            }
        }
    }

    /// Marks that a tile for this survey arrived and is waiting to be
    /// admitted; consumed once per frame by the draw path.
    pub fn register_available_tile(&mut self)
        ensures
            *final(self) == (ImageSurveyTextures { available_tiles_flag: true, ..*old(self) }),
    {
        self.available_tiles_flag = true;
    }

    /// Edge-triggered: reports whether new tiles arrived since the
    /// last check, and resets the flag.
    pub fn is_there_available_tiles(&mut self) -> (b: bool)
        ensures
            b == old(self).available_tiles_flag,
            *final(self) == (ImageSurveyTextures { available_tiles_flag: false, ..*old(self) }),
    {
        let b = self.available_tiles_flag;
        self.available_tiles_flag = false;
        b
    }

    /// Admits a fetched tile (or the placeholder for a missing one)
    /// into the cache. An already resident cell is refreshed in place;
    /// otherwise a free slot is used, and failing that the least
    /// recently used slot that is neither a root tile nor in the
    /// protected (visible) set is evicted. With no evictable slot the
    /// admission is rejected: a soft failure, since a resident
    /// ancestor remains a valid fallback.
    pub fn push(
        &mut self,
        cell: HEALPixCell,
        missing: bool,
        time_request: u64,
        now: u64,
        protected: &HEALPixCells,
    ) -> (admitted: bool)
        requires
            old(self).wf(),
            cell.wf(),
        ensures
            final(self).wf(),
            admit_post(
                *old(self),
                *final(self),
                cell,
                missing,
                time_request,
                now,
                protected.cells@,
                admitted,
            ),
    {
        let slot = match self.find_slot_of(&cell) {
            Some(i) => Some(i),
            None => match self.find_empty() {
                Some(i) => Some(i),
                None => self.find_lru_evictable(protected),
            },
        };
        match slot {
            Some(i) => {
                let tex = Texture {
                    cell,
                    start_time: now,
                    time_request,
                    missing,
                    slot_idx: i,
                    last_used: now,
                };
                self.slots.set(i, Some(tex));
                self.available_tiles_flag = true;
                proof {
                    let pre = *old(self);
                    let post = *self;
                    assert(post.slots@[i as int] == Some(tex));
                    assert forall|c: HEALPixCell| post.resident(c) implies c == cell
                        || pre.resident(c) by {
                        let j = choose|j: int|
                            0 <= j < post.slots@.len() && (#[trigger] post.slots@[j]) is Some
                                && post.slots@[j].unwrap().cell == c;
                        if j != i {
                            assert(pre.slots@[j] == post.slots@[j]);
                        }
                    }
                    assert forall|c: HEALPixCell|
                        pre.resident(c) && (c.depth == 0 || protected.cells@.contains(
                            c,
                        )) implies post.resident(c) by {
                        let j = choose|j: int|
                            0 <= j < pre.slots@.len() && (#[trigger] pre.slots@[j]) is Some
                                && pre.slots@[j].unwrap().cell == c;
                        if j == i {
                            if pre.resident(cell) {
                                assert(pre.slots@[i as int].unwrap().cell == cell);
                                assert(c == cell);
                                assert(post.slots@[i as int].unwrap().cell == c);
                            }
                        } else {
                            assert(post.slots@[j] == pre.slots@[j]);
                        }
                    }
                }
                true
            },
            None => {
                proof {
                    let pre = *old(self);
                    assert(!pre.resident(cell));
                    assert forall|c: HEALPixCell|
                        pre.resident(c) && (c.depth == 0 || protected.cells@.contains(
                            c,
                        )) implies self.resident(c) by {}
                }
                false
            },
        }
    }
}

/// The nearest resident proper ancestor, as a function of the cache
/// and the cell: what `get_nearest_parent` returns.
pub open spec fn spec_nearest_parent(s: ImageSurveyTextures, c: HEALPixCell) -> HEALPixCell
    decreases c.depth,
{
    if c.depth == 0 {
        c
    } else if s.resident(c.spec_parent()) {
        c.spec_parent()
    } else {
        spec_nearest_parent(s, c.spec_parent())
    }
}

/// The texture of a resident cell: the contents of its slot.
pub open spec fn spec_texture(s: ImageSurveyTextures, c: HEALPixCell) -> Texture {
    s.slots@[choose|i: int|
        0 <= i < s.slots@.len() && (#[trigger] s.slots@[i]) is Some && s.slots@[i].unwrap().cell
            == c].unwrap()
}

/// Everything `push` promises, as one predicate: the cache after an
/// admission attempt, relative to the cache before it.
pub open spec fn admit_post(
    pre: ImageSurveyTextures,
    post: ImageSurveyTextures,
    cell: HEALPixCell,
    missing: bool,
    time_request: u64,
    now: u64,
    protected: Seq<HEALPixCell>,
    admitted: bool,
) -> bool {
    &&& post.config == pre.config
    &&& post.slots@.len() == pre.slots@.len()
    &&& post.available_tiles_flag == (pre.available_tiles_flag || admitted)
    &&& forall|c: HEALPixCell|
        pre.resident(c) && (c.depth == 0 || protected.contains(c)) ==> post.resident(c)
    &&& forall|c: HEALPixCell| post.resident(c) ==> c == cell || pre.resident(c)
    &&& admitted == (pre.resident(cell) || (exists|i: int| pre.empty_at(i)) || (exists|i: int|
        pre.evictable_at(i, protected)))
    &&& (admitted ==> exists|i: int|
        {
            &&& 0 <= i < post.slots@.len()
            &&& (#[trigger] post.slots@[i]) == Some(
                Texture {
                    cell,
                    start_time: now,
                    time_request,
                    missing,
                    slot_idx: i as usize,
                    last_used: now,
                },
            )
            &&& forall|j: int|
                0 <= j < post.slots@.len() && j != i ==> post.slots@[j] == pre.slots@[j]
            &&& (pre.resident(cell) ==> pre.slots@[i] is Some && pre.slots@[i].unwrap().cell
                == cell)
            &&& (!pre.resident(cell) && (exists|k: int| pre.empty_at(k)) ==> pre.empty_at(i))
            &&& (!pre.resident(cell) && !(exists|k: int| pre.empty_at(k)) ==> pre.evictable_at(
                i,
                protected,
            ) && (forall|j: int|
                pre.evictable_at(j, protected) ==> pre.slots@[i].unwrap().last_used
                    <= pre.slots@[j].unwrap().last_used))
        })
    &&& (!admitted ==> post.slots@ == pre.slots@)
}

/// Eviction safety: a root tile, or a tile of the protected visible
/// set, that was resident before an admission attempt is still
/// resident after it, whatever the attempt did.
pub proof fn lemma_eviction_safety(
    pre: ImageSurveyTextures,
    post: ImageSurveyTextures,
    cell: HEALPixCell,
    missing: bool,
    time_request: u64,
    now: u64,
    protected: Seq<HEALPixCell>,
    admitted: bool,
    c: HEALPixCell,
)
    requires
        admit_post(pre, post, cell, missing, time_request, now, protected, admitted),
        pre.resident(c),
        c.depth == 0 || protected.contains(c),
    ensures
        post.resident(c),
{
}

} // verus!
