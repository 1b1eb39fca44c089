//! Virtual addresses, page numbers and the memory areas of an address space.
use vstd::prelude::*;
use crate::config::PAGE_SIZE;

verus! {

/// Largest value, plus one, that a virtual address keeps under SV39.
pub open spec fn va_limit() -> int {
    0x80_0000_0000
}

/// A virtual address.
#[derive(Clone, Copy, Debug, PartialEq, Eq, Structural)]
pub struct VirtAddr(pub usize);

/// A virtual page number.
#[derive(Clone, Copy, Debug, PartialEq, Eq, Structural)]
pub struct VirtPageNum(pub usize);

/// The page that holds address `va`.
pub open spec fn floor_spec(va: int) -> int {
    va / (PAGE_SIZE as int)
}

/// The first page at or above address `va`.
pub open spec fn ceil_spec(va: int) -> int {
    if va == 0 {
        0
    } else {
        (va - 1 + PAGE_SIZE as int) / (PAGE_SIZE as int)
    }
}

impl VirtAddr {
    /// The virtual address for `v`: its low `VA_WIDTH_SV39` bits.
    pub fn from(v: usize) -> (va: VirtAddr)
        ensures
            va.0 as int == v as int % va_limit(),
    {
        let w: u64 = v as u64;
        let mask: u64 = 0x7f_ffff_ffff;
        let r: u64 = w & mask;
        assert(r == w % 0x80_0000_0000u64) by (bit_vector)
            requires
                mask == 0x7f_ffff_ffffu64,
                r == w & mask,
        ;
        assert(r <= v);
        VirtAddr(r as usize)
    }

    /// The page that holds this address.
    pub fn floor(&self) -> (p: VirtPageNum)
        ensures
            p.0 as int == floor_spec(self.0 as int),
    {
        VirtPageNum(self.0 / PAGE_SIZE)
    }

    /// The first page at or above this address.
    pub fn ceil(&self) -> (p: VirtPageNum)
        ensures
            p.0 as int == ceil_spec(self.0 as int),
    {
        if self.0 == 0 {
            VirtPageNum(0)
        } else {
            VirtPageNum((self.0 - 1) / PAGE_SIZE + 1)
        }
    }
}

/// The access rights of a memory area.
#[derive(Clone, Copy, Debug, PartialEq, Eq, Structural)]
pub struct MapPermission {
    /// The raw permission bits.
    pub bits: u8,
}

impl MapPermission {
    /// Readable.
    pub const R: u8 = 0x2;
    /// Writable.
    pub const W: u8 = 0x4;
    /// Executable.
    pub const X: u8 = 0x8;
    /// Accessible from user mode.
    pub const U: u8 = 0x10;
}

/// A half-open range of page numbers `[l, r)`.
#[derive(Clone, Copy, Debug, PartialEq, Eq, Structural)]
pub struct VPNRange {
    /// First page of the range.
    pub l: VirtPageNum,
    /// First page past the range.
    pub r: VirtPageNum,
}

impl VPNRange {
    /// The range `[start, end)`.
    pub fn new(start: VirtPageNum, end: VirtPageNum) -> (range: VPNRange)
        requires
            start.0 <= end.0,
        ensures
            range == (VPNRange { l: start, r: end }),
    {
        VPNRange { l: start, r: end }
    }

    /// First page of the range.
    pub fn get_start(&self) -> (p: VirtPageNum)
        ensures
            p == self.l,
    {
        self.l
    }

    /// First page past the range.
    pub fn get_end(&self) -> (p: VirtPageNum)
        ensures
            p == self.r,
    {
        self.r
    }

    /// Whether page `vpn` lies in the range.
    pub fn contains(&self, vpn: VirtPageNum) -> (b: bool)
        ensures
            b == (self.l.0 <= vpn.0 < self.r.0),
    {
        self.l.0 <= vpn.0 && vpn.0 < self.r.0
    }
}

/// A memory area of an address space: a range of pages and their rights.
#[derive(Clone, Copy, Debug, PartialEq, Eq, Structural)]
pub struct MapArea {
    /// The pages of the area.
    pub vpn_range: VPNRange,
    /// The rights of the area.
    pub map_perm: MapPermission,
}

impl MapArea {
    /// The area that covers the pages from `start_va` up to `end_va`.
    pub fn new(start_va: VirtAddr, end_va: VirtAddr, map_perm: MapPermission) -> (a: MapArea)
        requires
            floor_spec(start_va.0 as int) <= ceil_spec(end_va.0 as int),
        ensures
            a.vpn_range.l.0 as int == floor_spec(start_va.0 as int),
            a.vpn_range.r.0 as int == ceil_spec(end_va.0 as int),
            a.map_perm == map_perm,
    {
        MapArea { vpn_range: VPNRange::new(start_va.floor(), end_va.ceil()), map_perm }
    }
}

/// Page `vpn` lies in area `a`.
pub open spec fn area_contains(a: MapArea, vpn: int) -> bool {
    a.vpn_range.l.0 <= vpn < a.vpn_range.r.0
}

/// Some page of `[l, r)` lies in one of `areas`.
pub open spec fn range_overlaps(areas: Seq<MapArea>, l: int, r: int) -> bool {
    exists|i: int, vpn: int|
        0 <= i < areas.len() && l <= vpn < r && #[trigger] area_contains(areas[i], vpn)
}

/// Some area of `areas` covers exactly pages `[l, r)`.
pub open spec fn has_area_exactly(areas: Seq<MapArea>, l: int, r: int) -> bool {
    exists|i: int| 0 <= i < areas.len() && #[trigger] areas[i].vpn_range.l.0 == l && areas[i].vpn_range.r.0 == r
}

/// Index of the first of `areas` that starts at page `start`, or -1.
pub open spec fn first_area_starting_at(areas: Seq<MapArea>, start: int) -> int
    decreases areas.len(),
{
    if areas.len() == 0 {
        -1
    } else {
        let r = first_area_starting_at(areas.drop_last(), start);
        if r >= 0 {
            r
        } else if areas.last().vpn_range.l.0 == start {
            areas.len() - 1
        } else {
            -1
        }
    }
}

/// What `first_area_starting_at` finds.
pub proof fn lemma_first_area_starting_at(areas: Seq<MapArea>, start: int)
    ensures
        ({
            let r = first_area_starting_at(areas, start);
            &&& -1 <= r < areas.len()
            &&& r >= 0 ==> areas[r].vpn_range.l.0 == start
            &&& forall|j: int| 0 <= j < areas.len() && (r < 0 || j < r) ==> areas[j].vpn_range.l.0 != start
        }),
    decreases areas.len(),
{
    if areas.len() > 0 {
        let p = areas.drop_last();
        lemma_first_area_starting_at(p, start);
        assert forall|j: int| 0 <= j < p.len() implies #[trigger] areas[j] == p[j] by {}
    }
}

/// The memory areas of an address space.
pub struct MemorySet {
    /// The areas, in the order they were added.
    pub areas: Vec<MapArea>,
}

impl MemorySet {
    /// An address space with no areas.
    pub fn new_bare() -> (ms: MemorySet)
        ensures
            ms.areas@ == Seq::<MapArea>::empty(),
    {
        MemorySet { areas: Vec::new() }
    }

    /// Adds the area that covers `start_va` up to `end_va` with rights `permission`.
    pub fn insert_framed_area(&mut self, start_va: VirtAddr, end_va: VirtAddr, permission: MapPermission)
        requires
            floor_spec(start_va.0 as int) <= ceil_spec(end_va.0 as int),
        ensures
            final(self).areas@.len() == old(self).areas@.len() + 1,
            final(self).areas@.drop_last() == old(self).areas@,
            final(self).areas@.last().vpn_range.l.0 as int == floor_spec(start_va.0 as int),
            final(self).areas@.last().vpn_range.r.0 as int == ceil_spec(end_va.0 as int),
            final(self).areas@.last().map_perm == permission,
    {
        self.areas.push(MapArea::new(start_va, end_va, permission));
        assert(self.areas@.drop_last() =~= old(self).areas@);
    }

    /// Removes the first area that starts at page `start_vpn`; `None` when there is none.
    pub fn remove_area_with_start_vpn(&mut self, start_vpn: VirtPageNum) -> (r: Option<()>)
        ensures
            ({
                let i = first_area_starting_at(old(self).areas@, start_vpn.0 as int);
                if i < 0 {
                    r is None && final(self).areas@ == old(self).areas@
                } else {
                    r is Some && final(self).areas@ == old(self).areas@.remove(i)
                }
            }),
    {
        let n = self.areas.len();
        let mut idx: usize = 0;
        while idx < n
            invariant
                n == self.areas@.len(),
                self.areas@ == old(self).areas@,
                idx <= n,
                forall|j: int| 0 <= j < idx ==> self.areas@[j].vpn_range.l.0 != start_vpn.0,
            decreases n - idx,
        {
            if self.areas[idx].vpn_range.l.0 == start_vpn.0 {
                proof {
                    lemma_first_area_starting_at(self.areas@, start_vpn.0 as int);
                }
                self.areas.remove(idx);
                return Some(());
            }
            idx = idx + 1;
        }
        proof {
            lemma_first_area_starting_at(self.areas@, start_vpn.0 as int);
        }
        None
    }

    /// The rights of the first area that holds page `vpn`, if any area does.
    pub fn translate(&self, vpn: VirtPageNum) -> (r: Option<MapPermission>)
        ensures
            r is Some <==> exists|i: int| 0 <= i < self.areas@.len() && #[trigger] area_contains(self.areas@[i], vpn.0 as int),
            r matches Some(p) ==> exists|i: int|
                0 <= i < self.areas@.len() && #[trigger] area_contains(self.areas@[i], vpn.0 as int)
                    && self.areas@[i].map_perm == p && forall|j: int| 0 <= j < i ==> !area_contains(self.areas@[j], vpn.0 as int),
    {
        let n = self.areas.len();
        let mut i: usize = 0;
        while i < n
            invariant
                n == self.areas@.len(),
                i <= n,
                forall|j: int| 0 <= j < i ==> !#[trigger] area_contains(self.areas@[j], vpn.0 as int),
            decreases n - i,
        {
            if self.areas[i].vpn_range.contains(vpn) {
                assert(area_contains(self.areas@[i as int], vpn.0 as int));
                return Some(self.areas[i].map_perm);
            }
            i = i + 1;
        }
        None
    }

    /// Whether some area covers exactly pages `[start, end)`.
    pub fn has_area(&self, start: VirtPageNum, end: VirtPageNum) -> (b: bool)
        ensures
            b == has_area_exactly(self.areas@, start.0 as int, end.0 as int),
    {
        let n = self.areas.len();
        let mut i: usize = 0;
        while i < n
            invariant
                n == self.areas@.len(),
                i <= n,
                forall|j: int| 0 <= j < i ==> !(#[trigger] self.areas@[j].vpn_range.l.0 == start.0 && self.areas@[j].vpn_range.r.0 == end.0),
            decreases n - i,
        {
            let range = self.areas[i].vpn_range;
            if range.get_start().0 == start.0 && range.get_end().0 == end.0 {
                return true;
            }
            i = i + 1;
        }
        false
    }

    /// Whether some page of `[l, r)` lies in one of the areas.
    pub fn overlaps(&self, l: VirtPageNum, r: VirtPageNum) -> (b: bool)
        ensures
            b == range_overlaps(self.areas@, l.0 as int, r.0 as int),
    {
        let n = self.areas.len();
        let mut i: usize = 0;
        while i < n
            invariant
                n == self.areas@.len(),
                i <= n,
                forall|j: int, vpn: int|
                    0 <= j < i && l.0 <= vpn < r.0 ==> !#[trigger] area_contains(self.areas@[j], vpn),
            decreases n - i,
        {
            let a = self.areas[i].vpn_range;
            let lo = if a.l.0 > l.0 { a.l.0 } else { l.0 };
            let hi = if a.r.0 < r.0 { a.r.0 } else { r.0 };
            if lo < hi {
                assert(area_contains(self.areas@[i as int], lo as int));
                return true;
            }
            i = i + 1;
        }
        false
    }
}

} // verus!
