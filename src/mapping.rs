use vstd::prelude::*;

verus! {

/// One contiguous mapped region of the tracee's address space.
#[derive(Clone, Copy, Debug, PartialEq, Eq)]
pub struct MemMap {
    pub start: u64,
    pub size: u64,
    pub offset: u64,
    pub readable: bool,
    pub writable: bool,
    pub executable: bool,
}

/// A class of segment, by its permission triple (read, write, exec).
#[derive(Clone, Copy, Debug, PartialEq, Eq)]
pub enum MapClass {
    /// (true, false, true)
    Exec,
    /// (true, true, false)
    Data,
    /// (true, false, false)
    Rodata,
}

/// No mapping of the asked class is present.
#[derive(Clone, Copy, Debug, PartialEq, Eq)]
pub struct MapNotFound {
    pub class: MapClass,
}

pub open spec fn in_class(m: MemMap, class: MapClass) -> bool {
    match class {
        MapClass::Exec => m.readable && !m.writable && m.executable,
        MapClass::Data => m.readable && m.writable && !m.executable,
        MapClass::Rodata => m.readable && !m.writable && !m.executable,
    }
}

/// The mappings of one class, in the order they are listed.
pub open spec fn maps_of_class(maps: Seq<MemMap>, class: MapClass) -> Seq<MemMap>
    decreases maps.len(),
{
    if maps.len() == 0 {
        Seq::empty()
    } else {
        let rest = maps_of_class(maps.drop_last(), class);
        if in_class(maps.last(), class) {
            rest.push(maps.last())
        } else {
            rest
        }
    }
}

/// The lowest start address among the mappings; `u64::MAX` when there are none.
pub open spec fn min_start(maps: Seq<MemMap>) -> u64
    decreases maps.len(),
{
    if maps.len() == 0 {
        u64::MAX
    } else {
        let rest = min_start(maps.drop_last());
        if maps.last().start < rest {
            maps.last().start
        } else {
            rest
        }
    }
}

/// The offset of a symbol relative to a mapping that starts `delta` above the base.
pub open spec fn translated_offset(offset: u64, delta: u64) -> u64 {
    if offset > delta {
        (offset - delta) as u64
    } else {
        offset
    }
}

/// Whether a symbol offset, translated for mapping `m` under base address `base`,
/// falls within the file range that `m` maps.
pub open spec fn included_in(offset: u64, m: MemMap, base: u64) -> bool
    recommends
        base <= m.start,
{
    let t = translated_offset(offset, (m.start - base) as u64);
    m.offset <= t && t < m.offset + m.size
}

/// `r` is the outcome of selecting the mappings of `class` from `maps`: all of
/// them, in order, when there is one; otherwise the not-found error.
pub open spec fn is_selection(r: Result<Vec<MemMap>, MapNotFound>, maps: Seq<MemMap>, class: MapClass) -> bool {
    if maps_of_class(maps, class).len() > 0 {
        r matches Ok(v) && v@ == maps_of_class(maps, class)
    } else {
        r == Err::<Vec<MemMap>, MapNotFound>(MapNotFound { class })
    }
}

impl MapClass {
    /// Whether mapping `m` carries this class's permission triple.
    pub fn contains(&self, m: &MemMap) -> (r: bool)
        ensures
            r == in_class(*m, *self),
    {
        match self {
            MapClass::Exec => m.readable && !m.writable && m.executable,
            MapClass::Data => m.readable && m.writable && !m.executable,
            MapClass::Rodata => m.readable && !m.writable && !m.executable,
        }
    }
}

/// The base address of an image: the lowest start among its mappings.
pub fn base_address(maps: &Vec<MemMap>) -> (r: u64)
    ensures
        r == min_start(maps@),
{
    let mut base: u64 = u64::MAX;
    let mut i: usize = 0;
    while i < maps.len()
        invariant
            i <= maps.len(),
            base == min_start(maps@.subrange(0, i as int)),
        decreases maps.len() - i,
    {
        proof {
            assert(maps@.subrange(0, i + 1).drop_last() =~= maps@.subrange(0, i as int));
        }
        if maps[i].start < base {
            base = maps[i].start;
        }
        i = i + 1;
    }
    proof {
        assert(maps@.subrange(0, maps.len() as int) =~= maps@);
    }
    base
}

/// The mappings of `class`, in order; an error when there is none.
pub fn select_maps(maps: &Vec<MemMap>, class: MapClass) -> (r: Result<Vec<MemMap>, MapNotFound>)
    ensures
        is_selection(r, maps@, class),
{
    let mut out: Vec<MemMap> = Vec::new();
    let mut i: usize = 0;
    while i < maps.len()
        invariant
            i <= maps.len(),
            out@ == maps_of_class(maps@.subrange(0, i as int), class),
        decreases maps.len() - i,
    {
        proof {
            assert(maps@.subrange(0, i + 1).drop_last() =~= maps@.subrange(0, i as int));
        }
        if class.contains(&maps[i]) {
            out.push(maps[i]);
        }
        i = i + 1;
    }
    proof {
        assert(maps@.subrange(0, maps.len() as int) =~= maps@);
    }
    if out.len() > 0 {
        Ok(out)
    } else {
        Err(MapNotFound { class })
    }
}

/// Every mapping is at or above the base address, and when there is a mapping
/// the base address is the start of one of them.
pub proof fn lemma_base_is_minimum(maps: Seq<MemMap>)
    ensures
        forall|i: int| 0 <= i < maps.len() ==> min_start(maps) <= #[trigger] maps[i].start,
        maps.len() > 0 ==> exists|i: int| 0 <= i < maps.len() && maps[i].start == min_start(maps),
    decreases maps.len(),
{
    if maps.len() > 0 {
        let rest = maps.drop_last();
        lemma_base_is_minimum(rest);
        assert forall|i: int| 0 <= i < maps.len() implies min_start(maps) <= #[trigger] maps[i].start by {
            if i < maps.len() - 1 {
                assert(maps[i] == rest[i]);
            }
        }
        if maps.last().start < min_start(rest) || rest.len() == 0 {
            assert(maps[maps.len() - 1].start == min_start(maps));
        } else {
            let j = choose|j: int| 0 <= j < rest.len() && rest[j].start == min_start(rest);
            assert(maps[j] == rest[j]);
        }
    }
}

/// Adding a mapping moves the base address to the lower of the old base and
/// the new mapping's start; a mapping below the old base becomes the new base.
pub proof fn lemma_base_after_adding(maps: Seq<MemMap>, m: MemMap)
    ensures
        min_start(maps.push(m)) == if m.start < min_start(maps) { m.start } else { min_start(maps) },
        m.start < min_start(maps) ==> min_start(maps.push(m)) == m.start,
{
    assert(maps.push(m).drop_last() =~= maps);
}

/// For a mapping `delta` above the base: an offset above `delta` is translated
/// to `offset - delta`; an offset at or below it, `delta` itself included, is
/// kept as it is; and the symbol is included exactly when the translated
/// offset lies in `[m.offset, m.offset + m.size)`.
pub proof fn lemma_offset_translation(offset: u64, m: MemMap, base: u64)
    requires
        base <= m.start,
    ensures
        offset > m.start - base ==> translated_offset(offset, (m.start - base) as u64) == offset - (m.start - base),
        offset <= m.start - base ==> translated_offset(offset, (m.start - base) as u64) == offset,
        offset == m.start - base ==> translated_offset(offset, (m.start - base) as u64) == offset,
        included_in(offset, m, base) <==> ({
            let t = translated_offset(offset, (m.start - base) as u64);
            m.offset <= t < m.offset + m.size
        }),
{
}

} // verus!
