use vstd::prelude::*;

verus! {

/// A range of physical memory as the firmware reports it.
#[derive(Debug, Clone, Copy, PartialEq, Eq, Structural)]
pub struct AddressRangeDescriptor {
    pub base_addr: u64,
    pub len: u64,
    pub region_type: u32,
}

/// The type of a range the system may use.
pub const ARDS_USABLE: u32 = 1;

/// The end of range `r`, cut to 32 bits.
pub open spec fn range_end(r: AddressRangeDescriptor) -> u32 {
    (r.base_addr + r.len) as u32
}

/// The largest end among the usable ranges of `m`; None when none is usable.
pub open spec fn max_usable_end(m: Seq<AddressRangeDescriptor>) -> Option<u32>
    decreases m.len(),
{
    if m.len() == 0 {
        None
    } else {
        let rest = max_usable_end(m.drop_last());
        let r = m.last();
        if r.region_type != ARDS_USABLE {
            rest
        } else {
            match rest {
                None => Some(range_end(r)),
                Some(x) => Some(if range_end(r) > x { range_end(r) } else { x }),
            }
        }
    }
}

/// The memory size the kernel works with: the largest end, cut to 32 bits,
/// of the usable ranges of the memory map.
pub fn os_memory_size(memory_map: &[AddressRangeDescriptor]) -> (size: u32)
    requires
        max_usable_end(memory_map@) is Some,
        forall|i: int| 0 <= i < memory_map@.len() ==> #[trigger] memory_map@[i].base_addr + memory_map@[i].len <= u64::MAX,
    ensures
        size == max_usable_end(memory_map@)->0,
{
    let mut best: Option<u32> = None;
    let mut i: usize = 0;
    while i < memory_map.len()
        invariant
            i <= memory_map@.len(),
            forall|k: int| 0 <= k < memory_map@.len() ==> #[trigger] memory_map@[k].base_addr + memory_map@[k].len <= u64::MAX,
            best == max_usable_end(memory_map@.subrange(0, i as int)),
        decreases memory_map@.len() - i,
    {
        let r = memory_map[i];
        assert(memory_map@.subrange(0, i + 1).drop_last() =~= memory_map@.subrange(0, i as int));
        if r.region_type == ARDS_USABLE {
            let end = (r.base_addr + r.len) as u32;
            best = match best {
                None => Some(end),
                Some(x) => Some(if end > x { end } else { x }),
            };
        }
        i = i + 1;
    }
    assert(memory_map@.subrange(0, memory_map@.len() as int) =~= memory_map@);
    match best {
        Some(x) => x,
        None => {
            proof {
                assert(false);
            }
            0
        },
    }
}

} // verus!
