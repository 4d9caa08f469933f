//! Memory-slot and mapping views of the target.
//!
//! A `MemSlot` is one entry of the kernel's memory-slot table, counted in
//! pages; a `Mapping` is one line of the target's mapping table.  Slots are
//! resolved against the mappings to learn their protection and backing;
//! VCPU mappings are picked out by name and ordered by VCPU index.

use vstd::prelude::*;

use crate::error::Error;
use crate::hypervisor::kvm_vcpu_fd_prefix;
use crate::hypervisor::spec_kvm_vcpu_fd_prefix;
use crate::page::PAGE_SIZE;
use crate::parse::copy_bytes;
use crate::parse::parse_decimal;
use crate::parse::spec_decimal_value;
use crate::parse::spec_parses_as_decimal;
use crate::parse::spec_starts_with;
use crate::parse::starts_with;

verus! {

/// One entry of the kernel's memory-slot table: a guest frame number, a
/// page count and the backing host address.
#[derive(Clone, Copy, Debug, PartialEq, Eq, Structural)]
pub struct MemSlot {
    pub base_gfn: usize,
    pub npages: usize,
    pub userspace_addr: usize,
}

/// One mapping of the target process.
#[derive(Debug)]
pub struct Mapping {
    /// First host-virtual address.
    pub start: usize,
    /// One past the last host-virtual address.
    pub end: usize,
    /// Guest-physical address the range backs, when known.
    pub phys_addr: usize,
    /// Protection bits of the mapping.
    pub prot_flags: u32,
    /// Mapping bits of the mapping.
    pub map_flags: u32,
    /// The name of the backing, as the mapping table shows it.
    pub pathname: Vec<u8>,
}

impl MemSlot {
    /// First host-virtual address of the slot.
    pub fn start(&self) -> (r: usize)
        ensures
            r == self.userspace_addr,
    {
        self.userspace_addr
    }

    /// Byte size of the slot.
    pub fn size(&self) -> (r: usize)
        requires
            self.npages * PAGE_SIZE <= usize::MAX,
        ensures
            r == self.npages * PAGE_SIZE,
    {
        self.npages * PAGE_SIZE
    }

    /// One past the last host-virtual address of the slot.
    pub fn end(&self) -> (r: usize)
        requires
            self.userspace_addr + self.npages * PAGE_SIZE <= usize::MAX,
        ensures
            r == self.userspace_addr + self.npages * PAGE_SIZE,
    {
        self.userspace_addr + self.npages * PAGE_SIZE
    }

    /// Guest-physical address of the slot.
    pub fn physical_start(&self) -> (r: usize)
        requires
            self.base_gfn * PAGE_SIZE <= usize::MAX,
        ensures
            r == self.base_gfn * PAGE_SIZE,
    {
        self.base_gfn * PAGE_SIZE
    }

    /// The slot's addresses fit the host address space.
    pub open spec fn spec_fits(self) -> bool {
        &&& self.userspace_addr + self.npages * (PAGE_SIZE as int) <= usize::MAX
        &&& self.base_gfn * (PAGE_SIZE as int) <= usize::MAX
    }
}

/// A mapping covers the address.
pub open spec fn spec_mapping_contains(m: Mapping, addr: int) -> bool {
    m.start <= addr < m.end
}

/// Some mapping covers the address.
pub open spec fn spec_has_mapping(maps: Seq<Mapping>, addr: int) -> bool {
    exists|i: int| 0 <= i < maps.len() && spec_mapping_contains(maps[i], addr)
}

/// The first mapping covering the address.
pub open spec fn spec_first_mapping(maps: Seq<Mapping>, addr: int) -> int {
    choose|i: int|
        0 <= i < maps.len() && spec_mapping_contains(maps[i], addr) && (forall|j: int|
            0 <= j < i ==> !spec_mapping_contains(#[trigger] maps[j], addr))
}

/// Find the first mapping covering `addr`.
pub fn find_mapping(maps: &Vec<Mapping>, addr: usize) -> (r: Option<usize>)
    ensures
        match r {
            Some(i) => i < maps@.len() && spec_mapping_contains(maps@[i as int], addr as int) && (
            forall|j: int| 0 <= j < i ==> !spec_mapping_contains(#[trigger] maps@[j], addr as int))
                && i == spec_first_mapping(maps@, addr as int),
            None => !spec_has_mapping(maps@, addr as int),
        },
{
    let n = maps.len();
    let mut i: usize = 0;
    while i < n
        invariant
            i <= n,
            n == maps@.len(),
            forall|j: int| 0 <= j < i ==> !spec_mapping_contains(#[trigger] maps@[j], addr as int),
        decreases n - i,
    {
        if maps[i].start <= addr && addr < maps[i].end {
            proof {
                let w = i as int;
                assert(0 <= w < maps@.len() && spec_mapping_contains(maps@[w], addr as int) && (
                forall|j: int| 0 <= j < w ==> !spec_mapping_contains(#[trigger] maps@[j], addr as int)));
                let c = spec_first_mapping(maps@, addr as int);
                assert(!(c < w) && !(w < c));
            }
            return Some(i);
        }
        i = i + 1;
    }
    None
}

/// Every slot has a covering mapping and fits the address space.
pub open spec fn spec_slots_resolvable(slots: Seq<MemSlot>, maps: Seq<Mapping>) -> bool {
    forall|k: int|
        0 <= k < slots.len() ==> (#[trigger] slots[k]).spec_fits() && spec_has_mapping(
            maps,
            slots[k].userspace_addr as int,
        )
}

/// The mapping entry that resolving slot `s` against `maps` produces.
pub open spec fn spec_resolved_entry(s: MemSlot, maps: Seq<Mapping>, out: Mapping) -> bool {
    let m = maps[spec_first_mapping(maps, s.userspace_addr as int)];
    &&& out.start == s.userspace_addr
    &&& out.end == s.userspace_addr + s.npages * (PAGE_SIZE as int)
    &&& out.phys_addr == s.base_gfn * (PAGE_SIZE as int)
    &&& out.prot_flags == m.prot_flags
    &&& out.map_flags == m.map_flags
    &&& out.pathname@ == m.pathname@
}

/// Resolve each memory slot against the target's mapping table: take the
/// metadata of the mapping covering the slot's start, with the slot's own
/// range and guest-physical base.  Fails with `KvmProtocol` when a slot has
/// no covering mapping or escapes the address space.
pub fn resolve_memslots(slots: &Vec<MemSlot>, maps: &Vec<Mapping>) -> (r: Result<
    Vec<Mapping>,
    Error,
>)
    ensures
        r is Ok <==> spec_slots_resolvable(slots@, maps@),
        r is Err ==> r == Err::<Vec<Mapping>, Error>(Error::KvmProtocol),
        r matches Ok(v) ==> v@.len() == slots@.len() && (forall|k: int|
            0 <= k < slots@.len() ==> spec_resolved_entry(#[trigger] slots@[k], maps@, v@[k])),
{
    let n = slots.len();
    let mut v: Vec<Mapping> = Vec::new();
    let mut k: usize = 0;
    while k < n
        invariant
            k <= n,
            n == slots@.len(),
            v@.len() == k,
            forall|j: int|
                0 <= j < k ==> (#[trigger] slots@[j]).spec_fits() && spec_has_mapping(
                    maps@,
                    slots@[j].userspace_addr as int,
                ),
            forall|j: int|
                0 <= j < k ==> spec_resolved_entry(#[trigger] slots@[j], maps@, v@[j]),
        decreases n - k,
    {
        let s = slots[k];
        if s.npages > usize::MAX / PAGE_SIZE {
            proof {
                lemma_div_cap(s.npages as int);
            }
            return Err(Error::KvmProtocol);
        }
        proof {
            lemma_mul_div_bound(s.npages as int);
        }
        let size = s.npages * PAGE_SIZE;
        if s.userspace_addr > usize::MAX - size {
            return Err(Error::KvmProtocol);
        }
        if s.base_gfn > usize::MAX / PAGE_SIZE {
            proof {
                lemma_div_cap(s.base_gfn as int);
            }
            return Err(Error::KvmProtocol);
        }
        proof {
            lemma_mul_div_bound(s.base_gfn as int);
        }
        let phys = s.base_gfn * PAGE_SIZE;
        match find_mapping(maps, s.userspace_addr) {
            None => {
                return Err(Error::KvmProtocol);
            },
            Some(mi) => {
                let m = &maps[mi];
                v.push(
                    Mapping {
                        start: s.userspace_addr,
                        end: s.userspace_addr + size,
                        phys_addr: phys,
                        prot_flags: m.prot_flags,
                        map_flags: m.map_flags,
                        pathname: copy_bytes(&m.pathname),
                    },
                );
            },
        }
        k = k + 1;
    }
    Ok(v)
}

/// Above the quotient cap, the product escapes the address space.
proof fn lemma_div_cap(x: int)
    requires
        x > usize::MAX as int / (PAGE_SIZE as int),
    ensures
        x * (PAGE_SIZE as int) > usize::MAX,
{
    vstd::arithmetic::div_mod::lemma_fundamental_div_mod(usize::MAX as int, 4096);
    vstd::arithmetic::div_mod::lemma_mod_bound(usize::MAX as int, 4096);
    assert(x * 4096 >= (usize::MAX as int / 4096 + 1) * 4096) by (nonlinear_arith)
        requires
            x >= usize::MAX as int / 4096 + 1,
    ;
    assert((usize::MAX as int / 4096 + 1) * 4096 == (usize::MAX as int / 4096) * 4096 + 4096)
        by (nonlinear_arith);
}

/// Below the quotient cap, the product fits the address space.
proof fn lemma_mul_div_bound(x: int)
    requires
        0 <= x <= usize::MAX as int / (PAGE_SIZE as int),
    ensures
        x * (PAGE_SIZE as int) <= usize::MAX,
{
    vstd::arithmetic::div_mod::lemma_fundamental_div_mod(usize::MAX as int, 4096);
    vstd::arithmetic::div_mod::lemma_mod_bound(usize::MAX as int, 4096);
    assert(x * 4096 <= (usize::MAX as int / 4096) * 4096) by (nonlinear_arith)
        requires
            0 <= x <= usize::MAX as int / 4096,
    ;
}

/// This mapping is a VCPU mapping.
pub open spec fn spec_is_vcpu_mapping(m: Mapping) -> bool {
    spec_starts_with(m.pathname@, spec_kvm_vcpu_fd_prefix())
}

/// The digits after the VCPU name prefix.
pub open spec fn spec_vcpu_map_tail(m: Mapping) -> Seq<u8> {
    m.pathname@.skip(spec_kvm_vcpu_fd_prefix().len() as int)
}

/// The VCPU index a VCPU mapping carries.
pub open spec fn spec_vcpu_map_idx(m: Mapping) -> nat {
    spec_decimal_value(spec_vcpu_map_tail(m))
}

/// The VCPU mappings, in table order.
pub open spec fn spec_vcpu_mappings(s: Seq<Mapping>) -> Seq<Mapping>
    decreases s.len(),
{
    if s.len() == 0 {
        Seq::empty()
    } else {
        spec_vcpu_mappings(s.drop_last()) + if spec_is_vcpu_mapping(s.last()) {
            seq![s.last()]
        } else {
            Seq::empty()
        }
    }
}

/// Every VCPU mapping's index digits parse.
pub open spec fn spec_vcpu_maps_ok(s: Seq<Mapping>) -> bool {
    forall|k: int|
        0 <= k < spec_vcpu_mappings(s).len() ==> spec_parses_as_decimal(
            spec_vcpu_map_tail(#[trigger] spec_vcpu_mappings(s)[k]),
        )
}

/// A prefix of the table contributes a prefix of the VCPU mappings.
proof fn lemma_vcpu_mappings_prefix(s: Seq<Mapping>, i: int)
    requires
        0 <= i <= s.len(),
    ensures
        spec_vcpu_mappings(s.take(i)).len() <= spec_vcpu_mappings(s).len(),
        forall|k: int|
            0 <= k < spec_vcpu_mappings(s.take(i)).len() ==> #[trigger] spec_vcpu_mappings(s)[k]
                == spec_vcpu_mappings(s.take(i))[k],
    decreases s.len() - i,
{
    if i < s.len() {
        lemma_vcpu_mappings_prefix(s, i + 1);
        assert(s.take(i + 1).drop_last() =~= s.take(i));
        assert(s.take(i + 1).last() == s[i]);
    } else {
        assert(s.take(i) =~= s);
    }
}

/// A VCPU mapping tagged with its parsed index, for ordering.
struct TaggedMapping {
    idx: usize,
    m: Mapping,
}

/// The mappings of VCPU file descriptors, ordered by VCPU index.
///
/// Fails with `Configuration` when a VCPU mapping's index digits do not
/// parse.  The result holds exactly the VCPU mappings of the input.
pub fn get_vcpu_maps(mappings: Vec<Mapping>) -> (r: Result<Vec<Mapping>, Error>)
    ensures
        r is Ok <==> spec_vcpu_maps_ok(mappings@),
        r is Err ==> r == Err::<Vec<Mapping>, Error>(Error::Configuration),
        r matches Ok(v) ==> ({
            &&& v@.to_multiset() == spec_vcpu_mappings(mappings@).to_multiset()
            &&& v@.len() == spec_vcpu_mappings(mappings@).len()
            &&& forall|a: int, b: int|
                0 <= a <= b < v@.len() ==> spec_vcpu_map_idx(#[trigger] v@[a]) <= spec_vcpu_map_idx(
                    #[trigger] v@[b],
                )
        }),
{
    broadcast use vstd::seq_lib::group_to_multiset_ensures;
    broadcast use vstd::multiset::group_multiset_axioms;

    let prefix = kvm_vcpu_fd_prefix();
    let mut rest = mappings;
    let n0: usize = rest.len();
    let mut tagged: Vec<TaggedMapping> = Vec::new();
    let ghost orig = rest@;
    let mut i: usize = 0;
    while rest.len() > 0
        invariant
            orig == mappings@,
            orig.len() == n0,
            i + rest@.len() == orig.len(),
            rest@ == orig.skip(i as int),
            prefix@ == spec_kvm_vcpu_fd_prefix(),
            tagged@.len() == spec_vcpu_mappings(orig.take(i as int)).len(),
            forall|k: int|
                0 <= k < tagged@.len() ==> #[trigger] tagged@[k].m == spec_vcpu_mappings(
                    orig.take(i as int),
                )[k],
            forall|k: int|
                0 <= k < tagged@.len() ==> spec_parses_as_decimal(
                    spec_vcpu_map_tail(#[trigger] tagged@[k].m),
                ) && tagged@[k].idx == spec_vcpu_map_idx(tagged@[k].m),
        decreases rest@.len(),
    {
        let m = rest.remove(0);
        proof {
            assert(m == orig[i as int]);
            assert(rest@ =~= orig.skip(i as int + 1));
            assert(orig.take(i as int + 1).drop_last() =~= orig.take(i as int));
            assert(orig.take(i as int + 1).last() == orig[i as int]);
        }
        if starts_with(&m.pathname, &prefix) {
            match parse_decimal(&m.pathname, 20) {
                None => {
                    proof {
                        lemma_vcpu_mappings_prefix(orig, i as int + 1);
                        let bad = spec_vcpu_mappings(orig.take(i as int + 1));
                        let k = bad.len() - 1;
                        assert(bad[k] == orig[i as int]);
                        assert(spec_vcpu_mappings(orig)[k] == orig[i as int]);
                        assert(!spec_vcpu_maps_ok(orig));
                    }
                    return Err(Error::Configuration);
                },
                Some(idx) => {
                    tagged.push(TaggedMapping { idx, m });
                },
            }
        }
        i = i + 1;
    }
    proof {
        assert(orig.take(orig.len() as int) =~= orig);
        assert forall|k: int|
            0 <= k < spec_vcpu_mappings(orig).len() implies spec_parses_as_decimal(
            spec_vcpu_map_tail(#[trigger] spec_vcpu_mappings(orig)[k]),
        ) by {
            assert(tagged@[k].m == spec_vcpu_mappings(orig.take(orig.len() as int))[k]);
        }
        assert(spec_vcpu_maps_ok(orig));
    }

    // Order by index: repeatedly move the smallest remaining index over.
    let mut out: Vec<Mapping> = Vec::new();
    let ghost tagged0 = tagged@;
    let ghost mapped0 = tagged0.map_values(|t: TaggedMapping| t.m);
    proof {
        assert(mapped0 =~= spec_vcpu_mappings(orig));
    }
    while tagged.len() > 0
        invariant
            spec_vcpu_maps_ok(orig),
            orig == mappings@,
            mapped0 == spec_vcpu_mappings(orig),
            out@.to_multiset().add(tagged@.map_values(|t: TaggedMapping| t.m).to_multiset())
                =~= mapped0.to_multiset(),
            out@.len() + tagged@.len() == mapped0.len(),
            forall|k: int|
                0 <= k < tagged@.len() ==> spec_parses_as_decimal(
                    spec_vcpu_map_tail(#[trigger] tagged@[k].m),
                ) && tagged@[k].idx == spec_vcpu_map_idx(tagged@[k].m),
            forall|k: int|
                0 <= k < out@.len() ==> spec_parses_as_decimal(
                    spec_vcpu_map_tail(#[trigger] out@[k]),
                ),
            forall|a: int, b: int|
                0 <= a <= b < out@.len() ==> spec_vcpu_map_idx(#[trigger] out@[a])
                    <= spec_vcpu_map_idx(#[trigger] out@[b]),
            forall|a: int, b: int|
                0 <= a < out@.len() && 0 <= b < tagged@.len() ==> spec_vcpu_map_idx(
                    #[trigger] out@[a],
                ) <= spec_vcpu_map_idx(#[trigger] tagged@[b].m),
        decreases tagged@.len(),
    {
        let mut mi: usize = 0;
        let mut j: usize = 1;
        while j < tagged.len()
            invariant
                mi < j <= tagged@.len(),
                tagged@.len() > 0,
                forall|k: int| 0 <= k < j ==> tagged@[mi as int].idx <= tagged@[k].idx,
            decreases tagged@.len() - j,
        {
            if tagged[j].idx < tagged[mi].idx {
                mi = j;
            }
            j = j + 1;
        }
        let ghost old_tagged = tagged@;
        let ghost old_mapped = old_tagged.map_values(|t: TaggedMapping| t.m);
        let x = tagged.remove(mi);
        let ghost pre = out@;
        out.push(x.m);
        proof {
            old_mapped.to_multiset_ensures();
            pre.to_multiset_ensures();
            assert(old_mapped[mi as int] == x.m);
            assert(old_mapped.contains(x.m));
            assert(tagged@.map_values(|t: TaggedMapping| t.m) =~= old_mapped.remove(mi as int));
            assert(old_mapped.remove(mi as int).to_multiset() =~= old_mapped.to_multiset().remove(
                x.m,
            ));
            assert(out@ == pre.push(x.m));
            assert(pre.push(x.m).to_multiset() =~= pre.to_multiset().insert(x.m));
            assert(out@.to_multiset().add(
                tagged@.map_values(|t: TaggedMapping| t.m).to_multiset(),
            ) =~= mapped0.to_multiset());
            assert forall|a: int, b: int|
                0 <= a < out@.len() && 0 <= b < tagged@.len() implies spec_vcpu_map_idx(
                #[trigger] out@[a],
            ) <= spec_vcpu_map_idx(#[trigger] tagged@[b].m) by {
                let b2: int = if b < mi { b } else { b + 1 };
                assert(tagged@[b] == old_tagged[b2]);
                if a < pre.len() {
                    assert(out@[a] == pre[a]);
                } else {
                    assert(out@[a] == x.m);
                    assert(x.idx <= old_tagged[b2].idx);
                }
            }
            assert forall|a: int, b: int|
                0 <= a <= b < out@.len() implies spec_vcpu_map_idx(#[trigger] out@[a])
                <= spec_vcpu_map_idx(#[trigger] out@[b]) by {
                if b < pre.len() {
                    assert(out@[a] == pre[a] && out@[b] == pre[b]);
                } else if a < pre.len() {
                    assert(out@[a] == pre[a] && out@[b] == x.m);
                }
            }
            assert forall|k: int|
                0 <= k < tagged@.len() implies spec_parses_as_decimal(
                spec_vcpu_map_tail(#[trigger] tagged@[k].m),
            ) && tagged@[k].idx == spec_vcpu_map_idx(tagged@[k].m) by {
                let k2: int = if k < mi { k } else { k + 1 };
                assert(tagged@[k] == old_tagged[k2]);
            }
        }
    }
    proof {
        assert(tagged@.map_values(|t: TaggedMapping| t.m) =~= Seq::<Mapping>::empty());
        assert(out@.to_multiset().add(Seq::<Mapping>::empty().to_multiset())
            =~= mapped0.to_multiset());
        Seq::<Mapping>::empty().to_multiset_ensures();
        assert(out@.to_multiset() =~= mapped0.to_multiset());
        mapped0.to_multiset_ensures();
        out@.to_multiset_ensures();
    }
    Ok(out)
}

} // verus!
