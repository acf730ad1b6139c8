use vstd::prelude::*;

verus! {

/// Number of slots in each filter generation.
pub const ICAO_FILTER_SIZE: usize = 4096;

/// Flag bit marking an address that came from a non-transponder source.
pub const ICAO_FILTER_ADSB_NT: u32 = 0x0200_0000;

/// Two open-addressed generations of recently seen 24-bit aircraft
/// addresses. A zero slot is empty; lookups probe both generations.
pub struct IcaoFilter {
    pub a: Vec<u32>,
    pub b: Vec<u32>,
}

/// The Jenkins one-at-a-time hash of the three address bytes, masked to the
/// table size. A pure function of the address alone.
pub open spec fn spec_icao_hash(a32: u32) -> u32 {
    let a = a32 as u64;
    let h0 = a & 0xff;
    let h1 = ((h0 + (h0 << 10)) as u64);
    let h2 = h1 ^ (h1 >> 6);
    let h3 = ((h2 + ((a >> 8) & 0xff)) as u64);
    let h4 = ((h3 + (h3 << 10)) as u64);
    let h5 = h4 ^ (h4 >> 6);
    let h6 = ((h5 + ((a >> 16) & 0xff)) as u64);
    let h7 = ((h6 + (h6 << 10)) as u64);
    let h8 = h7 ^ (h7 >> 6);
    let h9 = ((h8 + (h8 << 3)) as u64);
    let h10 = h9 ^ (h9 >> 11);
    let h11 = ((h10 + (h10 << 15)) as u64);
    (h11 as u32) & 0x0fff
}

/// The slot reached `d` steps after slot `h0`, walking the table cyclically.
pub open spec fn probe_slot(h0: int, d: int) -> int
    recommends
        0 <= h0 < 4096,
        0 <= d <= 4096,
{
    if h0 + d < 4096 {
        h0 + d
    } else {
        h0 + d - 4096
    }
}

/// Number of probe steps from slot `h0` to slot `j`.
pub open spec fn probe_dist(h0: int, j: int) -> int
    recommends
        0 <= h0 < 4096,
        0 <= j < 4096,
{
    if j >= h0 {
        j - h0
    } else {
        j + 4096 - h0
    }
}

/// Every slot on the probe path from `h0` up to (excluding) slot `j` is
/// occupied.
pub open spec fn path_full(t: Seq<u32>, h0: int, j: int) -> bool {
    forall|d: int| 0 <= d < probe_dist(h0, j) ==> t[probe_slot(h0, d)] != 0
}

/// Probe soundness: every entry can be reached from its hash slot without
/// crossing an empty slot, so a probe that stops at an empty slot has not
/// walked past it.
pub open spec fn probe_ok(t: Seq<u32>) -> bool {
    forall|j: int| 0 <= j < 4096 && #[trigger] t[j] != 0
        ==> path_full(t, spec_icao_hash(t[j]) as int, j)
}

/// Some slot holds `v`.
pub open spec fn seq_contains(t: Seq<u32>, v: u32) -> bool {
    exists|i: int| 0 <= i < 4096 && t[i] == v
}

/// Every slot is occupied.
pub open spec fn is_full(t: Seq<u32>) -> bool {
    forall|i: int| 0 <= i < 4096 ==> t[i] != 0
}

/// What `icao_filter_test` reports for a nonzero address: the address is
/// present in one of the two generations.
pub open spec fn spec_test(f: IcaoFilter, addr: u32) -> bool {
    seq_contains(f.a@, addr) || seq_contains(f.b@, addr)
}

/// What a probe reports for any value: presence, for a nonzero address;
/// for zero (never stored) whether a generation still has an empty slot,
/// since the probe stops on the first one.
pub open spec fn spec_filter_sees(f: IcaoFilter, v: u32) -> bool {
    if v != 0 {
        spec_test(f, v)
    } else {
        !is_full(f.a@) || !is_full(f.b@)
    }
}

impl IcaoFilter {
    /// Structural invariant: both generations are full-size tables whose
    /// entries are reachable by probing from their hash slot.
    pub open spec fn wf(&self) -> bool {
        &&& self.a@.len() == 4096
        &&& self.b@.len() == 4096
        &&& probe_ok(self.a@)
        &&& probe_ok(self.b@)
    }
}

impl Default for IcaoFilter {
    /// An empty filter: every slot of both generations is zero.
    fn default() -> (r: Self)
        ensures
            r.wf(),
            forall|i: int| 0 <= i < 4096 ==> r.a@[i] == 0 && r.b@[i] == 0,
    {
        let mut a: Vec<u32> = Vec::new();
        let mut b: Vec<u32> = Vec::new();
        let mut i: usize = 0;
        while i < ICAO_FILTER_SIZE
            invariant
                i <= 4096,
                a@.len() == i,
                b@.len() == i,
                forall|j: int| 0 <= j < i ==> a@[j] == 0 && b@[j] == 0,
            decreases 4096 - i,
        {
            a.push(0);
            b.push(0);
            i += 1;
        }
        IcaoFilter { a, b }
    }
}

/// Zero both generations, forgetting every address seen so far.
pub fn icao_flush(f: &mut IcaoFilter)
    requires
        old(f).wf(),
    ensures
        final(f).wf(),
        forall|i: int| 0 <= i < 4096 ==> final(f).a@[i] == 0 && final(f).b@[i] == 0,
{
    let mut i: usize = 0;
    while i < ICAO_FILTER_SIZE
        invariant
            i <= 4096,
            f.a@.len() == 4096,
            f.b@.len() == 4096,
            forall|j: int| 0 <= j < i ==> f.a@[j] == 0 && f.b@[j] == 0,
        decreases 4096 - i,
    {
        f.a[i] = 0;
        f.b[i] = 0;
        i += 1;
    }
}

/// Hash a 24-bit address to its starting probe slot.
pub fn icao_hash(a32: u32) -> (r: u32)
    ensures
        r == spec_icao_hash(a32),
        r < 4096,
{
    let a: u64 = a32 as u64;

    let h0: u64 = a & 0xff;
    assert(h0 <= 0xff && (a >> 8) & 0xff <= 0xff && (a >> 16) & 0xff <= 0xff) by (bit_vector)
        requires h0 == a & 0xffu64;
    assert(h0 + (h0 << 10) < 0x40000) by (bit_vector)
        requires h0 <= 0xffu64;
    let h1: u64 = h0 + (h0 << 10);
    let h2: u64 = h1 ^ (h1 >> 6);
    assert(h2 < 0x40000) by (bit_vector)
        requires h1 < 0x40000u64, h2 == h1 ^ (h1 >> 6u64);

    let h3: u64 = h2 + ((a >> 8) & 0xff);
    assert(h3 + (h3 << 10) < 0x2000_0000) by (bit_vector)
        requires h3 < 0x40100u64;
    let h4: u64 = h3 + (h3 << 10);
    let h5: u64 = h4 ^ (h4 >> 6);
    assert(h5 < 0x2000_0000) by (bit_vector)
        requires h4 < 0x2000_0000u64, h5 == h4 ^ (h4 >> 6u64);

    let h6: u64 = h5 + ((a >> 16) & 0xff);
    assert(h6 + (h6 << 10) < 0x100_0000_0000) by (bit_vector)
        requires h6 < 0x2000_0100u64;
    let h7: u64 = h6 + (h6 << 10);
    let h8: u64 = h7 ^ (h7 >> 6);
    assert(h8 < 0x100_0000_0000) by (bit_vector)
        requires h7 < 0x100_0000_0000u64, h8 == h7 ^ (h7 >> 6u64);

    assert(h8 + (h8 << 3) < 0x1000_0000_0000) by (bit_vector)
        requires h8 < 0x100_0000_0000u64;
    let h9: u64 = h8 + (h8 << 3);
    let h10: u64 = h9 ^ (h9 >> 11);
    assert(h10 < 0x1000_0000_0000) by (bit_vector)
        requires h9 < 0x1000_0000_0000u64, h10 == h9 ^ (h9 >> 11u64);

    assert(h10 + (h10 << 15) < 0x4000_0000_0000_0000) by (bit_vector)
        requires h10 < 0x1000_0000_0000u64;
    let h11: u64 = h10 + (h10 << 15);

    let low: u32 = #[verifier::truncate] (h11 as u32);
    let r: u32 = low & 0x0fff;
    assert(r < 4096) by (bit_vector)
        requires r == low & 0x0fffu32;
    r
}

/// Probe one generation for `addr`. For a nonzero address this reports
/// exactly whether the address is stored; probing for zero reports whether
/// the generation has any empty slot, as the probe stops on the first one.
fn probe_one(t: &Vec<u32>, addr: u32) -> (r: bool)
    requires
        t@.len() == 4096,
        probe_ok(t@),
    ensures
        addr != 0 ==> r == seq_contains(t@, addr),
        addr == 0 ==> r == !is_full(t@),
{
    let h0: u32 = icao_hash(addr);
    let mut h: usize = h0 as usize;
    let mut i: usize = 0;
    while i < ICAO_FILTER_SIZE
        invariant
            t@.len() == 4096,
            probe_ok(t@),
            h0 == spec_icao_hash(addr),
            h0 < 4096,
            i <= 4096,
            h == probe_slot(h0 as int, i as int),
            0 <= h < 4096,
            forall|d: int| 0 <= d < i
                ==> #[trigger] t@[probe_slot(h0 as int, d)] != 0
                    && t@[probe_slot(h0 as int, d)] != addr,
        decreases 4096 - i,
    {
        let v: u32 = t[h];
        if v == addr {
            return true;
        }
        if v == 0 {
            assert(addr != 0);
            assert(!seq_contains(t@, addr)) by {
                if seq_contains(t@, addr) {
                    let j = choose|j: int| 0 <= j < 4096 && t@[j] == addr;
                    let dj = probe_dist(h0 as int, j);
                    assert(t@[j] != 0);
                    assert(path_full(t@, h0 as int, j));
                    assert(probe_slot(h0 as int, dj) == j);
                    if dj < i {
                        assert(t@[probe_slot(h0 as int, dj)] != addr);
                    } else if dj == i {
                        assert(t@[j] == 0);
                    } else {
                        assert(t@[probe_slot(h0 as int, i as int)] != 0);
                    }
                }
            }
            return false;
        }
        h = if h == 4095 { 0 } else { h + 1 };
        i += 1;
    }
    assert(addr != 0 ==> !seq_contains(t@, addr)) by {
        if addr != 0 && seq_contains(t@, addr) {
            let j = choose|j: int| 0 <= j < 4096 && t@[j] == addr;
            let dj = probe_dist(h0 as int, j);
            assert(probe_slot(h0 as int, dj) == j);
            assert(t@[probe_slot(h0 as int, dj)] != addr);
        }
    }
    assert(addr == 0 ==> is_full(t@)) by {
        if addr == 0 {
            assert forall|j: int| 0 <= j < 4096 implies t@[j] != 0 by {
                let dj = probe_dist(h0 as int, j);
                assert(probe_slot(h0 as int, dj) == j);
                assert(t@[probe_slot(h0 as int, dj)] != 0);
            }
        }
    }
    false
}

/// Insert a nonzero address into one generation at the first empty slot on
/// its probe path, leaving every existing entry in place. When the probe
/// wraps without finding room the table is left unchanged.
fn insert_one(t: &mut Vec<u32>, addr: u32)
    requires
        old(t)@.len() == 4096,
        probe_ok(old(t)@),
        addr != 0,
    ensures
        final(t)@.len() == 4096,
        probe_ok(final(t)@),
        forall|i: int| 0 <= i < 4096 && old(t)@[i] != 0 ==> final(t)@[i] == old(t)@[i],
        forall|i: int| 0 <= i < 4096 && final(t)@[i] != old(t)@[i]
            ==> old(t)@[i] == 0 && final(t)@[i] == addr,
        !is_full(old(t)@) ==> seq_contains(final(t)@, addr),
        seq_contains(old(t)@, addr) ==> seq_contains(final(t)@, addr),
{
    let h0: u32 = icao_hash(addr);
    let mut h: usize = h0 as usize;
    let mut i: usize = 0;
    while i < ICAO_FILTER_SIZE
        invariant
            t@ == old(t)@,
            t@.len() == 4096,
            probe_ok(t@),
            addr != 0,
            h0 == spec_icao_hash(addr),
            h0 < 4096,
            i <= 4096,
            h == probe_slot(h0 as int, i as int),
            0 <= h < 4096,
            forall|d: int| 0 <= d < i
                ==> #[trigger] t@[probe_slot(h0 as int, d)] != 0
                    && t@[probe_slot(h0 as int, d)] != addr,
        decreases 4096 - i,
    {
        let v: u32 = t[h];
        if v == addr {
            return;
        }
        if v == 0 {
            t[h] = addr;
            assert(path_full(t@, h0 as int, h as int));
            assert(probe_ok(t@)) by {
                assert forall|j: int| 0 <= j < 4096 && #[trigger] t@[j] != 0
                    implies path_full(t@, spec_icao_hash(t@[j]) as int, j) by {
                    if j == h as int {
                        assert(t@[j] == addr);
                    } else {
                        assert(old(t)@[j] == t@[j]);
                        assert(path_full(old(t)@, spec_icao_hash(t@[j]) as int, j));
                        assert forall|d: int|
                            0 <= d < probe_dist(spec_icao_hash(t@[j]) as int, j)
                            implies t@[probe_slot(spec_icao_hash(t@[j]) as int, d)] != 0 by {
                            assert(old(t)@[probe_slot(spec_icao_hash(t@[j]) as int, d)] != 0);
                        }
                    }
                }
            }
            return;
        }
        h = if h == 4095 { 0 } else { h + 1 };
        i += 1;
    }
    assert(is_full(t@)) by {
        assert forall|j: int| 0 <= j < 4096 implies t@[j] != 0 by {
            let dj = probe_dist(h0 as int, j);
            assert(probe_slot(h0 as int, dj) == j);
            assert(t@[probe_slot(h0 as int, dj)] != 0);
        }
    }
}

/// Record a recently seen aircraft address in the active generation. The
/// address is stored as given, and additionally with its top byte cleared so
/// that DF20/21 Data Parity replies can match. Either insertion is skipped
/// when its value is zero or the table has no room; existing entries are
/// never disturbed.
pub fn icao_filter_add(f: &mut IcaoFilter, addr: u32)
    requires
        old(f).wf(),
    ensures
        final(f).wf(),
        final(f).b@ == old(f).b@,
        forall|i: int| 0 <= i < 4096 && old(f).a@[i] != 0 ==> final(f).a@[i] == old(f).a@[i],
        forall|i: int| 0 <= i < 4096 && final(f).a@[i] != old(f).a@[i]
            ==> old(f).a@[i] == 0
                && (final(f).a@[i] == addr || final(f).a@[i] == addr & 0x00ff_ff),
        addr != 0 && !is_full(final(f).a@) ==> seq_contains(final(f).a@, addr),
        forall|v: u32| v != 0 && seq_contains(old(f).a@, v) ==> seq_contains(final(f).a@, v),
{
    if addr != 0 {
        insert_one(&mut f.a, addr);
    }
    let masked: u32 = addr & 0x00ff_ff;
    if masked != 0 {
        insert_one(&mut f.a, masked);
    }
}

/// Report whether an address has been seen recently: probe both the active
/// and the aging generation.
pub fn icao_filter_test(f: &IcaoFilter, addr: u32) -> (r: bool)
    requires
        f.wf(),
    ensures
        r == spec_filter_sees(*f, addr),
{
    if probe_one(&f.a, addr) {
        return true;
    }
    probe_one(&f.b, addr)
}

/// An address just added is reported present, and a flushed filter reports
/// nothing present: the add/flush/test round trip, stated over the table
/// views that the three functions' contracts use.
pub proof fn lemma_filter_round_trip(f_added: IcaoFilter, f_flushed: IcaoFilter, addr: u32)
    requires
        1 <= addr < 0x0100_0000,
        seq_contains(f_added.a@, addr),
        f_flushed.a@.len() == 4096,
        f_flushed.b@.len() == 4096,
        forall|i: int| 0 <= i < 4096 ==> f_flushed.a@[i] == 0 && f_flushed.b@[i] == 0,
    ensures
        spec_test(f_added, addr),
        !spec_test(f_flushed, addr),
{
}

} // verus!
