use vstd::prelude::*;
use crate::filter::{FilterEngine, filter_matches};
use crate::memory::{
    MEM_COMMIT, MemoryError, MemoryImage, MemoryRegion, MemoryScanner, region_bytes, region_passes,
    lemma_region_bytes_len,
};
use crate::process::Process;
use crate::scan_result::{ScanOptions, ScanResult, ScanResults};
use crate::value::{ScanType, ScanValue, ValueType, lemma_from_to_bytes};

verus! {

/// Failure of a scanner operation.
#[derive(Clone, Copy, Debug, PartialEq, Eq, Structural)]
pub enum ScanError {
    /// The requested alignment is zero.
    InvalidAlignment,
    /// The target's memory could not be read or written.
    Memory(MemoryError),
    /// The bytes read do not form a value of the requested type.
    DecodeFailed,
}

/// Whether some value of type `vt` encoded as `bytes` satisfies `st` against
/// `value`; every slot matches an Unknown scan.
pub open spec fn slot_matches(bytes: Seq<u8>, vt: ValueType, value: ScanValue, st: ScanType) -> bool {
    st == ScanType::Unknown || exists|v: ScanValue|
        v.spec_value_type() == vt && v.spec_bytes() == bytes && #[trigger] v.spec_compare(
            value,
            st,
        )
}

/// The hits of a first scan in the bytes `d` of a region at `base`, from
/// offset `off` on, stepping by `align`: each hit is an address and its bytes.
pub open spec fn hits_from(
    base: int,
    d: Seq<u8>,
    vt: ValueType,
    align: int,
    value: ScanValue,
    st: ScanType,
    off: int,
) -> Seq<(usize, Seq<u8>)>
    decreases if off > d.len() {
        0
    } else {
        d.len() - off + 1
    },
{
    let size = vt.spec_size() as int;
    if align <= 0 || off < 0 || off + size > d.len() {
        Seq::empty()
    } else {
        let slot = d.subrange(off, off + size);
        let here = if (base + off) % align == 0 && slot_matches(slot, vt, value, st) {
            seq![((base + off) as usize, slot)]
        } else {
            Seq::empty()
        };
        here + hits_from(base, d, vt, align, value, st, off + align)
    }
}

/// The hits of a first scan in one region: none when the region is not
/// committed, fails the filters or cannot be read.
pub open spec fn region_hits(
    img: MemoryImage,
    g: MemoryRegion,
    value: ScanValue,
    st: ScanType,
    opts: ScanOptions,
) -> Seq<(usize, Seq<u8>)> {
    if g.state == MEM_COMMIT && region_passes(g, opts.readable_only, opts.writable_only, opts.executable_only) {
        match region_bytes(img, g) {
            Some(d) => hits_from(
                g.base_address as int,
                d,
                opts.value_type,
                opts.alignment as int,
                value,
                st,
                0,
            ),
            None => Seq::empty(),
        }
    } else {
        Seq::empty()
    }
}

/// The hits of a first scan over `regions`, region by region in order.
pub open spec fn scan_regions(
    img: MemoryImage,
    regions: Seq<MemoryRegion>,
    value: ScanValue,
    st: ScanType,
    opts: ScanOptions,
) -> Seq<(usize, Seq<u8>)>
    decreases regions.len(),
{
    if regions.len() == 0 {
        Seq::empty()
    } else {
        scan_regions(img, regions.drop_last(), value, st, opts) + region_hits(
            img,
            regions.last(),
            value,
            st,
            opts,
        )
    }
}

/// The results `rs` are fresh results for the hits `hits`, one for one.
pub open spec fn fresh_results(rs: Seq<ScanResult>, hits: Seq<(usize, Seq<u8>)>) -> bool {
    &&& rs.len() == hits.len()
    &&& forall|k: int|
        0 <= k < rs.len() ==> {
            &&& (#[trigger] rs[k]).address == hits[k].0
            &&& rs[k].previous_value@ == hits[k].1
            &&& rs[k].current_value is Some
            &&& rs[k].current_bytes() == hits[k].1
        }
}

/// Whether the fresh bytes of a result pass a next scan, against the bytes it
/// held before.
pub open spec fn rescan_matches(
    fresh: Seq<u8>,
    before: Seq<u8>,
    vt: ValueType,
    value: ScanValue,
    st: ScanType,
) -> bool {
    exists|c: ScanValue, p: ScanValue|
        c.spec_value_type() == vt && c.spec_bytes() == fresh && p.spec_value_type() == vt
            && p.spec_bytes() == before && #[trigger] filter_matches(c, Some(p), Some(value), st)
}

/// What a next scan keeps of one result: its address, the bytes it held
/// (which become the previous value) and the bytes read now.
pub open spec fn rescan_one(
    img: MemoryImage,
    r: ScanResult,
    vt: ValueType,
    value: ScanValue,
    st: ScanType,
) -> Seq<(usize, Seq<u8>, Seq<u8>)> {
    let size = vt.spec_size() as int;
    match img.spec_read(r.address as int, size) {
        None => Seq::empty(),
        Some(fresh) => if r.current_bytes().len() >= size && rescan_matches(
            fresh,
            r.current_bytes().subrange(0, size),
            vt,
            value,
            st,
        ) {
            seq![(r.address, r.current_bytes(), fresh)]
        } else {
            Seq::empty()
        },
    }
}

/// What a next scan keeps of `rs`, in order.
pub open spec fn rescan(
    img: MemoryImage,
    rs: Seq<ScanResult>,
    vt: ValueType,
    value: ScanValue,
    st: ScanType,
) -> Seq<(usize, Seq<u8>, Seq<u8>)>
    decreases rs.len(),
{
    if rs.len() == 0 {
        Seq::empty()
    } else {
        rescan(img, rs.drop_last(), vt, value, st) + rescan_one(img, rs.last(), vt, value, st)
    }
}

/// The results `rs` are the survivors `kept`, one for one.
pub open spec fn kept_results(rs: Seq<ScanResult>, kept: Seq<(usize, Seq<u8>, Seq<u8>)>) -> bool {
    &&& rs.len() == kept.len()
    &&& forall|k: int|
        0 <= k < rs.len() ==> {
            &&& (#[trigger] rs[k]).address == kept[k].0
            &&& rs[k].previous_value@ == kept[k].1
            &&& rs[k].current_value is Some
            &&& rs[k].current_bytes() == kept[k].2
        }
}

proof fn lemma_compare_same(v: ScanValue, w: ScanValue, o: ScanValue, st: ScanType)
    requires
        w.same(v),
    ensures
        w.spec_compare(o, st) == v.spec_compare(o, st),
        w.number() == v.number(),
        w.same(o) == v.same(o),
        o.same(w) == o.same(v),
{
}

proof fn lemma_slot_matches(v: ScanValue, bytes: Seq<u8>, vt: ValueType, value: ScanValue, st: ScanType)
    requires
        v.spec_value_type() == vt,
        v.spec_bytes() == bytes,
    ensures
        slot_matches(bytes, vt, value, st) == (st == ScanType::Unknown || v.spec_compare(
            value,
            st,
        )),
{
    if slot_matches(bytes, vt, value, st) && st != ScanType::Unknown {
        let w = choose|w: ScanValue|
            w.spec_value_type() == vt && w.spec_bytes() == bytes && #[trigger] w.spec_compare(
                value,
                st,
            );
        lemma_from_to_bytes(v, w);
        lemma_compare_same(v, w, value, st);
    }
}

proof fn lemma_rescan_matches(
    c: ScanValue,
    p: ScanValue,
    fresh: Seq<u8>,
    before: Seq<u8>,
    vt: ValueType,
    value: ScanValue,
    st: ScanType,
)
    requires
        c.spec_value_type() == vt,
        c.spec_bytes() == fresh,
        p.spec_value_type() == vt,
        p.spec_bytes() == before,
    ensures
        rescan_matches(fresh, before, vt, value, st) == filter_matches(
            c,
            Some(p),
            Some(value),
            st,
        ),
{
    if rescan_matches(fresh, before, vt, value, st) {
        let (c2, p2) = choose|c2: ScanValue, p2: ScanValue|
            c2.spec_value_type() == vt && c2.spec_bytes() == fresh && p2.spec_value_type() == vt
                && p2.spec_bytes() == before && #[trigger] filter_matches(
                c2,
                Some(p2),
                Some(value),
                st,
            );
        lemma_from_to_bytes(c, c2);
        lemma_from_to_bytes(p, p2);
        lemma_compare_same(c, c2, value, st);
        lemma_compare_same(p, p2, value, st);
        lemma_compare_same(c, c2, p2, st);
        lemma_compare_same(p, p2, c, st);
    } else {
        assert(!filter_matches(c, Some(p), Some(value), st));
    }
}

proof fn lemma_fresh_concat(
    a: Seq<ScanResult>,
    b: Seq<ScanResult>,
    x: Seq<(usize, Seq<u8>)>,
    y: Seq<(usize, Seq<u8>)>,
)
    requires
        fresh_results(a, x),
        fresh_results(b, y),
    ensures
        fresh_results(a + b, x + y),
{
    assert forall|k: int| 0 <= k < (a + b).len() implies {
        &&& (#[trigger] (a + b)[k]).address == (x + y)[k].0
        &&& (a + b)[k].previous_value@ == (x + y)[k].1
        &&& (a + b)[k].current_value is Some
        &&& (a + b)[k].current_bytes() == (x + y)[k].1
    } by {
        if k >= a.len() {
            assert(b[k - a.len()] == (a + b)[k]);
        } else {
            assert(a[k] == (a + b)[k]);
        }
    }
}

proof fn lemma_kept_concat(
    a: Seq<ScanResult>,
    b: Seq<ScanResult>,
    x: Seq<(usize, Seq<u8>, Seq<u8>)>,
    y: Seq<(usize, Seq<u8>, Seq<u8>)>,
)
    requires
        kept_results(a, x),
        kept_results(b, y),
    ensures
        kept_results(a + b, x + y),
{
    assert forall|k: int| 0 <= k < (a + b).len() implies {
        &&& (#[trigger] (a + b)[k]).address == (x + y)[k].0
        &&& (a + b)[k].previous_value@ == (x + y)[k].1
        &&& (a + b)[k].current_value is Some
        &&& (a + b)[k].current_bytes() == (x + y)[k].2
    } by {
        if k >= a.len() {
            assert(b[k - a.len()] == (a + b)[k]);
        } else {
            assert(a[k] == (a + b)[k]);
        }
    }
}

/// Appends `src` to `dst`.
fn append_results(dst: &mut Vec<ScanResult>, src: Vec<ScanResult>)
    ensures
        final(dst)@ == old(dst)@ + src@,
{
    let mut src = src;
    dst.append(&mut src);
}

/// Scans one region for the first time.
fn scan_region_first(
    region: &MemoryRegion,
    value: &ScanValue,
    scan_type: ScanType,
    options: &ScanOptions,
    memory: &MemoryScanner,
) -> (r: Vec<ScanResult>)
    requires
        region.wf(),
        options.alignment > 0,
    ensures
        fresh_results(
            r@,
            match region_bytes(*memory.image(), *region) {
                Some(d) => hits_from(
                    region.base_address as int,
                    d,
                    options.value_type,
                    options.alignment as int,
                    *value,
                    scan_type,
                    0,
                ),
                None => Seq::empty(),
            },
        ),
{
    let mut results: Vec<ScanResult> = Vec::new();
    let data = match memory.read_region(region) {
        Ok(data) => data,
        Err(_) => {
            return results;
        },
    };
    proof {
        lemma_region_bytes_len(*memory.image(), *region);
    }
    let ghost d = data@;
    let ghost base = region.base_address as int;
    let value_size = options.value_type.size();
    let alignment = options.alignment;
    let ghost vt = options.value_type;
    let ghost align = alignment as int;
    let ghost acc: Seq<(usize, Seq<u8>)> = Seq::empty();
    let mut offset: usize = 0;
    if value_size > data.len() {
        proof {
            assert(hits_from(base, d, vt, align, *value, scan_type, 0) =~= Seq::empty());
        }
        return results;
    }
    while offset <= data.len() - value_size
        invariant
            d == data@,
            region_bytes(*memory.image(), *region) == Some(d),
            d.len() == region.size,
            region.wf(),
            base == region.base_address,
            value_size == vt.spec_size(),
            vt == options.value_type,
            align == alignment,
            alignment == options.alignment,
            alignment > 0,
            value_size <= data@.len(),
            fresh_results(results@, acc),
            acc + hits_from(base, d, vt, align, *value, scan_type, offset as int) == hits_from(
                base,
                d,
                vt,
                align,
                *value,
                scan_type,
                0,
            ),
        decreases data@.len() + alignment - offset,
    {
        let ghost slot = d.subrange(offset as int, offset + value_size);
        let address = region.base_address + offset;
        let ghost here: Seq<(usize, Seq<u8>)> = Seq::empty();
        if address % alignment == 0 {
            let chunk = crate::byteseq::copy_range(data.as_slice(), offset, value_size);
            match ScanValue::from_bytes(chunk.as_slice(), options.value_type) {
                Some(found) => {
                    proof {
                        assert(chunk@.subrange(0, value_size as int) =~= chunk@);
                        lemma_slot_matches(found, slot, vt, *value, scan_type);
                    }
                    let matched = match scan_type {
                        ScanType::Unknown => true,
                        _ => found.compare(value, scan_type),
                    };
                    if matched {
                        let ghost before = results@;
                        results.push(ScanResult::new(address, chunk));
                        proof {
                            here = seq![(address, slot)];
                            lemma_fresh_concat(before, seq![results@.last()], acc, here);
                            assert(before + seq![results@.last()] =~= results@);
                        }
                    }
                },
                None => {},
            }
        }
        proof {
            if here.len() == 0 {
                assert(acc + here =~= acc);
            }
            let next = hits_from(base, d, vt, align, *value, scan_type, offset + align);
            assert(hits_from(base, d, vt, align, *value, scan_type, offset as int) == here + next);
            assert(acc + (here + next) =~= (acc + here) + next);
            acc = acc + here;
        }
        if alignment > usize::MAX - offset {
            proof {
                assert(hits_from(base, d, vt, align, *value, scan_type, offset + align)
                    =~= Seq::empty());
                assert(acc + Seq::<(usize, Seq<u8>)>::empty() =~= acc);
            }
            return results;
        }
        offset = offset + alignment;
    }
    proof {
        assert(hits_from(base, d, vt, align, *value, scan_type, offset as int) =~= Seq::empty());
        assert(acc + Seq::<(usize, Seq<u8>)>::empty() =~= acc);
    }
    results
}

/// Re-reads the address of one result and keeps it, updated, if it still
/// passes the filter.
fn rescan_address(
    previous: &ScanResult,
    value: &ScanValue,
    scan_type: ScanType,
    value_type: ValueType,
    memory: &MemoryScanner,
) -> (r: Option<ScanResult>)
    ensures
        kept_results(
            match r {
                Some(x) => seq![x],
                None => Seq::empty(),
            },
            rescan_one(*memory.image(), *previous, value_type, *value, scan_type),
        ),
{
    let size = value_type.size();
    let current_bytes = match memory.read_memory(previous.address, size) {
        Ok(b) => b,
        Err(_) => {
            return None;
        },
    };
    proof {
        memory.image().lemma_read_len(previous.address as int, size as int);
    }
    let current_value = match ScanValue::from_bytes(current_bytes.as_slice(), value_type) {
        Some(v) => v,
        None => {
            return None;
        },
    };
    let previous_value = match ScanValue::from_bytes(previous.get_current_value(), value_type) {
        Some(v) => v,
        None => {
            return None;
        },
    };
    proof {
        assert(current_bytes@.subrange(0, size as int) =~= current_bytes@);
        lemma_rescan_matches(
            current_value,
            previous_value,
            current_bytes@,
            previous.current_bytes().subrange(0, size as int),
            value_type,
            *value,
            scan_type,
        );
    }
    let matched = FilterEngine::matches(
        &current_value,
        Some(&previous_value),
        Some(value),
        scan_type,
    );
    assert(matched == rescan_matches(
        current_bytes@,
        previous.current_bytes().subrange(0, size as int),
        value_type,
        *value,
        scan_type,
    ));
    if matched {
        let cur = previous.get_current_value();
        let kept_prev = crate::byteseq::copy_range(cur, 0, cur.len());
        assert(kept_prev@ =~= cur@);
        let result = ScanResult {
            address: previous.address,
            previous_value: kept_prev,
            current_value: Some(current_bytes),
        };
        Some(result)
    } else {
        None
    }
}

/// The scanner: a target and the results of the scans made on it.
pub struct Scanner {
    process: Process,
    results: ScanResults,
}

impl Scanner {
    pub closed spec fn spec_process(&self) -> Process {
        self.process
    }

    pub closed spec fn spec_results(&self) -> ScanResults {
        self.results
    }

    /// A scanner on `process`, with no results yet.
    pub fn new(process: Process) -> (r: Scanner)
        ensures
            r.spec_process() == process,
            r.spec_results().results@.len() == 0,
            r.spec_results().value_type == ValueType::I32,
            r.spec_results().scan_count == 0,
    {
        Scanner { process, results: ScanResults::new(ValueType::I32) }
    }

    pub fn process(&self) -> (r: &Process)
        ensures
            *r == self.spec_process(),
    {
        &self.process
    }

    pub fn results(&self) -> (r: &ScanResults)
        ensures
            *r == self.spec_results(),
    {
        &self.results
    }

    pub fn results_mut(&mut self) -> (r: &mut ScanResults)
        ensures
            *r == old(self).spec_results(),
            final(self).spec_process() == old(self).spec_process(),
            final(self).spec_results() == *final(r),
    {
        &mut self.results
    }

    /// Mutable access to the target, for writes made outside the scanner.
    pub fn process_mut(&mut self) -> (r: &mut Process)
        ensures
            *r == old(self).spec_process(),
            final(self).spec_results() == old(self).spec_results(),
            final(self).spec_process() == *final(r),
    {
        &mut self.process
    }

    /// Scans every region that passes the filters of `options` for slots
    /// whose value satisfies `scan_type` against `value`, replacing the
    /// results; returns how many were found. Fails, changing nothing, when the
    /// alignment is zero.
    pub fn first_scan(&mut self, value: &ScanValue, scan_type: ScanType, options: &ScanOptions) -> (r:
        Result<usize, ScanError>)
        requires
            old(self).spec_process().wf(),
        ensures
            final(self).spec_process() == old(self).spec_process(),
            r is Err <==> options.alignment == 0,
            r is Err ==> r->Err_0 == ScanError::InvalidAlignment && final(self).spec_results()
                == old(self).spec_results(),
            r is Ok ==> {
                &&& fresh_results(
                    final(self).spec_results().results@,
                    scan_regions(
                        old(self).spec_process().memory,
                        old(self).spec_process().memory.regions@,
                        *value,
                        scan_type,
                        *options,
                    ),
                )
                &&& final(self).spec_results().value_type == options.value_type
                &&& final(self).spec_results().scan_count == 1
                &&& r->Ok_0 == final(self).spec_results().results@.len()
                &&& final(self).spec_results().wf()
                &&& forall|k: int|
                    0 <= k < final(self).spec_results().results@.len() ==> scan_hit_ok(
                        old(self).spec_process().memory.regions@,
                        *value,
                        scan_type,
                        *options,
                        (
                            (#[trigger] final(self).spec_results().results@[k]).address,
                            final(self).spec_results().results@[k].current_bytes(),
                        ),
                    )
            },
    {
        if options.alignment == 0 {
            return Err(ScanError::InvalidAlignment);
        }
        self.results = ScanResults::new(options.value_type);
        let memory = MemoryScanner::new(&self.process.memory);
        let regions = memory.query_regions();
        let ghost img = self.process.memory;
        let mut found: Vec<ScanResult> = Vec::new();
        let mut i: usize = 0;
        while i < regions.len()
            invariant
                i <= regions@.len(),
                regions@ == img.regions@,
                img == self.process.memory,
                *memory.image() == img,
                img.wf(),
                options.alignment > 0,
                fresh_results(
                    found@,
                    scan_regions(img, regions@.subrange(0, i as int), *value, scan_type, *options),
                ),
            decreases regions@.len() - i,
        {
            let region = &regions[i];
            let ghost before = found@;
            proof {
                assert(img.regions@[i as int].wf());
                let s = regions@.subrange(0, i + 1);
                assert(s.drop_last() =~= regions@.subrange(0, i as int));
                assert(s.last() == regions@[i as int]);
            }
            if region.state == MEM_COMMIT && (!options.readable_only || region.is_readable) && (!options.writable_only
                || region.is_writable) && (!options.executable_only || region.is_executable) {
                let region_results = scan_region_first(region, value, scan_type, options, &memory);
                let ghost rr = region_results@;
                append_results(&mut found, region_results);
                proof {
                    lemma_fresh_concat(
                        before,
                        rr,
                        scan_regions(img, regions@.subrange(0, i as int), *value, scan_type, *options),
                        region_hits(img, regions@[i as int], *value, scan_type, *options),
                    );
                }
            } else {
                proof {
                    assert(scan_regions(
                        img,
                        regions@.subrange(0, i + 1),
                        *value,
                        scan_type,
                        *options,
                    ) =~= scan_regions(
                        img,
                        regions@.subrange(0, i as int),
                        *value,
                        scan_type,
                        *options,
                    ));
                }
            }
            i = i + 1;
        }
        proof {
            assert(regions@.subrange(0, regions@.len() as int) =~= regions@);
            lemma_first_scan_hits(img, img.regions@, *value, scan_type, *options);
            assert forall|k: int| 0 <= k < found@.len() implies scan_hit_ok(
                img.regions@,
                *value,
                scan_type,
                *options,
                ((#[trigger] found@[k]).address, found@[k].current_bytes()),
            ) by {
                let h = scan_regions(img, img.regions@, *value, scan_type, *options)[k];
                assert(h == (found@[k].address, found@[k].current_bytes()));
            }
            lemma_first_scan_sized(
                found@,
                img,
                img.regions@,
                *value,
                scan_type,
                *options,
            );
        }
        self.results.results = found;
        self.results.increment_scan_count();
        Ok(self.results.len())
    }

    /// Re-reads every result: drops those whose address cannot be read or
    /// whose fresh value fails `scan_type`, and moves each survivor's current
    /// value to its previous one. Returns how many remain.
    pub fn next_scan(&mut self, value: &ScanValue, scan_type: ScanType) -> (r: usize)
        ensures
            final(self).spec_process() == old(self).spec_process(),
            kept_results(
                final(self).spec_results().results@,
                rescan(
                    old(self).spec_process().memory,
                    old(self).spec_results().results@,
                    old(self).spec_results().value_type,
                    *value,
                    scan_type,
                ),
            ),
            final(self).spec_results().value_type == old(self).spec_results().value_type,
            final(self).spec_results().scan_count == old(
                self,
            ).spec_results().scan_count.wrapping_add(1),
            r == final(self).spec_results().results@.len(),
            old(self).spec_results().wf() ==> final(self).spec_results().wf(),
            exists|idx: Seq<int>|
                #[trigger] survivors_in_order(
                    final(self).spec_results().results@,
                    old(self).spec_results().results@,
                    idx,
                ),
    {
        let memory = MemoryScanner::new(&self.process.memory);
        let ghost img = self.process.memory;
        let ghost old_rs = self.results.results@;
        let vt = self.results.value_type;
        let mut kept: Vec<ScanResult> = Vec::new();
        let mut i: usize = 0;
        while i < self.results.results.len()
            invariant
                i <= old_rs.len(),
                old_rs == self.results.results@,
                vt == self.results.value_type,
                img == self.process.memory,
                *memory.image() == img,
                kept_results(kept@, rescan(img, old_rs.subrange(0, i as int), vt, *value, scan_type)),
            decreases old_rs.len() - i,
        {
            let ghost before = kept@;
            proof {
                let s = old_rs.subrange(0, i + 1);
                assert(s.drop_last() =~= old_rs.subrange(0, i as int));
                assert(s.last() == old_rs[i as int]);
            }
            let survivor = rescan_address(&self.results.results[i], value, scan_type, vt, &memory);
            match survivor {
                Some(x) => {
                    kept.push(x);
                    proof {
                        lemma_kept_concat(
                            before,
                            seq![x],
                            rescan(img, old_rs.subrange(0, i as int), vt, *value, scan_type),
                            rescan_one(img, old_rs[i as int], vt, *value, scan_type),
                        );
                        assert(before + seq![x] =~= kept@);
                    }
                },
                None => {
                    proof {
                        assert(rescan_one(img, old_rs[i as int], vt, *value, scan_type).len() == 0);
                        assert(rescan(img, old_rs.subrange(0, i + 1), vt, *value, scan_type) =~= rescan(
                            img,
                            old_rs.subrange(0, i as int),
                            vt,
                            *value,
                            scan_type,
                        ));
                    }
                },
            }
            i = i + 1;
        }
        proof {
            assert(old_rs.subrange(0, old_rs.len() as int) =~= old_rs);
            if self.results.wf() {
                lemma_rescan_sized(kept@, img, old_rs, vt, *value, scan_type);
            }
            lemma_next_scan_subsequence(img, old_rs, vt, *value, scan_type, kept@);
        }
        self.results.results = kept;
        self.results.increment_scan_count();
        self.results.len()
    }

    /// Clears the results and zeroes the scan count.
    pub fn reset(&mut self)
        ensures
            is_reset_of(*final(self), *old(self)),
            final(self).spec_process() == old(self).spec_process(),
            final(self).spec_results().results@.len() == 0,
            final(self).spec_results().scan_count == 0,
            final(self).spec_results().value_type == old(self).spec_results().value_type,
    {
        self.results.clear();
    }

    /// Writes the little-endian encoding of `value` at `address`.
    pub fn write_value(&mut self, address: usize, value: &ScanValue) -> (r: Result<(), ScanError>)
        requires
            old(self).spec_process().wf(),
        ensures
            final(self).spec_process().wf(),
            final(self).spec_results() == old(self).spec_results(),
            final(self).spec_process().pid == old(self).spec_process().pid,
            final(self).spec_process().memory.regions@ == old(
                self,
            ).spec_process().memory.regions@,
            r is Ok <==> exists|i: int|
                crate::memory::is_holder(
                    old(self).spec_process().memory.blocks@,
                    address as int,
                    value.spec_bytes().len() as int,
                    i,
                ),
            r is Ok ==> final(self).spec_process().memory.spec_read(
                address as int,
                value.spec_bytes().len() as int,
            ) == Some(value.spec_bytes()),
            r is Err ==> r->Err_0 == ScanError::Memory(MemoryError::Unwritable)
                && final(self).spec_process().memory.blocks@ == old(
                self,
            ).spec_process().memory.blocks@,
    {
        let bytes = value.to_bytes();
        match self.process.memory.write_memory(address, bytes.as_slice()) {
            Ok(()) => Ok(()),
            Err(e) => Err(ScanError::Memory(e)),
        }
    }

    /// Reads the value of type `value_type` at `address`.
    pub fn read_value(&self, address: usize, value_type: ValueType) -> (r: Result<ScanValue, ScanError>)
        ensures
            r is Ok <==> self.spec_process().memory.spec_read(
                address as int,
                value_type.spec_size() as int,
            ) is Some,
            r is Ok ==> r->Ok_0.spec_value_type() == value_type && r->Ok_0.spec_bytes()
                == self.spec_process().memory.spec_read(
                address as int,
                value_type.spec_size() as int,
            )->0,
            r is Err ==> r->Err_0 == ScanError::Memory(MemoryError::Unreadable),
    {
        let memory = MemoryScanner::new(&self.process.memory);
        let bytes = match memory.read_memory(address, value_type.size()) {
            Ok(b) => b,
            Err(_) => {
                return Err(ScanError::Memory(MemoryError::Unreadable));
            },
        };
        proof {
            self.process.memory.lemma_read_len(address as int, value_type.spec_size() as int);
            assert(bytes@.subrange(0, value_type.spec_size() as int) =~= bytes@);
        }
        match ScanValue::from_bytes(bytes.as_slice(), value_type) {
            Some(v) => Ok(v),
            None => Err(ScanError::DecodeFailed),
        }
    }
}

proof fn lemma_hits_sized(
    base: int,
    d: Seq<u8>,
    vt: ValueType,
    align: int,
    value: ScanValue,
    st: ScanType,
    off: int,
)
    ensures
        forall|k: int|
            0 <= k < hits_from(base, d, vt, align, value, st, off).len() ==> (#[trigger] hits_from(
                base,
                d,
                vt,
                align,
                value,
                st,
                off,
            )[k]).1.len() == vt.spec_size(),
    decreases if off > d.len() {
        0
    } else {
        d.len() - off + 1
    },
{
    let size = vt.spec_size() as int;
    if !(align <= 0 || off < 0 || off + size > d.len()) {
        lemma_hits_sized(base, d, vt, align, value, st, off + align);
        let h = hits_from(base, d, vt, align, value, st, off);
        let t = hits_from(base, d, vt, align, value, st, off + align);
        assert forall|k: int| 0 <= k < h.len() implies (#[trigger] h[k]).1.len() == vt.spec_size() by {
            let slot = d.subrange(off, off + size);
            if (base + off) % align == 0 && slot_matches(slot, vt, value, st) {
                if k > 0 {
                    assert(h[k] == t[k - 1]);
                }
            } else {
                assert(h[k] == t[k]);
            }
        }
    }
}

proof fn lemma_scan_regions_sized(
    img: MemoryImage,
    regions: Seq<MemoryRegion>,
    value: ScanValue,
    st: ScanType,
    opts: ScanOptions,
)
    ensures
        forall|k: int|
            0 <= k < scan_regions(img, regions, value, st, opts).len() ==> (#[trigger] scan_regions(
                img,
                regions,
                value,
                st,
                opts,
            )[k]).1.len() == opts.value_type.spec_size(),
    decreases regions.len(),
{
    if regions.len() > 0 {
        lemma_scan_regions_sized(img, regions.drop_last(), value, st, opts);
        let a = scan_regions(img, regions.drop_last(), value, st, opts);
        let b = region_hits(img, regions.last(), value, st, opts);
        let g = regions.last();
        if let Some(d) = region_bytes(img, g) {
            lemma_hits_sized(
                g.base_address as int,
                d,
                opts.value_type,
                opts.alignment as int,
                value,
                st,
                0,
            );
        }
        assert forall|k: int| 0 <= k < (a + b).len() implies (#[trigger] (a + b)[k]).1.len()
            == opts.value_type.spec_size() by {
            if k >= a.len() {
                assert((a + b)[k] == b[k - a.len()]);
            }
        }
    }
}

proof fn lemma_first_scan_sized(
    rs: Seq<ScanResult>,
    img: MemoryImage,
    regions: Seq<MemoryRegion>,
    value: ScanValue,
    st: ScanType,
    opts: ScanOptions,
)
    requires
        fresh_results(rs, scan_regions(img, regions, value, st, opts)),
    ensures
        forall|k: int| 0 <= k < rs.len() ==> (#[trigger] rs[k]).sized(opts.value_type.spec_size()),
{
    lemma_scan_regions_sized(img, regions, value, st, opts);
    let h = scan_regions(img, regions, value, st, opts);
    assert forall|k: int| 0 <= k < rs.len() implies (#[trigger] rs[k]).sized(
        opts.value_type.spec_size(),
    ) by {
        assert(h[k].1.len() == opts.value_type.spec_size());
    }
}

proof fn lemma_rescan_sized(
    kept: Seq<ScanResult>,
    img: MemoryImage,
    rs: Seq<ScanResult>,
    vt: ValueType,
    value: ScanValue,
    st: ScanType,
)
    requires
        kept_results(kept, rescan(img, rs, vt, value, st)),
        forall|i: int| 0 <= i < rs.len() ==> (#[trigger] rs[i]).sized(vt.spec_size()),
    ensures
        forall|k: int| 0 <= k < kept.len() ==> (#[trigger] kept[k]).sized(vt.spec_size()),
{
    lemma_rescan_entries(img, rs, vt, value, st);
    let h = rescan(img, rs, vt, value, st);
    assert forall|k: int| 0 <= k < kept.len() implies (#[trigger] kept[k]).sized(vt.spec_size()) by {
        let e = h[k];
        let j = choose|j: int|
            0 <= j < rs.len() && rs[j].address == e.0 && rs[j].current_bytes() == e.1
                && img.spec_read(e.0 as int, vt.spec_size() as int) == Some(e.2);
        assert(rs[j].sized(vt.spec_size()));
        img.lemma_read_len(e.0 as int, vt.spec_size() as int);
    }
}

proof fn lemma_rescan_entries(
    img: MemoryImage,
    rs: Seq<ScanResult>,
    vt: ValueType,
    value: ScanValue,
    st: ScanType,
)
    ensures
        forall|k: int|
            0 <= k < rescan(img, rs, vt, value, st).len() ==> exists|j: int|
                0 <= j < rs.len() && rs[j].address == (#[trigger] rescan(
                    img,
                    rs,
                    vt,
                    value,
                    st,
                )[k]).0 && rs[j].current_bytes() == rescan(img, rs, vt, value, st)[k].1
                    && img.spec_read(
                    rescan(img, rs, vt, value, st)[k].0 as int,
                    vt.spec_size() as int,
                ) == Some(rescan(img, rs, vt, value, st)[k].2),
    decreases rs.len(),
{
    if rs.len() > 0 {
        let init = rs.drop_last();
        lemma_rescan_entries(img, init, vt, value, st);
        let a = rescan(img, init, vt, value, st);
        let b = rescan_one(img, rs.last(), vt, value, st);
        assert forall|k: int| 0 <= k < (a + b).len() implies exists|j: int|
            0 <= j < rs.len() && rs[j].address == (#[trigger] (a + b)[k]).0 && rs[j].current_bytes()
                == (a + b)[k].1 && img.spec_read((a + b)[k].0 as int, vt.spec_size() as int)
                == Some((a + b)[k].2) by {
            if k < a.len() {
                assert((a + b)[k] == a[k]);
                let j = choose|j: int|
                    0 <= j < init.len() && init[j].address == (#[trigger] a[k]).0
                        && init[j].current_bytes() == a[k].1 && img.spec_read(
                        a[k].0 as int,
                        vt.spec_size() as int,
                    ) == Some(a[k].2);
                assert(rs[j] == init[j]);
            } else {
                assert((a + b)[k] == b[k - a.len()]);
                assert(rs[rs.len() - 1] == rs.last());
            }
        }
    }
}

} // verus!

verus! {

proof fn lemma_hits_from_props(
    g: MemoryRegion,
    d: Seq<u8>,
    vt: ValueType,
    align: int,
    value: ScanValue,
    st: ScanType,
    off: int,
)
    requires
        g.wf(),
        d.len() == g.size,
        align > 0,
        off >= 0,
    ensures
        forall|k: int|
            0 <= k < hits_from(g.base_address as int, d, vt, align, value, st, off).len() ==> {
                let h = #[trigger] hits_from(g.base_address as int, d, vt, align, value, st, off)[k];
                &&& h.0 as int % align == 0
                &&& g.covers(h.0 as int, vt.spec_size() as int)
                &&& slot_matches(h.1, vt, value, st)
            },
    decreases if off > d.len() {
        0
    } else {
        d.len() - off + 1
    },
{
    let base = g.base_address as int;
    let size = vt.spec_size() as int;
    if off + size <= d.len() {
        lemma_hits_from_props(g, d, vt, align, value, st, off + align);
        let h = hits_from(base, d, vt, align, value, st, off);
        let t = hits_from(base, d, vt, align, value, st, off + align);
        let slot = d.subrange(off, off + size);
        assert forall|k: int| 0 <= k < h.len() implies {
            let e = #[trigger] h[k];
            &&& e.0 as int % align == 0
            &&& g.covers(e.0 as int, size)
            &&& slot_matches(e.1, vt, value, st)
        } by {
            if (base + off) % align == 0 && slot_matches(slot, vt, value, st) {
                if k > 0 {
                    assert(h[k] == t[k - 1]);
                } else {
                    assert(h[0] == ((base + off) as usize, slot));
                }
            } else {
                assert(h[k] == t[k]);
            }
        }
    }
}

/// How many slots an Unknown scan records from offset `off` on.
pub open spec fn slot_count(len: int, size: int, align: int, off: int) -> int {
    if off + size > len {
        0
    } else {
        (len - size - off) / align + 1
    }
}

/// An Unknown scan of an aligned region records every slot: the `k`-th hit
/// from offset `off` on is at `off + k * align`, with the region's bytes
/// there, and there are as many hits as slots.
pub proof fn lemma_unknown_hits(
    base: int,
    d: Seq<u8>,
    vt: ValueType,
    align: int,
    value: ScanValue,
    off: int,
)
    requires
        align > 0,
        off >= 0,
        base % align == 0,
        off % align == 0,
    ensures
        hits_from(base, d, vt, align, value, ScanType::Unknown, off).len() == slot_count(
            d.len() as int,
            vt.spec_size() as int,
            align,
            off,
        ),
        forall|k: int|
            0 <= k < hits_from(base, d, vt, align, value, ScanType::Unknown, off).len() ==> {
                let p = off + k * align;
                &&& (#[trigger] hits_from(base, d, vt, align, value, ScanType::Unknown, off)[k]).0
                    == (base + p) as usize
                &&& hits_from(base, d, vt, align, value, ScanType::Unknown, off)[k].1
                    == d.subrange(p, p + vt.spec_size())
            },
    decreases if off > d.len() {
        0
    } else {
        d.len() - off + 1
    },
{
    let size = vt.spec_size() as int;
    let h = hits_from(base, d, vt, align, value, ScanType::Unknown, off);
    if off + size <= d.len() {
        vstd::arithmetic::div_mod::lemma_mod_adds(off, align, align);
        vstd::arithmetic::div_mod::lemma_mod_self_0(align);
        vstd::arithmetic::div_mod::lemma_mod_adds(base, off, align);
        assert((base + off) % align == 0);
        lemma_unknown_hits(base, d, vt, align, value, off + align);
        let t = hits_from(base, d, vt, align, value, ScanType::Unknown, off + align);
        assert(h == seq![((base + off) as usize, d.subrange(off, off + size))] + t);
        let x = d.len() - size - off;
        if off + align + size <= d.len() {
            vstd::arithmetic::div_mod::lemma_div_plus_one(x - align, align);
            assert(slot_count(d.len() as int, size, align, off + align) == (x - align) / align + 1);
        } else {
            vstd::arithmetic::div_mod::lemma_basic_div(x, align);
        }
        assert forall|k: int| 0 <= k < h.len() implies {
            let p = off + k * align;
            &&& (#[trigger] h[k]).0 == (base + p) as usize
            &&& h[k].1 == d.subrange(p, p + size)
        } by {
            if k > 0 {
                assert(h[k] == t[k - 1]);
                assert(off + align + (k - 1) * align == off + k * align) by (nonlinear_arith);
            } else {
                assert(0 * align == 0) by (nonlinear_arith);
            }
        }
    }
}

/// The hit `h` is aligned, lies inside a committed region of `regions` that
/// passes the filters, and its bytes satisfy the predicate.
pub open spec fn scan_hit_ok(
    regions: Seq<MemoryRegion>,
    value: ScanValue,
    st: ScanType,
    opts: ScanOptions,
    h: (usize, Seq<u8>),
) -> bool {
    &&& h.0 as int % opts.alignment as int == 0
    &&& exists|j: int|
        0 <= j < regions.len() && regions[j].state == MEM_COMMIT && region_passes(
            regions[j],
            opts.readable_only,
            opts.writable_only,
            opts.executable_only,
        ) && (#[trigger] regions[j]).covers(h.0 as int, opts.value_type.spec_size() as int)
    &&& slot_matches(h.1, opts.value_type, value, st)
}

/// Every hit of a first scan is aligned, lies inside one of the committed
/// regions of the memory map that pass the scan's filters, and its bytes, read as the
/// scan's value type, satisfy the predicate against the reference value.
pub proof fn lemma_first_scan_hits(
    img: MemoryImage,
    regions: Seq<MemoryRegion>,
    value: ScanValue,
    st: ScanType,
    opts: ScanOptions,
)
    requires
        opts.alignment > 0,
        forall|i: int| 0 <= i < regions.len() ==> (#[trigger] regions[i]).wf(),
    ensures
        forall|k: int|
            0 <= k < scan_regions(img, regions, value, st, opts).len() ==> scan_hit_ok(
                regions,
                value,
                st,
                opts,
                #[trigger] scan_regions(img, regions, value, st, opts)[k],
            ),
    decreases regions.len(),
{
    if regions.len() > 0 {
        let init = regions.drop_last();
        let g = regions.last();
        assert(g == regions[regions.len() - 1]);
        assert forall|i: int| 0 <= i < init.len() implies (#[trigger] init[i]).wf() by {
            assert(init[i] == regions[i]);
        }
        lemma_first_scan_hits(img, init, value, st, opts);
        let a = scan_regions(img, init, value, st, opts);
        let b = region_hits(img, g, value, st, opts);
        if g.state == MEM_COMMIT && region_passes(g, opts.readable_only, opts.writable_only, opts.executable_only) {
            if let Some(d) = region_bytes(img, g) {
                lemma_region_bytes_len(img, g);
                lemma_hits_from_props(
                    g,
                    d,
                    opts.value_type,
                    opts.alignment as int,
                    value,
                    st,
                    0,
                );
            }
        }
        assert forall|k: int| 0 <= k < (a + b).len() implies scan_hit_ok(
            regions,
            value,
            st,
            opts,
            #[trigger] (a + b)[k],
        ) by {
            if k < a.len() {
                assert((a + b)[k] == a[k]);
                let h = a[k];
                assert(scan_hit_ok(init, value, st, opts, h));
                let j = choose|j: int|
                    0 <= j < init.len() && init[j].state == MEM_COMMIT && region_passes(
                        init[j],
                        opts.readable_only,
                        opts.writable_only,
                        opts.executable_only,
                    ) && (#[trigger] init[j]).covers(
                        h.0 as int,
                        opts.value_type.spec_size() as int,
                    );
                assert(regions[j] == init[j]);
            } else {
                assert((a + b)[k] == b[k - a.len()]);
                assert(regions[regions.len() - 1] == g);
            }
        }
    }
}

/// The positions in `rs` of the entries that a next scan keeps, in order.
proof fn lemma_rescan_indices(
    img: MemoryImage,
    rs: Seq<ScanResult>,
    vt: ValueType,
    value: ScanValue,
    st: ScanType,
) -> (idx: Seq<int>)
    ensures
        idx.len() == rescan(img, rs, vt, value, st).len(),
        forall|a: int, b: int| 0 <= a < b < idx.len() ==> idx[a] < idx[b],
        forall|k: int|
            0 <= k < idx.len() ==> {
                &&& 0 <= #[trigger] idx[k] < rs.len()
                &&& rescan(img, rs, vt, value, st)[k].0 == rs[idx[k]].address
                &&& rescan(img, rs, vt, value, st)[k].1 == rs[idx[k]].current_bytes()
            },
    decreases rs.len(),
{
    if rs.len() == 0 {
        Seq::empty()
    } else {
        let init = rs.drop_last();
        let i0 = lemma_rescan_indices(img, init, vt, value, st);
        let a = rescan(img, init, vt, value, st);
        let b = rescan_one(img, rs.last(), vt, value, st);
        let last = rs.len() - 1;
        let idx = if b.len() == 0 {
            i0
        } else {
            i0.push(last)
        };
        assert(rs.last() == rs[last]);
        assert forall|k: int| 0 <= k < idx.len() implies {
            &&& 0 <= #[trigger] idx[k] < rs.len()
            &&& (a + b)[k].0 == rs[idx[k]].address
            &&& (a + b)[k].1 == rs[idx[k]].current_bytes()
        } by {
            if k < i0.len() {
                assert(idx[k] == i0[k]);
                assert((a + b)[k] == a[k]);
                assert(rs[i0[k]] == init[i0[k]]);
            } else {
                assert((a + b)[k] == b[0]);
            }
        }
        idx
    }
}

/// `kept[k]` comes from `rs[idx[k]]`, with `idx` strictly increasing: the
/// address is kept and the old current value becomes the previous one.
pub open spec fn survivors_in_order(kept: Seq<ScanResult>, rs: Seq<ScanResult>, idx: Seq<int>) -> bool {
    &&& idx.len() == kept.len()
    &&& forall|a: int, b: int| 0 <= a < b < idx.len() ==> idx[a] < idx[b]
    &&& forall|k: int|
        0 <= k < idx.len() ==> {
            &&& 0 <= #[trigger] idx[k] < rs.len()
            &&& kept[k].address == rs[idx[k]].address
            &&& kept[k].previous_value@ == rs[idx[k]].current_bytes()
        }
}

/// A next scan filters without reordering: its results are a subsequence of
/// the results before it, and each survivor's previous value is what was its
/// current value before the scan.
pub proof fn lemma_next_scan_subsequence(
    img: MemoryImage,
    rs: Seq<ScanResult>,
    vt: ValueType,
    value: ScanValue,
    st: ScanType,
    kept: Seq<ScanResult>,
)
    requires
        kept_results(kept, rescan(img, rs, vt, value, st)),
    ensures
        exists|idx: Seq<int>| #[trigger] survivors_in_order(kept, rs, idx),
{
    let idx = lemma_rescan_indices(img, rs, vt, value, st);
    assert forall|k: int| 0 <= k < idx.len() implies {
        &&& 0 <= #[trigger] idx[k] < rs.len()
        &&& kept[k].address == rs[idx[k]].address
        &&& kept[k].previous_value@ == rs[idx[k]].current_bytes()
    } by {
        assert(kept[k].address == rescan(img, rs, vt, value, st)[k].0);
    }
    assert(survivors_in_order(kept, rs, idx));
}

/// The observable state after a reset: the same target, no results, a zero
/// scan count.
pub open spec fn is_reset_of(after: Scanner, before: Scanner) -> bool {
    &&& after.spec_process() == before.spec_process()
    &&& after.spec_results().results@.len() == 0
    &&& after.spec_results().scan_count == 0
}

/// Resetting twice leaves the results and count that one reset leaves, and a
/// first scan followed by a reset leaves what a reset alone leaves.
pub proof fn lemma_reset_idempotent(s0: Scanner, s1: Scanner, s2: Scanner, t1: Scanner)
    requires
        is_reset_of(s1, s0),
        is_reset_of(s2, s1),
        t1.spec_process() == s0.spec_process(),
    ensures
        s2.spec_process() == s1.spec_process(),
        s2.spec_results().results@ == s1.spec_results().results@,
        s2.spec_results().scan_count == s1.spec_results().scan_count,
        forall|t2: Scanner|
            is_reset_of(t2, t1) ==> t2.spec_process() == s1.spec_process()
                && t2.spec_results().results@ == s1.spec_results().results@
                && t2.spec_results().scan_count == s1.spec_results().scan_count,
{
    assert(s2.spec_results().results@ =~= s1.spec_results().results@);
    assert forall|t2: Scanner| is_reset_of(t2, t1) implies t2.spec_results().results@
        == s1.spec_results().results@ by {
        assert(t2.spec_results().results@ =~= s1.spec_results().results@);
    }
}

} // verus!
