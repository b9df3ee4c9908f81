use vstd::prelude::*;
use vstd::string::StringSliceAdditionalSpecFns;
use crate::byteseq::{read_u32_at, u32_at};
use crate::memory::{MEM_COMMIT, MemoryImage, MemoryRegion};

verus! {

/// A match of a pattern: its absolute address and its offset in the region.
#[derive(Clone, Copy, Debug, PartialEq, Eq, Structural)]
pub struct ScanResult {
    pub address: usize,
    pub offset: usize,
}

/// A byte pattern: each position holds a byte that must match, or is a wildcard.
pub struct Pattern {
    bytes: Vec<u8>,
    mask: Vec<bool>,
}

pub open spec fn is_ws(b: u8) -> bool {
    b == 0x20 || b == 0x09 || b == 0x0a || b == 0x0b || b == 0x0c || b == 0x0d
}

pub open spec fn hex_digit(b: u8) -> Option<nat> {
    if 0x30 <= b <= 0x39 {
        Some((b - 0x30) as nat)
    } else if 0x41 <= b <= 0x46 {
        Some((b - 0x41 + 10) as nat)
    } else if 0x61 <= b <= 0x66 {
        Some((b - 0x61 + 10) as nat)
    } else {
        None
    }
}

/// The value of a run of hex digits, most significant first.
pub open spec fn hex_value(t: Seq<u8>) -> nat
    decreases t.len(),
{
    if t.len() == 0 {
        0
    } else {
        hex_value(t.drop_last()) * 16 + match hex_digit(t.last()) {
            Some(d) => d,
            None => 0,
        }
    }
}

pub open spec fn all_hex(t: Seq<u8>) -> bool {
    forall|i: int| 0 <= i < t.len() ==> (#[trigger] hex_digit(t[i])) is Some
}

/// What one token of a pattern text stands for: a wildcard (`?` or `??`), a
/// byte written in hex (an optional `+`, then digits, at most 0xFF), or
/// nothing, for any other token.
pub open spec fn token_entry(t: Seq<u8>) -> Seq<(u8, bool)> {
    if t == seq![0x3fu8] || t == seq![0x3fu8, 0x3fu8] {
        seq![(0u8, false)]
    } else {
        let digits = if t.len() > 0 && t[0] == 0x2b {
            t.drop_first()
        } else {
            t
        };
        if digits.len() > 0 && all_hex(digits) && hex_value(digits) <= 0xff {
            seq![(hex_value(digits) as u8, true)]
        } else {
            Seq::empty()
        }
    }
}

/// The entries of a pattern text from position `i` on, with `cur` the part
/// of a token already read.
pub open spec fn parse_from(s: Seq<u8>, i: int, cur: Seq<u8>) -> Seq<(u8, bool)>
    decreases s.len() - i,
{
    if i >= s.len() || i < 0 {
        token_entry(cur)
    } else if is_ws(s[i]) {
        token_entry(cur) + parse_from(s, i + 1, Seq::empty())
    } else {
        parse_from(s, i + 1, cur.push(s[i]))
    }
}

/// The entries of a whitespace-separated pattern text.
pub open spec fn parse_pattern(s: Seq<u8>) -> Seq<(u8, bool)> {
    parse_from(s, 0, Seq::empty())
}

/// Whether `data` (at least as long as the pattern) matches it under its mask.
pub open spec fn mask_matches(entries: Seq<(u8, bool)>, data: Seq<u8>) -> bool {
    &&& data.len() >= entries.len()
    &&& forall|i: int| 0 <= i < entries.len() ==> (#[trigger] entries[i]).1 ==> data[i] == entries[i].0
}

fn hex_digit_exec(b: u8) -> (r: Option<u8>)
    ensures
        r is Some <==> hex_digit(b) is Some,
        r is Some ==> r->0 as nat == hex_digit(b)->0,
        r is Some ==> r->0 < 16,
{
    if 0x30 <= b && b <= 0x39 {
        Some(b - 0x30)
    } else if 0x41 <= b && b <= 0x46 {
        Some(b - 0x41 + 10)
    } else if 0x61 <= b && b <= 0x66 {
        Some(b - 0x61 + 10)
    } else {
        None
    }
}

/// The byte written in hex by `t` from `start` on, if every byte there is a
/// hex digit and the value is at most 0xFF.
fn parse_hex(t: &Vec<u8>, start: usize) -> (r: Option<u8>)
    requires
        start <= t@.len(),
    ensures
        ({
            let digits = t@.subrange(start as int, t@.len() as int);
            &&& r is Some <==> (all_hex(digits) && hex_value(digits) <= 0xff)
            &&& r is Some ==> r->0 as nat == hex_value(digits)
        }),
{
    let mut acc: u32 = 0;
    let mut i: usize = start;
    while i < t.len()
        invariant
            start <= i <= t@.len(),
            all_hex(t@.subrange(start as int, i as int)),
            acc as nat == if hex_value(t@.subrange(start as int, i as int)) < 256 {
                hex_value(t@.subrange(start as int, i as int))
            } else {
                256
            },
        decreases t@.len() - i,
    {
        let d = match hex_digit_exec(t[i]) {
            Some(d) => d,
            None => {
                proof {
                    let digits = t@.subrange(start as int, t@.len() as int);
                    assert(hex_digit(digits[i - start]) is None);
                }
                return None;
            },
        };
        proof {
            let p = t@.subrange(start as int, i as int);
            let q = t@.subrange(start as int, i + 1);
            assert(q.drop_last() =~= p);
            assert(q.last() == t@[i as int]);
            assert(hex_value(q) == hex_value(p) * 16 + d);
            assert forall|j: int| 0 <= j < q.len() implies (#[trigger] hex_digit(q[j])) is Some by {
                if j < p.len() {
                    assert(q[j] == p[j]);
                }
            }
        }
        acc = if acc >= 256 {
            256
        } else {
            let v = acc * 16 + d as u32;
            if v >= 256 {
                256
            } else {
                v
            }
        };
        i = i + 1;
    }
    if acc <= 0xff {
        Some(acc as u8)
    } else {
        None
    }
}

/// Appends the entry of one token to `bytes` and `mask`.
fn push_token(t: &Vec<u8>, bytes: &mut Vec<u8>, mask: &mut Vec<bool>)
    requires
        old(bytes)@.len() == old(mask)@.len(),
    ensures
        final(bytes)@.len() == final(mask)@.len(),
        pairs(final(bytes)@, final(mask)@) == pairs(old(bytes)@, old(mask)@) + token_entry(t@),
{
    let ghost e = token_entry(t@);
    if (t.len() == 1 && t[0] == 0x3f) || (t.len() == 2 && t[0] == 0x3f && t[1] == 0x3f) {
        proof {
            if t@.len() == 1 {
                assert(t@ =~= seq![0x3fu8]);
            } else {
                assert(t@ =~= seq![0x3fu8, 0x3fu8]);
            }
        }
        bytes.push(0);
        mask.push(false);
        proof {
            assert(pairs(bytes@, mask@) =~= pairs(old(bytes)@, old(mask)@) + e);
        }
        return;
    }
    proof {
        assert(t@ != seq![0x3fu8] && t@ != seq![0x3fu8, 0x3fu8]) by {
            if t@ == seq![0x3fu8] {
                assert(t@.len() == 1 && t@[0] == 0x3f);
            }
            if t@ == seq![0x3fu8, 0x3fu8] {
                assert(t@.len() == 2 && t@[0] == 0x3f && t@[1] == 0x3f);
            }
        }
    }
    let start: usize = if t.len() > 0 && t[0] == 0x2b {
        1
    } else {
        0
    };
    let ghost digits = if t@.len() > 0 && t@[0] == 0x2b {
        t@.drop_first()
    } else {
        t@
    };
    assert(digits =~= t@.subrange(start as int, t@.len() as int));
    if start >= t.len() {
        proof {
            assert(pairs(bytes@, mask@) =~= pairs(old(bytes)@, old(mask)@) + e);
        }
        return;
    }
    let acc = match parse_hex(t, start) {
        Some(v) => v as u32,
        None => 256,
    };
    if acc <= 0xff {
        bytes.push(acc as u8);
        mask.push(true);
    }
    proof {
        assert(pairs(bytes@, mask@) =~= pairs(old(bytes)@, old(mask)@) + e);
    }
}

/// The entries of a pattern, position by position.
pub open spec fn pairs(bytes: Seq<u8>, mask: Seq<bool>) -> Seq<(u8, bool)> {
    Seq::new(bytes.len(), |i: int| (bytes[i], mask[i]))
}

impl Pattern {
    /// The pattern's entries: each byte with whether it must match.
    pub closed spec fn entries(&self) -> Seq<(u8, bool)> {
        pairs(self.bytes@, self.mask@)
    }

    /// Bytes and mask have one entry per position.
    pub closed spec fn wf(&self) -> bool {
        self.bytes@.len() == self.mask@.len()
    }

    /// Parses a pattern from text such as `"48 8B 05 ?? ?? ?? ?? 48 85 C0"`:
    /// tokens are separated by whitespace, `?` and `??` are wildcards, other
    /// tokens are bytes in hex; a token that is neither is skipped.
    pub fn from_string(pattern: &str) -> (r: Pattern)
        ensures
            r.wf(),
            r.entries() == parse_pattern(pattern.spec_bytes()),
    {
        let s = pattern.as_bytes();
        let ghost sv = s@;
        let mut bytes: Vec<u8> = Vec::new();
        let mut mask: Vec<bool> = Vec::new();
        let mut cur: Vec<u8> = Vec::new();
        let mut i: usize = 0;
        while i < s.len()
            invariant
                i <= sv.len(),
                sv == s@,
                bytes@.len() == mask@.len(),
                pairs(bytes@, mask@) + parse_from(sv, i as int, cur@) == parse_from(
                    sv,
                    0,
                    Seq::empty(),
                ),
            decreases sv.len() - i,
        {
            let b = s[i];
            if b == 0x20 || b == 0x09 || b == 0x0a || b == 0x0b || b == 0x0c || b == 0x0d {
                let ghost before = pairs(bytes@, mask@);
                let ghost c = cur@;
                push_token(&cur, &mut bytes, &mut mask);
                cur = Vec::new();
                proof {
                    assert(parse_from(sv, i as int, c) == token_entry(c) + parse_from(
                        sv,
                        i + 1,
                        Seq::empty(),
                    ));
                    assert(before + (token_entry(c) + parse_from(sv, i + 1, Seq::empty())) =~= (
                    before + token_entry(c)) + parse_from(sv, i + 1, Seq::empty()));
                    assert(cur@ =~= Seq::<u8>::empty());
                }
            } else {
                let ghost c = cur@;
                cur.push(b);
                proof {
                    assert(parse_from(sv, i as int, c) == parse_from(sv, i + 1, c.push(b)));
                }
            }
            i = i + 1;
        }
        let ghost before = pairs(bytes@, mask@);
        let ghost c = cur@;
        push_token(&cur, &mut bytes, &mut mask);
        proof {
            assert(parse_from(sv, i as int, c) == token_entry(c));
        }
        Pattern { bytes, mask }
    }

    /// Number of positions in the pattern.
    pub fn len(&self) -> (r: usize)
        ensures
            r == self.entries().len(),
    {
        self.bytes.len()
    }

    /// Whether the pattern matches `data` starting at `start`.
    pub fn matches_at(&self, data: &[u8], start: usize) -> (r: bool)
        requires
            self.wf(),
        ensures
            r == (start <= data@.len() && mask_matches(
                self.entries(),
                data@.subrange(start as int, data@.len() as int),
            )),
    {
        let n = data.len();
        if start > n || n - start < self.bytes.len() {
            return false;
        }
        let ghost rest = data@.subrange(start as int, data@.len() as int);
        let mut i: usize = 0;
        while i < self.bytes.len()
            invariant
                n == data@.len(),
                rest == data@.subrange(start as int, data@.len() as int),
                i <= self.bytes@.len(),
                self.bytes@.len() == self.mask@.len(),
                start + self.bytes@.len() <= data@.len(),
                forall|j: int|
                    0 <= j < i ==> (#[trigger] self.entries()[j]).1 ==> data@[start + j]
                        == self.entries()[j].0,
            decreases self.bytes@.len() - i,
        {
            if self.mask[i] && data[start + i] != self.bytes[i] {
                proof {
                    assert(self.entries()[i as int].1 && rest[i as int] != self.entries()[i as int].0);
                }
                return false;
            }
            i = i + 1;
        }
        proof {
            assert forall|j: int| 0 <= j < self.entries().len() && (#[trigger] self.entries()[j]).1
                implies rest[j] == self.entries()[j].0 by {
                assert(rest[j] == data@[start + j]);
            }
        }
        true
    }
}

/// Whether a region belongs to the module `[module_base, module_base + module_size)`,
/// is committed and readable.
pub open spec fn region_in_module(g: MemoryRegion, module_base: usize, module_size: usize) -> bool {
    &&& module_base <= g.base_address < module_base + module_size
    &&& g.state == MEM_COMMIT
    &&& g.is_readable
}

/// The matches of a pattern in the bytes `d` of a region at `base`, from offset `i` on.
pub open spec fn matches_from(entries: Seq<(u8, bool)>, d: Seq<u8>, base: int, i: int) -> Seq<
    ScanResult,
>
    decreases if i > d.len() {
        0
    } else {
        d.len() - i + 1
    },
{
    if i < 0 || i + entries.len() > d.len() {
        Seq::empty()
    } else {
        let here = if mask_matches(entries, d.subrange(i, d.len() as int)) {
            seq![ScanResult { address: (base + i) as usize, offset: i as usize }]
        } else {
            Seq::empty()
        };
        here + matches_from(entries, d, base, i + 1)
    }
}

/// The matches of a pattern in one region: none when the region is outside
/// the module, not committed, not readable, or cannot be read.
pub open spec fn region_pattern_hits(
    img: MemoryImage,
    g: MemoryRegion,
    entries: Seq<(u8, bool)>,
    module_base: usize,
    module_size: usize,
) -> Seq<ScanResult> {
    if region_in_module(g, module_base, module_size) {
        match img.spec_read(g.base_address as int, g.size as int) {
            Some(d) => matches_from(entries, d, g.base_address as int, 0),
            None => Seq::empty(),
        }
    } else {
        Seq::empty()
    }
}

/// The matches of a pattern over `regions`, region by region in order.
pub open spec fn pattern_hits(
    img: MemoryImage,
    regions: Seq<MemoryRegion>,
    entries: Seq<(u8, bool)>,
    module_base: usize,
    module_size: usize,
) -> Seq<ScanResult>
    decreases regions.len(),
{
    if regions.len() == 0 {
        Seq::empty()
    } else {
        pattern_hits(img, regions.drop_last(), entries, module_base, module_size)
            + region_pattern_hits(img, regions.last(), entries, module_base, module_size)
    }
}

fn scan_region_pattern(data: &Vec<u8>, pattern: &Pattern, base: usize) -> (r: Vec<ScanResult>)
    requires
        pattern.wf(),
        base + data@.len() <= usize::MAX,
    ensures
        r@ == matches_from(pattern.entries(), data@, base as int, 0),
{
    let mut out: Vec<ScanResult> = Vec::new();
    let n = data.len();
    let l = pattern.len();
    if l > n {
        proof {
            assert(matches_from(pattern.entries(), data@, base as int, 0) =~= Seq::empty());
        }
        return out;
    }
    let mut i: usize = 0;
    while i <= n - l
        invariant
            n == data@.len(),
            l == pattern.entries().len(),
            l <= n,
            pattern.wf(),
            base + n <= usize::MAX,
            out@ + matches_from(pattern.entries(), data@, base as int, i as int) == matches_from(
                pattern.entries(),
                data@,
                base as int,
                0,
            ),
        decreases n + 1 - i,
    {
        let ghost before = out@;
        let ghost here: Seq<ScanResult> = Seq::empty();
        if pattern.matches_at(data.as_slice(), i) {
            out.push(ScanResult { address: base + i, offset: i });
            proof {
                here = seq![ScanResult { address: (base + i) as usize, offset: i as usize }];
            }
        }
        proof {
            let next = matches_from(pattern.entries(), data@, base as int, i + 1);
            assert(matches_from(pattern.entries(), data@, base as int, i as int) == here + next);
            assert(before + (here + next) =~= (before + here) + next);
            assert(out@ =~= before + here);
        }
        if i == n - l {
            proof {
                assert(matches_from(pattern.entries(), data@, base as int, i + 1) =~= Seq::empty());
                assert(out@ + Seq::<ScanResult>::empty() =~= out@);
            }
            return out;
        }
        i = i + 1;
    }
    proof {
        assert(matches_from(pattern.entries(), data@, base as int, i as int) =~= Seq::empty());
        assert(out@ + Seq::<ScanResult>::empty() =~= out@);
    }
    out
}

/// Every match of `pattern` in the readable committed regions of the module
/// `[module_base, module_base + module_size)`, region by region, each region
/// read whole and tested at every starting offset.
pub fn scan_pattern(memory: &MemoryImage, pattern: &Pattern, module_base: usize, module_size: usize) -> (r:
    Vec<ScanResult>)
    requires
        memory.wf(),
        pattern.wf(),
    ensures
        r@ == pattern_hits(*memory, memory.regions@, pattern.entries(), module_base, module_size),
        forall|k: int|
            0 <= k < r@.len() ==> pattern_hit_ok(
                *memory,
                memory.regions@,
                pattern.entries(),
                module_base,
                module_size,
                #[trigger] r@[k],
            ),
{
    let regions = memory.query_regions();
    let mut results: Vec<ScanResult> = Vec::new();
    let mut k: usize = 0;
    while k < regions.len()
        invariant
            k <= regions@.len(),
            regions@ == memory.regions@,
            memory.wf(),
            pattern.wf(),
            results@ == pattern_hits(
                *memory,
                regions@.subrange(0, k as int),
                pattern.entries(),
                module_base,
                module_size,
            ),
        decreases regions@.len() - k,
    {
        let region = regions[k];
        let ghost before = results@;
        proof {
            let s = regions@.subrange(0, k + 1);
            assert(s.drop_last() =~= regions@.subrange(0, k as int));
            assert(s.last() == region);
            assert(memory.regions@[k as int].wf());
        }
        let inside = region.base_address >= module_base && region.base_address - module_base
            < module_size && region.state == MEM_COMMIT && region.is_readable;
        if inside {
            match memory.read_memory(region.base_address, region.size) {
                Ok(data) => {
                    proof {
                        memory.lemma_read_len(region.base_address as int, region.size as int);
                    }
                    let found = scan_region_pattern(&data, pattern, region.base_address);
                    let mut found = found;
                    results.append(&mut found);
                },
                Err(_) => {},
            }
        }
        proof {
            assert(results@ =~= before + region_pattern_hits(
                *memory,
                region,
                pattern.entries(),
                module_base,
                module_size,
            ));
        }
        k = k + 1;
    }
    proof {
        assert(regions@.subrange(0, regions@.len() as int) =~= regions@);
        lemma_pattern_hits_match(*memory, memory.regions@, pattern.entries(), module_base, module_size);
    }
    results
}

proof fn lemma_matches_from_props(entries: Seq<(u8, bool)>, d: Seq<u8>, base: int, i: int)
    requires
        i >= 0,
        d.len() <= usize::MAX,
    ensures
        forall|k: int|
            0 <= k < matches_from(entries, d, base, i).len() ==> {
                let m = #[trigger] matches_from(entries, d, base, i)[k];
                &&& i <= m.offset
                &&& m.offset + entries.len() <= d.len()
                &&& m.address == (base + m.offset) as usize
                &&& mask_matches(entries, d.subrange(m.offset as int, d.len() as int))
            },
    decreases if i > d.len() {
        0
    } else {
        d.len() - i + 1
    },
{
    if i + entries.len() <= d.len() {
        lemma_matches_from_props(entries, d, base, i + 1);
        let h = matches_from(entries, d, base, i);
        let t = matches_from(entries, d, base, i + 1);
        assert forall|k: int| 0 <= k < h.len() implies {
            let m = #[trigger] h[k];
            &&& i <= m.offset
            &&& m.offset + entries.len() <= d.len()
            &&& m.address == (base + m.offset) as usize
            &&& mask_matches(entries, d.subrange(m.offset as int, d.len() as int))
        } by {
            if mask_matches(entries, d.subrange(i, d.len() as int)) {
                if k > 0 {
                    assert(h[k] == t[k - 1]);
                } else {
                    assert(h[0] == ScanResult { address: (base + i) as usize, offset: i as usize });
                }
            } else {
                assert(h[k] == t[k]);
            }
        }
    }
}

/// The match `m` lies in a region of the module that could be read, and
/// the bytes from its offset on match the pattern under its mask.
pub open spec fn pattern_hit_ok(
    img: MemoryImage,
    regions: Seq<MemoryRegion>,
    entries: Seq<(u8, bool)>,
    module_base: usize,
    module_size: usize,
    m: ScanResult,
) -> bool {
    exists|j: int|
        0 <= j < regions.len() && region_in_module(#[trigger] regions[j], module_base, module_size)
            && img.spec_read(regions[j].base_address as int, regions[j].size as int) is Some
            && m.address == (regions[j].base_address + m.offset) as usize && m.offset
            + entries.len() <= regions[j].size && mask_matches(
            entries,
            img.spec_read(regions[j].base_address as int, regions[j].size as int)->0.subrange(
                m.offset as int,
                regions[j].size as int,
            ),
        )
}

/// Every address that a pattern scan returns starts a match: it lies in a
/// region of the module that could be read, and the bytes from there on
/// match the pattern under its mask.
pub proof fn lemma_pattern_hits_match(
    img: MemoryImage,
    regions: Seq<MemoryRegion>,
    entries: Seq<(u8, bool)>,
    module_base: usize,
    module_size: usize,
)
    ensures
        forall|k: int|
            0 <= k < pattern_hits(img, regions, entries, module_base, module_size).len()
                ==> pattern_hit_ok(
                img,
                regions,
                entries,
                module_base,
                module_size,
                #[trigger] pattern_hits(img, regions, entries, module_base, module_size)[k],
            ),
    decreases regions.len(),
{
    if regions.len() > 0 {
        let init = regions.drop_last();
        let g = regions.last();
        lemma_pattern_hits_match(img, init, entries, module_base, module_size);
        let a = pattern_hits(img, init, entries, module_base, module_size);
        let b = region_pattern_hits(img, g, entries, module_base, module_size);
        if region_in_module(g, module_base, module_size) {
            if let Some(d) = img.spec_read(g.base_address as int, g.size as int) {
                img.lemma_read_len(g.base_address as int, g.size as int);
                lemma_matches_from_props(entries, d, g.base_address as int, 0);
            }
        }
        assert forall|k: int| 0 <= k < (a + b).len() implies pattern_hit_ok(
            img,
            regions,
            entries,
            module_base,
            module_size,
            #[trigger] (a + b)[k],
        ) by {
            if k < a.len() {
                assert((a + b)[k] == a[k]);
                let m = a[k];
                assert(pattern_hit_ok(img, init, entries, module_base, module_size, m));
                let j = choose|j: int|
                    0 <= j < init.len() && region_in_module(
                        #[trigger] init[j],
                        module_base,
                        module_size,
                    ) && img.spec_read(init[j].base_address as int, init[j].size as int) is Some
                        && m.address == (init[j].base_address + m.offset) as usize && m.offset
                        + entries.len() <= init[j].size && mask_matches(
                        entries,
                        img.spec_read(init[j].base_address as int, init[j].size as int)->0.subrange(
                            m.offset as int,
                            init[j].size as int,
                        ),
                    );
                assert(regions[j] == init[j]);
            } else {
                assert((a + b)[k] == b[k - a.len()]);
                assert(regions[regions.len() - 1] == g);
            }
        }
    }
}

/// `v` reduced into the address space, modulo its size.
pub open spec fn wrap_usize(v: int) -> usize {
    (v % (usize::MAX as int + 1)) as usize
}

proof fn lemma_wrap_add(a: int, b: int, r: int)
    requires
        0 <= a <= usize::MAX,
        r == (if a + b > usize::MAX {
            a + b - (usize::MAX + 1)
        } else if a + b < 0 {
            a + b + (usize::MAX + 1)
        } else {
            a + b
        }),
        -(usize::MAX + 1) <= b <= usize::MAX,
    ensures
        r == (a + b) % (usize::MAX as int + 1),
{
    let m = usize::MAX as int + 1;
    if a + b > usize::MAX {
        vstd::arithmetic::div_mod::lemma_mod_sub_multiples_vanish(a + b, m);
        vstd::arithmetic::div_mod::lemma_small_mod((a + b - m) as nat, m as nat);
    } else if a + b < 0 {
        vstd::arithmetic::div_mod::lemma_mod_add_multiples_vanish(a + b, m);
        vstd::arithmetic::div_mod::lemma_small_mod((a + b + m) as nat, m as nat);
    } else {
        vstd::arithmetic::div_mod::lemma_small_mod((a + b) as nat, m as nat);
    }
}

/// The target of a RIP-relative operand: `addr + inst_end + rel`, in the
/// address space.
pub fn rip_target(addr: usize, inst_end: usize, rel: i32) -> (r: usize)
    ensures
        r == wrap_usize(addr + inst_end + rel),
{
    let end = addr.wrapping_add(inst_end);
    let r = end.wrapping_add_signed(rel as isize);
    proof {
        let m = usize::MAX as int + 1;
        lemma_wrap_add(addr as int, inst_end as int, end as int);
        lemma_wrap_add(end as int, rel as int, r as int);
        vstd::arithmetic::div_mod::lemma_add_mod_noop(addr + inst_end, rel as int, m);
        vstd::arithmetic::div_mod::lemma_small_mod((rel as int % m) as nat, m as nat);
        vstd::arithmetic::div_mod::lemma_mod_bound(rel as int, m);
        vstd::arithmetic::div_mod::lemma_mod_twice(addr + inst_end, m);
        vstd::arithmetic::div_mod::lemma_add_mod_noop(end as int, rel as int, m);
        vstd::arithmetic::div_mod::lemma_small_mod(end as nat, m as nat);
    }
    r
}

/// Resolves a RIP-relative operand: `data` holds the instruction, whose
/// 4-byte operand starts at `offset`; the target is the instruction's end
/// plus the sign-extended operand. Zero when `data` is too short.
pub fn resolve_rip_relative(instruction_addr: usize, data: &[u8], offset: usize) -> (r: usize)
    ensures
        data@.len() < offset + 4 ==> r == 0,
        data@.len() >= offset + 4 ==> r == wrap_usize(
            instruction_addr + data@.len() + (u32_at(data@, offset as int) as i32),
        ),
{
    if data.len() < 4 || offset > data.len() - 4 {
        return 0;
    }
    let rel = read_u32_at(data, offset) as i32;
    rip_target(instruction_addr, data.len(), rel)
}

} // verus!
