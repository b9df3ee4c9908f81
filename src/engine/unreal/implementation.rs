use vstd::prelude::*;
use vstd::string::StringSliceAdditionalSpecFns;
use crate::byteseq::{read_u32_at, u32_at};
use crate::engine::error::{EngineError, ErrorKind, error_with};
use crate::memory::MemoryImage;
use crate::process::get_main_module;
use super::scanner::{Pattern, ScanResult, parse_pattern, pattern_hits, rip_target, scan_pattern, wrap_usize};
use super::signatures::{
    VersionSignatures, gnames_pattern_list, gobjects_pattern_list, process_event_pattern_list,
};
use super::{UEVersion, UnrealEngine};

verus! {

/// Matches tried per pattern.
pub const MAX_TRIES: usize = 10;

/// Globals lie in the module or at most 256 MiB past its end.
pub open spec fn in_global_range(ptr: usize, mb: usize, ms: usize) -> bool {
    mb <= ptr < mb + ms + 0x1000_0000
}

/// The matches of the pattern written as `text` in the module.
pub open spec fn module_hits(img: MemoryImage, text: Seq<u8>, mb: usize, ms: usize) -> Seq<ScanResult> {
    pattern_hits(img, img.regions@, parse_pattern(text), mb, ms)
}

/// The location of the object array that the match at `a` of a pattern of
/// `plen` bytes points to: the `mov` there has its operand at 3 and ends at
/// 7; the location must lie in range and hold a non-null pointer.
pub open spec fn gobjects_at(img: MemoryImage, a: usize, plen: nat, mb: usize, ms: usize) -> Option<usize> {
    match img.spec_read(a as int, (plen + 8) as int) {
        None => None,
        Some(inst) => {
            let ptr = wrap_usize(a + 7 + (u32_at(inst, 3) as i32));
            if in_global_range(ptr, mb, ms) && img.spec_u64(ptr as int) is Some && img.spec_u64(
                ptr as int,
            )->0 != 0 {
                Some(ptr)
            } else {
                None
            }
        },
    }
}

/// The first of the first ten matches from `k` on that locates the object array.
pub open spec fn first_gobjects(img: MemoryImage, hits: Seq<ScanResult>, k: int, plen: nat, mb: usize, ms: usize) -> Option<usize>
    decreases MAX_TRIES - k,
{
    if k < 0 || k >= MAX_TRIES || k >= hits.len() {
        None
    } else {
        match gobjects_at(img, hits[k].address, plen, mb, ms) {
            Some(p) => Some(p),
            None => first_gobjects(img, hits, k + 1, plen, mb, ms),
        }
    }
}

/// The object array location found by the patterns `texts` from `i` on.
pub open spec fn search_gobjects(img: MemoryImage, texts: Seq<Seq<u8>>, i: int, mb: usize, ms: usize) -> Option<usize>
    decreases texts.len() - i,
{
    if i < 0 || i >= texts.len() {
        None
    } else {
        match first_gobjects(img, module_hits(img, texts[i], mb, ms), 0, parse_pattern(texts[i]).len(), mb, ms) {
            Some(p) => Some(p),
            None => search_gobjects(img, texts, i + 1, mb, ms),
        }
    }
}

/// Whether `text` starts with `prefix`.
pub open spec fn starts_with(text: Seq<u8>, prefix: Seq<u8>) -> bool {
    text.len() >= prefix.len() && text.subrange(0, prefix.len() as int) == prefix
}

/// Where the operand of a name pool pattern starts and where its instruction
/// ends: 3 and 7 for the short `mov`/`lea` forms, and near the end for the
/// long prologue patterns (text longer than 50), which end in the `mov`.
pub open spec fn gnames_layout(text: Seq<u8>, plen: int) -> (int, int) {
    if starts_with(text, seq![0x34u8, 0x38, 0x20, 0x38, 0x44, 0x20, 0x30, 0x44]) || starts_with(
        text,
        seq![0x34u8, 0x38, 0x20, 0x38, 0x42, 0x20, 0x31, 0x44],
    ) {
        (3, 7)
    } else if text.len() > 50 {
        (plen - 7, plen - 3)
    } else {
        (3, 7)
    }
}

/// The location of the name pool pointer that the match at `a` points to:
/// it must lie in range and be readable.
pub open spec fn gnames_at(img: MemoryImage, a: usize, plen: nat, op: int, end: int, mb: usize, ms: usize) -> Option<usize> {
    if op < 0 || end < 0 || end > usize::MAX || op + 4 > plen + 8 {
        None
    } else {
        match img.spec_read(a as int, (plen + 8) as int) {
            None => None,
            Some(inst) => {
                let ptr = wrap_usize(a + end + (u32_at(inst, op) as i32));
                if in_global_range(ptr, mb, ms) && img.spec_read(ptr as int, 8) is Some {
                    Some(ptr)
                } else {
                    None
                }
            },
        }
    }
}

/// The first of the first ten matches from `k` on that locates the name pool pointer.
pub open spec fn first_gnames(img: MemoryImage, hits: Seq<ScanResult>, k: int, plen: nat, op: int, end: int, mb: usize, ms: usize) -> Option<usize>
    decreases MAX_TRIES - k,
{
    if k < 0 || k >= MAX_TRIES || k >= hits.len() {
        None
    } else {
        match gnames_at(img, hits[k].address, plen, op, end, mb, ms) {
            Some(p) => Some(p),
            None => first_gnames(img, hits, k + 1, plen, op, end, mb, ms),
        }
    }
}

/// The name pool pointer location found by the patterns `texts` from `i` on.
pub open spec fn search_gnames(img: MemoryImage, texts: Seq<Seq<u8>>, i: int, mb: usize, ms: usize) -> Option<usize>
    decreases texts.len() - i,
{
    if i < 0 || i >= texts.len() {
        None
    } else {
        let plen = parse_pattern(texts[i]).len();
        let (op, end) = gnames_layout(texts[i], plen as int);
        match first_gnames(img, module_hits(img, texts[i], mb, ms), 0, plen, op, end, mb, ms) {
            Some(p) => Some(p),
            None => search_gnames(img, texts, i + 1, mb, ms),
        }
    }
}

/// The first match of the first of the patterns `texts` from `i` on that has one.
pub open spec fn search_first_match(img: MemoryImage, texts: Seq<Seq<u8>>, i: int, mb: usize, ms: usize) -> Option<usize>
    decreases texts.len() - i,
{
    if i < 0 || i >= texts.len() {
        None
    } else {
        let hits = module_hits(img, texts[i], mb, ms);
        if hits.len() > 0 {
            Some(hits[0].address)
        } else {
            search_first_match(img, texts, i + 1, mb, ms)
        }
    }
}

/// The bytes of each pattern text.
pub open spec fn texts_of(patterns: Seq<&str>) -> Seq<Seq<u8>> {
    patterns.map_values(|s: &str| s.spec_bytes())
}

/// The name pool's block table, given where its pointer was found: the
/// pointer's value, or the location itself when that value is zero (and the
/// location can be read as a whole pool header).
pub open spec fn gnames_base(img: MemoryImage, gnames_ptr: usize) -> Option<usize> {
    match img.spec_u64(gnames_ptr as int) {
        None => None,
        Some(v) => if v != 0 {
            Some(v as usize)
        } else if img.spec_read(gnames_ptr as int, 32) is Some {
            Some(gnames_ptr)
        } else {
            None
        },
    }
}

fn starts_with_exec(text: &[u8], prefix: &[u8]) -> (r: bool)
    ensures
        r == starts_with(text@, prefix@),
{
    if text.len() < prefix.len() {
        return false;
    }
    let mut i: usize = 0;
    while i < prefix.len()
        invariant
            i <= prefix@.len(),
            prefix@.len() <= text@.len(),
            forall|j: int| 0 <= j < i ==> text@[j] == prefix@[j],
        decreases prefix@.len() - i,
    {
        if text[i] != prefix[i] {
            proof {
                assert(text@.subrange(0, prefix@.len() as int)[i as int] != prefix@[i as int]);
            }
            return false;
        }
        i = i + 1;
    }
    assert(text@.subrange(0, prefix@.len() as int) =~= prefix@);
    true
}

/// What `UnrealEngine::initialize` guarantees, from state `o` to state `n`.
pub open spec fn initialize_post(o: UnrealEngine, n: UnrealEngine, r: Result<(), EngineError>) -> bool {
    &&& (n.process == o.process)
    &&& (o.initialized ==> r is Ok && n == o)
    &&& (r is Ok <==> n.initialized)
    &&& (r is Err ==> r->Err_0.spec_kind() == ErrorKind::InitializationFailed)
    &&& (!o.initialized && r is Ok ==> {
                let img = o.process.memory;
                let modules = o.process.modules@;
                let mb = modules[0].base_address;
                let ms = modules[0].size;
                &&& modules.len() > 0
                &&& n.module_base == mb
                &&& n.module_size == ms
                &&& search_gobjects(img, texts_of(gobjects_pattern_list()), 0, mb, ms) == Some(n.gobjects_ptr)
                &&& n.gobjects == n.gobjects_ptr
                &&& search_gnames(img, texts_of(gnames_pattern_list()), 0, mb, ms) == Some(n.gnames_ptr)
                &&& gnames_base(img, n.gnames_ptr) == Some(n.gnames)
                &&& search_first_match(img, texts_of(process_event_pattern_list()), 0, mb, ms) == Some(n.process_event)
                &&& n.version == UEVersion::Unknown
            })
    &&& (!o.initialized && r is Err ==> {
                let img = o.process.memory;
                let modules = o.process.modules@;
                let mb = modules[0].base_address;
                let ms = modules[0].size;
                modules.len() == 0
                    || search_gobjects(img, texts_of(gobjects_pattern_list()), 0, mb, ms) is None
                    || search_gnames(img, texts_of(gnames_pattern_list()), 0, mb, ms) is None
                    || gnames_base(img, search_gnames(img, texts_of(gnames_pattern_list()), 0, mb, ms)->0) is None
                    || search_first_match(img, texts_of(process_event_pattern_list()), 0, mb, ms) is None
            })
}

impl UnrealEngine {
    /// The object array location for the match at `address`, if it passes.
    fn gobjects_candidate(&self, address: usize, plen: usize) -> (r: Option<usize>)
        requires
            self.process.memory.wf(),
        ensures
            r == gobjects_at(self.process.memory, address, plen as nat, self.module_base, self.module_size),
    {
        if plen > usize::MAX - 8 {
            proof {
                self.process.memory.lemma_read_beyond(address as int, plen + 8);
            }
            return None;
        }
        let inst = match self.process.memory.read_memory(address, plen + 8) {
            Ok(d) => d,
            Err(_) => {
                return None;
            },
        };
        proof {
            self.process.memory.lemma_read_len(address as int, plen + 8);
        }
        let rel = read_u32_at(inst.as_slice(), 3) as i32;
        let ptr = rip_target(address, 7, rel);
        if ptr < self.module_base || (ptr - self.module_base) as u128 >= self.module_size as u128 + 0x1000_0000 {
            return None;
        }
        match self.process.memory.read_u64(ptr) {
            Ok(v) => if v != 0 {
                Some(ptr)
            } else {
                None
            },
            Err(_) => None,
        }
    }

    /// The name pool pointer location for the match at `address`, if it passes.
    fn gnames_candidate(&self, address: usize, plen: usize, op: usize, end: usize) -> (r: Option<usize>)
        requires
            self.process.memory.wf(),
        ensures
            r == gnames_at(self.process.memory, address, plen as nat, op as int, end as int, self.module_base, self.module_size),
    {
        if plen > usize::MAX - 8 {
            proof {
                self.process.memory.lemma_read_beyond(address as int, plen + 8);
            }
            return None;
        }
        let inst = match self.process.memory.read_memory(address, plen + 8) {
            Ok(d) => d,
            Err(_) => {
                return None;
            },
        };
        proof {
            self.process.memory.lemma_read_len(address as int, plen + 8);
        }
        if op > plen + 4 {
            assert(op + 4 > plen + 8);
            return None;
        }
        let rel = read_u32_at(inst.as_slice(), op) as i32;
        let ptr = rip_target(address, end, rel);
        if ptr < self.module_base || (ptr - self.module_base) as u128 >= self.module_size as u128 + 0x1000_0000 {
            return None;
        }
        match self.process.memory.read_memory(ptr, 8) {
            Ok(_) => Some(ptr),
            Err(_) => None,
        }
    }

    /// Finds where the object array lies, trying `patterns` in order and at
    /// most ten matches of each.
    pub fn find_gobjects_in(&self, patterns: &Vec<&str>) -> (r: Result<usize, EngineError>)
        requires
            self.process.memory.wf(),
        ensures
            r is Ok <==> search_gobjects(self.process.memory, texts_of(patterns@), 0, self.module_base, self.module_size) is Some,
            r is Ok ==> r->Ok_0 == search_gobjects(self.process.memory, texts_of(patterns@), 0, self.module_base, self.module_size)->0,
            r is Err ==> r->Err_0.spec_kind() == ErrorKind::InitializationFailed,
    {
        let ghost img = self.process.memory;
        let ghost texts = texts_of(patterns@);
        let ghost mb = self.module_base;
        let ghost ms = self.module_size;
        let mut i: usize = 0;
        while i < patterns.len()
            invariant
                i <= patterns@.len(),
                texts == texts_of(patterns@),
                img == self.process.memory,
                img.wf(),
                mb == self.module_base,
                ms == self.module_size,
                search_gobjects(img, texts, 0, mb, ms) == search_gobjects(img, texts, i as int, mb, ms),
            decreases patterns@.len() - i,
        {
            let text = patterns[i];
            let pattern = Pattern::from_string(text);
            let results = scan_pattern(&self.process.memory, &pattern, self.module_base, self.module_size);
            let plen = pattern.len();
            proof {
                assert(texts[i as int] == text.spec_bytes());
            }
            let ghost hits = results@;
            let max = if results.len() < MAX_TRIES {
                results.len()
            } else {
                MAX_TRIES
            };
            let mut k: usize = 0;
            while k < max
                invariant
                    k <= max,
                    max <= results@.len(),
                    max <= MAX_TRIES,
                    max == results@.len() || max == MAX_TRIES,
                    hits == results@,
                    img == self.process.memory,
                    mb == self.module_base,
                    ms == self.module_size,
                    img.wf(),
                    i < patterns@.len(),
                    texts == texts_of(patterns@),
                    hits == module_hits(img, texts[i as int], mb, ms),
                    plen == parse_pattern(texts[i as int]).len(),
                    search_gobjects(img, texts, 0, mb, ms) == search_gobjects(img, texts, i as int, mb, ms),
                    first_gobjects(img, hits, 0, plen as nat, mb, ms) == first_gobjects(img, hits, k as int, plen as nat, mb, ms),
                decreases max - k,
            {
                match self.gobjects_candidate(results[k].address, plen) {
                    Some(p) => {
                        return Ok(p);
                    },
                    None => {},
                }
                k = k + 1;
            }
            i = i + 1;
        }
        Err(error_with(ErrorKind::InitializationFailed, "GObjects not found"))
    }

    /// Finds where the pointer to the name pool lies, trying `patterns` in
    /// order and at most ten matches of each.
    pub fn find_gnames_in(&self, patterns: &Vec<&str>) -> (r: Result<usize, EngineError>)
        requires
            self.process.memory.wf(),
        ensures
            r is Ok <==> search_gnames(self.process.memory, texts_of(patterns@), 0, self.module_base, self.module_size) is Some,
            r is Ok ==> r->Ok_0 == search_gnames(self.process.memory, texts_of(patterns@), 0, self.module_base, self.module_size)->0,
            r is Err ==> r->Err_0.spec_kind() == ErrorKind::InitializationFailed,
    {
        let ghost img = self.process.memory;
        let ghost texts = texts_of(patterns@);
        let ghost mb = self.module_base;
        let ghost ms = self.module_size;
        let mut i: usize = 0;
        while i < patterns.len()
            invariant
                i <= patterns@.len(),
                texts == texts_of(patterns@),
                img == self.process.memory,
                img.wf(),
                mb == self.module_base,
                ms == self.module_size,
                search_gnames(img, texts, 0, mb, ms) == search_gnames(img, texts, i as int, mb, ms),
            decreases patterns@.len() - i,
        {
            let text = patterns[i];
            let pattern = Pattern::from_string(text);
            let results = scan_pattern(&self.process.memory, &pattern, self.module_base, self.module_size);
            let plen = pattern.len();
            proof {
                assert(texts[i as int] == text.spec_bytes());
            }
            let bytes = text.as_bytes();
            let lea_rcx: Vec<u8> = vec![0x34u8, 0x38, 0x20, 0x38, 0x44, 0x20, 0x30, 0x44];
            let mov_rbx: Vec<u8> = vec![0x34u8, 0x38, 0x20, 0x38, 0x42, 0x20, 0x31, 0x44];
            assert(lea_rcx@ =~= seq![0x34u8, 0x38, 0x20, 0x38, 0x44, 0x20, 0x30, 0x44]);
            assert(mov_rbx@ =~= seq![0x34u8, 0x38, 0x20, 0x38, 0x42, 0x20, 0x31, 0x44]);
            let short = starts_with_exec(bytes, lea_rcx.as_slice()) || starts_with_exec(bytes, mov_rbx.as_slice());
            let ghost layout = gnames_layout(texts[i as int], plen as int);
            let mut skip = false;
            let mut op: usize = 3;
            let mut end: usize = 7;
            if !short && bytes.len() > 50 {
                if plen < 7 {
                    skip = true;
                } else {
                    op = plen - 7;
                    end = plen - 3;
                }
            }
            let ghost hits = results@;
            let max = if results.len() < MAX_TRIES {
                results.len()
            } else {
                MAX_TRIES
            };
            proof {
                if skip {
                    assert(layout.0 < 0);
                    assert forall|k: int| first_gnames(img, hits, k, plen as nat, layout.0, layout.1, mb, ms) is None by {
                        lemma_first_gnames_none(img, hits, k, plen as nat, layout.0, layout.1, mb, ms);
                    }
                } else {
                    assert(layout == (op as int, end as int));
                }
            }
            let mut k: usize = 0;
            while k < max && !skip
                invariant
                    k <= max,
                    max <= results@.len(),
                    max <= MAX_TRIES,
                    max == results@.len() || max == MAX_TRIES,
                    hits == results@,
                    img == self.process.memory,
                    mb == self.module_base,
                    ms == self.module_size,
                    !skip ==> layout == (op as int, end as int),
                    img.wf(),
                    i < patterns@.len(),
                    texts == texts_of(patterns@),
                    hits == module_hits(img, texts[i as int], mb, ms),
                    plen == parse_pattern(texts[i as int]).len(),
                    layout == gnames_layout(texts[i as int], plen as int),
                    search_gnames(img, texts, 0, mb, ms) == search_gnames(img, texts, i as int, mb, ms),
                    first_gnames(img, hits, 0, plen as nat, layout.0, layout.1, mb, ms) == first_gnames(img, hits, k as int, plen as nat, layout.0, layout.1, mb, ms),
                decreases max - k,
            {
                match self.gnames_candidate(results[k].address, plen, op, end) {
                    Some(p) => {
                        return Ok(p);
                    },
                    None => {},
                }
                k = k + 1;
            }
            i = i + 1;
        }
        Err(error_with(ErrorKind::InitializationFailed, "GNames not found"))
    }

    /// Finds `ProcessEvent`: the first match of the first of `patterns` that has one.
    pub fn find_process_event_in(&self, patterns: &Vec<&str>) -> (r: Result<usize, EngineError>)
        requires
            self.process.memory.wf(),
        ensures
            r is Ok <==> search_first_match(self.process.memory, texts_of(patterns@), 0, self.module_base, self.module_size) is Some,
            r is Ok ==> r->Ok_0 == search_first_match(self.process.memory, texts_of(patterns@), 0, self.module_base, self.module_size)->0,
            r is Err ==> r->Err_0.spec_kind() == ErrorKind::InitializationFailed,
    {
        let ghost img = self.process.memory;
        let ghost texts = texts_of(patterns@);
        let mut i: usize = 0;
        while i < patterns.len()
            invariant
                i <= patterns@.len(),
                texts == texts_of(patterns@),
                img == self.process.memory,
                img.wf(),
                search_first_match(img, texts, 0, self.module_base, self.module_size) == search_first_match(img, texts, i as int, self.module_base, self.module_size),
            decreases patterns@.len() - i,
        {
            let pattern = Pattern::from_string(patterns[i]);
            proof {
                assert(texts[i as int] == patterns@[i as int].spec_bytes());
            }
            let results = scan_pattern(&self.process.memory, &pattern, self.module_base, self.module_size);
            if results.len() > 0 {
                return Ok(results[0].address);
            }
            i = i + 1;
        }
        Err(error_with(ErrorKind::InitializationFailed, "ProcessEvent not found"))
    }

    /// Finds the object array with the built-in patterns.
    pub fn find_gobjects(&self) -> (r: Result<usize, EngineError>)
        requires
            self.process.memory.wf(),
        ensures
            r is Ok <==> search_gobjects(self.process.memory, texts_of(gobjects_pattern_list()), 0, self.module_base, self.module_size) is Some,
            r is Ok ==> r->Ok_0 == search_gobjects(self.process.memory, texts_of(gobjects_pattern_list()), 0, self.module_base, self.module_size)->0,
            r is Err ==> r->Err_0.spec_kind() == ErrorKind::InitializationFailed,
    {
        let sigs = VersionSignatures::all();
        self.find_gobjects_in(&sigs.gobjects_patterns)
    }

    /// Finds the name pool pointer with the built-in patterns.
    pub fn find_gnames(&self) -> (r: Result<usize, EngineError>)
        requires
            self.process.memory.wf(),
        ensures
            r is Ok <==> search_gnames(self.process.memory, texts_of(gnames_pattern_list()), 0, self.module_base, self.module_size) is Some,
            r is Ok ==> r->Ok_0 == search_gnames(self.process.memory, texts_of(gnames_pattern_list()), 0, self.module_base, self.module_size)->0,
            r is Err ==> r->Err_0.spec_kind() == ErrorKind::InitializationFailed,
    {
        let sigs = VersionSignatures::all();
        self.find_gnames_in(&sigs.gnames_patterns)
    }

    /// Finds `ProcessEvent` with the built-in patterns.
    pub fn find_process_event(&self) -> (r: Result<usize, EngineError>)
        requires
            self.process.memory.wf(),
        ensures
            r is Ok <==> search_first_match(self.process.memory, texts_of(process_event_pattern_list()), 0, self.module_base, self.module_size) is Some,
            r is Ok ==> r->Ok_0 == search_first_match(self.process.memory, texts_of(process_event_pattern_list()), 0, self.module_base, self.module_size)->0,
            r is Err ==> r->Err_0.spec_kind() == ErrorKind::InitializationFailed,
    {
        let sigs = VersionSignatures::all();
        self.find_process_event_in(&sigs.process_event_patterns)
    }

    /// The name pool's block table, from where its pointer was found.
    pub fn refresh_gnames(&mut self) -> (r: Result<(), EngineError>)
        ensures
            final(self).process == old(self).process,
            final(self).initialized == old(self).initialized,
            final(self).gnames_ptr == old(self).gnames_ptr,
            r is Ok <==> gnames_base(old(self).process.memory, old(self).gnames_ptr) is Some,
            r is Ok ==> final(self).gnames == gnames_base(old(self).process.memory, old(self).gnames_ptr)->0,
            r is Err ==> r->Err_0.spec_kind() == ErrorKind::InitializationFailed,
            final(self).module_base == old(self).module_base && final(self).module_size == old(self).module_size,
            final(self).gobjects == old(self).gobjects && final(self).gobjects_ptr == old(self).gobjects_ptr,
            final(self).process_event == old(self).process_event && final(self).version == old(self).version,
    {
        let value = match self.process.memory.read_u64(self.gnames_ptr) {
            Ok(v) => v,
            Err(_) => {
                return Err(error_with(ErrorKind::InitializationFailed, "GNames pointer unreadable"));
            },
        };
        if value == 0 {
            match self.process.memory.read_memory(self.gnames_ptr, 32) {
                Ok(_) => {
                    self.gnames = self.gnames_ptr;
                    return Ok(());
                },
                Err(_) => {
                    return Err(error_with(ErrorKind::InitializationFailed, "GNames not initialized yet"));
                },
            }
        }
        self.gnames = value as usize;
        Ok(())
    }

    /// Resolves the main module, the object array, the name pool and
    /// `ProcessEvent`; any of them missing fails the whole initialization.
    pub fn initialize(&mut self) -> (r: Result<(), EngineError>)
        requires
            old(self).process.memory.wf(),
        ensures
            initialize_post(*old(self), *final(self), r),
    {
        if self.initialized {
            return Ok(());
        }
        let module = match get_main_module(&self.process.modules) {
            Ok(m) => m,
            Err(_) => {
                return Err(error_with(ErrorKind::InitializationFailed, "Failed to get module info"));
            },
        };
        self.module_base = module.base_address;
        self.module_size = module.size;
        self.gobjects_ptr = self.find_gobjects()?;
        self.gobjects = self.gobjects_ptr;
        self.gnames_ptr = self.find_gnames()?;
        self.refresh_gnames()?;
        self.process_event = self.find_process_event()?;
        self.version = self.detect_version();
        self.initialized = true;
        Ok(())
    }

    /// The engine version; not detected, so always unknown.
    pub fn detect_version(&self) -> (r: UEVersion)
        ensures
            r == UEVersion::Unknown,
    {
        UEVersion::Unknown
    }
}

proof fn lemma_first_gnames_none(img: MemoryImage, hits: Seq<ScanResult>, k: int, plen: nat, op: int, end: int, mb: usize, ms: usize)
    requires
        op < 0,
    ensures
        first_gnames(img, hits, k, plen, op, end, mb, ms) is None,
    decreases MAX_TRIES - k,
{
    if !(k < 0 || k >= MAX_TRIES || k >= hits.len()) {
        lemma_first_gnames_none(img, hits, k + 1, plen, op, end, mb, ms);
    }
}

} // verus!
