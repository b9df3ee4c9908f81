use vstd::prelude::*;

verus! {

/// Signature patterns for locating the engine's globals.
pub struct UESignatures;

impl UESignatures {
    /// `mov rax, [rip + offset]` before a null test (UE4.23+, UE5).
    pub const GNAMES: &'static str = "48 8B 05 ?? ?? ?? ?? 48 85 C0 75 ?? 48 8D";
    pub const GNAMES_ALT: &'static str = "48 8B 1D ?? ?? ?? ?? 48 85 DB 75 ?? B9";
    /// A long prologue ending in `mov rax, [rip + offset]` (UE5+).
    pub const GNAMES_ALT2: &'static str = "48 89 5C 24 ?? 48 89 74 24 ?? 55 57 41 56 48 8D 6C 24 ?? 48 81 EC ?? ?? ?? ?? 48 8B 05 ?? ?? ?? ??";
    pub const GNAMES_ALT3: &'static str = "48 8B 05 ?? ?? ?? ?? 48 85 C0";
    /// `lea rcx, [rip + offset]` (UE5.1+).
    pub const GNAMES_ALT4: &'static str = "48 8D 0D ?? ?? ?? ?? E8 ?? ?? ?? ?? C6 05";
    pub const GNAMES_ALT5: &'static str = "48 8B 1D ?? ?? ?? ?? 48 85 DB 74";
    pub const GNAMES_UE5_1: &'static str = "48 8B 05 ?? ?? ?? ?? 4C 8B C3 48 8B D7";
    pub const GNAMES_UE5_2: &'static str = "48 8D 0D ?? ?? ?? ?? E8 ?? ?? ?? ?? 48 8B D8 48 85 C0 74";
    /// `mov rcx, [rip + offset]` into the object array.
    pub const GOBJECTS: &'static str = "48 8B 0D ?? ?? ?? ?? 48 8D 14 C1";
    pub const GOBJECTS_ALT: &'static str = "48 8B 05 ?? ?? ?? ?? 48 8B 0C C8 48 8D 04 D1";
    pub const GOBJECTS_UE5: &'static str = "48 8B 05 ?? ?? ?? ?? 48 63 0C 88";
    /// The prologue of `ProcessEvent` (UE4.20+).
    pub const PROCESS_EVENT: &'static str = "40 55 56 57 41 54 41 55 41 56 41 57 48 81 EC ?? ?? ?? ??";
    pub const PROCESS_EVENT_ALT: &'static str = "48 89 5C 24 ?? 48 89 74 24 ?? 55 57 41 56 48 8D 6C 24";
    /// Part of `FName::ToString`.
    pub const FNAME_TOSTRING: &'static str = "48 89 5C 24 ?? 57 48 83 EC 30 83 79 04 00 48 8B DA";
}

/// The name pool patterns, in the order they are tried.
pub open spec fn gnames_pattern_list() -> Seq<&'static str> {
    seq![
        UESignatures::GNAMES_UE5_1,
        UESignatures::GNAMES_UE5_2,
        UESignatures::GNAMES_ALT,
        UESignatures::GNAMES_ALT5,
        UESignatures::GNAMES_ALT4,
        UESignatures::GNAMES,
        UESignatures::GNAMES_ALT2,
        UESignatures::GNAMES_ALT3,
    ]
}

/// The object array patterns, in the order they are tried.
pub open spec fn gobjects_pattern_list() -> Seq<&'static str> {
    seq![UESignatures::GOBJECTS_UE5, UESignatures::GOBJECTS, UESignatures::GOBJECTS_ALT]
}

/// The `ProcessEvent` patterns, in the order they are tried.
pub open spec fn process_event_pattern_list() -> Seq<&'static str> {
    seq![UESignatures::PROCESS_EVENT, UESignatures::PROCESS_EVENT_ALT]
}

/// The patterns tried for each global, most specific first.
pub struct VersionSignatures {
    pub gnames_patterns: Vec<&'static str>,
    pub gobjects_patterns: Vec<&'static str>,
    pub process_event_patterns: Vec<&'static str>,
}

impl VersionSignatures {
    /// Every pattern, in the order they are tried.
    pub fn all() -> (r: VersionSignatures)
        ensures
            r.gnames_patterns@ == gnames_pattern_list(),
            r.gobjects_patterns@ == gobjects_pattern_list(),
            r.process_event_patterns@ == process_event_pattern_list(),
    {
        let r = VersionSignatures {
            gnames_patterns: vec![
                UESignatures::GNAMES_UE5_1,
                UESignatures::GNAMES_UE5_2,
                UESignatures::GNAMES_ALT,
                UESignatures::GNAMES_ALT5,
                UESignatures::GNAMES_ALT4,
                UESignatures::GNAMES,
                UESignatures::GNAMES_ALT2,
                UESignatures::GNAMES_ALT3,
            ],
            gobjects_patterns: vec![
                UESignatures::GOBJECTS_UE5,
                UESignatures::GOBJECTS,
                UESignatures::GOBJECTS_ALT,
            ],
            process_event_patterns: vec![
                UESignatures::PROCESS_EVENT,
                UESignatures::PROCESS_EVENT_ALT,
            ],
        };
        assert(r.gnames_patterns@ =~= gnames_pattern_list());
        assert(r.gobjects_patterns@ =~= gobjects_pattern_list());
        assert(r.process_event_patterns@ =~= process_event_pattern_list());
        r
    }
}

} // verus!
