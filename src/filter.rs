use vstd::prelude::*;
use crate::numeric::{num_lt, number_lt};
use crate::value::{ScanType, ScanValue};

verus! {

/// Whether `current` passes `scan_type`, given the remembered `previous`
/// value and the caller's `target`. Value predicates need a target,
/// history predicates a previous value; Unknown passes everything.
pub open spec fn filter_matches(
    current: ScanValue,
    previous: Option<ScanValue>,
    target: Option<ScanValue>,
    scan_type: ScanType,
) -> bool {
    match scan_type {
        ScanType::Exact | ScanType::GreaterThan | ScanType::LessThan | ScanType::Between(_, _) => {
            target is Some && current.spec_compare(target->0, scan_type)
        },
        ScanType::Increased => previous is Some && num_lt(previous->0.number(), current.number()),
        ScanType::Decreased => previous is Some && num_lt(current.number(), previous->0.number()),
        ScanType::Changed => previous is Some && !current.same(previous->0),
        ScanType::Unchanged => previous is Some && current.same(previous->0),
        ScanType::Unknown => true,
    }
}

/// Decides whether values pass a scan's filter.
pub struct FilterEngine;

impl FilterEngine {
    /// Checks whether a value matches the filter criteria.
    pub fn matches(
        current: &ScanValue,
        previous: Option<&ScanValue>,
        target: Option<&ScanValue>,
        scan_type: ScanType,
    ) -> (r: bool)
        ensures
            r == filter_matches(
                *current,
                match previous {
                    Some(p) => Some(*p),
                    None => None,
                },
                match target {
                    Some(t) => Some(*t),
                    None => None,
                },
                scan_type,
            ),
    {
        match scan_type {
            ScanType::Exact | ScanType::GreaterThan | ScanType::LessThan | ScanType::Between(
                _,
                _,
            ) => {
                match target {
                    Some(t) => current.compare(t, scan_type),
                    None => false,
                }
            },
            ScanType::Increased => match previous {
                Some(p) => number_lt(p.as_number(), current.as_number()),
                None => false,
            },
            ScanType::Decreased => match previous {
                Some(p) => number_lt(current.as_number(), p.as_number()),
                None => false,
            },
            ScanType::Changed => match previous {
                Some(p) => !current.same_as(p),
                None => false,
            },
            ScanType::Unchanged => match previous {
                Some(p) => current.same_as(p),
                None => false,
            },
            ScanType::Unknown => true,
        }
    }
}

} // verus!
