use vstd::prelude::*;
use crate::byteseq::copy_range;
use crate::scan_result::ScanResult;
use crate::scanner::Scanner;
use crate::value::ValueType;

verus! {

/// The state of the results list shown to the user: the results, their
/// type, the current page and the value being edited.
pub struct ResultsView {
    pub results: Vec<ScanResult>,
    pub value_type: ValueType,
    pub page_offset: usize,
    pub page_size: usize,
    pub edit_address: Option<usize>,
    pub edit_value: String,
}

/// `a` holds the same address and values as `b`.
pub open spec fn same_result(a: ScanResult, b: ScanResult) -> bool {
    &&& a.address == b.address
    &&& a.previous_value@ == b.previous_value@
    &&& a.current_value is Some == b.current_value is Some
    &&& a.current_bytes() == b.current_bytes()
}

fn copy_result(r: &ScanResult) -> (c: ScanResult)
    ensures
        same_result(c, *r),
{
    let previous_value = copy_range(r.previous_value.as_slice(), 0, r.previous_value.len());
    let current_value = match &r.current_value {
        Some(v) => Some(copy_range(v.as_slice(), 0, v.len())),
        None => None,
    };
    proof {
        assert(previous_value@ =~= r.previous_value@);
        if let Some(v) = &r.current_value {
            assert(current_value->0@ =~= v@);
        }
    }
    ScanResult { address: r.address, previous_value, current_value }
}

impl ResultsView {
    /// An empty view of `i32` results, a hundred per page.
    pub fn new() -> (r: ResultsView)
        ensures
            r.results@.len() == 0,
            r.value_type == ValueType::I32,
            r.page_offset == 0,
            r.page_size == 100,
            r.edit_address is None,
            r.edit_value@.len() == 0,
    {
        ResultsView {
            results: Vec::new(),
            value_type: ValueType::I32,
            page_offset: 0,
            page_size: 100,
            edit_address: None,
            edit_value: String::new(),
        }
    }

    /// Empties the view and goes back to the first page.
    pub fn clear(&mut self)
        ensures
            final(self).results@.len() == 0,
            final(self).page_offset == 0,
            final(self).edit_address is None,
            final(self).edit_value@.len() == 0,
            final(self).value_type == old(self).value_type,
            final(self).page_size == old(self).page_size,
    {
        self.results.clear();
        self.page_offset = 0;
        self.edit_address = None;
        self.edit_value = String::new();
    }

    pub fn result_count(&self) -> (r: usize)
        ensures
            r == self.results@.len(),
    {
        self.results.len()
    }

    /// Shows the scanner's current results from the first page.
    pub fn update_from_scanner(&mut self, scanner: &Scanner)
        ensures
            final(self).results@.len() == scanner.spec_results().results@.len(),
            forall|k: int|
                0 <= k < final(self).results@.len() ==> same_result(
                    #[trigger] final(self).results@[k],
                    scanner.spec_results().results@[k],
                ),
            final(self).value_type == scanner.spec_results().value_type,
            final(self).page_offset == 0,
            final(self).page_size == old(self).page_size,
    {
        let source = &scanner.results().results;
        let mut copied: Vec<ScanResult> = Vec::new();
        let mut i: usize = 0;
        while i < source.len()
            invariant
                i <= source@.len(),
                copied@.len() == i,
                forall|k: int| 0 <= k < i ==> same_result(#[trigger] copied@[k], source@[k]),
            decreases source@.len() - i,
        {
            copied.push(copy_result(&source[i]));
            i = i + 1;
        }
        self.results = copied;
        self.value_type = scanner.results().value_type;
        self.page_offset = 0;
    }
}

} // verus!
