use vstd::prelude::*;
use crate::byteseq::copy_range;
use crate::value::{ScanValue, ValueType};

verus! {

/// A single scan result: an address, the value it held before the last
/// scan, and the value found by the last scan.
#[derive(Clone, Debug)]
pub struct ScanResult {
    pub address: usize,
    pub previous_value: Vec<u8>,
    pub current_value: Option<Vec<u8>>,
}

impl ScanResult {
    /// The current bytes: the current value, or the previous one when there
    /// is no current value.
    pub open spec fn current_bytes(self) -> Seq<u8> {
        match self.current_value {
            Some(v) => v@,
            None => self.previous_value@,
        }
    }

    /// Both values are `size` bytes long.
    pub open spec fn sized(self, size: nat) -> bool {
        &&& self.previous_value@.len() == size
        &&& self.current_bytes().len() == size
    }

    pub fn new(address: usize, value: Vec<u8>) -> (r: ScanResult)
        ensures
            r.address == address,
            r.previous_value@ == value@,
            r.current_value is Some,
            r.current_bytes() == value@,
    {
        let previous_value = copy_range(value.as_slice(), 0, value.len());
        ScanResult { address, previous_value, current_value: Some(value) }
    }

    pub fn get_current_value(&self) -> (r: &[u8])
        ensures
            r@ == self.current_bytes(),
    {
        match &self.current_value {
            Some(v) => v.as_slice(),
            None => self.previous_value.as_slice(),
        }
    }

    /// The current value becomes the previous one, and `new_value` the current one.
    pub fn update_value(&mut self, new_value: Vec<u8>)
        ensures
            final(self).address == old(self).address,
            final(self).previous_value@ == old(self).current_bytes(),
            final(self).current_value is Some,
            final(self).current_bytes() == new_value@,
    {
        let cur = self.get_current_value();
        let prev = copy_range(cur, 0, cur.len());
        self.previous_value = prev;
        self.current_value = Some(new_value);
    }

    /// Parses the current value as a value of the given type.
    pub fn parse_value(&self, value_type: ValueType) -> (r: Option<ScanValue>)
        ensures
            r is Some <==> self.current_bytes().len() >= value_type.spec_size(),
            r is Some ==> r->0.spec_value_type() == value_type,
            r is Some ==> r->0.spec_bytes() == self.current_bytes().subrange(
                0,
                value_type.spec_size() as int,
            ),
    {
        ScanValue::from_bytes(self.get_current_value(), value_type)
    }
}

/// Collection of scan results with their value type and a count of scans.
#[derive(Clone, Debug)]
pub struct ScanResults {
    pub results: Vec<ScanResult>,
    pub value_type: ValueType,
    pub scan_count: u32,
}

impl ScanResults {
    /// Every result holds values of the set's value type.
    pub open spec fn wf(self) -> bool {
        forall|i: int|
            0 <= i < self.results@.len() ==> (#[trigger] self.results@[i]).sized(
                self.value_type.spec_size(),
            )
    }

    pub fn new(value_type: ValueType) -> (r: ScanResults)
        ensures
            r.results@.len() == 0,
            r.value_type == value_type,
            r.scan_count == 0,
            r.wf(),
    {
        ScanResults { results: Vec::new(), value_type, scan_count: 0 }
    }

    pub fn add_result(&mut self, result: ScanResult)
        ensures
            final(self).results@ == old(self).results@.push(result),
            final(self).value_type == old(self).value_type,
            final(self).scan_count == old(self).scan_count,
    {
        self.results.push(result);
    }

    /// Removes every result and zeroes the scan count.
    pub fn clear(&mut self)
        ensures
            final(self).results@.len() == 0,
            final(self).value_type == old(self).value_type,
            final(self).scan_count == 0,
            final(self).wf(),
    {
        self.results.clear();
        self.scan_count = 0;
    }

    pub fn len(&self) -> (r: usize)
        ensures
            r == self.results@.len(),
    {
        self.results.len()
    }

    pub fn is_empty(&self) -> (r: bool)
        ensures
            r == (self.results@.len() == 0),
    {
        self.results.len() == 0
    }

    /// Counts one more scan (wrapping at the top of the range).
    pub fn increment_scan_count(&mut self)
        ensures
            final(self).scan_count == old(self).scan_count.wrapping_add(1),
            final(self).results@ == old(self).results@,
            final(self).value_type == old(self).value_type,
    {
        self.scan_count = self.scan_count.wrapping_add(1);
    }

    /// The results from `offset`, at most `limit` of them.
    pub fn get_page(&self, offset: usize, limit: usize) -> (r: &[ScanResult])
        ensures
            ({
                let n = self.results@.len() as int;
                let start = if offset < n {
                    offset as int
                } else {
                    n
                };
                let end = if offset + limit < n {
                    offset + limit
                } else {
                    n
                };
                r@ == self.results@.subrange(start, end)
            }),
    {
        let n = self.results.len();
        let start = if offset < n {
            offset
        } else {
            n
        };
        let end = if limit < n - start {
            start + limit
        } else {
            n
        };
        vstd::slice::slice_subrange(self.results.as_slice(), start, end)
    }
}

/// Options for a first scan.
#[derive(Clone, Copy, Debug)]
pub struct ScanOptions {
    pub value_type: ValueType,
    pub alignment: usize,
    pub writable_only: bool,
    pub readable_only: bool,
    pub executable_only: bool,
}

impl ScanOptions {
    /// Options for `value_type`: its natural alignment, readable regions only.
    pub fn new(value_type: ValueType) -> (r: ScanOptions)
        ensures
            r.value_type == value_type,
            r.alignment == value_type.spec_alignment(),
            !r.writable_only,
            r.readable_only,
            !r.executable_only,
    {
        ScanOptions {
            value_type,
            alignment: value_type.alignment(),
            writable_only: false,
            readable_only: true,
            executable_only: false,
        }
    }

    /// Raises the alignment to `alignment`; a request below the value
    /// type's natural alignment leaves the options unchanged.
    pub fn with_alignment(self, alignment: usize) -> (r: ScanOptions)
        ensures
            alignment >= self.value_type.spec_alignment() ==> r == (ScanOptions { alignment, ..self }),
            alignment < self.value_type.spec_alignment() ==> r == self,
    {
        if alignment < self.value_type.alignment() {
            return self;
        }
        ScanOptions { alignment, ..self }
    }

    pub fn writable_only(self) -> (r: ScanOptions)
        ensures
            r == (ScanOptions { writable_only: true, ..self }),
    {
        ScanOptions { writable_only: true, ..self }
    }
}

} // verus!
