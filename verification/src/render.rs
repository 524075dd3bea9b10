//! Per-cell read-out of a configuration for display: three fixed-width
//! lines, one character per cell. Printing them is the caller's business.

use vstd::prelude::*;

use crate::cell::CellState;
use crate::config::Configuration;
use crate::config::cell;

verus! {

/// The values line: `'X'` for a cell whose original symbol was captured
/// while intermediate, else `'1'`/`'0'` by the raw value.
pub open spec fn value_char(s: CellState) -> char {
    if s.intermediate && s.captured {
        'X'
    } else if s.value {
        '1'
    } else {
        '0'
    }
}

/// The counter line: blank for a boolean cell, else `'R'`/`'B'` keyed by
/// the color flag.
pub open spec fn color_char(s: CellState) -> char {
    if !s.intermediate {
        ' '
    } else if s.color {
        'R'
    } else {
        'B'
    }
}

/// The memory line: blank for a boolean cell, else `'_'` for an empty
/// memory set, `'.'` for {0}, `','` for {1} and `';'` for {0, 1}.
pub open spec fn memory_char(s: CellState) -> char {
    if !s.intermediate {
        ' '
    } else if s.mem_has_0 && s.mem_has_1 {
        ';'
    } else if s.mem_has_0 {
        '.'
    } else if s.mem_has_1 {
        ','
    } else {
        '_'
    }
}

impl Configuration {
    /// The values line of the display, one character per cell.
    pub fn value_line(&self) -> (r: Vec<char>)
        requires
            self.size <= 31,
        ensures
            r@.len() == self.size,
            forall|i: int| 0 <= i < self.size ==> r@[i] == value_char(cell(*self, i as u32)),
    {
        let mut r: Vec<char> = Vec::new();
        let mut k: u32 = 0;
        while k < self.size
            invariant
                k <= self.size <= 31,
                r@.len() == k,
                forall|i: int| 0 <= i < k ==> r@[i] == value_char(cell(*self, i as u32)),
            decreases self.size - k,
        {
            let s = self.read_cell(k);
            let ch: char = if s.intermediate && s.captured {
                'X'
            } else if s.value {
                '1'
            } else {
                '0'
            };
            r.push(ch);
            k = k + 1;
        }
        r
    }

    /// The counter line of the display, one character per cell.
    pub fn color_line(&self) -> (r: Vec<char>)
        requires
            self.size <= 31,
        ensures
            r@.len() == self.size,
            forall|i: int| 0 <= i < self.size ==> r@[i] == color_char(cell(*self, i as u32)),
    {
        let mut r: Vec<char> = Vec::new();
        let mut k: u32 = 0;
        while k < self.size
            invariant
                k <= self.size <= 31,
                r@.len() == k,
                forall|i: int| 0 <= i < k ==> r@[i] == color_char(cell(*self, i as u32)),
            decreases self.size - k,
        {
            let s = self.read_cell(k);
            let ch: char = if !s.intermediate {
                ' '
            } else if s.color {
                'R'
            } else {
                'B'
            };
            r.push(ch);
            k = k + 1;
        }
        r
    }

    /// The memory line of the display, one character per cell.
    pub fn memory_line(&self) -> (r: Vec<char>)
        requires
            self.size <= 31,
        ensures
            r@.len() == self.size,
            forall|i: int| 0 <= i < self.size ==> r@[i] == memory_char(cell(*self, i as u32)),
    {
        let mut r: Vec<char> = Vec::new();
        let mut k: u32 = 0;
        while k < self.size
            invariant
                k <= self.size <= 31,
                r@.len() == k,
                forall|i: int| 0 <= i < k ==> r@[i] == memory_char(cell(*self, i as u32)),
            decreases self.size - k,
        {
            let s = self.read_cell(k);
            let ch: char = if !s.intermediate {
                ' '
            } else if s.mem_has_0 && s.mem_has_1 {
                ';'
            } else if s.mem_has_0 {
                '.'
            } else if s.mem_has_1 {
                ','
            } else {
                '_'
            };
            r.push(ch);
            k = k + 1;
        }
        r
    }
}

} // verus!
