//! The shape of a comma-separated text: its rows and how many columns each has.
//!
//! A text is read byte by byte. A comma ends a field and a line feed ends a
//! row, unless they stand inside a quoted field. A field is quoted where it
//! starts with a double quote; it runs to the next double quote that is not
//! doubled. A row that holds nothing, or a carriage return only, is blank and
//! counts for nothing. The first row that is not blank is the header.

use vstd::prelude::*;

verus! {

/// The byte that ends a field.
pub const COMMA: u8 = 44;

/// The byte that ends a row.
pub const LINE_FEED: u8 = 10;

/// The byte that may stand in front of a line feed.
pub const CARRIAGE_RETURN: u8 = 13;

/// The byte that opens and closes a quoted field.
pub const QUOTE: u8 = 34;

/// Where in a field the reader stands.
#[derive(Clone, Copy, Debug, PartialEq, Eq, Structural)]
pub enum Mode {
    /// At the start of a field.
    Start,
    /// Inside a field that is not quoted, or behind the end of a quoted one.
    Plain,
    /// Inside a quoted field.
    Quoted,
    /// Behind a double quote inside a quoted field: the field has ended,
    /// unless another double quote follows.
    Closing,
}

/// What the reader knows after some bytes.
pub struct Scan {
    /// Where in a field the reader stands.
    pub mode: Mode,
    /// The commas that ended a field of the row so far.
    pub commas: nat,
    /// Whether the row so far is blank.
    pub blank: bool,
    /// The commas of the header, once the header has ended.
    pub header: Option<nat>,
    /// Whether every row that has ended has as many commas as the header.
    pub consistent: bool,
}

/// What the reader knows before the first byte.
pub open spec fn scan_start() -> Scan {
    Scan { mode: Mode::Start, commas: 0, blank: true, header: None, consistent: true }
}

/// What the reader knows once the row it stands in has ended: a blank
/// row changes nothing, the first other row becomes the header, and every
/// later row is held against the header.
pub open spec fn end_row(scan: Scan) -> Scan {
    if scan.blank {
        Scan { mode: Mode::Start, commas: 0, blank: true, ..scan }
    } else {
        match scan.header {
            None => Scan {
                mode: Mode::Start,
                commas: 0,
                blank: true,
                header: Some(scan.commas),
                consistent: scan.consistent,
            },
            Some(columns) => Scan {
                mode: Mode::Start,
                commas: 0,
                blank: true,
                header: scan.header,
                consistent: scan.consistent && scan.commas == columns,
            },
        }
    }
}

/// What the reader knows after one more byte.
pub open spec fn step(scan: Scan, byte: u8) -> Scan {
    if scan.mode == Mode::Quoted {
        if byte == QUOTE {
            Scan { mode: Mode::Closing, ..scan }
        } else {
            scan
        }
    } else if scan.mode == Mode::Closing && byte == QUOTE {
        Scan { mode: Mode::Quoted, ..scan }
    } else if byte == LINE_FEED {
        end_row(scan)
    } else if byte == COMMA {
        Scan { mode: Mode::Start, commas: scan.commas + 1, blank: false, ..scan }
    } else if byte == QUOTE && scan.mode == Mode::Start {
        Scan { mode: Mode::Quoted, blank: false, ..scan }
    } else {
        Scan { mode: Mode::Plain, blank: scan.blank && byte == CARRIAGE_RETURN, ..scan }
    }
}

/// What the reader knows after all the bytes of `text`.
pub open spec fn scan(text: Seq<u8>) -> Scan
    decreases text.len(),
{
    if text.len() == 0 {
        scan_start()
    } else {
        step(scan(text.drop_last()), text.last())
    }
}

/// Whether every row of `text` that is not blank has as many columns as
/// its header. A last row without a line feed counts as a row.
pub open spec fn consistent_columns(text: Seq<u8>) -> bool {
    end_row(scan(text)).consistent
}

/// The reader never counts more commas than it has read bytes.
pub proof fn lemma_commas_bounded(text: Seq<u8>)
    ensures
        scan(text).commas <= text.len(),
    decreases text.len(),
{
    if text.len() > 0 {
        lemma_commas_bounded(text.drop_last());
    }
}

/// A text whose rows were consistent stays so, or not, with its next
/// bytes; a text with an inconsistent row never becomes consistent again.
pub proof fn lemma_inconsistency_stays(text: Seq<u8>, more: Seq<u8>)
    requires
        !scan(text).consistent,
    ensures
        !scan(text + more).consistent,
        !consistent_columns(text + more),
    decreases more.len(),
{
    if more.len() == 0 {
        assert(text + more == text);
    } else {
        lemma_inconsistency_stays(text, more.drop_last());
        assert((text + more).drop_last() == text + more.drop_last());
        assert((text + more).last() == more.last());
    }
}

/// Whether every row of `text` that is not blank has as many columns as
/// its header.
pub fn has_consistent_columns(text: &[u8]) -> (r: bool)
    ensures
        r == consistent_columns(text@),
{
    let mut mode = Mode::Start;
    let mut commas: usize = 0;
    let mut blank = true;
    let mut header: Option<usize> = None;
    let mut consistent = true;
    let mut i: usize = 0;
    assert(text@.take(0) == Seq::<u8>::empty());
    while i < text.len()
        invariant
            i <= text.len(),
            commas <= i,
            scan(text@.take(i as int)) == (Scan {
                mode,
                commas: commas as nat,
                blank,
                header: match header {
                    Some(columns) => Some(columns as nat),
                    None => None,
                },
                consistent,
            }),
        decreases text.len() - i,
    {
        let byte = text[i];
        proof {
            let seen = text@.take(i + 1);
            assert(seen.drop_last() == text@.take(i as int));
            assert(seen.last() == byte);
        }
        if mode == Mode::Quoted {
            if byte == QUOTE {
                mode = Mode::Closing;
            }
        } else if mode == Mode::Closing && byte == QUOTE {
            mode = Mode::Quoted;
        } else if byte == LINE_FEED {
            if !blank {
                match header {
                    None => {
                        header = Some(commas);
                    },
                    Some(columns) => {
                        consistent = consistent && commas == columns;
                    },
                }
            }
            mode = Mode::Start;
            commas = 0;
            blank = true;
        } else if byte == COMMA {
            mode = Mode::Start;
            commas = commas + 1;
            blank = false;
        } else if byte == QUOTE && mode == Mode::Start {
            mode = Mode::Quoted;
            blank = false;
        } else {
            mode = Mode::Plain;
            blank = blank && byte == CARRIAGE_RETURN;
        }
        i += 1;
    }
    assert(text@.take(i as int) == text@);
    if blank {
        consistent
    } else {
        match header {
            None => consistent,
            Some(columns) => consistent && commas == columns,
        }
    }
}

} // verus!
