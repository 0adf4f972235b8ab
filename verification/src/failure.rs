//! Failures and their cause chains.

use crate::path::texts_of;
use crate::text::decimal;
use crate::text::to_decimal;
use vstd::prelude::*;

verus! {

/// Why something failed: the causes, outermost first.
#[derive(Debug, Clone, PartialEq, Eq)]
pub struct Failure {
    causes: Vec<String>,
}

impl View for Failure {
    type V = Seq<Seq<char>>;

    closed spec fn view(&self) -> Seq<Seq<char>> {
        texts_of(self.causes@)
    }
}

/// The outcome of one conversion.
pub type ConversionOutcome = Result<(), Failure>;

/// The line that reports cause number `index`.
pub open spec fn cause_line(index: nat, cause: Seq<char>) -> Seq<char> {
    "  Cause "@ + decimal(index) + ": "@ + cause
}

/// The lines that report a cause chain: a heading, then one line per cause.
pub open spec fn report_of(causes: Seq<Seq<char>>) -> Seq<Seq<char>> {
    seq!["Error!"@] + Seq::new(causes.len(), |i: int| cause_line(i as nat, causes[i]))
}

impl Failure {
    /// A failure with one cause.
    pub fn new(cause: &str) -> (r: Failure)
        ensures
            r@ == seq![cause@],
    {
        let mut causes: Vec<String> = Vec::new();
        causes.push(String::from_str(cause));
        assert(texts_of(causes@) =~= seq![cause@]);
        Failure { causes }
    }

    /// A failure with the given causes, outermost first.
    pub fn from_causes(causes: Vec<String>) -> (r: Failure)
        ensures
            r@ == texts_of(causes@),
    {
        Failure { causes }
    }

    /// This failure as the cause of `message`.
    pub fn context(self, message: &str) -> (r: Failure)
        ensures
            r@ == seq![message@] + self@,
    {
        let mut causes: Vec<String> = Vec::new();
        causes.push(String::from_str(message));
        let mut rest = self.causes;
        let ghost head = causes@;
        let ghost tail = rest@;
        causes.append(&mut rest);
        assert(texts_of(head + tail) =~= seq![message@] + texts_of(tail));
        Failure { causes }
    }

    /// The number of causes.
    pub fn depth(&self) -> (r: usize)
        ensures
            r == self@.len(),
    {
        self.causes.len()
    }

    /// The cause at position `index`, outermost first.
    pub fn cause(&self, index: usize) -> (r: Option<String>)
        ensures
            match r {
                Some(text) => index < self@.len() && text@ == self@[index as int],
                None => index >= self@.len(),
            },
    {
        if index < self.causes.len() {
            Some(self.causes[index].clone())
        } else {
            None
        }
    }
}

/// The report of a failure, line by line: `Error!`, then each cause with its
/// position in the chain.
pub fn handle_error(e: &Failure) -> (r: Vec<String>)
    ensures
        texts_of(r@) == report_of(e@),
{
    let mut lines: Vec<String> = Vec::new();
    lines.push(String::from_str("Error!"));
    let mut i: usize = 0;
    while i < e.causes.len()
        invariant
            i <= e.causes.len(),
            lines@.len() == i + 1,
            lines@[0]@ == "Error!"@,
            forall|k: int| 0 <= k < i ==> (#[trigger] lines@[k + 1])@ == cause_line(k as nat, e@[k]),
        decreases e.causes.len() - i,
    {
        let mut line = String::from_str("  Cause ");
        let number = to_decimal(i);
        line.append(number.as_str());
        line.append(": ");
        line.append(e.causes[i].as_str());
        lines.push(line);
        i += 1;
    }
    proof {
        let tail = Seq::new(e@.len(), |i: int| cause_line(i as nat, e@[i]));
        assert(texts_of(lines@).len() == report_of(e@).len());
        assert forall|k: int| 0 <= k < lines@.len() implies texts_of(lines@)[k] == report_of(
            e@,
        )[k] by {
            if k > 0 {
                assert(lines@[(k - 1) + 1]@ == cause_line((k - 1) as nat, e@[k - 1]));
                assert(report_of(e@)[k] == tail[k - 1]);
            }
        }
        assert(texts_of(lines@) =~= report_of(e@));
    }
    lines
}

} // verus!
