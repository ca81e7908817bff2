//! The run report.
//!
//! Outcomes accumulate in processing order, one result string per stored
//! target, and are rendered once at the end of the run: every entry
//! followed by `",\n"`, written under the reports root's own storage
//! location.

use crate::storage::Department;
use vstd::prelude::*;

verus! {

/// The rendered report text: every entry followed by a comma and a line
/// break.
pub open spec fn report_blob(entries: Seq<Seq<char>>) -> Seq<char>
    decreases entries.len(),
{
    if entries.len() == 0 {
        Seq::empty()
    } else {
        entries[0] + ",\n"@ + report_blob(entries.drop_first())
    }
}

/// The accumulating run report: its own storage binding under the reports
/// root, and the entries gathered so far.
pub struct Report {
    pub info: Department,
    pub data: Vec<String>,
}

impl Report {
    /// An empty report bound to its storage location.
    pub fn new(info: Department) -> (r: Report)
        ensures
            r.info == info,
            r.data@ =~= Seq::<String>::empty(),
    {
        Report { info, data: Vec::new() }
    }

    /// Appends one outcome, keeping processing order.
    pub fn add(&mut self, report: String)
        ensures
            final(self).data@ == old(self).data@.push(report),
            final(self).info == old(self).info,
    {
        self.data.push(report)
    }

    /// Renders the entries gathered so far into the report text.
    pub fn render(&self) -> (r: String)
        ensures
            r@ == report_blob(self.data.deep_view()),
    {
        let mut acc = String::new();
        let mut i: usize = 0;
        proof {
            assert(self.data.deep_view().skip(0) =~= self.data.deep_view());
        }
        while i < self.data.len()
            invariant
                i <= self.data@.len(),
                acc@ + report_blob(self.data.deep_view().skip(i as int)) =~= report_blob(
                    self.data.deep_view(),
                ),
            decreases self.data@.len() - i,
        {
            let entry = vstd::slice::slice_index_get(self.data.as_slice(), i);
            let ghost rest = self.data.deep_view().skip(i as int);
            proof {
                assert(rest[0] == self.data.deep_view()[i as int]);
                assert(rest.drop_first() =~= self.data.deep_view().skip(i + 1));
            }
            acc = acc.concat(entry.as_str()).concat(",\n");
            proof {
                assert(acc@ + report_blob(self.data.deep_view().skip(i + 1)) =~= report_blob(
                    self.data.deep_view(),
                ));
            }
            i = i + 1;
        }
        proof {
            assert(self.data.deep_view().skip(self.data@.len() as int) =~= Seq::<Seq<
                char,
            >>::empty());
            assert(acc@ =~= report_blob(self.data.deep_view()));
        }
        acc
    }
}

} // verus!
