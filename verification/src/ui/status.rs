//! The texts of the status bar.
use vstd::prelude::*;

use crate::text::{concat, decimal, decimal_string, owned};

verus! {

/// The status shown when `folder_count` folders are configured.
pub open spec fn ready_message(folder_count: nat) -> Seq<char> {
    if folder_count == 0 {
        "No folders configured"@
    } else {
        "Ready — "@ + decimal(folder_count) + " folder"@ + (if folder_count == 1 { ""@ } else { "s"@ })
            + " configured"@
    }
}

/// Computes the status message reflecting how many folders are configured.
pub fn ready_status(folder_count: usize) -> (r: String)
    ensures
        r@ == ready_message(folder_count as nat),
{
    if folder_count == 0 {
        return owned("No folders configured");
    }
    let mut s = concat("Ready — ", decimal_string(folder_count as u64).as_str());
    s = concat(s.as_str(), " folder");
    if folder_count != 1 {
        s = concat(s.as_str(), "s");
    }
    let r = concat(s.as_str(), " configured");
    proof {
        reveal_strlit("");
    }
    assert(r@ =~= ready_message(folder_count as nat));
    r
}

/// The pagination controls: the page label, and whether the previous and
/// the next page buttons are enabled.
pub fn pagination(page: usize, total: usize) -> (r: (String, bool, bool))
    ensures
        r.0@ == "Page "@ + decimal(page as nat) + " of "@ + decimal(total as nat),
        r.1 == (page > 1),
        r.2 == (page < total),
{
    let head = concat("Page ", decimal_string(page as u64).as_str());
    let with_of = concat(head.as_str(), " of ");
    let label = concat(with_of.as_str(), decimal_string(total as u64).as_str());
    assert(label@ =~= "Page "@ + decimal(page as nat) + " of "@ + decimal(total as nat));
    (label, page > 1, page < total)
}

} // verus!
