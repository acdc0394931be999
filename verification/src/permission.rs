use crate::parse::contains_seq;
use crate::parse::contains_subslice;
use vstd::prelude::*;

verus! {

/// The marker the permission query's report carries when the overlay may
/// cover the screen: the bytes of "allow".
pub open spec fn allow_marker() -> Seq<u8> {
    seq![0x61u8, 0x6c, 0x6c, 0x6f, 0x77]
}

/// Decides whether the overlay permission is granted. Desktop platforms
/// need none, and a platform whose query could not run cannot be checked:
/// both hand in no report and count as granted rather than locking the
/// overlay out. A report from the mobile permission query counts as granted
/// exactly when it carries the "allow" marker.
pub fn check_overlay_permission(appops_report: Option<&[u8]>) -> (granted: bool)
    ensures
        appops_report is None ==> granted,
        appops_report matches Some(rep) ==> granted == contains_seq(rep@, allow_marker()),
{
    match appops_report {
        None => true,
        Some(rep) => {
            let marker: Vec<u8> = vec![0x61u8, 0x6c, 0x6c, 0x6f, 0x77];
            proof {
                assert(marker@ =~= allow_marker());
            }
            contains_subslice(rep, marker.as_slice())
        },
    }
}

} // verus!
