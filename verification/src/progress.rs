//! The progress protocol: transient status snapshots emitted while a walk
//! runs, and the best-effort channel the walking branches push them over.
//! Delivery is never load-bearing: a send to a consumer that went away is
//! dropped, and the walk's results do not depend on it.

use vstd::prelude::*;
use vstd::arithmetic::div_mod::lemma_multiply_divide_le;

verus! {

/// A progress snapshot: repeated `Scanning` updates while the walk runs,
/// then exactly one terminal `Completed` when every branch has joined.
#[derive(Debug, Clone)]
pub enum ScanStatus {
    Scanning { current_path: String, progress: u16, total_items: usize, processed_items: usize },
    Completed { total_files: usize, total_size: String },
}

/// `processed / total * 100`, truncated; 0 when nothing is known yet.
pub open spec fn spec_percent(processed: nat, total: nat) -> nat {
    if total == 0 {
        0
    } else {
        processed * 100 / total
    }
}

/// The truncated progress percentage of a partially processed listing.
pub fn progress_percent(processed: usize, total: usize) -> (r: u16)
    requires
        processed <= total,
    ensures
        r as nat == spec_percent(processed as nat, total as nat),
        r <= 100,
{
    if total == 0 {
        0
    } else {
        let p: u128 = (processed as u128) * 100 / (total as u128);
        proof {
            assert((processed as int) * 100 <= 100 * (total as int)) by (nonlinear_arith)
                requires
                    processed <= total,
            ;
            lemma_multiply_divide_le((processed as int) * 100, total as int, 100);
        }
        p as u16
    }
}

/// Declares `std::sync::mpsc::Sender` so channel handles can appear in
/// verified signatures; the value itself stays opaque to the verifier.
#[verifier::external_type_specification]
#[verifier::external_body]
#[verifier::reject_recursive_types(T)]
pub struct ExSender<T>(std::sync::mpsc::Sender<T>);

/// Relies on `std::sync::mpsc::Sender::send`: hands one value to the
/// receiving side without blocking the sender, and reports failure exactly
/// when the receiver has been dropped. Nothing is promised of the outcome:
/// progress delivery is best-effort by design.
#[verifier::external_body]
pub(crate) fn channel_send<T>(tx: &std::sync::mpsc::Sender<T>, value: T) -> (delivered: bool) {
    tx.send(value).is_ok()
}

} // verus!
