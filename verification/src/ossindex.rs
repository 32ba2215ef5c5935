//! The decisions around a query of the OSS Index component reports: how the
//! package URLs are put into requests, and what an answer's status asks for.
//! Sending a request and reading the answer is the caller's.

use vstd::prelude::*;

verus! {

/// The most package URLs that one request may hold.
pub const MAX_COMPONENTS_PER_REQUEST: usize = 128;

/// The report on one component. The records of its vulnerabilities are the
/// caller's.
pub struct ComponentReport<V> {
    pub coordinates: String,
    pub description: String,
    pub reference: String,
    pub vulnerabilities: Vec<V>,
}

/// What the status of an answer asks the caller to do.
#[derive(Clone, Copy, Debug, PartialEq, Eq, Structural)]
pub enum ResponseKind {
    /// The body holds the reports asked for.
    Reports,
    /// The request was refused; the body says why.
    BadRequest,
    /// The service takes no more requests for now.
    TooManyRequests,
    /// Any other status.
    Unknown,
}

/// The kind of answer that a status code of HTTP stands for.
pub open spec fn response_kind(status: u16) -> ResponseKind {
    if status == 200 {
        ResponseKind::Reports
    } else if status == 400 {
        ResponseKind::BadRequest
    } else if status == 429 {
        ResponseKind::TooManyRequests
    } else {
        ResponseKind::Unknown
    }
}

/// Tells from the status code of an answer what it holds.
pub fn classify_status(status: u16) -> (kind: ResponseKind)
    ensures
        kind == response_kind(status),
{
    if status == 200 {
        ResponseKind::Reports
    } else if status == 400 {
        ResponseKind::BadRequest
    } else if status == 429 {
        ResponseKind::TooManyRequests
    } else {
        ResponseKind::Unknown
    }
}

/// How many requests `n` package URLs take.
pub open spec fn batch_count(n: nat) -> nat {
    (n + 127) / 128
}

/// How many package URLs the request of index `k` holds, of `n` in all.
pub open spec fn batch_len(n: nat, k: nat) -> nat {
    if n >= 128 * k + 128 {
        128
    } else {
        (n - 128 * k) as nat
    }
}

/// Puts the package URLs into requests: in their order, each request full
/// but the last, and none empty.
pub fn request_batches(purls: &Vec<String>) -> (batches: Vec<Vec<String>>)
    ensures
        batches.len() == batch_count(purls.len() as nat),
        forall|k: int|
            0 <= k < batches.len() ==> (#[trigger] batches[k]).len() == batch_len(
                purls.len() as nat,
                k as nat,
            ),
        forall|k: int, j: int|
            0 <= k < batches.len() && 0 <= j < batches[k].len() ==> (#[trigger] batches[k][j])@
                == purls[128 * k + j]@,
{
    let n = purls.len();
    let mut batches: Vec<Vec<String>> = Vec::new();
    let mut start: usize = 0;
    while start < n
        invariant_except_break
            n == purls.len(),
            start <= n,
            start == 128 * batches.len(),
            forall|k: int| 0 <= k < batches.len() ==> (#[trigger] batches[k]).len() == 128,
            forall|k: int, j: int|
                0 <= k < batches.len() && 0 <= j < 128 ==> (#[trigger] batches[k][j])@
                    == purls[128 * k + j]@,
        ensures
            batches.len() == batch_count(n as nat),
            forall|k: int|
                0 <= k < batches.len() ==> (#[trigger] batches[k]).len() == batch_len(
                    n as nat,
                    k as nat,
                ),
            forall|k: int, j: int|
                0 <= k < batches.len() && 0 <= j < batches[k].len() ==> (#[trigger] batches[k][j])@
                    == purls[128 * k + j]@,
        decreases n - start,
    {
        let end: usize = if n - start > MAX_COMPONENTS_PER_REQUEST {
            start + MAX_COMPONENTS_PER_REQUEST
        } else {
            n
        };
        let mut batch: Vec<String> = Vec::new();
        let mut i: usize = start;
        while i < end
            invariant
                start <= i <= end,
                end <= purls.len(),
                batch.len() == i - start,
                forall|j: int| 0 <= j < batch.len() ==> (#[trigger] batch[j])@ == purls[start + j]@,
            decreases end - i,
        {
            batch.push(purls[i].clone());
            i += 1;
        }
        let ghost full = batches@;
        batches.push(batch);
        proof {
            assert forall|k: int, j: int|
                0 <= k < batches.len() && 0 <= j < batches[k].len() implies (
            #[trigger] batches[k][j])@ == purls[128 * k + j]@ by {
                if k < full.len() {
                    assert(batches[k] == full[k]);
                }
            }
        }
        if end == n {
            proof {
                assert forall|k: int| 0 <= k < batches.len() implies (
                #[trigger] batches[k]).len() == batch_len(n as nat, k as nat) by {
                    if k < full.len() {
                        assert(batches[k] == full[k]);
                    }
                }
            }
            break;
        }
        proof {
            assert forall|k: int| 0 <= k < batches.len() implies (#[trigger] batches[k]).len()
                == 128 by {
                if k < full.len() {
                    assert(batches[k] == full[k]);
                }
            }
        }
        start = end;
    }
    batches
}

} // verus!
