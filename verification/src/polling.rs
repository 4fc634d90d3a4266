//! The decisions of the Kafka loops: where the next fetch starts, how long
//! to wait before it, and which fetched response answers a request.

use vstd::prelude::*;

use crate::protocol::KafkaAuthResponse;

verus! {

/// The offset to fetch from next: one past the last fetched record, or the
/// same offset where nothing was fetched or the fetch failed.
pub open spec fn next_offset(offset: i64, fetched: Option<(Seq<i64>, i64)>) -> i64 {
    match fetched {
        Some((offsets, _)) => if offsets.len() > 0 {
            (offsets.last() + 1) as i64
        } else {
            offset
        },
        None => offset,
    }
}

/// The wait in milliseconds before the next fetch: a second after a failed
/// fetch, 50 ms once the high watermark is reached, none otherwise.
pub open spec fn wait_millis(offset: i64, fetched: Option<(Seq<i64>, i64)>) -> u64 {
    match fetched {
        Some((_, high_watermark)) => if next_offset(offset, fetched) >= high_watermark {
            50
        } else {
            0
        },
        None => 1000,
    }
}

/// One turn of the verifier worker's loop: from the current offset and what
/// the fetch gave (the offsets of the records and the high watermark, or
/// `None` for a failed fetch), the next offset and the wait before the next
/// fetch.
pub fn worker_step(offset: i64, fetched: Option<(Vec<i64>, i64)>) -> (r: (i64, u64))
    requires
        fetched matches Some((offsets, _)) ==> forall|i: int| 0 <= i < offsets.len() ==> offsets[i] < i64::MAX,
    ensures
        ({
            let f = match fetched {
                Some((offsets, hw)) => Some((offsets@, hw)),
                None => None,
            };
            r == (next_offset(offset, f), wait_millis(offset, f))
        }),
{
    match fetched {
        None => (offset, 1000),
        Some((offsets, high_watermark)) => {
            let n = offsets.len();
            let next = if n > 0 {
                offsets[n - 1] + 1
            } else {
                offset
            };
            let wait: u64 = if next >= high_watermark {
                50
            } else {
                0
            };
            (next, wait)
        },
    }
}

/// The position of the first response to the request `request_id`, if any.
pub fn first_matching(rs: &Vec<KafkaAuthResponse>, request_id: &str) -> (i: Option<usize>)
    ensures
        match i {
            Some(i) => i < rs.len() && rs[i as int].request_id@ == request_id@ && forall|j: int|
                0 <= j < i ==> rs[j].request_id@ != request_id@,
            None => forall|j: int| 0 <= j < rs.len() ==> rs[j].request_id@ != request_id@,
        },
{
    let want = String::from_str(request_id);
    let n = rs.len();
    let mut i: usize = 0;
    while i < n
        invariant
            n == rs.len(),
            i <= n,
            want@ == request_id@,
            forall|j: int| 0 <= j < i ==> rs[j].request_id@ != request_id@,
        decreases n - i,
    {
        if rs[i].request_id == want {
            return Some(i);
        }
        i = i + 1;
    }
    None
}

} // verus!
