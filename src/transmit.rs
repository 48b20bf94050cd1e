use vstd::prelude::*;
use crate::counter::SentCounter;
use std::io::Write;

verus! {

#[verifier::external_type_specification]
#[verifier::external_body]
pub struct ExIoError(std::io::Error);

/// The gzip stream that flate2's `GzEncoder` at the default level, with no
/// file name, comment or time stamp, makes of `data`.
pub uninterp spec fn gzip_of(data: Seq<u8>) -> Seq<u8>;

/// Relies on flate2's `GzEncoder::new(Vec::new(), Compression::default())`,
/// `write_all` and `finish`: the stream depends on the bytes alone (the header
/// carries no time stamp), and opens with the ten-byte gzip header that starts
/// 0x1f 0x8b and closes with an eight-byte trailer. Writing into a `Vec` never
/// fails, and the in-memory compressor reports a full output buffer as a
/// status rather than an error, so the call succeeds.
#[verifier::external_body]
fn gzip(data: &[u8]) -> (r: Result<Vec<u8>, std::io::Error>)
    ensures
        r is Ok,
        r matches Ok(v) ==> v@ == gzip_of(data@) && v@.len() >= 18 && v@[0] == 0x1f && v@[1]
            == 0x8b,
{
    let mut encoder = flate2::write::GzEncoder::new(Vec::new(), flate2::Compression::default());
    encoder.write_all(data)?;
    encoder.finish()
}

/// Why one delivery attempt failed.
#[derive(Clone, Copy, Debug, PartialEq, Eq, Structural)]
pub enum DeliveryError {
    /// The batch could not be encoded.
    Serialization,
    /// The encoded batch could not be compressed.
    Compression,
    /// The request did not complete.
    Transport,
    /// The collector answered with a status outside 200..=299.
    Status(u16),
}

/// How the collector's side of one attempt ended, as the HTTP client saw it.
#[derive(Clone, Copy, Debug, PartialEq, Eq, Structural)]
pub enum Response {
    /// The collector answered with this status code.
    Answered(u16),
    /// No answer: the connection or the request failed.
    Failed,
}

/// The body of one POST and whether it is gzip-encoded.
#[derive(Debug)]
pub struct Payload {
    pub body: Vec<u8>,
    pub gzipped: bool,
}

/// Whether a status code reports success: any 2xx.
pub open spec fn is_success(status: u16) -> bool {
    200 <= status <= 299
}

pub fn is_success_status(status: u16) -> (r: bool)
    ensures
        r == is_success(status),
{
    200 <= status && status <= 299
}

/// Turns an encoded batch into the request body: gzip-compressed when
/// `compress` is set, else as it is.
pub fn prepare_payload(json: Vec<u8>, compress: bool) -> (r: Result<Payload, DeliveryError>)
    ensures
        !compress ==> (r matches Ok(p) && p.body@ == json@ && !p.gzipped),
        compress ==> (r matches Ok(p) && p.body@ == gzip_of(json@) && p.gzipped),
{
    if !compress {
        return Ok(Payload { body: json, gzipped: false });
    }
    match gzip(json.as_slice()) {
        Ok(body) => Ok(Payload { body, gzipped: true }),
        Err(_) => Err(DeliveryError::Compression),
    }
}

/// The header lines a request of this pipeline carries, in the order sent.
pub open spec fn header_lines(gzipped: bool) -> Seq<(Seq<char>, Seq<char>)> {
    let content_type = ("Content-Type"@, "application/json"@);
    if gzipped {
        seq![content_type, ("Content-Encoding"@, "gzip"@)]
    } else {
        seq![content_type]
    }
}

/// Header names and values for a request with this body: the content type is
/// always JSON, and a gzip encoding is declared exactly when the body is
/// compressed.
pub fn delivery_headers(gzipped: bool) -> (r: Vec<(String, String)>)
    ensures
        r@.len() == header_lines(gzipped).len(),
        forall|i: int|
            0 <= i < r@.len() ==> (#[trigger] r@[i]).0@ == header_lines(gzipped)[i].0 && r@[i].1@
                == header_lines(gzipped)[i].1,
{
    proof {
        reveal_strlit("Content-Type");
        reveal_strlit("application/json");
        reveal_strlit("Content-Encoding");
        reveal_strlit("gzip");
    }
    let mut headers: Vec<(String, String)> = Vec::new();
    headers.push((String::from_str("Content-Type"), String::from_str("application/json")));
    if gzipped {
        headers.push((String::from_str("Content-Encoding"), String::from_str("gzip")));
    }
    headers
}

/// The collector used when none is configured.
pub open spec fn default_server_url() -> Seq<char> {
    "http://yourserver.com/api/monitor"@
}

/// The endpoint to post to: the configured one, else the default.
pub fn server_url(configured: Option<String>) -> (r: String)
    ensures
        configured matches Some(u) ==> r@ == u@,
        configured is None ==> r@ == default_server_url(),
{
    match configured {
        Some(u) => u,
        None => {
            proof {
                reveal_strlit("http://yourserver.com/api/monitor");
            }
            String::from_str("http://yourserver.com/api/monitor")
        },
    }
}

/// What one attempt comes to: success on a 2xx answer; otherwise the failure,
/// with the status when there was one.
pub open spec fn outcome_of(response: Response) -> Result<(), DeliveryError> {
    match response {
        Response::Answered(s) => if is_success(s) {
            Ok(())
        } else {
            Err(DeliveryError::Status(s))
        },
        Response::Failed => Err(DeliveryError::Transport),
    }
}

/// The sent count after one delivery of `batch_len` snapshots ends with
/// `response`: grown by `batch_len` on success, unchanged on failure.
pub open spec fn count_after(before: nat, batch_len: nat, response: Response) -> nat {
    if outcome_of(response) is Ok {
        before + batch_len
    } else {
        before
    }
}

/// Whether the count can take this delivery: a failed one adds nothing, a
/// successful one must fit the machine's bound.
pub open spec fn fits_count(before: nat, batch_len: nat, response: Response) -> bool {
    outcome_of(response) is Ok ==> before + batch_len <= usize::MAX
}

/// Records the end of one delivery of `batch_len` snapshots: on success the
/// counter grows by `batch_len`, on failure it stays as it was and the batch
/// is given up.
pub fn complete_delivery(counter: &mut SentCounter, batch_len: usize, response: Response) -> (r:
    Result<(), DeliveryError>)
    requires
        fits_count(old(counter)@, batch_len as nat, response),
    ensures
        r == outcome_of(response),
        final(counter)@ == count_after(old(counter)@, batch_len as nat, response),
{
    match response {
        Response::Answered(status) => {
            if is_success_status(status) {
                assert(outcome_of(response) is Ok);
                counter.add(batch_len);
                Ok(())
            } else {
                Err(DeliveryError::Status(status))
            }
        },
        Response::Failed => Err(DeliveryError::Transport),
    }
}

/// Whether the counter can record a delivery of `batch_len` snapshots that
/// ended with `response`.
pub fn can_take(counter: &SentCounter, batch_len: usize, response: Response) -> (r: bool)
    ensures
        r == fits_count(counter@, batch_len as nat, response),
{
    match response {
        Response::Answered(status) => !is_success_status(status) || counter.can_add(batch_len),
        Response::Failed => true,
    }
}

/// The lengths of the batches whose delivery succeeded, added up.
pub open spec fn delivered_total(lens: Seq<nat>, responses: Seq<Response>) -> nat
    decreases lens.len(),
{
    if lens.len() == 0 || responses.len() == 0 {
        0
    } else {
        count_after(
            delivered_total(lens.drop_last(), responses.drop_last()),
            lens.last(),
            responses.last(),
        )
    }
}

/// The sent counts seen as deliveries complete one after another, in the
/// order a lock let them through, as `complete_delivery` ensures.
pub open spec fn is_delivery_run(counts: Seq<nat>, lens: Seq<nat>, responses: Seq<Response>) -> bool {
    &&& counts.len() == lens.len() + 1
    &&& responses.len() == lens.len()
    &&& forall|i: int|
        0 <= i < lens.len() ==> #[trigger] counts[i + 1] == count_after(counts[i], lens[i], responses[i])
}

/// However deliveries interleave, once all have completed the count has grown
/// by exactly the lengths of the batches that were delivered: no increment is
/// lost, and a failed batch adds nothing.
pub proof fn lemma_deliveries_sum(counts: Seq<nat>, lens: Seq<nat>, responses: Seq<Response>)
    requires
        is_delivery_run(counts, lens, responses),
    ensures
        counts.last() == counts[0] + delivered_total(lens, responses),
    decreases lens.len(),
{
    if lens.len() > 0 {
        let k = lens.len() - 1;
        let c2 = counts.drop_last();
        let l2 = lens.drop_last();
        let r2 = responses.drop_last();
        assert(is_delivery_run(c2, l2, r2)) by {
            assert forall|i: int| 0 <= i < l2.len() implies #[trigger] c2[i + 1] == count_after(
                c2[i],
                l2[i],
                r2[i],
            ) by {
                assert(counts[i + 1] == count_after(counts[i], lens[i], responses[i]));
            }
        }
        lemma_deliveries_sum(c2, l2, r2);
        assert(counts[k + 1] == count_after(counts[k], lens[k], responses[k]));
    }
}

/// A failed delivery and a successful one, completing in either order: the
/// count grows by the successful batch's length alone, and the two attempts
/// report different outcomes, the failed one with its status.
pub proof fn lemma_failed_and_delivered(
    start: nat,
    failed_len: nat,
    failed: Response,
    delivered_len: nat,
    delivered: Response,
)
    requires
        outcome_of(failed) is Err,
        outcome_of(delivered) is Ok,
    ensures
        count_after(count_after(start, failed_len, failed), delivered_len, delivered) == start
            + delivered_len,
        count_after(count_after(start, delivered_len, delivered), failed_len, failed) == start
            + delivered_len,
        outcome_of(failed) != outcome_of(delivered),
        failed matches Response::Answered(s) ==> outcome_of(failed) == Err::<(), DeliveryError>(
            DeliveryError::Status(s),
        ),
{
}

} // verus!
