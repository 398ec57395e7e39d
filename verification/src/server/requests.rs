//! Per-session request-ID tracking and result retention.

use std::collections::VecDeque;
use vstd::prelude::*;

use crate::protocol::error::{ErrorCode, ErrorDetails, ErrorResponse};
use crate::protocol::ids::RequestId;
use crate::protocol::message::{ClientMessage, ClientMessageView, ServerMessage};
use crate::server::wire;
use crate::text::owned;

verus! {

/// How many of a session's most recent admitted requests keep their results for retries.
pub const RETAINED_RESULTS: usize = 5;

/// A retained request: its number, its contents, and the response it was answered with.
pub struct RetainedResult {
    pub id: u64,
    pub request: ClientMessageView,
    pub response: ServerMessage,
}

/// What a request log is: the highest admitted request number and the most recent results,
/// oldest first.
pub struct LogModel {
    pub highest: u64,
    pub retained: Seq<RetainedResult>,
}

/// How a request number is judged against a log.
pub enum Verdict {
    /// Above every admitted number: execute it.
    New,
    /// A retry of a retained request with the same contents: answer with its response.
    Replay(ServerMessage),
    /// A retained number reused with different contents.
    Conflict,
    /// Older than every retained result.
    Expired,
    /// A skipped number within the retained range.
    Stale,
}

/// The first retained entry with request number `id`, if any.
pub open spec fn first_with_id(retained: Seq<RetainedResult>, id: u64) -> Option<int> {
    if exists|k: int| 0 <= k < retained.len() && retained[k].id == id {
        Some(
            choose|k: int|
                0 <= k < retained.len() && retained[k].id == id && forall|j: int|
                    0 <= j < k ==> retained[j].id != id,
        )
    } else {
        None
    }
}

/// The verdict on request `id` with contents `request`.
pub open spec fn verdict(m: LogModel, id: u64, request: ClientMessageView) -> Verdict {
    if id > m.highest {
        Verdict::New
    } else if let Some(k) = first_with_id(m.retained, id) {
        if m.retained[k].request == request {
            Verdict::Replay(m.retained[k].response)
        } else {
            Verdict::Conflict
        }
    } else if m.retained.len() > 0 && id < m.retained[0].id {
        Verdict::Expired
    } else {
        Verdict::Stale
    }
}

/// The log after recording the result of request `id`: the highest number moves up to it,
/// and the oldest result is dropped when the log is full.
pub open spec fn recorded(
    m: LogModel,
    id: u64,
    request: ClientMessageView,
    response: ServerMessage,
) -> LogModel {
    LogModel {
        highest: if id > m.highest {
            id
        } else {
            m.highest
        },
        retained: (if m.retained.len() == RETAINED_RESULTS {
            m.retained.drop_first()
        } else {
            m.retained
        }).push(RetainedResult { id, request, response }),
    }
}

/// A well-formed log: at most `RETAINED_RESULTS` results, none above the highest number.
pub open spec fn log_wf(m: LogModel) -> bool {
    &&& m.retained.len() <= RETAINED_RESULTS
    &&& forall|k: int| 0 <= k < m.retained.len() ==> #[trigger] m.retained[k].id <= m.highest
}

/// Whether `e` is the error with exactly these fields.
pub open spec fn error_is(
    e: ErrorResponse,
    request_id: Option<RequestId>,
    code: ErrorCode,
    message: Seq<char>,
    details: Option<ErrorDetails>,
) -> bool {
    &&& e.request_id == request_id
    &&& e.code == code
    &&& e.message@ == message
    &&& e.details == details
}

struct Entry {
    id: RequestId,
    request: ClientMessage,
    response: ServerMessage,
}

/// A session's admitted request numbers and its most recent results.
pub struct RequestLog {
    highest_admitted: RequestId,
    /// The most recent admitted requests, oldest first.
    retained: VecDeque<Entry>,
}

/// How a session should handle an incoming request.
pub enum Admission<'a> {
    /// A new request number: execute the request, then [`RequestLog::record`] its result.
    New,
    /// A retry of a retained request: send its original response again.
    Replay(&'a ServerMessage),
    /// The request number cannot be used. The request is not executed or recorded.
    Rejected(ErrorResponse),
}

/// Whether `a` is the admission that verdict `v` calls for on request `id` of a log whose
/// highest admitted number is `highest`.
pub open spec fn admission_matches(a: Admission, v: Verdict, id: RequestId, highest: RequestId) -> bool {
    match v {
        Verdict::New => a is New,
        Verdict::Replay(r) => a matches Admission::Replay(x) && *x == r,
        Verdict::Conflict => a matches Admission::Rejected(e) && error_is(
            e,
            Some(id),
            ErrorCode::RequestIdConflict,
            "request ID was already used for a different request"@,
            None,
        ),
        Verdict::Expired => a matches Admission::Rejected(e) && error_is(
            e,
            Some(id),
            ErrorCode::ResultExpired,
            "the result of this request is no longer retained"@,
            None,
        ),
        Verdict::Stale => a matches Admission::Rejected(e) && error_is(
            e,
            Some(id),
            ErrorCode::StaleRequestId,
            "request ID is not above the highest admitted request ID"@,
            Some(ErrorDetails::HighestAdmitted { highest_admitted: highest }),
        ),
    }
}

impl RequestLog {
    /// The log's highest admitted number and retained results.
    pub closed spec fn model(&self) -> LogModel {
        LogModel {
            highest: self.highest_admitted@,
            retained: Seq::new(
                self.retained@.len(),
                |k: int|
                    RetainedResult {
                        id: self.retained@[k].id@,
                        request: self.retained@[k].request@,
                        response: self.retained@[k].response,
                    },
            ),
        }
    }

    /// The highest admitted request number.
    pub closed spec fn highest(&self) -> RequestId {
        self.highest_admitted
    }

    pub closed spec fn wf(&self) -> bool {
        log_wf(self.model())
    }

    /// Start a log with the request that established the session.
    pub fn new(id: RequestId, request: ClientMessage, response: ServerMessage) -> (log: RequestLog)
        ensures
            log.wf(),
            log.model() == recorded(
                LogModel { highest: id@, retained: Seq::empty() },
                id@,
                request@,
                response,
            ),
            log.highest() == id,
    {
        let mut log = RequestLog { highest_admitted: id, retained: VecDeque::new() };
        proof {
            assert(log.model().retained =~= Seq::<RetainedResult>::empty());
        }
        log.record(id, request, response);
        log
    }

    pub fn admission(&self, id: RequestId, request: &ClientMessage) -> (a: Admission<'_>)
        requires
            self.wf(),
        ensures
            admission_matches(a, verdict(self.model(), id@, request@), id, self.highest()),
    {
        let ghost m = self.model();
        if id.get() > self.highest_admitted.get() {
            return Admission::New;
        }
        let n = self.retained.len();
        let mut i: usize = 0;
        while i < n
            invariant
                n == self.retained@.len(),
                m == self.model(),
                id@ <= m.highest,
                i <= n,
                forall|j: int| 0 <= j < i ==> #[trigger] m.retained[j].id != id@,
            decreases n - i,
        {
            let entry = &self.retained[i];
            if entry.id.get() == id.get() {
                proof {
                    assert(*entry == self.retained@[i as int]);
                    assert(m.retained[i as int].id == id@);
                    assert(m.retained[i as int].response == entry.response);
                    assert(m.retained[i as int].request == entry.request@);
                    let k = first_with_id(m.retained, id@)->0;
                    assert(first_with_id(m.retained, id@) is Some);
                    assert(k == i) by {
                        if k < i {
                            assert(m.retained[k].id != id@);
                        }
                        if k > i {
                            assert(m.retained[i as int].id != id@);
                        }
                    }
                    assert(!(id@ > m.highest));
                    assert(verdict(m, id@, request@) == if entry.request@ == request@ {
                        Verdict::Replay(entry.response)
                    } else {
                        Verdict::Conflict
                    });
                }
                if entry.request.same_as(request) {
                    return Admission::Replay(&entry.response);
                } else {
                    return Admission::Rejected(
                        wire::error(
                            Some(id),
                            ErrorCode::RequestIdConflict,
                            owned("request ID was already used for a different request"),
                        ),
                    );
                }
            }
            i = i + 1;
        }
        proof {
            assert(first_with_id(m.retained, id@) is None);
        }
        // Numbers older than every retained result had their results discarded, or were
        // skipped; the log does not remember which. Unretained numbers within the retained
        // range were skipped.
        if n > 0 && id.get() < self.retained[0].id.get() {
            Admission::Rejected(
                wire::error(
                    Some(id),
                    ErrorCode::ResultExpired,
                    owned("the result of this request is no longer retained"),
                ),
            )
        } else {
            Admission::Rejected(
                wire::with_details(
                    wire::error(
                        Some(id),
                        ErrorCode::StaleRequestId,
                        owned("request ID is not above the highest admitted request ID"),
                    ),
                    ErrorDetails::HighestAdmitted { highest_admitted: self.highest_admitted },
                ),
            )
        }
    }

    /// Record the result of a newly admitted request.
    pub fn record(&mut self, id: RequestId, request: ClientMessage, response: ServerMessage)
        requires
            old(self).wf(),
        ensures
            final(self).wf(),
            final(self).model() == recorded(old(self).model(), id@, request@, response),
            final(self).highest() == if id@ > old(self).model().highest {
                id
            } else {
                old(self).highest()
            },
    {
        let ghost m = self.model();
        if id.get() > self.highest_admitted.get() {
            self.highest_admitted = id;
        }
        if self.retained.len() == RETAINED_RESULTS {
            self.retained.pop_front();
        }
        self.retained.push_back(Entry { id, request, response });
        proof {
            let r = recorded(m, id@, request@, response);
            assert(self.model().retained =~= r.retained);
        }
    }
}


// ---------------------------------------------------------------------------------------
// Laws
// ---------------------------------------------------------------------------------------

/// The log after recording each of `later`, in order.
pub open spec fn record_all(m: LogModel, later: Seq<RetainedResult>) -> LogModel
    decreases later.len(),
{
    if later.len() == 0 {
        m
    } else {
        let e = later.last();
        recorded(record_all(m, later.drop_last()), e.id, e.request, e.response)
    }
}

/// The last `RETAINED_RESULTS` entries of a history.
pub open spec fn newest(history: Seq<RetainedResult>) -> Seq<RetainedResult> {
    if history.len() > RETAINED_RESULTS {
        history.skip(history.len() - RETAINED_RESULTS)
    } else {
        history
    }
}

/// Request numbers that keep rising: each is above `floor` and above every earlier one.
pub open spec fn rising_ids(later: Seq<RetainedResult>, floor: u64) -> bool {
    &&& forall|k: int| 0 <= k < later.len() ==> #[trigger] later[k].id > floor
    &&& forall|j: int, k: int| 0 <= j < k < later.len() ==> later[j].id < later[k].id
}

proof fn lemma_record_all_keeps_newest(m: LogModel, later: Seq<RetainedResult>)
    requires
        log_wf(m),
        rising_ids(later, m.highest),
    ensures
        record_all(m, later).retained == newest(m.retained + later),
        record_all(m, later).highest == if later.len() == 0 {
            m.highest
        } else {
            later.last().id
        },
        log_wf(record_all(m, later)),
    decreases later.len(),
{
    if later.len() == 0 {
        assert(m.retained + later =~= m.retained);
    } else {
        let prefix = later.drop_last();
        assert(rising_ids(prefix, m.highest)) by {
            assert forall|k: int| 0 <= k < prefix.len() implies #[trigger] prefix[k].id > m.highest by {
                assert(prefix[k] == later[k]);
            }
            assert forall|j: int, k: int| 0 <= j < k < prefix.len() implies prefix[j].id < prefix[k].id by {
                assert(prefix[j] == later[j] && prefix[k] == later[k]);
            }
        }
        lemma_record_all_keeps_newest(m, prefix);
        let p = record_all(m, prefix);
        let e = later.last();
        let h0 = m.retained + prefix;
        let h = m.retained + later;
        assert(h =~= h0.push(e));
        assert(e.id > p.highest) by {
            if prefix.len() > 0 {
                assert(prefix.last() == later[later.len() - 2]);
            }
        }
        if h0.len() >= RETAINED_RESULTS {
            assert(newest(h0).len() == RETAINED_RESULTS);
            assert(newest(h0).drop_first().push(e) =~= newest(h));
        } else {
            assert(newest(h0).push(e) =~= newest(h));
        }
    }
}

/// A retry of a request receives its original result while the result is retained: after
/// a new request is recorded, the same number with the same contents is answered with the
/// recorded response through the next `RETAINED_RESULTS - 1` new requests, and the same
/// number with other contents is a conflict. Once `RETAINED_RESULTS` newer requests have
/// been recorded, the result has expired, whatever the contents.
pub proof fn lemma_retry_replays_until_expired(
    m: LogModel,
    id: u64,
    request: ClientMessageView,
    response: ServerMessage,
    later: Seq<RetainedResult>,
    retry: ClientMessageView,
)
    requires
        log_wf(m),
        id > m.highest,
        rising_ids(later, id),
    ensures
        verdict(record_all(recorded(m, id, request, response), later), id, retry) == if later.len()
            < RETAINED_RESULTS {
            if retry == request {
                Verdict::Replay(response)
            } else {
                Verdict::Conflict
            }
        } else {
            Verdict::Expired
        },
{
    let target = RetainedResult { id, request, response };
    let all = seq![target] + later;
    assert(rising_ids(all, m.highest)) by {
        assert forall|k: int| 0 <= k < all.len() implies #[trigger] all[k].id > m.highest by {
            if k > 0 {
                assert(all[k] == later[k - 1]);
            }
        }
        assert forall|j: int, k: int| 0 <= j < k < all.len() implies all[j].id < all[k].id by {
            if j > 0 {
                assert(all[j] == later[j - 1]);
            }
            assert(all[k] == later[k - 1]);
        }
    }
    lemma_record_all_prepend(m, target, later);
    lemma_record_all_keeps_newest(m, all);
    let r = record_all(m, all);
    let h = m.retained + all;
    let base = m.retained.len() as int;
    assert(h[base] == target);
    assert forall|k: int| 0 <= k < h.len() && k != base implies #[trigger] h[k].id != id by {
        if k < base {
            assert(h[k] == m.retained[k]);
        } else {
            assert(h[k] == later[k - base - 1]);
        }
    }
    assert(id <= r.highest) by {
        if later.len() > 0 {
            assert(later.last() == later[later.len() - 1]);
        }
    }
    if later.len() < RETAINED_RESULTS {
        let start = if h.len() > RETAINED_RESULTS {
            h.len() - RETAINED_RESULTS
        } else {
            0
        };
        let k = base - start;
        assert(r.retained[k] == target);
        assert(first_with_id(r.retained, id) == Some(k)) by {
            assert(r.retained[k].id == id);
            let c = choose|c: int|
                0 <= c < r.retained.len() && r.retained[c].id == id && forall|j: int|
                    0 <= j < c ==> r.retained[j].id != id;
            assert(r.retained[c] == h[c + start]);
            assert(c == k);
        }
    } else {
        let start = h.len() - RETAINED_RESULTS;
        assert(start > base);
        assert forall|c: int| 0 <= c < r.retained.len() implies #[trigger] r.retained[c].id != id by {
            assert(r.retained[c] == h[c + start]);
        }
        assert(first_with_id(r.retained, id) is None);
        assert(r.retained[0] == h[start]);
        assert(h[start] == later[start - base - 1]);
    }
}

proof fn lemma_record_all_prepend(m: LogModel, first: RetainedResult, later: Seq<RetainedResult>)
    ensures
        record_all(m, seq![first] + later) == record_all(
            recorded(m, first.id, first.request, first.response),
            later,
        ),
    decreases later.len(),
{
    if later.len() == 0 {
        assert(seq![first] + later =~= seq![first]);
        assert(seq![first].drop_last() =~= Seq::<RetainedResult>::empty());
        assert(record_all(m, Seq::<RetainedResult>::empty()) == m);
        assert(record_all(m, seq![first]) == recorded(m, first.id, first.request, first.response));
    } else {
        lemma_record_all_prepend(m, first, later.drop_last());
        assert((seq![first] + later).drop_last() =~= seq![first] + later.drop_last());
        assert((seq![first] + later).last() == later.last());
    }
}

/// A request number above every admitted number is always new, and a judged request leaves
/// the log as it was: only `record` changes it.
pub proof fn lemma_new_numbers_are_new(m: LogModel, id: u64, request: ClientMessageView)
    requires
        id > m.highest,
    ensures
        verdict(m, id, request) == Verdict::New,
{
}

/// A request log is well-formed: at most `RETAINED_RESULTS` results, none above the highest
/// admitted number.
pub proof fn lemma_log_is_well_formed(log: &RequestLog)
    requires
        log.wf(),
    ensures
        log_wf(log.model()),
        log.highest()@ == log.model().highest,
{
}

/// How a request number is judged against a log: a number above the highest admitted is
/// new; a retained number is a retry, answered with the first retained response recorded
/// under it when the contents are the same and a conflict otherwise; an unretained number
/// older than every retained result has expired; any other unretained number is stale.
pub proof fn lemma_verdicts(m: LogModel, id: u64, request: ClientMessageView)
    ensures
        id > m.highest ==> verdict(m, id, request) is New,
        forall|k: int|
            #![trigger m.retained[k]]
            id <= m.highest && 0 <= k < m.retained.len() && m.retained[k].id == id && (forall|j: int|
                0 <= j < k ==> m.retained[j].id != id) ==> verdict(m, id, request) == if m.retained[k].request
                == request {
                Verdict::Replay(m.retained[k].response)
            } else {
                Verdict::Conflict
            },
        id <= m.highest && (forall|k: int| 0 <= k < m.retained.len() ==> m.retained[k].id != id)
            ==> verdict(m, id, request) == if m.retained.len() > 0 && id < m.retained[0].id {
            Verdict::Expired
        } else {
            Verdict::Stale
        },
{
    assert forall|k: int|
        #![trigger m.retained[k]]
        id <= m.highest && 0 <= k < m.retained.len() && m.retained[k].id == id && (forall|j: int|
            0 <= j < k ==> m.retained[j].id != id) implies verdict(m, id, request) == if m.retained[k].request
        == request {
        Verdict::Replay(m.retained[k].response)
    } else {
        Verdict::Conflict
    } by {
        let c = first_with_id(m.retained, id)->0;
        assert(first_with_id(m.retained, id) is Some);
        if c < k {
            assert(m.retained[c].id == id);
        }
        if k < c {
            assert(m.retained[k].id != id);
        }
    }
}

/// Recording keeps the newest results: the recorded request becomes the newest retained
/// result, the highest admitted number rises to its number when it is higher, the log keeps
/// the last `RETAINED_RESULTS` of its results followed by the new one, and a well-formed log
/// stays well-formed.
pub proof fn lemma_recording_keeps_the_newest(
    m: LogModel,
    id: u64,
    request: ClientMessageView,
    response: ServerMessage,
)
    requires
        log_wf(m),
    ensures
        ({
            let r = recorded(m, id, request, response);
            let all = m.retained.push(RetainedResult { id, request, response });
            &&& r.highest == if id > m.highest { id } else { m.highest }
            &&& r.retained.last() == (RetainedResult { id, request, response })
            &&& r.retained == all.skip(all.len() - r.retained.len())
            &&& r.retained.len() == if all.len() > RETAINED_RESULTS {
                RETAINED_RESULTS as int
            } else {
                all.len() as int
            }
            &&& log_wf(r)
        }),
{
    let r = recorded(m, id, request, response);
    let all = m.retained.push(RetainedResult { id, request, response });
    assert(r.retained =~= all.skip(all.len() - r.retained.len()));
    assert forall|k: int| 0 <= k < r.retained.len() implies #[trigger] r.retained[k].id <= r.highest by {
        if k < r.retained.len() - 1 {
            if m.retained.len() == RETAINED_RESULTS {
                assert(r.retained[k] == m.retained[k + 1]);
            } else {
                assert(r.retained[k] == m.retained[k]);
            }
        }
    }
}

} // verus!
