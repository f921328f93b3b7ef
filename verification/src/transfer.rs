//! The core write loop: push a byte buffer to a raw output handle through
//! repeated partial writes, always targeting the suffix of the buffer that
//! has not yet been confirmed, until everything is flushed or the operating
//! system reports an error.
//!
//! The loop itself is split from the system call that performs one write.
//! [`Transfer`] holds the transient state (how many bytes are still owed),
//! hands out the next [`Request`] to issue, and folds each [`OsResult`] the
//! operating system reports back into a [`Status`] decision. A driver owning
//! the actual output handle runs: begin, then request / write / apply until
//! the status is no longer [`Status::Pending`].
//!
//! [`run_transfer`] drives a whole transfer against a fixed sequence of
//! reported results, which makes the loop's behavior executable and checkable
//! without touching a real stream; [`drain`] is the mathematical model both
//! are held to.

use vstd::prelude::*;

verus! {

/// One write the loop asks for: `len` bytes of the buffer starting at byte
/// `offset`. The loop only ever requests the unwritten suffix, so
/// `offset + len` always equals the buffer length.
#[derive(Clone, Copy, PartialEq, Eq, Structural, Debug)]
pub struct Request {
    pub offset: usize,
    pub len: usize,
}

/// What one write call against the operating system reported back: a
/// negative result surfaces as `Failed` carrying the OS error code, a
/// non-negative result as `Wrote` carrying the count of bytes the stream
/// accepted (never more than was requested).
#[derive(Clone, Copy, PartialEq, Eq, Structural, Debug)]
pub enum OsResult {
    Failed(i32),
    Wrote(usize),
}

/// Where a transfer stands after a step, or after a whole run.
#[derive(Clone, Copy, PartialEq, Eq, Structural, Debug)]
pub enum Status {
    /// The transfer is over and counts as a success: either every owed byte
    /// was confirmed, or the stream accepted zero bytes and is considered
    /// drained. The two are deliberately indistinguishable here.
    Done,
    /// The operating system reported an error with this code; nothing is
    /// retried, not even an interrupted call.
    Failed(i32),
    /// Bytes are still owed and no error has been reported.
    Pending,
}

/// How many bytes are in flight at the start of a transfer of `len` bytes
/// under the platform transfer limit `limit`: the smaller of the two.
pub open spec fn initial_window(len: nat, limit: nat) -> nat {
    if len <= limit {
        len
    } else {
        limit
    }
}

/// The mathematical model of the write loop: starting with `remaining` owed
/// bytes, fold in the reported results of `script` one by one and return how
/// many bytes are still owed afterwards, and how the run ended.
///
/// A run ends `Done` when the owed count reaches zero or a result reports
/// zero bytes written (the stream is considered drained), `Failed` on the
/// first error, and `Pending` when the script runs out first. A result
/// claiming more bytes than were requested cannot come from a write call and
/// also leaves the run `Pending`.
pub open spec fn drain(remaining: nat, script: Seq<OsResult>) -> (nat, Status)
    decreases script.len(),
{
    if remaining == 0 {
        (0 as nat, Status::Done)
    } else if script.len() == 0 {
        (remaining, Status::Pending)
    } else {
        match script[0] {
            OsResult::Failed(code) => (remaining, Status::Failed(code)),
            OsResult::Wrote(n) => if n == 0 {
                (remaining, Status::Done)
            } else if n <= remaining {
                drain((remaining - n) as nat, script.drop_first())
            } else {
                (remaining, Status::Pending)
            },
        }
    }
}

/// The write calls a transfer of `total` bytes issues while `script` answers
/// it, starting with `remaining` owed bytes: each call targets the suffix of
/// the buffer that is still owed, and a new call is issued only after the
/// previous one was answered with a positive count.
pub open spec fn requests_of(total: nat, remaining: nat, script: Seq<OsResult>) -> Seq<Request>
    decreases script.len(),
{
    if remaining == 0 || script.len() == 0 {
        seq![]
    } else {
        let head = seq![
            Request { offset: (total - remaining) as usize, len: remaining as usize },
        ];
        match script[0] {
            OsResult::Failed(_) => head,
            OsResult::Wrote(n) => if n == 0 {
                head
            } else if n <= remaining {
                head + requests_of(total, (remaining - n) as nat, script.drop_first())
            } else {
                head
            },
        }
    }
}

/// True when no reported result in `script` claims zero bytes written, so a
/// run can only succeed by confirming every owed byte.
pub open spec fn no_zero_ack(script: Seq<OsResult>) -> bool {
    forall|k: int| 0 <= k < script.len() ==> script[k] != OsResult::Wrote(0)
}

/// A run never owes more bytes afterwards than it owed before: reported
/// write counts only shrink the owed suffix.
pub proof fn lemma_drain_never_grows(remaining: nat, script: Seq<OsResult>)
    ensures
        drain(remaining, script).0 <= remaining,
    decreases script.len(),
{
    if remaining == 0 || script.len() == 0 {
    } else {
        match script[0] {
            OsResult::Failed(_) => {},
            OsResult::Wrote(n) => {
                if 0 < n <= remaining {
                    lemma_drain_never_grows((remaining - n) as nat, script.drop_first());
                }
            },
        }
    }
}

/// A run that ends `Done` under a script in which no write call reported
/// zero bytes has confirmed every owed byte: success then means the whole
/// buffer suffix in flight reached the stream, nothing less.
pub proof fn lemma_done_run_drains_fully(remaining: nat, script: Seq<OsResult>)
    ensures
        no_zero_ack(script) && drain(remaining, script).1 == Status::Done ==> drain(
            remaining,
            script,
        ).0 == 0,
    decreases script.len(),
{
    if remaining == 0 || script.len() == 0 {
    } else {
        match script[0] {
            OsResult::Failed(_) => {},
            OsResult::Wrote(n) => {
                if n == 0 {
                    assert(script[0] == OsResult::Wrote(0));
                } else if n <= remaining {
                    let rest = script.drop_first();
                    if no_zero_ack(script) {
                        assert forall|k: int| 0 <= k < rest.len() implies rest[k]
                            != OsResult::Wrote(0) by {
                            assert(rest[k] == script[k + 1]);
                        }
                        assert(no_zero_ack(rest));
                    }
                    lemma_done_run_drains_fully((remaining - n) as nat, rest);
                }
            },
        }
    }
}

/// Every write call of a run targets exactly the suffix of the buffer that
/// is still owed: each call covers the bytes from its offset to the end of
/// the buffer, never an empty range, the first call starts where the
/// transfer starts, and later calls start strictly further in.
pub proof fn lemma_requests_target_unwritten_suffix(
    total: nat,
    remaining: nat,
    script: Seq<OsResult>,
)
    requires
        remaining <= total,
        total <= usize::MAX,
    ensures
        forall|k: int| 0 <= k < requests_of(total, remaining, script).len() ==> (#[trigger] requests_of(
            total,
            remaining,
            script,
        )[k]).offset + requests_of(total, remaining, script)[k].len == total,
        forall|k: int| 0 <= k < requests_of(total, remaining, script).len() ==> (#[trigger] requests_of(
            total,
            remaining,
            script,
        )[k]).len > 0,
        requests_of(total, remaining, script).len() > 0 ==> requests_of(
            total,
            remaining,
            script,
        )[0].offset == total - remaining,
        forall|k: int| 0 <= k && k + 1 < requests_of(total, remaining, script).len() ==> (#[trigger] requests_of(
            total,
            remaining,
            script,
        )[k]).offset < requests_of(total, remaining, script)[k + 1].offset,
    decreases script.len(),
{
    if remaining == 0 || script.len() == 0 {
    } else {
        let head = seq![
            Request { offset: (total - remaining) as usize, len: remaining as usize },
        ];
        match script[0] {
            OsResult::Failed(_) => {},
            OsResult::Wrote(n) => {
                if 0 < n <= remaining {
                    let rest = requests_of(total, (remaining - n) as nat, script.drop_first());
                    lemma_requests_target_unwritten_suffix(
                        total,
                        (remaining - n) as nat,
                        script.drop_first(),
                    );
                    assert(requests_of(total, remaining, script) == head + rest);
                    assert forall|k: int|
                        0 <= k < (head + rest).len() implies (#[trigger] (head + rest)[k]).offset
                        + (head + rest)[k].len == total && (head + rest)[k].len > 0 by {
                        if k > 0 {
                            assert((head + rest)[k] == rest[k - 1]);
                        }
                    }
                    assert forall|k: int|
                        0 <= k && k + 1 < (head + rest).len() implies (#[trigger] (head
                        + rest)[k]).offset < (head + rest)[k + 1].offset by {
                        if k > 0 {
                            assert((head + rest)[k] == rest[k - 1]);
                        }
                        assert((head + rest)[k + 1] == rest[k]);
                    }
                }
            },
        }
    }
}

/// The transient state of one write loop: how long the buffer is and how
/// many of its trailing bytes still await confirmation. Nothing outlives the
/// loop; each transfer is independent of every other.
#[derive(Clone, Copy, PartialEq, Eq, Structural, Debug)]
pub struct Transfer {
    /// Length of the buffer being written.
    pub total: usize,
    /// Bytes not yet confirmed by the operating system.
    pub remaining: usize,
}

impl Transfer {
    /// A transfer never owes more bytes than the buffer holds.
    pub open spec fn wf(self) -> bool {
        self.remaining <= self.total
    }

    /// How many leading bytes of the buffer have been confirmed written.
    pub open spec fn confirmed(self) -> int {
        self.total - self.remaining
    }

    /// Start a transfer of `len` bytes under the platform transfer `limit`:
    /// at most `limit` bytes are ever put in flight. A buffer longer than
    /// the limit keeps its leading bytes out of the transfer entirely;
    /// callers are expected to reject or chunk such buffers themselves,
    /// since a single write call beyond the limit has no specified behavior.
    pub fn begin(len: usize, limit: usize) -> (t: Transfer)
        ensures
            t.wf(),
            t.total == len,
            t.remaining as nat == initial_window(len as nat, limit as nat),
            len <= limit ==> t.confirmed() == 0,
    {
        let window = if len <= limit {
            len
        } else {
            limit
        };
        Transfer { total: len, remaining: window }
    }

    /// True when no byte is owed any more; no further write call is issued,
    /// in particular none for an empty buffer.
    pub fn finished(&self) -> (done: bool)
        ensures
            done <==> self.remaining == 0,
    {
        self.remaining == 0
    }

    /// The next write call to issue: exactly the suffix of the buffer that
    /// has not been confirmed yet.
    pub fn request(&self) -> (r: Request)
        requires
            self.wf(),
            self.remaining > 0,
        ensures
            r.offset == self.confirmed(),
            r.len == self.remaining,
            r.offset + r.len == self.total,
    {
        Request { offset: self.total - self.remaining, len: self.remaining }
    }

    /// Fold in what the operating system reported for the outstanding
    /// request and decide how to go on: an error ends the transfer with that
    /// code, zero bytes written ends it as drained (a success, with the owed
    /// count untouched), and a positive count shrinks the owed suffix, which
    /// the next request will target.
    pub fn apply(&mut self, res: OsResult) -> (status: Status)
        requires
            old(self).wf(),
            old(self).remaining > 0,
            res matches OsResult::Wrote(n) ==> n <= old(self).remaining,
        ensures
            final(self).wf(),
            final(self).total == old(self).total,
            match res {
                OsResult::Failed(code) => status == Status::Failed(code) && *final(self) == *old(
                    self,
                ),
                OsResult::Wrote(n) => if n == 0 {
                    status == Status::Done && *final(self) == *old(self)
                } else {
                    final(self).remaining == old(self).remaining - n && status == (if final(self).remaining == 0 {
                        Status::Done
                    } else {
                        Status::Pending
                    })
                },
            },
    {
        match res {
            OsResult::Failed(code) => Status::Failed(code),
            OsResult::Wrote(n) => {
                if n == 0 {
                    Status::Done
                } else {
                    self.remaining = self.remaining - n;
                    if self.remaining == 0 {
                        Status::Done
                    } else {
                        Status::Pending
                    }
                }
            },
        }
    }
}

/// Everything one whole run of the write loop produced: how it ended, the
/// bytes the stream received in order, and the write calls that were issued.
#[derive(Debug)]
pub struct Run {
    pub end: Status,
    pub received: Vec<u8>,
    pub requests: Vec<Request>,
}

/// Drive a whole transfer of `buf` under the transfer `limit`, with `script`
/// standing in for the operating system: the k-th issued write call is
/// answered by `script[k]`. The run ends when the transfer is done, fails,
/// or the script has no answer left.
///
/// The result is exactly what [`drain`] and [`requests_of`] say of it. In
/// particular, for a buffer within the transfer limit: an empty buffer
/// succeeds without a single write call; a run that ends `Done` with no
/// zero-byte answer delivered the whole buffer to the stream; whatever
/// happens, the stream receives a prefix of the buffer, its bytes in order;
/// and a first answer that reports an error fails the run with that error
/// code before any byte is confirmed.
#[verifier::loop_isolation(false)]
pub fn run_transfer(buf: &Vec<u8>, limit: usize, script: &Vec<OsResult>) -> (run: Run)
    ensures
        ({
            let window = initial_window(buf@.len(), limit as nat);
            let after = drain(window, script@);
            &&& run.end == after.1
            &&& run.received@ == buf@.subrange(buf@.len() - window, buf@.len() - after.0)
            &&& run.requests@ == requests_of(buf@.len(), window, script@)
        }),
        buf@.len() == 0 ==> run.end == Status::Done && run.requests@.len() == 0
            && run.received@.len() == 0,
        buf@.len() <= limit && run.end == Status::Done && no_zero_ack(script@)
            ==> run.received@ == buf@,
        buf@.len() <= limit ==> run.received@ == buf@.take(run.received@.len() as int),
        0 < buf@.len() && 0 < limit && 0 < script@.len() ==> (script@[0] matches OsResult::Failed(
            code,
        ) ==> run.end == Status::Failed(code) && run.received@.len() == 0),
{
    let total = buf.len();
    let mut t = Transfer::begin(total, limit);
    let ghost window = t.remaining as nat;
    proof {
        lemma_done_run_drains_fully(window, script@);
        lemma_drain_never_grows(window, script@);
        assert(buf@.subrange(0, buf@.len() as int) =~= buf@);
    }
    let mut received: Vec<u8> = Vec::new();
    let mut requests: Vec<Request> = Vec::new();
    let mut i: usize = 0;
    proof {
        assert(script@.skip(0) =~= script@);
        assert(Seq::<Request>::empty() + requests_of(total as nat, window, script@)
            =~= requests_of(total as nat, window, script@));
    }
    loop
        invariant
            t.wf(),
            t.total == total,
            t.remaining <= window,
            i <= script@.len(),
            received@ == buf@.subrange(total - window, total - t.remaining),
            requests_of(total as nat, window, script@) == requests@ + requests_of(
                total as nat,
                t.remaining as nat,
                script@.skip(i as int),
            ),
            drain(window, script@) == drain(t.remaining as nat, script@.skip(i as int)),
        decreases script@.len() - i,
    {
        if t.finished() {
            proof {
                assert(requests@ + requests_of(total as nat, 0, script@.skip(i as int))
                    =~= requests@);
            }
            return Run { end: Status::Done, received, requests };
        }
        if i == script.len() {
            proof {
                assert(script@.skip(i as int).len() == 0);
                assert(requests@ + requests_of(
                    total as nat,
                    t.remaining as nat,
                    script@.skip(i as int),
                ) =~= requests@);
            }
            return Run { end: Status::Pending, received, requests };
        }
        let ghost s_i = script@.skip(i as int);
        let ghost rem_old = t.remaining as nat;
        let ghost requests_in = requests@;
        let rq = t.request();
        requests.push(rq);
        let res = script[i];
        i = i + 1;
        proof {
            assert(s_i[0] == script@[i - 1]);
            assert(s_i.drop_first() =~= script@.skip(i as int));
            assert(rq == (Request { offset: (total - rem_old) as usize, len: rem_old as usize }));
            assert(requests@ =~= requests_in + seq![rq]);
        }
        match res {
            OsResult::Failed(code) => {
                proof {
                    assert(requests_of(total as nat, rem_old, s_i) =~= seq![rq]);
                    assert(requests@ =~= requests_of(total as nat, window, script@));
                }
                return Run { end: Status::Failed(code), received, requests };
            },
            OsResult::Wrote(n) => {
                if n > rq.len {
                    proof {
                        assert(requests_of(total as nat, rem_old, s_i) =~= seq![rq]);
                        assert(requests@ =~= requests_of(total as nat, window, script@));
                    }
                    return Run { end: Status::Pending, received, requests };
                }
                if n > 0 {
                    let ghost received_in = received@;
                    let mut j: usize = 0;
                    while j < n
                        invariant
                            j <= n,
                            received@ == received_in + buf@.subrange(
                                rq.offset as int,
                                rq.offset + j,
                            ),
                        decreases n - j,
                    {
                        let b = buf[rq.offset + j];
                        received.push(b);
                        proof {
                            assert(received_in + buf@.subrange(rq.offset as int, rq.offset + j)
                                + seq![b] =~= received_in + buf@.subrange(
                                rq.offset as int,
                                rq.offset + j + 1,
                            ));
                        }
                        j = j + 1;
                    }
                    proof {
                        assert(buf@.subrange(total - window, total - rem_old) + buf@.subrange(
                            rq.offset as int,
                            rq.offset + n,
                        ) =~= buf@.subrange(total - window, total - (rem_old - n)));
                    }
                }
                let status = t.apply(res);
                if status == Status::Pending {
                    // the loop goes on with the shrunken suffix
                } else {
                    proof {
                        if n == 0 {
                            assert(drain(rem_old, s_i) == (rem_old, Status::Done));
                            assert(requests_of(total as nat, rem_old, s_i) =~= seq![rq]);
                        } else {
                            assert(drain((rem_old - n) as nat, s_i.drop_first()) == (
                                0 as nat,
                                Status::Done,
                            ));
                            assert(drain(rem_old, s_i) == drain(
                                (rem_old - n) as nat,
                                s_i.drop_first(),
                            ));
                            assert(t.remaining == 0);
                            assert(requests_of(total as nat, rem_old, s_i) =~= seq![rq]
                                + requests_of(total as nat, (rem_old - n) as nat, s_i.drop_first()));
                            assert(requests_of(total as nat, (rem_old - n) as nat, s_i.drop_first())
                                =~= Seq::<Request>::empty());
                            assert(requests_of(total as nat, rem_old, s_i) =~= seq![rq]);
                        }
                        assert(requests@ =~= requests_in + requests_of(total as nat, rem_old, s_i));
                        assert(requests@ == requests_of(total as nat, window, script@));
                    }
                    return Run { end: status, received, requests };
                }
            },
        }
    }
}

} // verus!
