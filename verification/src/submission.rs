//! Deciding how a submission proceeds. The caller talks to the network and
//! reports each answer; the client says what to do next, and keeps the
//! count of failed attempts and the anchors that the network has refused.

use vstd::prelude::*;
use crate::address::Anchor;
use crate::error::ClientError;
use crate::keys::Signature;
use crate::transaction::SignedTransaction;

verus! {

/// How often, and how patiently, a submission is retried.
#[derive(Clone, Copy, Debug, PartialEq, Eq, Structural)]
pub struct RetryPolicy {
    /// Attempts that may end in an expired anchor before the submission is given up.
    pub max_anchor_attempts: u32,
    /// Attempts that may end in a transport failure before the submission is given up.
    pub max_transport_attempts: u32,
    /// The wait after the first transport failure, in milliseconds.
    pub base_backoff_ms: u64,
    /// The longest wait between two attempts, in milliseconds.
    pub max_backoff_ms: u64,
    /// How long to wait for a confirmation before asking for the status, in milliseconds.
    pub confirm_timeout_ms: u64,
}

/// What the network boundary reported for one attempt.
#[derive(Clone, Copy, Debug, PartialEq, Eq, Structural)]
pub enum NetworkReply {
    /// The transaction is durably in the ledger.
    Confirmed,
    /// The transaction was received, but no confirmation came in time.
    Unconfirmed,
    /// The anchor was too old when the network processed the transaction.
    AnchorExpired,
    /// The fee payer or a debited account lacks `shortfall`.
    InsufficientFunds { shortfall: u64 },
    /// The call itself failed.
    TransportFailed,
}

/// What the caller has to do next.
#[derive(Clone, Copy, Debug, PartialEq, Eq)]
pub enum Directive {
    /// Nothing: the transaction with this identifier is confirmed.
    Done(Signature),
    /// Ask the network for the status of this identifier, and report it.
    CheckStatus(Signature),
    /// Wait this long, then send the same signed transaction again.
    Resend { wait_ms: u64 },
    /// Fetch a fresh anchor, build and sign the transaction anew, and
    /// submit the new one.
    Rebuild,
    /// Stop: the submission has failed for this reason.
    GiveUp(ClientError),
}

/// The state of a submission client as plain values.
pub struct ClientModel {
    pub policy: RetryPolicy,
    /// The anchors that the network has reported as expired.
    pub expired: Seq<Anchor>,
    /// Attempts of the current submission that ended in an expired anchor.
    pub anchor_failures: u32,
    /// Attempts of the current submission that ended in a transport failure.
    pub transport_failures: u32,
    /// Whether the status of the last attempt is being asked for.
    pub checking: bool,
}

/// `base` doubled `times` times.
pub open spec fn doubled(base: nat, times: nat) -> nat
    decreases times,
{
    if times == 0 {
        base
    } else {
        2 * doubled(base, (times - 1) as nat)
    }
}

/// How often the base wait is doubled after `failures` failures in a row:
/// once for each failure after the first.
pub open spec fn doublings(failures: u32) -> nat {
    if failures == 0 {
        0
    } else {
        (failures - 1) as nat
    }
}

/// The wait before the next attempt after `failures` transport failures in
/// a row: the base wait, doubled with each failure after the first, and
/// never more than the longest wait.
pub open spec fn backoff_ms(policy: RetryPolicy, failures: u32) -> nat {
    let grown = doubled(policy.base_backoff_ms as nat, doublings(failures));
    if grown < policy.max_backoff_ms {
        grown
    } else {
        policy.max_backoff_ms as nat
    }
}

/// One more failure, counted without wrapping.
pub open spec fn one_more(count: u32) -> u32 {
    if count < u32::MAX {
        (count + 1) as u32
    } else {
        count
    }
}

/// Whether a transaction built under `anchor` may still be sent.
pub open spec fn permits(m: ClientModel, anchor: Anchor) -> bool {
    !m.expired.contains(anchor)
}

/// The state with the counts of the current submission cleared.
pub open spec fn settled(m: ClientModel) -> ClientModel {
    ClientModel { anchor_failures: 0, transport_failures: 0, checking: false, ..m }
}

/// The state after an attempt of which nothing came back, and what the
/// caller has to do next: send again after a wait, unless too many attempts
/// have ended so.
pub open spec fn after_silence(m: ClientModel) -> (ClientModel, Directive) {
    let failures = one_more(m.transport_failures);
    if failures >= m.policy.max_transport_attempts {
        (settled(m), Directive::GiveUp(ClientError::Transport))
    } else {
        (
            ClientModel { transport_failures: failures, checking: false, ..m },
            Directive::Resend { wait_ms: backoff_ms(m.policy, failures) as u64 },
        )
    }
}

/// The state after `reply` came for a transaction with the given anchor and
/// identifier, and what the caller has to do next. A transaction that is
/// not confirmed in time has its status asked for once; if that is not
/// known either, the attempt counts as a transport failure.
pub open spec fn step(m: ClientModel, anchor: Anchor, id: Signature, reply: NetworkReply) -> (
    ClientModel,
    Directive,
) {
    match reply {
        NetworkReply::Confirmed => (settled(m), Directive::Done(id)),
        NetworkReply::Unconfirmed => if m.checking {
            after_silence(m)
        } else {
            (ClientModel { checking: true, ..m }, Directive::CheckStatus(id))
        },
        NetworkReply::AnchorExpired => {
            let failures = one_more(m.anchor_failures);
            let noted = ClientModel { expired: m.expired.push(anchor), checking: false, ..m };
            if failures >= m.policy.max_anchor_attempts {
                (settled(noted), Directive::GiveUp(ClientError::AnchorExpired))
            } else {
                (ClientModel { anchor_failures: failures, ..noted }, Directive::Rebuild)
            }
        },
        NetworkReply::InsufficientFunds { shortfall } => (
            settled(m),
            Directive::GiveUp(ClientError::InsufficientFunds { shortfall }),
        ),
        NetworkReply::TransportFailed => after_silence(m),
    }
}

/// Doubling more often never gives less.
pub proof fn lemma_doubled_grows(base: nat, fewer: nat, more: nat)
    requires
        fewer <= more,
    ensures
        doubled(base, fewer) <= doubled(base, more),
    decreases more,
{
    if fewer < more {
        lemma_doubled_grows(base, fewer, (more - 1) as nat);
    }
}

/// Once the network has reported the anchor of a transaction as expired,
/// that transaction is not permitted again.
pub proof fn lemma_expired_is_refused(m: ClientModel, anchor: Anchor, id: Signature)
    ensures
        !permits(step(m, anchor, id, NetworkReply::AnchorExpired).0, anchor),
{
    let after = step(m, anchor, id, NetworkReply::AnchorExpired).0;
    assert(after.expired[m.expired.len() as int] == anchor);
}

/// An anchor that is refused stays refused, whatever is reported later.
pub proof fn lemma_refusal_is_final(
    m: ClientModel,
    refused: Anchor,
    anchor: Anchor,
    id: Signature,
    reply: NetworkReply,
)
    requires
        !permits(m, refused),
    ensures
        !permits(step(m, anchor, id, reply).0, refused),
{
    let after = step(m, anchor, id, reply).0;
    let k = choose|k: int| 0 <= k < m.expired.len() && m.expired[k] == refused;
    assert(after.expired[k] == refused);
}

/// The status of an attempt is asked for once: when it is still unknown,
/// the client does not ask again.
pub proof fn lemma_status_is_asked_once(
    m: ClientModel,
    anchor: Anchor,
    id: Signature,
    next_anchor: Anchor,
    next_id: Signature,
)
    requires
        step(m, anchor, id, NetworkReply::Unconfirmed).1 is CheckStatus,
    ensures
        !(step(
            step(m, anchor, id, NetworkReply::Unconfirmed).0,
            next_anchor,
            next_id,
            NetworkReply::Unconfirmed,
        ).1 is CheckStatus),
{
}

/// Success is reported only for a transaction that the network confirmed,
/// and under that transaction's identifier.
pub proof fn lemma_done_means_confirmed(m: ClientModel, anchor: Anchor, id: Signature, reply: NetworkReply)
    ensures
        step(m, anchor, id, reply).1 is Done <==> reply is Confirmed,
        step(m, anchor, id, reply).1 is Done ==> step(m, anchor, id, reply).1 == Directive::Done(id),
{
}

impl RetryPolicy {
    /// Three attempts per anchor failure, five per transport failure,
    /// waits from half a second up to eight, and thirty seconds for a
    /// confirmation.
    pub fn recommended() -> (policy: RetryPolicy)
        ensures
            policy == (RetryPolicy {
                max_anchor_attempts: 3,
                max_transport_attempts: 5,
                base_backoff_ms: 500,
                max_backoff_ms: 8000,
                confirm_timeout_ms: 30000,
            }),
    {
        RetryPolicy {
            max_anchor_attempts: 3,
            max_transport_attempts: 5,
            base_backoff_ms: 500,
            max_backoff_ms: 8000,
            confirm_timeout_ms: 30000,
        }
    }

    /// The wait before the next attempt after `failures` transport failures in a row.
    pub fn backoff(&self, failures: u32) -> (wait_ms: u64)
        ensures
            wait_ms == backoff_ms(*self, failures),
    {
        let limit = self.max_backoff_ms;
        let mut wait: u64 = if self.base_backoff_ms < limit {
            self.base_backoff_ms
        } else {
            limit
        };
        let times: u32 = if failures == 0 {
            0
        } else {
            failures - 1
        };
        let mut k: u32 = 0;
        while k < times && wait < limit
            invariant
                k <= times,
                limit == self.max_backoff_ms,
                wait <= limit,
                wait < limit ==> wait == doubled(self.base_backoff_ms as nat, k as nat),
                wait == limit ==> doubled(self.base_backoff_ms as nat, k as nat) >= limit,
            decreases times - k,
        {
            if wait > limit / 2 {
                wait = limit;
            } else {
                wait = 2 * wait;
            }
            k += 1;
        }
        proof {
            lemma_doubled_grows(self.base_backoff_ms as nat, k as nat, times as nat);
        }
        wait
    }
}

/// Follows one submission after the other through their attempts.
pub struct SubmissionClient {
    policy: RetryPolicy,
    expired: Vec<Anchor>,
    anchor_failures: u32,
    transport_failures: u32,
    checking: bool,
}

impl View for SubmissionClient {
    type V = ClientModel;

    closed spec fn view(&self) -> ClientModel {
        ClientModel {
            policy: self.policy,
            expired: self.expired@,
            anchor_failures: self.anchor_failures,
            transport_failures: self.transport_failures,
            checking: self.checking,
        }
    }
}

impl SubmissionClient {
    /// A client that has seen nothing yet.
    pub fn new(policy: RetryPolicy) -> (client: SubmissionClient)
        ensures
            client@ == (ClientModel {
                policy,
                expired: Seq::empty(),
                anchor_failures: 0,
                transport_failures: 0,
                checking: false,
            }),
    {
        SubmissionClient {
            policy,
            expired: Vec::new(),
            anchor_failures: 0,
            transport_failures: 0,
            checking: false,
        }
    }

    /// The policy that the client follows.
    pub fn policy(&self) -> (policy: RetryPolicy)
        ensures
            policy == self@.policy,
    {
        self.policy
    }

    /// Whether `tx` may be sent. A transaction whose anchor the network has
    /// reported as expired is refused with `AnchorExpired`: it has to be
    /// built anew, not sent again.
    pub fn permit(&self, tx: &SignedTransaction) -> (r: Result<(), ClientError>)
        ensures
            r == (if permits(self@, tx@.unsigned.anchor) {
                Ok::<(), ClientError>(())
            } else {
                Err(ClientError::AnchorExpired)
            }),
    {
        let anchor = tx.anchor();
        let mut k: usize = 0;
        while k < self.expired.len()
            invariant
                k <= self.expired.len(),
                anchor == tx@.unsigned.anchor,
                forall|m: int| 0 <= m < k ==> self.expired@[m] != anchor,
            decreases self.expired.len() - k,
        {
            if self.expired[k].same(&anchor) {
                return Err(ClientError::AnchorExpired);
            }
            k += 1;
        }
        Ok(())
    }

    /// Takes note of what the network reported for `tx`, and says what to
    /// do next.
    pub fn record(&mut self, tx: &SignedTransaction, reply: NetworkReply) -> (next: Directive)
        ensures
            tx@.complete(),
            (final(self)@, next) == step(old(self)@, tx@.unsigned.anchor, tx@.signatures[0], reply),
    {
        let id = tx.id();
        match reply {
            NetworkReply::Confirmed => {
                self.settle();
                Directive::Done(id)
            },
            NetworkReply::Unconfirmed => {
                if self.checking {
                    self.record_silence()
                } else {
                    self.checking = true;
                    Directive::CheckStatus(id)
                }
            },
            NetworkReply::AnchorExpired => {
                self.expired.push(tx.anchor());
                self.checking = false;
                let failures = if self.anchor_failures < u32::MAX {
                    self.anchor_failures + 1
                } else {
                    self.anchor_failures
                };
                if failures >= self.policy.max_anchor_attempts {
                    self.settle();
                    Directive::GiveUp(ClientError::AnchorExpired)
                } else {
                    self.anchor_failures = failures;
                    Directive::Rebuild
                }
            },
            NetworkReply::InsufficientFunds { shortfall } => {
                self.settle();
                Directive::GiveUp(ClientError::InsufficientFunds { shortfall })
            },
            NetworkReply::TransportFailed => self.record_silence(),
        }
    }

    /// Clears the counts of the current submission.
    fn settle(&mut self)
        ensures
            final(self)@ == settled(old(self)@),
    {
        self.anchor_failures = 0;
        self.transport_failures = 0;
        self.checking = false;
    }

    /// Takes note of an attempt of which nothing came back.
    fn record_silence(&mut self) -> (next: Directive)
        ensures
            (final(self)@, next) == after_silence(old(self)@),
    {
        let failures = if self.transport_failures < u32::MAX {
            self.transport_failures + 1
        } else {
            self.transport_failures
        };
        if failures >= self.policy.max_transport_attempts {
            self.settle();
            Directive::GiveUp(ClientError::Transport)
        } else {
            self.transport_failures = failures;
            self.checking = false;
            Directive::Resend { wait_ms: self.policy.backoff(failures) }
        }
    }
}

} // verus!
