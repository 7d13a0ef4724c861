use vstd::prelude::*;
use crate::command::Response;

verus! {

/// The sending half of a single-use reply channel, as the manager sees it.
/// At most one value is ever sent — sending consumes the half — and the
/// caller holding the receiving half may already have given up and dropped
/// it, in which case the send delivers nowhere. `live` models whether the
/// receiving half still exists.
pub struct Responder {
    live: bool,
}

impl Responder {
    /// Whether the receiving half is still waiting for its one value.
    pub closed spec fn is_live(&self) -> bool {
        self.live
    }

    /// The sending half of a reply channel whose caller still waits.
    pub fn to_waiting_caller() -> (r: Responder)
        ensures
            r.is_live(),
    {
        Responder { live: true }
    }

    /// The sending half of a reply channel whose caller has dropped the
    /// receiving half: a valid cancellation, not an error.
    pub fn to_departed_caller() -> (r: Responder)
        ensures
            !r.is_live(),
    {
        Responder { live: false }
    }

    /// Deliver the one value. It reaches the caller exactly when the
    /// receiving half still exists; otherwise nothing is delivered — and
    /// that outcome is silently discarded by the consumer of this result,
    /// never treated as fatal.
    pub fn send(self, result: Response) -> (delivered: Option<Response>)
        ensures
            self.is_live() ==> delivered == Some(result),
            !self.is_live() ==> delivered is None,
    {
        if self.live {
            Some(result)
        } else {
            None
        }
    }
}

#[verifier::external_type_specification]
#[verifier::external_body]
#[verifier::reject_recursive_types(T)]
pub struct ExOneshotSender<T>(tokio::sync::oneshot::Sender<T>);

/// Relies on tokio::sync::oneshot::Sender::send: it consumes the sender (so
/// a second send cannot be written), never waits, and hands the value to
/// the receiving half unless that half is already gone, in which case the
/// very value comes back in `Err`.
pub assume_specification<T>[ tokio::sync::oneshot::Sender::<T>::send ](
    sender: tokio::sync::oneshot::Sender<T>,
    value: T,
) -> (r: Result<(), T>)
    ensures
        r matches Err(v) ==> v == value,
;

/// Route one result back to its caller over the real reply channel. A
/// failed send means the caller already dropped its receiving half: the
/// result is discarded, the manager carries on. Whether the value was
/// delivered depends on that remote half, so nothing more is promised of
/// the returned flag.
pub fn deliver_reply(resp: tokio::sync::oneshot::Sender<Response>, result: Response) -> (delivered:
    bool)
{
    match resp.send(result) {
        Ok(()) => true,
        Err(_) => false,
    }
}

} // verus!
