//! What the library takes from elsewhere: the clock of the standard library,
//! Tokio's channels, and the cancellation tokens of `tokio-util`.
//!
//! What the contracts of these items say is believed, not proved. Channels and
//! tokens are shared between tasks, so what a call on one returns depends on what
//! other tasks did in the meantime; the contracts say only what holds of every
//! outcome. To say which call was made, with which arguments, and what came back,
//! the rest of the library uses the predicates below that are stated with
//! `call_ensures`. Nothing is claimed of when they hold, so a function can promise
//! one only by making the call.

use std::sync::Arc;
use std::time::{Duration, Instant};
use tokio::sync::{broadcast, mpsc, oneshot};
use tokio_util::sync::CancellationToken;
use vstd::prelude::*;

verus! {

// ---------------------------------------------------------------------------
// Clock
// ---------------------------------------------------------------------------

/// A reading of the monotonic clock. Opaque.
#[verifier::external_type_specification]
#[verifier::external_body]
pub struct ExInstant(Instant);

/// `Instant::now`: the current reading of the clock. Nothing is claimed of it.
pub assume_specification[ Instant::now ]() -> Instant;

/// `Instant::elapsed`: the time that has passed since `earlier`. Nothing is
/// claimed of it: it depends on the clock.
pub assume_specification[ Instant::elapsed ](earlier: &Instant) -> Duration;

/// The length of a duration in nanoseconds.
pub uninterp spec fn nanos(d: Duration) -> u128;

/// `Duration::as_nanos`: the length of the duration in nanoseconds. A duration
/// holds at most `u64::MAX` seconds and 999 999 999 nanoseconds, so the result
/// never exceeds that many nanoseconds.
pub assume_specification[ Duration::as_nanos ](d: &Duration) -> (n: u128)
    ensures
        n == nanos(*d),
        n <= 18_446_744_073_709_551_615_999_999_999,
;

/// `Duration::new`: the duration of so many seconds and nanoseconds. With a full
/// second of nanoseconds or more it would carry over, and might overflow.
pub assume_specification[ Duration::new ](secs: u64, subsec: u32) -> (d: Duration)
    requires
        subsec < 1_000_000_000,
    ensures
        nanos(d) == secs * 1_000_000_000 + subsec,
;

/// `t` is what the clock read.
pub open spec fn clock_read(t: Instant) -> bool {
    call_ensures(Instant::now, (), t)
}

/// The clock read that `d` had passed since `earlier`.
pub open spec fn elapsed_read(earlier: Instant, d: Duration) -> bool {
    call_ensures(Instant::elapsed, (&earlier,), d)
}

// ---------------------------------------------------------------------------
// Shared text
// ---------------------------------------------------------------------------

/// `<Arc<str> as From<&str>>::from`: a shared copy of the text.
#[verifier::external_body]
pub(crate) fn shared_text(s: &str) -> (r: Arc<str>)
    ensures
        r@ == s@,
{
    Arc::from(s)
}

/// What `{:?}` prints for the text `s`: the text between double quotes, with
/// quotes, backslashes and unprintable characters escaped.
pub uninterp spec fn quoted(s: Seq<char>) -> Seq<char>;

/// `<str as Debug>::fmt`, through `format!`: the quoted form of the text.
#[verifier::external_body]
pub(crate) fn quote(s: &str) -> (r: String)
    ensures
        r@ == quoted(s@),
{
    format!("{:?}", s)
}

// ---------------------------------------------------------------------------
// Cancellation tokens
// ---------------------------------------------------------------------------

/// A cancellation token. Opaque; two tokens are equal when they are clones of
/// one another, so that cancelling either cancels both.
#[verifier::external_type_specification]
#[verifier::external_body]
pub struct ExCancellationToken(CancellationToken);

/// `CancellationToken::new`: a token of its own, which has not been cancelled.
/// Nothing is claimed of it.
pub assume_specification[ CancellationToken::new ]() -> CancellationToken;

/// `CancellationToken::child_token`: a token that is cancelled whenever `t` is,
/// and at once if `t` is cancelled already. Nothing is claimed of it here; see
/// [`child_of`].
pub assume_specification[ CancellationToken::child_token ](t: &CancellationToken) ->
    CancellationToken;

/// `<CancellationToken as Clone>::clone`: another handle on the same token, so that
/// cancelling either cancels both. Not so a token that it was made from as a child:
/// that one is older and was not derived from it, so cancelling this one does not
/// cancel that one.
pub assume_specification[ <CancellationToken as Clone>::clone ](t: &CancellationToken) -> (c:
    CancellationToken)
    ensures
        c == *t,
        crate::cascade::spares_its_parent(c),
;

/// `CancellationToken::cancel`: cancels the token and every token derived from
/// it. Nothing can be claimed of it here: the token is shared.
pub assume_specification[ CancellationToken::cancel ](t: &CancellationToken);

/// `CancellationToken::is_cancelled`: whether the token has been cancelled by
/// now. It has been only if somebody cancelled it, or a token that it was derived
/// from. The other direction is left open: any holder may cancel at any time.
pub assume_specification[ CancellationToken::is_cancelled ](t: &CancellationToken) -> (yes: bool)
    ensures
        yes ==> crate::cascade::told_to_stop(*t),
;

/// The token was made on its own: only cancelling it cancels it.
pub open spec fn independent(t: CancellationToken) -> bool {
    call_ensures(CancellationToken::new, (), t)
}

/// The token was made as a child of `parent`: cancelling `parent` cancels it too.
pub open spec fn child_of(t: CancellationToken, parent: CancellationToken) -> bool {
    call_ensures(CancellationToken::child_token, (&parent,), t)
}

/// The token was cancelled by a call of `cancel`.
pub open spec fn cancelled(t: CancellationToken) -> bool {
    call_ensures(CancellationToken::cancel, (&t,), ())
}

/// The token was asked whether it had been cancelled, and the answer was `yes`.
pub open spec fn cancel_read(t: CancellationToken, yes: bool) -> bool {
    call_ensures(CancellationToken::is_cancelled, (&t,), yes)
}

// ---------------------------------------------------------------------------
// Mailboxes
// ---------------------------------------------------------------------------

/// The sending half of a mailbox. Opaque; two senders are equal when they feed
/// the same mailbox.
#[verifier::external_type_specification]
#[verifier::external_body]
#[verifier::reject_recursive_types(T)]
pub struct ExMpscSender<T>(mpsc::Sender<T>);

/// The receiving half of a mailbox. Opaque.
#[verifier::external_type_specification]
#[verifier::external_body]
#[verifier::reject_recursive_types(T)]
pub struct ExMpscReceiver<T>(mpsc::Receiver<T>);

/// `mpsc::channel`: an empty mailbox for up to `buffer` messages. It panics
/// without a buffer, and on one beyond what its semaphore can count.
pub assume_specification<T>[ mpsc::channel::<T> ](buffer: usize) -> (
    mpsc::Sender<T>,
    mpsc::Receiver<T>,
)
    requires
        0 < buffer <= usize::MAX / 8,
;

/// `<mpsc::Sender as Clone>::clone`: another sender for the same mailbox.
pub assume_specification<T>[ <mpsc::Sender<T> as Clone>::clone ](s: &mpsc::Sender<T>) -> (c:
    mpsc::Sender<T>)
    ensures
        c == *s,
;

/// `mpsc::Sender::capacity`: free places in the mailbox at the moment. Nothing
/// is claimed of it: other tasks send and receive meanwhile.
pub assume_specification<T>[ mpsc::Sender::<T>::capacity ](s: &mpsc::Sender<T>) -> usize;

/// `mpsc::Sender::max_capacity`: the number of places that the mailbox was made
/// with.
pub assume_specification<T>[ mpsc::Sender::<T>::max_capacity ](s: &mpsc::Sender<T>) -> (n: usize)
    ensures
        forall|buffer: usize, rx: mpsc::Receiver<T>| #[trigger]
            opened(buffer, *s, rx) ==> n == buffer,
;

/// A sender that does not keep the mailbox open. Opaque.
#[verifier::external_type_specification]
#[verifier::external_body]
#[verifier::reject_recursive_types(T)]
pub struct ExMpscWeakSender<T>(mpsc::WeakSender<T>);

/// `mpsc::Sender::downgrade`: a sender for the same mailbox that does not keep it
/// open. Nothing is claimed of it here; see [`downgraded`].
pub assume_specification<T>[ mpsc::Sender::<T>::downgrade ](s: &mpsc::Sender<T>) ->
    mpsc::WeakSender<T>;

/// `mpsc::WeakSender::upgrade`: a sender for the same mailbox, or `None` if no
/// other sender keeps it open any more. Which of the two, other tasks decide.
pub assume_specification<T>[ mpsc::WeakSender::<T>::upgrade ](w: &mpsc::WeakSender<T>) -> (r:
    Option<mpsc::Sender<T>>)
    ensures
        forall|s: mpsc::Sender<T>| #[trigger]
            downgraded(s, *w) ==> (r matches Some(tx) ==> tx == s),
;

/// The weak sender was made from `s`.
pub open spec fn downgraded<T>(s: mpsc::Sender<T>, w: mpsc::WeakSender<T>) -> bool {
    call_ensures(mpsc::Sender::<T>::downgrade, (&s,), w)
}

/// Upgrading the weak sender gave this.
pub open spec fn upgraded<T>(w: mpsc::WeakSender<T>, r: Option<mpsc::Sender<T>>) -> bool {
    call_ensures(mpsc::WeakSender::<T>::upgrade, (&w,), r)
}

/// The mailbox behind `tx` and `rx` was made for up to `buffer` messages.
pub open spec fn opened<T>(buffer: usize, tx: mpsc::Sender<T>, rx: mpsc::Receiver<T>) -> bool {
    call_ensures(mpsc::channel::<T>, (buffer,), (tx, rx))
}

/// The mailbox was seen to have `max` places, `free` of them free.
pub open spec fn room_read<T>(s: mpsc::Sender<T>, max: usize, free: usize) -> bool {
    &&& call_ensures(mpsc::Sender::<T>::max_capacity, (&s,), max)
    &&& call_ensures(mpsc::Sender::<T>::capacity, (&s,), free)
}

/// Why a mailbox did not take a message; the message comes back.
pub enum SendFailure<T> {
    /// The mailbox is full.
    Full(T),
    /// The receiving half is closed or gone.
    Closed(T),
}

/// `mpsc::Sender::try_send`: put a message into the mailbox without waiting.
/// Whether it is taken depends on the mailbox; a refused message is handed back.
#[verifier::external_body]
fn try_send<T>(s: &mpsc::Sender<T>, msg: T) -> (r: Result<(), SendFailure<T>>)
    ensures
        r matches Err(SendFailure::Full(back)) ==> back == msg,
        r matches Err(SendFailure::Closed(back)) ==> back == msg,
{
    match s.try_send(msg) {
        Ok(()) => Ok(()),
        Err(mpsc::error::TrySendError::Full(back)) => Err(SendFailure::Full(back)),
        Err(mpsc::error::TrySendError::Closed(back)) => Err(SendFailure::Closed(back)),
    }
}

/// The message was offered to the mailbox, which gave this answer.
pub closed spec fn offered<T>(
    s: mpsc::Sender<T>,
    msg: T,
    answer: Result<(), SendFailure<T>>,
) -> bool {
    call_ensures(try_send::<T>, (&s, msg), answer)
}

/// Offer a message to a mailbox without waiting for room.
pub(crate) fn offer<T>(s: &mpsc::Sender<T>, msg: T) -> (answer: Result<(), SendFailure<T>>)
    ensures
        offered(*s, msg, answer),
        answer matches Err(SendFailure::Full(back)) ==> back == msg,
        answer matches Err(SendFailure::Closed(back)) ==> back == msg,
{
    try_send(s, msg)
}

// ---------------------------------------------------------------------------
// Replies
// ---------------------------------------------------------------------------

/// The sending half of a channel for one reply. Opaque.
#[verifier::external_type_specification]
#[verifier::external_body]
#[verifier::reject_recursive_types(T)]
pub struct ExOneshotSender<T>(oneshot::Sender<T>);

/// `oneshot::Sender::send`: deliver the reply. If nobody waits for it any more,
/// it is handed back.
pub assume_specification<T>[ oneshot::Sender::<T>::send ](s: oneshot::Sender<T>, reply: T) -> (r:
    Result<(), T>)
    ensures
        r matches Err(back) ==> back == reply,
;

/// The reply was sent.
pub open spec fn replied<T>(s: oneshot::Sender<T>, reply: T) -> bool {
    exists|r: Result<(), T>| #[trigger]
        call_ensures(oneshot::Sender::<T>::send, (s, reply), r)
}

// ---------------------------------------------------------------------------
// Event stream
// ---------------------------------------------------------------------------

/// The sending half of a broadcast channel. Opaque.
#[verifier::external_type_specification]
#[verifier::external_body]
#[verifier::reject_recursive_types(T)]
pub struct ExBroadcastSender<T>(broadcast::Sender<T>);

/// A subscription to a broadcast channel. Opaque.
#[verifier::external_type_specification]
#[verifier::external_body]
#[verifier::reject_recursive_types(T)]
pub struct ExBroadcastReceiver<T>(broadcast::Receiver<T>);

/// `broadcast::channel`: a channel that keeps up to `capacity` values for slow
/// subscribers. It panics without a capacity, and on one beyond half the address
/// space.
pub assume_specification<T: Clone>[ broadcast::channel::<T> ](capacity: usize) -> (
    broadcast::Sender<T>,
    broadcast::Receiver<T>,
)
    requires
        0 < capacity <= usize::MAX / 2,
;

/// `broadcast::Sender::subscribe`: a subscription to what is sent from now on. It
/// panics only if there are `usize::MAX / 4` subscriptions already, more than fit
/// into memory.
pub assume_specification<T>[ broadcast::Sender::<T>::subscribe ](s: &broadcast::Sender<T>) ->
    broadcast::Receiver<T>;

/// `broadcast::Sender::send`: hand `value` to every subscriber. The result
/// counts them; without any, the value is handed back.
#[verifier::external_body]
fn broadcast_send<T>(s: &broadcast::Sender<T>, value: T) -> (r: Result<usize, T>)
    ensures
        r matches Ok(subscribers) ==> subscribers > 0,
        r matches Err(back) ==> back == value,
{
    match s.send(value) {
        Ok(subscribers) => Ok(subscribers),
        Err(broadcast::error::SendError(back)) => Err(back),
    }
}

/// The subscription was taken out with this sender.
pub open spec fn subscribed<T>(s: broadcast::Sender<T>, rx: broadcast::Receiver<T>) -> bool {
    call_ensures(broadcast::Sender::<T>::subscribe, (&s,), rx)
}

/// The value was handed to every subscriber.
pub closed spec fn published<T>(s: broadcast::Sender<T>, value: T) -> bool {
    exists|r: Result<usize, T>| #[trigger] call_ensures(broadcast_send::<T>, (&s, value), r)
}

/// Hand `value` to every subscriber; that there is none is no error.
pub(crate) fn publish<T>(s: &broadcast::Sender<T>, value: T)
    ensures
        published(*s, value),
{
    let _ = broadcast_send(s, value);
}

/// What is said to have been done to a token was done by the call for it.
pub proof fn law_token_evidence(t: CancellationToken, parent: CancellationToken, yes: bool)
    ensures
        independent(t) ==> call_ensures(CancellationToken::new, (), t),
        child_of(t, parent) ==> call_ensures(CancellationToken::child_token, (&parent,), t),
        cancelled(t) ==> call_ensures(CancellationToken::cancel, (&t,), ()),
        cancel_read(t, yes) ==> call_ensures(CancellationToken::is_cancelled, (&t,), yes),
{
}

/// What is said to have been done to a mailbox was done by the calls for it.
pub proof fn law_mailbox_evidence<T>(
    s: mpsc::Sender<T>,
    rx: mpsc::Receiver<T>,
    w: mpsc::WeakSender<T>,
    up: Option<mpsc::Sender<T>>,
    a: usize,
    b: usize,
)
    ensures
        opened(a, s, rx) ==> call_ensures(mpsc::channel::<T>, (a,), (s, rx)),
        room_read(s, a, b) ==> call_ensures(mpsc::Sender::<T>::max_capacity, (&s,), a)
            && call_ensures(mpsc::Sender::<T>::capacity, (&s,), b),
        downgraded(s, w) ==> call_ensures(mpsc::Sender::<T>::downgrade, (&s,), w),
        upgraded(w, up) ==> call_ensures(mpsc::WeakSender::<T>::upgrade, (&w,), up),
{
}

/// What is said to have been sent as a reply or an event was sent by the call for it.
pub proof fn law_sending_evidence<T>(
    reply: oneshot::Sender<T>,
    events: broadcast::Sender<T>,
    rx: broadcast::Receiver<T>,
    value: T,
)
    ensures
        replied(reply, value) ==> exists|r: Result<(), T>| #[trigger]
            call_ensures(oneshot::Sender::<T>::send, (reply, value), r),
        subscribed(events, rx) ==> call_ensures(
            broadcast::Sender::<T>::subscribe,
            (&events,),
            rx,
        ),
{
}

/// A message that was offered was handed to `try_send`, and an event that was
/// published to `send`.
proof fn law_handing_over_evidence<T>(
    s: mpsc::Sender<T>,
    msg: T,
    answer: Result<(), SendFailure<T>>,
    events: broadcast::Sender<T>,
    value: T,
)
    ensures
        offered(s, msg, answer) ==> call_ensures(try_send::<T>, (&s, msg), answer),
        published(events, value) ==> exists|r: Result<usize, T>| #[trigger]
            call_ensures(broadcast_send::<T>, (&events, value), r),
{
}

/// What is said to have been read off the clock was read by the call for it.
pub proof fn law_clock_evidence(t: Instant, d: Duration)
    ensures
        clock_read(t) ==> call_ensures(Instant::now, (), t),
        elapsed_read(t, d) ==> call_ensures(Instant::elapsed, (&t,), d),
{
}

} // verus!
