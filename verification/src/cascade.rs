//! Who stops with whom: cancelling a token cancels every token derived from it.

use tokio_util::sync::CancellationToken;
use vstd::prelude::*;

use crate::id::ActorId;
use crate::tree::{Node, Tree};

verus! {

/// `t` was derived from `source` in `n` steps from a child to its parent.
pub open spec fn derived_in(t: CancellationToken, source: CancellationToken, n: nat) -> bool
    decreases n,
{
    if n == 0 {
        t == source
    } else {
        exists|p: CancellationToken| #[trigger]
            crate::outside::child_of(t, p) && derived_in(p, source, (n - 1) as nat)
    }
}

/// `t` is `source`, or was derived from it in one or more steps. Cancelling
/// `source` then cancels `t`.
pub open spec fn stops_with(t: CancellationToken, source: CancellationToken) -> bool {
    exists|n: nat| #[trigger] derived_in(t, source, n)
}

/// The token was derived from no token that was derived from it in turn: what
/// cancels it leaves the token that it was made from alone.
pub open spec fn spares_its_parent(t: CancellationToken) -> bool {
    forall|p: CancellationToken| #[trigger] crate::outside::child_of(t, p) ==> !stops_with(p, t)
}

/// A token stops with itself.
pub proof fn lemma_stops_with_itself(t: CancellationToken)
    ensures
        stops_with(t, t),
{
    assert(derived_in(t, t, 0));
}

/// A child of `parent` stops with whatever `parent` stops with.
pub proof fn lemma_child_stops_with(
    child: CancellationToken,
    parent: CancellationToken,
    source: CancellationToken,
)
    requires
        crate::outside::child_of(child, parent),
        stops_with(parent, source),
    ensures
        stops_with(child, source),
{
    let n = choose|n: nat| #[trigger] derived_in(parent, source, n);
    assert(derived_in(child, source, n + 1));
}

/// A token that `t` stops with was cancelled.
pub open spec fn told_to_stop(t: CancellationToken) -> bool {
    exists|source: CancellationToken| #[trigger]
        crate::outside::cancelled(source) && stops_with(t, source)
}

/// The cascade: once a token is told to stop, so is every token that stops with
/// it.
pub proof fn law_cascade_reaches_everybody_below(t: CancellationToken, above: CancellationToken)
    requires
        stops_with(t, above),
        told_to_stop(above),
    ensures
        told_to_stop(t),
{
    let source = choose|source: CancellationToken| #[trigger]
        crate::outside::cancelled(source) && stops_with(above, source);
    law_cascade_is_transitive(t, above, source);
}

/// Somebody cancelled a token that `t` stops with, and that token is neither `below`
/// nor derived from it.
pub open spec fn told_to_stop_apart_from(t: CancellationToken, below: CancellationToken) -> bool {
    exists|source: CancellationToken| #[trigger]
        crate::outside::cancelled(source) && stops_with(t, source) && !stops_with(source, below)
}

/// A token is found cancelled only if it was told to stop.
pub proof fn law_dead_only_if_told_to_stop(t: CancellationToken)
    requires
        crate::outside::cancel_read(t, true),
    ensures
        told_to_stop(t),
{
}

/// The cascade runs one way: whatever is cancelled below a child does not reach the
/// token `above`, with which the token that the child was made from stops.
pub proof fn law_children_spare_those_above(
    child: CancellationToken,
    parent: CancellationToken,
    above: CancellationToken,
)
    requires
        crate::outside::child_of(child, parent),
        spares_its_parent(child),
        stops_with(parent, above),
    ensures
        forall|t: CancellationToken| #[trigger]
            stops_with(t, child) ==> !stops_with(above, t),
        told_to_stop(above) ==> told_to_stop_apart_from(above, child),
{
    assert forall|t: CancellationToken| #[trigger] stops_with(t, child) implies !stops_with(
        above,
        t,
    ) by {
        if stops_with(above, t) {
            law_cascade_is_transitive(parent, above, t);
            law_cascade_is_transitive(parent, t, child);
        }
    }
    if told_to_stop(above) {
        let source = choose|source: CancellationToken| #[trigger]
            crate::outside::cancelled(source) && stops_with(above, source);
        assert(!stops_with(source, child));
    }
}

/// Every actor of the tree stops with `source`.
pub open spec fn all_stop_with(t: Tree, source: CancellationToken) -> bool {
    forall|id: ActorId| #[trigger] t.contains_key(id) ==> stops_with(t[id].token, source)
}

/// The cascade: cancelling a token stops whatever stops with a token that stops
/// with it.
pub proof fn law_cascade_is_transitive(
    a: CancellationToken,
    b: CancellationToken,
    c: CancellationToken,
)
    requires
        stops_with(a, b),
        stops_with(b, c),
    ensures
        stops_with(a, c),
{
    let n = choose|n: nat| #[trigger] derived_in(a, b, n);
    let m = choose|m: nat| #[trigger] derived_in(b, c, m);
    lemma_steps_add(a, b, c, n, m);
}

proof fn lemma_steps_add(
    a: CancellationToken,
    b: CancellationToken,
    c: CancellationToken,
    n: nat,
    m: nat,
)
    requires
        derived_in(a, b, n),
        derived_in(b, c, m),
    ensures
        derived_in(a, c, n + m),
    decreases n,
{
    if n > 0 {
        let p = choose|p: CancellationToken| #[trigger]
            crate::outside::child_of(a, p) && derived_in(p, b, (n - 1) as nat);
        lemma_steps_add(p, b, c, (n - 1) as nat, m);
        assert((n + m - 1) as nat == (n - 1) as nat + m);
    }
}

/// Children stop with their parents: the token of every registered actor stops
/// with that of its parent, as long as the parent is registered.
pub open spec fn cascades(t: Tree) -> bool {
    forall|id: ActorId| #[trigger] t.contains_key(id) ==> stops_with_parent(t, t[id])
}

/// The actor stops with its parent in the tree, if it has one there.
pub open spec fn stops_with_parent(t: Tree, node: Node) -> bool {
    node.parent matches Some(p) ==> t.contains_key(p) ==> stops_with(node.token, t[p].token)
}

/// An actor whose token was derived from that of its parent enters the cascade.
pub proof fn law_register_keeps_cascade(t: Tree, id: ActorId, node: Node)
    requires
        cascades(t),
        crate::tree::unknown(t, id),
        crate::tree::fits(id, node),
        stops_with_parent(t, node),
    ensures
        cascades(crate::tree::registered(t, id, node)),
{
    let after = crate::tree::registered(t, id, node);
    assert forall|other: ActorId| #[trigger] after.contains_key(other) implies stops_with_parent(
        after,
        after[other],
    ) by {
        if other == id {
            assert(node.parent != Some(id));
        } else {
            assert(t.contains_key(other));
        }
    }
}

/// Taking an actor out leaves the cascade among the others as it is.
pub proof fn law_deregister_keeps_cascade(t: Tree, id: ActorId)
    requires
        cascades(t),
    ensures
        cascades(crate::tree::deregistered(t, id)),
{
    let after = crate::tree::deregistered(t, id);
    assert forall|other: ActorId| #[trigger] after.contains_key(other) implies stops_with_parent(
        after,
        after[other],
    ) by {
        assert(t.contains_key(other));
    }
}

/// A restart leaves the cascade as it is: the actor keeps its token.
pub proof fn law_restart_keeps_cascade(t: Tree, id: ActorId, n: u32)
    requires
        cascades(t),
    ensures
        cascades(crate::tree::restarted(t, id, n)),
{
    let after = crate::tree::restarted(t, id, n);
    assert forall|other: ActorId| #[trigger] after.contains_key(other) implies stops_with_parent(
        after,
        after[other],
    ) by {
        assert(t.contains_key(other));
    }
}

/// The cascade reaches all descendants: an actor stops with every registered
/// actor in its parent chain.
pub proof fn law_descendants_stop_with_their_ancestors(t: Tree, id: ActorId, i: int)
    requires
        crate::tree::ordered(t),
        cascades(t),
        t.contains_key(id),
        0 <= i < crate::tree::ancestry_of(t, id).len(),
        t.contains_key(crate::tree::ancestry_of(t, id)[i]),
    ensures
        stops_with(t[id].token, t[crate::tree::ancestry_of(t, id)[i]].token),
    decreases id@,
{
    let chain = crate::tree::ancestry_of(t, id);
    let p = t[id].parent->0;
    let above = crate::tree::ancestry_of(t, p);
    assert(chain == seq![p] + above);
    if i > 0 {
        assert(chain[i] == above[i - 1]);
        law_descendants_stop_with_their_ancestors(t, p, i - 1);
        law_cascade_is_transitive(t[id].token, t[p].token, t[chain[i]].token);
    }
}

} // verus!
