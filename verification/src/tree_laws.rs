//! What every operation on the supervision tree keeps, and what a picture of
//! the tree shows.

use vstd::prelude::*;

use crate::id::ActorId;
use crate::status::ActorNode;
use crate::tree::{Node, Tree};

verus! {

broadcast use crate::id::lemma_id_is_its_number;

// ---------------------------------------------------------------------------
// Order
// ---------------------------------------------------------------------------

/// Registering a younger actor keeps parents older than their children.
pub proof fn law_register_keeps_order(t: Tree, id: ActorId, node: Node)
    requires
        crate::tree::ordered(t),
        crate::tree::fits(id, node),
    ensures
        crate::tree::ordered(crate::tree::registered(t, id, node)),
{
    let r = crate::tree::registered(t, id, node);
    assert forall|a: ActorId, i: int|
        r.contains_key(a) && 0 <= i < r[a].children.len() implies a@ < (
    #[trigger] r[a].children[i])@ by {
        if a != id && t.contains_key(a) {
            if i < t[a].children.len() {
                assert(r[a].children[i] == t[a].children[i]);
            }
        }
    }
}

proof fn lemma_without(ids: Seq<ActorId>, id: ActorId)
    ensures
        forall|c: ActorId| #[trigger]
            crate::tree::without(ids, id).contains(c) <==> ids.contains(c) && c != id,
        ids.no_duplicates() ==> crate::tree::without(ids, id).no_duplicates(),
        !ids.contains(id) ==> crate::tree::without(ids, id) == ids,
    decreases ids.len(),
{
    reveal(Seq::filter);
    if ids.len() > 0 {
        let front = ids.drop_last();
        lemma_without(front, id);
        let kept = crate::tree::without(front, id);
        assert forall|c: ActorId| #[trigger] ids.contains(c) <==> front.contains(c) || c
            == ids.last() by {
            if front.contains(c) {
                assert(ids[front.index_of(c)] == c);
            }
            if c == ids.last() {
                assert(ids[ids.len() - 1] == c);
            }
            if ids.contains(c) && c != ids.last() {
                assert(front[ids.index_of(c)] == c);
            }
        }
        if ids.last() != id {
            assert(crate::tree::without(ids, id) == kept.push(ids.last()));
            assert forall|c: ActorId| #[trigger]
                kept.push(ids.last()).contains(c) <==> kept.contains(c) || c == ids.last() by {
                if kept.contains(c) {
                    assert(kept.push(ids.last())[kept.index_of(c)] == c);
                }
                if c == ids.last() {
                    assert(kept.push(ids.last())[kept.len() as int] == c);
                }
            }
        }
        if ids.no_duplicates() {
            assert(front.no_duplicates());
            if front.contains(ids.last()) {
                assert(ids[front.index_of(ids.last())] == ids[ids.len() - 1]);
            }
            assert(!kept.contains(ids.last()));
            assert(kept.push(ids.last()).no_duplicates());
        }
        if !ids.contains(id) {
            assert(ids.last() != id);
            assert(front.push(ids.last()) =~= ids);
        }
    }
}

/// Taking an actor out keeps parents older than their children.
pub proof fn law_deregister_keeps_order(t: Tree, id: ActorId)
    requires
        crate::tree::ordered(t),
    ensures
        crate::tree::ordered(crate::tree::deregistered(t, id)),
{
    let r = crate::tree::deregistered(t, id);
    assert forall|a: ActorId, i: int|
        r.contains_key(a) && 0 <= i < r[a].children.len() implies a@ < (
    #[trigger] r[a].children[i])@ by {
        lemma_without(t[a].children, id);
        let c = r[a].children[i];
        assert(r[a].children.contains(c));
        assert(t[a].children.contains(c));
        assert(t[a].children[t[a].children.index_of(c)] == c);
    }
}

// ---------------------------------------------------------------------------
// Links
// ---------------------------------------------------------------------------

/// Registering an actor that the tree does not know keeps parent links and
/// child lists in agreement.
pub proof fn law_register_keeps_links(t: Tree, id: ActorId, node: Node)
    requires
        crate::tree::linked(t),
        crate::tree::unknown(t, id),
        node.children.len() == 0,
        node.parent != Some(id),
    ensures
        crate::tree::linked(crate::tree::registered(t, id, node)),
{
    let r = crate::tree::registered(t, id, node);
    assert forall|a: ActorId| #[trigger] r.contains_key(a) implies r[a].children.no_duplicates() by {
        if a != id {
            assert(t[a].children.contains(id) ==> t.contains_key(id));
            assert(!t[a].children.contains(id));
        }
    }
    assert forall|a: ActorId, c: ActorId| r.contains_key(a) implies (#[trigger] r[a].children.contains(
        c,
    ) <==> r.contains_key(c) && r[c].parent == Some(a)) by {
        if a == id {
            assert(r[a].children =~= seq![]);
            if r.contains_key(c) && r[c].parent == Some(id) {
                assert(t.contains_key(c));
            }
        } else {
            assert(t[a].children.contains(c) <==> t.contains_key(c) && t[c].parent == Some(a));
            if node.parent == Some(a) {
                let longer = t[a].children.push(id);
                assert(r[a].children == longer);
                if t[a].children.contains(c) {
                    assert(longer[t[a].children.index_of(c)] == c);
                }
                assert(longer[t[a].children.len() as int] == id);
            }
        }
    }
}

/// Taking an actor out keeps parent links and child lists in agreement.
pub proof fn law_deregister_keeps_links(t: Tree, id: ActorId)
    requires
        crate::tree::linked(t),
    ensures
        crate::tree::linked(crate::tree::deregistered(t, id)),
{
    let r = crate::tree::deregistered(t, id);
    if t.contains_key(id) {
        assert forall|a: ActorId| #[trigger] r.contains_key(a) implies r[a].children.no_duplicates() by {
            lemma_without(t[a].children, id);
        }
        assert forall|a: ActorId, c: ActorId| r.contains_key(a) implies (
        #[trigger] r[a].children.contains(c) <==> r.contains_key(c) && r[c].parent == Some(a)) by {
            lemma_without(t[a].children, id);
            assert(t[a].children.contains(c) <==> t.contains_key(c) && t[c].parent == Some(a));
        }
    }
}

/// No zombies: an actor that has been taken out is neither registered nor
/// listed as anybody's child.
pub proof fn law_no_zombie(t: Tree, id: ActorId)
    requires
        crate::tree::linked(t),
    ensures
        !crate::tree::deregistered(t, id).contains_key(id),
        forall|a: ActorId| #[trigger]
            crate::tree::deregistered(t, id).contains_key(a)
                ==> !crate::tree::deregistered(t, id)[a].children.contains(id),
{
    law_deregister_keeps_links(t, id);
    let r = crate::tree::deregistered(t, id);
    assert forall|a: ActorId| #[trigger] r.contains_key(a) implies !r[a].children.contains(id) by {
        assert(r[a].children.contains(id) ==> r.contains_key(id));
    }
}

/// Taking out an actor that has just been registered restores the tree, provided
/// that the tree neither held nor listed it before.
pub proof fn law_deregister_undoes_register(t: Tree, id: ActorId, node: Node)
    requires
        !t.contains_key(id),
        forall|a: ActorId| #[trigger] t.contains_key(a) ==> !t[a].children.contains(id),
    ensures
        crate::tree::deregistered(crate::tree::registered(t, id, node), id) == t,
{
    let r = crate::tree::registered(t, id, node);
    let back = crate::tree::deregistered(r, id);
    if let Some(p) = node.parent {
        if t.contains_key(p) {
            lemma_without(t[p].children, id);
            reveal(Seq::filter);
            assert(t[p].children.push(id).drop_last() =~= t[p].children);
            assert(back[p].children == t[p].children);
        }
    }
    assert(back =~= t);
}

/// Registering links parent and child: the parent lists the new actor last, the
/// new actor is registered, and nothing else changes.
pub proof fn law_register_links_parent_and_child(t: Tree, id: ActorId, node: Node)
    requires
        node.parent != Some(id),
    ensures
        crate::tree::registered(t, id, node)[id] == node,
        crate::tree::registered(t, id, node).dom() == t.dom().insert(id),
        node.parent matches Some(p) ==> t.contains_key(p) ==> crate::tree::registered(
            t,
            id,
            node,
        )[p] == t[p].with_child(id),
        forall|a: ActorId| #[trigger]
            t.contains_key(a) && a != id && node.parent != Some(a) ==> crate::tree::registered(
                t,
                id,
                node,
            )[a] == t[a],
{
    assert(crate::tree::registered(t, id, node).dom() =~= t.dom().insert(id));
}

/// One for one: a restart changes nothing of any other actor, and of the actor
/// itself only how often it has been restarted.
pub proof fn law_restart_is_one_for_one(t: Tree, id: ActorId, n: u32)
    ensures
        crate::tree::restarted(t, id, n).dom() == t.dom(),
        forall|a: ActorId| #[trigger]
            t.contains_key(a) && a != id ==> crate::tree::restarted(t, id, n)[a] == t[a],
        t.contains_key(id) ==> crate::tree::restarted(t, id, n)[id] == (Node {
            restarts: n,
            ..t[id]
        }),
        crate::tree::ordered(t) ==> crate::tree::ordered(crate::tree::restarted(t, id, n)),
        crate::tree::linked(t) ==> crate::tree::linked(crate::tree::restarted(t, id, n)),
{
    let r = crate::tree::restarted(t, id, n);
    assert(r.dom() =~= t.dom());
    if crate::tree::ordered(t) {
        assert forall|a: ActorId, i: int|
            r.contains_key(a) && 0 <= i < r[a].children.len() implies a@ < (
        #[trigger] r[a].children[i])@ by {
            assert(r[a].children[i] == t[a].children[i]);
        }
    }
    if crate::tree::linked(t) {
        assert forall|a: ActorId, c: ActorId| r.contains_key(a) implies (
        #[trigger] r[a].children.contains(c) <==> r.contains_key(c) && r[c].parent == Some(a)) by {
            assert(t[a].children.contains(c) <==> t.contains_key(c) && t[c].parent == Some(a));
        }
    }
}

// ---------------------------------------------------------------------------
// Ancestry
// ---------------------------------------------------------------------------

/// The parent chain leads from younger to older actors.
pub proof fn law_ancestry_leads_to_older(t: Tree, id: ActorId)
    requires
        crate::tree::ordered(t),
    ensures
        forall|i: int|
            0 <= i < crate::tree::ancestry_of(t, id).len() ==> (#[trigger] crate::tree::ancestry_of(
                t,
                id,
            )[i])@ < id@,
        forall|i: int, j: int|
            0 <= i < j < crate::tree::ancestry_of(t, id).len() ==> (
            #[trigger] crate::tree::ancestry_of(t, id)[j])@ < (#[trigger] crate::tree::ancestry_of(
                t,
                id,
            )[i])@,
    decreases id@,
{
    if let Some(p) = crate::tree::parent_of(t, id) {
        law_ancestry_leads_to_older(t, p);
        let rest = crate::tree::ancestry_of(t, p);
        let chain = crate::tree::ancestry_of(t, id);
        assert(chain =~= seq![p] + rest);
        assert forall|i: int, j: int| 0 <= i < j < chain.len() implies (#[trigger] chain[j])@ < (
        #[trigger] chain[i])@ by {
            assert(chain[j] == rest[j - 1]);
            if i > 0 {
                assert(chain[i] == rest[i - 1]);
            }
        }
        assert forall|i: int| 0 <= i < chain.len() implies (#[trigger] chain[i])@ < id@ by {
            if i > 0 {
                assert(chain[i] == rest[i - 1]);
            }
        }
    }
}

proof fn lemma_ancestry_unchanged(t: Tree, id: ActorId, node: Node, below: ActorId)
    requires
        crate::tree::ordered(t),
        crate::tree::fits(id, node),
        below@ < id@,
    ensures
        crate::tree::ancestry_of(crate::tree::registered(t, id, node), below)
            == crate::tree::ancestry_of(t, below),
    decreases below@,
{
    law_register_keeps_order(t, id, node);
    if let Some(p) = crate::tree::parent_of(t, below) {
        lemma_ancestry_unchanged(t, id, node, p);
    }
}

/// The parent chain of a new actor is its parent followed by its parent's chain.
pub proof fn law_ancestry_extends_the_parents(t: Tree, id: ActorId, node: Node)
    requires
        crate::tree::ordered(t),
        crate::tree::fits(id, node),
    ensures
        crate::tree::ancestry_of(crate::tree::registered(t, id, node), id) == match node.parent {
            Some(p) => seq![p] + crate::tree::ancestry_of(t, p),
            None => seq![],
        },
{
    law_register_keeps_order(t, id, node);
    if let Some(p) = node.parent {
        lemma_ancestry_unchanged(t, id, node, p);
    }
}

// ---------------------------------------------------------------------------
// Pictures
// ---------------------------------------------------------------------------

/// The ids that a picture shows, each actor before its children.
pub open spec fn shown(n: ActorNode) -> Seq<ActorId>
    decreases n,
{
    seq![n.status.id] + shown_all(n.children@)
}

/// The ids that several pictures show, one picture after the other.
pub open spec fn shown_all(nodes: Seq<ActorNode>) -> Seq<ActorId>
    decreases nodes,
{
    if nodes.len() == 0 {
        seq![]
    } else {
        shown_all(nodes.drop_last()) + shown(nodes.last())
    }
}

/// `x` is `top` or one of its registered descendants: the parent links lead from
/// `x` to `top` through registered actors.
pub open spec fn under(t: Tree, x: ActorId, top: ActorId) -> bool
    decreases x@,
    when crate::tree::ordered(t)
{
    t.contains_key(x) && (x == top || match t[x].parent {
        Some(p) => under(t, p, top),
        None => false,
    })
}

/// The parent links lead from `x` through registered actors to one that has no
/// parent.
pub open spec fn anchored(t: Tree, x: ActorId) -> bool
    decreases x@,
    when crate::tree::ordered(t)
{
    t.contains_key(x) && match t[x].parent {
        Some(p) => anchored(t, p),
        None => true,
    }
}

proof fn lemma_under_is_older(t: Tree, x: ActorId, top: ActorId)
    requires
        crate::tree::ordered(t),
        under(t, x, top),
    ensures
        top@ <= x@,
        t.contains_key(top),
    decreases x@,
{
    if x != top {
        lemma_under_is_older(t, t[x].parent->0, top);
    }
}

proof fn lemma_under_child(t: Tree, x: ActorId, c: ActorId, top: ActorId)
    requires
        crate::tree::ordered(t),
        under(t, x, c),
        t.contains_key(top),
        t[c].parent == Some(top),
    ensures
        under(t, x, top),
    decreases x@,
{
    if x == c {
        assert(under(t, top, top));
    } else {
        lemma_under_child(t, t[x].parent->0, c, top);
    }
}

/// Whoever is under `top` and not `top` itself is under one of its children.
proof fn lemma_child_towards(t: Tree, x: ActorId, top: ActorId) -> (c: ActorId)
    requires
        crate::tree::ordered(t),
        under(t, x, top),
        x != top,
    ensures
        t.contains_key(c),
        t[c].parent == Some(top),
        under(t, x, c),
    decreases x@,
{
    let p = t[x].parent->0;
    if p == top {
        x
    } else {
        lemma_child_towards(t, p, top)
    }
}

proof fn lemma_under_both(t: Tree, x: ActorId, a: ActorId, b: ActorId)
    requires
        crate::tree::ordered(t),
        under(t, x, a),
        under(t, x, b),
    ensures
        under(t, a, b) || under(t, b, a),
    decreases x@,
{
    if x != a && x != b {
        lemma_under_both(t, t[x].parent->0, a, b);
    }
}

/// Nobody is under two actors with the same parent.
proof fn lemma_siblings_apart(t: Tree, x: ActorId, a: ActorId, b: ActorId)
    requires
        crate::tree::ordered(t),
        under(t, x, a),
        under(t, x, b),
        t[a].parent == t[b].parent,
    ensures
        a == b,
{
    lemma_under_both(t, x, a, b);
    if a != b {
        if under(t, a, b) {
            lemma_under_is_older(t, t[a].parent->0, b);
        } else {
            lemma_under_is_older(t, t[b].parent->0, a);
        }
        lemma_under_is_older(t, x, a);
        lemma_under_is_older(t, x, b);
    }
}

proof fn lemma_all_live(t: Tree, ids: Seq<ActorId>)
    requires
        forall|i: int| 0 <= i < ids.len() ==> t.contains_key(#[trigger] ids[i]),
    ensures
        crate::tree::live_among(t, ids) == ids,
    decreases ids.len(),
{
    reveal(Seq::filter);
    if ids.len() > 0 {
        lemma_all_live(t, ids.drop_last());
        assert(t.contains_key(ids[ids.len() - 1]));
        assert(ids.drop_last().push(ids.last()) =~= ids);
    }
}

proof fn lemma_live_is_all(t: Tree, id: ActorId)
    requires
        crate::tree::linked(t),
        t.contains_key(id),
    ensures
        crate::tree::live_children(t, id) == t[id].children,
{
    let ids = t[id].children;
    assert forall|i: int| 0 <= i < ids.len() implies t.contains_key(#[trigger] ids[i]) by {
        assert(ids.contains(ids[i]));
    }
    lemma_all_live(t, ids);
}

/// Pictures of actors that share nobody: they show whoever is under one of them,
/// once.
proof fn lemma_shown_all(t: Tree, ids: Seq<ActorId>, nodes: Seq<ActorNode>)
    requires
        crate::tree::ordered(t),
        crate::tree::linked(t),
        ids.len() == nodes.len(),
        ids.no_duplicates(),
        forall|i: int|
            0 <= i < ids.len() ==> crate::tree::pictures(t, ids[i], #[trigger] nodes[i]),
        forall|i: int, j: int|
            0 <= i < ids.len() && 0 <= j < ids.len() ==> t[#[trigger] ids[i]].parent
                == t[#[trigger] ids[j]].parent,
    ensures
        shown_all(nodes).no_duplicates(),
        forall|x: ActorId| #[trigger]
            shown_all(nodes).contains(x) <==> exists|i: int|
                0 <= i < ids.len() && under(t, x, #[trigger] ids[i]),
    decreases nodes,
{
    if nodes.len() > 0 {
        let front = nodes.drop_last();
        let last = nodes.last();
        let n = ids.len() - 1;
        let fids = ids.drop_last();
        assert(crate::tree::pictures(t, ids[n], nodes[n]));
        assert forall|i: int| 0 <= i < fids.len() implies crate::tree::pictures(
            t,
            fids[i],
            #[trigger] front[i],
        ) by {
            assert(nodes[i] == front[i]);
        }
        lemma_shown_all(t, fids, front);
        lemma_shown(t, ids[n], last);
        let a = shown_all(front);
        let b = shown(last);
        assert forall|x: ActorId| !(a.contains(x) && b.contains(x)) by {
            if a.contains(x) && b.contains(x) {
                let i = choose|i: int| 0 <= i < fids.len() && under(t, x, #[trigger] fids[i]);
                assert(fids[i] == ids[i]);
                lemma_siblings_apart(t, x, ids[i], ids[n]);
            }
        }
        lemma_joined(a, b);
        assert forall|x: ActorId| #[trigger] shown_all(nodes).contains(x) <==> exists|i: int|
            0 <= i < ids.len() && under(t, x, #[trigger] ids[i]) by {
            assert(shown_all(nodes) == a + b);
            if a.contains(x) {
                let i = choose|i: int| 0 <= i < fids.len() && under(t, x, #[trigger] fids[i]);
                assert(fids[i] == ids[i]);
            }
            if b.contains(x) {
                assert(under(t, x, ids[n]));
            }
            if exists|i: int| 0 <= i < ids.len() && under(t, x, #[trigger] ids[i]) {
                let i = choose|i: int| 0 <= i < ids.len() && under(t, x, #[trigger] ids[i]);
                if i < n {
                    assert(fids[i] == ids[i]);
                }
            }
        }
    }
}

proof fn lemma_joined(a: Seq<ActorId>, b: Seq<ActorId>)
    requires
        a.no_duplicates(),
        b.no_duplicates(),
        forall|x: ActorId| !(#[trigger] a.contains(x) && b.contains(x)),
    ensures
        (a + b).no_duplicates(),
        forall|x: ActorId| #[trigger] (a + b).contains(x) <==> a.contains(x) || b.contains(x),
{
    let s = a + b;
    assert forall|i: int, j: int| 0 <= i < s.len() && 0 <= j < s.len() && i != j implies s[i]
        != s[j] by {
        if i < a.len() && j >= a.len() {
            assert(a.contains(a[i]));
            assert(b.contains(b[j - a.len()]));
        }
        if j < a.len() && i >= a.len() {
            assert(a.contains(a[j]));
            assert(b.contains(b[i - a.len()]));
        }
    }
    assert forall|x: ActorId| #[trigger] s.contains(x) <==> a.contains(x) || b.contains(x) by {
        if a.contains(x) {
            assert(s[a.index_of(x)] == x);
        }
        if b.contains(x) {
            assert(s[a.len() + b.index_of(x)] == x);
        }
        if s.contains(x) {
            let i = s.index_of(x);
            if i < a.len() {
                assert(a[i] == x);
            } else {
                assert(b[i - a.len()] == x);
            }
        }
    }
}

proof fn lemma_shown(t: Tree, id: ActorId, n: ActorNode)
    requires
        crate::tree::ordered(t),
        crate::tree::linked(t),
        crate::tree::pictures(t, id, n),
    ensures
        shown(n).no_duplicates(),
        forall|x: ActorId| #[trigger] shown(n).contains(x) <==> under(t, x, id),
    decreases n,
{
    lemma_live_is_all(t, id);
    let ids = t[id].children;
    let nodes = n.children@;
    assert forall|i: int, j: int| 0 <= i < ids.len() && 0 <= j < ids.len() implies t[
    #[trigger] ids[i]].parent == t[#[trigger] ids[j]].parent by {
        assert(ids.contains(ids[i]));
        assert(ids.contains(ids[j]));
    }
    lemma_shown_all(t, ids, nodes);
    let a = seq![id];
    let b = shown_all(nodes);
    assert(a[0] == id);
    assert forall|x: ActorId| !(#[trigger] a.contains(x) && b.contains(x)) by {
        if a.contains(x) && b.contains(x) {
            let i = choose|i: int| 0 <= i < ids.len() && under(t, x, #[trigger] ids[i]);
            lemma_under_is_older(t, x, ids[i]);
        }
    }
    lemma_joined(a, b);
    assert forall|x: ActorId| #[trigger] shown(n).contains(x) <==> under(t, x, id) by {
        if b.contains(x) {
            let i = choose|i: int| 0 <= i < ids.len() && under(t, x, #[trigger] ids[i]);
            assert(ids.contains(ids[i]));
            lemma_under_child(t, x, ids[i], id);
        }
        if under(t, x, id) && x != id {
            let c = lemma_child_towards(t, x, id);
            assert(ids.contains(c));
            let i = ids.index_of(c);
            assert(ids[i] == c);
        }
    }
}

proof fn lemma_anchored(t: Tree, x: ActorId)
    requires
        crate::tree::ordered(t),
    ensures
        anchored(t, x) <==> exists|r: ActorId|
            crate::tree::is_root(t, r) && #[trigger] under(t, x, r),
    decreases x@,
{
    if t.contains_key(x) {
        match t[x].parent {
            Some(p) => {
                lemma_anchored(t, p);
                if anchored(t, x) {
                    let r = choose|r: ActorId|
                        crate::tree::is_root(t, r) && #[trigger] under(t, p, r);
                    assert(under(t, x, r));
                }
                if exists|r: ActorId| crate::tree::is_root(t, r) && #[trigger] under(t, x, r) {
                    let r = choose|r: ActorId|
                        crate::tree::is_root(t, r) && #[trigger] under(t, x, r);
                    assert(under(t, p, r));
                }
            },
            None => {
                assert(under(t, x, x));
            },
        }
    }
}

/// The picture of one actor shows it and its registered descendants, each once,
/// and nobody else.
pub proof fn law_picture_shows_descendants_once(t: Tree, id: ActorId, n: ActorNode)
    requires
        crate::tree::ordered(t),
        crate::tree::linked(t),
        crate::tree::pictures(t, id, n),
    ensures
        shown(n).no_duplicates(),
        forall|x: ActorId| #[trigger] shown(n).contains(x) <==> under(t, x, id),
{
    lemma_shown(t, id, n);
}

/// The picture of the whole tree shows every actor that hangs, through
/// registered actors, on one without a parent; each once, and nobody else.
pub proof fn law_forest_shows_the_anchored_once(
    t: Tree,
    roots: Seq<ActorId>,
    nodes: Seq<ActorNode>,
)
    requires
        crate::tree::ordered(t),
        crate::tree::linked(t),
        crate::tree::is_forest(t, roots, nodes),
    ensures
        shown_all(nodes).no_duplicates(),
        forall|x: ActorId| #[trigger] shown_all(nodes).contains(x) <==> anchored(t, x),
{
    assert forall|i: int, j: int| 0 <= i < roots.len() && 0 <= j < roots.len() implies t[
    #[trigger] roots[i]].parent == t[#[trigger] roots[j]].parent by {
        assert(roots.contains(roots[i]));
        assert(roots.contains(roots[j]));
    }
    lemma_shown_all(t, roots, nodes);
    assert forall|x: ActorId| #[trigger] shown_all(nodes).contains(x) <==> anchored(t, x) by {
        lemma_anchored(t, x);
        if shown_all(nodes).contains(x) {
            let i = choose|i: int| 0 <= i < roots.len() && under(t, x, #[trigger] roots[i]);
            assert(roots.contains(roots[i]));
        }
        if anchored(t, x) {
            let r = choose|r: ActorId| crate::tree::is_root(t, r) && #[trigger] under(t, x, r);
            assert(roots.contains(r));
            assert(roots[roots.index_of(r)] == r);
        }
    }
}

} // verus!
