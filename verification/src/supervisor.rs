//! Supervising actor system: lifecycle tree, restart, escalation.

use std::sync::Arc;
use tokio::sync::broadcast;
use tokio_util::sync::CancellationToken;
use vstd::prelude::*;
use vstd::rwlock::{RwLock, RwLockPredicate};

use crate::actor_ref::ActorRef;
use crate::context::Context;
use crate::event::{EventView, SupervisionEvent};
use crate::handle::{open_inbox_under, Inbox, MailboxProbe};
use crate::id::{ActorId, IdSequence};
pub use crate::life::Life;
use crate::lifecycle::{SpawnOptions, Supervision};
use crate::lookout::Lookout;
use crate::outside::{publish, shared_text};
use crate::roster::{Roster, RosterView};
use crate::seat::{Deeds, Seat};
use crate::status::{ActorNode, ActorStatus, StatusMsg, StatusRef};
use crate::tree::{Node, SupervisedEntry, Tree};

verus! {

// ---------------------------------------------------------------------------
// The system
// ---------------------------------------------------------------------------

/// What holds of the roster whenever nobody is changing it: the tree is in order,
/// and every actor stops with the system.
pub struct RosterInv {
    pub source: CancellationToken,
}

impl RwLockPredicate<Roster> for RosterInv {
    open spec fn inv(self, r: Roster) -> bool {
        &&& r@.sound()
        &&& crate::cascade::all_stop_with(r@.tree, self.source)
    }
}

struct Inner {
    roster: Arc<RwLock<Roster, RosterInv>>,
    events: Arc<broadcast::Sender<SupervisionEvent>>,
    /// Root cancellation token; all others are derived from it.
    token: CancellationToken,
    /// The status actor of a started system.
    status: Option<StatusRef>,
    /// The root actor of a started system.
    root: Option<ActorId>,
    /// Keeps the root actor's mailbox open so that the root never exits on its
    /// own.
    root_ref: Option<ActorRef<()>>,
}

/// The supervising actor system. Cheap to clone.
pub struct ActorSystem {
    inner: Arc<Inner>,
}

/// How many events are kept for a subscriber that lags behind.
pub const EVENT_BACKLOG: usize = 256;

/// What an actor that is being enrolled shows to have its logs begin. Nobody else
/// has one.
pub struct Birth(());

/// Where an actor is spawned: in which system, below which parent, and with
/// which token it stops. That token stops with the system.
pub struct SpawnSite {
    system: ActorSystem,
    parent: Option<ActorId>,
    token: CancellationToken,
}

impl SpawnSite {
    #[verifier::type_invariant]
    closed spec fn inv(&self) -> bool {
        self.system.covers(self.token)
    }

    /// The system of the site.
    pub closed spec fn home(self) -> ActorSystem {
        self.system
    }

    /// The parent of an actor spawned here.
    pub closed spec fn parent(self) -> Option<ActorId> {
        self.parent
    }

    /// The token that an actor spawned here stops with.
    pub closed spec fn token(self) -> CancellationToken {
        self.token
    }

    pub(crate) fn new(
        system: ActorSystem,
        parent: Option<ActorId>,
        token: CancellationToken,
    ) -> (site: SpawnSite)
        requires
            system.covers(token),
        ensures
            site.home() == system,
            site.parent() == parent,
            site.token() == token,
    {
        SpawnSite { system, parent, token }
    }
}

/// Ids that lead from younger to older actors, all older than `id`.
pub open spec fn leads_to_older(chain: Seq<ActorId>, id: ActorId) -> bool {
    &&& forall|i: int| 0 <= i < chain.len() ==> (#[trigger] chain[i])@ < id@
    &&& forall|i: int, j: int|
        0 <= i < j < chain.len() ==> (#[trigger] chain[j])@ < (#[trigger] chain[i])@
}

impl Clone for ActorSystem {
    /// Another handle on the same system.
    fn clone(&self) -> (s: ActorSystem)
        ensures
            s == *self,
    {
        proof {
            use_type_invariant(self);
        }
        ActorSystem { inner: self.inner.clone() }
    }
}

// What the contracts say of a system.
impl ActorSystem {
    #[verifier::type_invariant]
    closed spec fn inv(&self) -> bool {
        self.roster_lock().pred() == (RosterInv { source: self.inner.token })
    }

    /// The token that the whole system stops with.
    pub closed spec fn root_source(self) -> CancellationToken {
        self.inner.token
    }

    /// The root actor; only a started system has one.
    pub closed spec fn root_actor(self) -> Option<ActorId> {
        self.inner.root
    }

    /// The reference that keeps the root actor's mailbox open.
    pub closed spec fn root_keeper(self) -> Option<ActorRef<()>> {
        self.inner.root_ref
    }

    /// The status actor; only a started system has one.
    pub closed spec fn status_actor(self) -> Option<StatusRef> {
        self.inner.status
    }

    /// The token stops with the system.
    pub open spec fn covers(self, t: CancellationToken) -> bool {
        crate::cascade::stops_with(t, self.root_source())
    }

    /// The tree is in order and all its actors stop with the system.
    pub open spec fn sound_tree(self, t: Tree) -> bool {
        &&& crate::tree::ordered(t)
        &&& crate::tree::linked(t)
        &&& crate::cascade::all_stop_with(t, self.root_source())
    }

    /// The lock around the roster.
    pub closed spec fn roster_lock(self) -> RwLock<Roster, RosterInv> {
        *self.inner.roster
    }

    /// The event stream.
    pub closed spec fn event_sender(self) -> broadcast::Sender<SupervisionEvent> {
        *self.inner.events
    }

    /// The system began with this tree, and with an event stream that keeps
    /// [`EVENT_BACKLOG`] events.
    pub closed spec fn began_with(self, t: Tree) -> bool {
        &&& exists|r: Roster| #[trigger]
            crate::shared::began(self.roster_lock(), r) && r@.tree == t
        &&& exists|rx: broadcast::Receiver<SupervisionEvent>| #[trigger]
            call_ensures(
                broadcast::channel::<SupervisionEvent>,
                (EVENT_BACKLOG,),
                (self.event_sender(), rx),
            )
    }

    /// The tree was seen like this.
    pub open spec fn tree_seen(self, t: Tree) -> bool {
        exists|r: Roster| #[trigger]
            crate::shared::found(self.roster_lock(), r) && r@.tree == t
    }

    /// The tree went from `before` to `after` in one step.
    pub open spec fn tree_went(self, before: Tree, after: Tree) -> bool {
        exists|a: Roster, b: Roster| #[trigger]
            crate::shared::replaced(self.roster_lock(), a, b) && a@.changes_to(b@) && a@.tree
                == before && b@.tree == after
    }

    /// Somebody wanted to enter the tree when `youngest` was the youngest actor
    /// that had ever been in it, and the tree went from `before` to `after`.
    pub closed spec fn entry_tried(
        self,
        youngest: Option<u64>,
        before: Tree,
        after: Tree,
    ) -> bool {
        exists|a: Roster, b: Roster| #[trigger]
            crate::shared::replaced(self.roster_lock(), a, b) && a@.changes_to(b@) && a@.youngest
                == youngest && a@.tree == before && b@.tree == after
    }

    /// The actor was entered into the tree, as it was then, under the first fresh
    /// number from `next` on. Nothing in the tree had mentioned it before.
    pub open spec fn entered(self, id: ActorId, node: Node, next: u64) -> bool {
        exists|youngest: Option<u64>, t: Tree|
            {
                &&& #[trigger] self.entry_tried(
                    youngest,
                    t,
                    crate::tree::registered(t, id, node),
                )
                &&& self.sound_tree(t)
                &&& self.sound_tree(crate::tree::registered(t, id, node))
                &&& crate::tree::unknown(t, id)
                &&& crate::roster::first_fresh(next, youngest, node.parent) == Some(id@)
            }
    }

    /// From `next` on there was no number left for a child of `parent`, and the
    /// tree stayed as it was.
    pub open spec fn ran_out(self, next: u64, parent: Option<ActorId>) -> bool {
        exists|youngest: Option<u64>, t: Tree| #[trigger]
            self.entry_tried(youngest, t, t) && crate::roster::first_fresh(
                next,
                youngest,
                parent,
            ) is None
    }

    /// The actor was taken out of the tree as it was then. After that it was
    /// neither registered nor listed as anybody's child.
    pub open spec fn taken_out(self, id: ActorId) -> bool {
        exists|t: Tree|
            {
                &&& #[trigger] self.tree_went(t, crate::tree::deregistered(t, id))
                &&& self.sound_tree(t)
                &&& crate::tree::unlisted(crate::tree::deregistered(t, id), id)
            }
    }

    /// The restarts of the actor were noted in the tree as it was then.
    pub open spec fn restarts_noted(self, id: ActorId, n: u32) -> bool {
        exists|t: Tree| #[trigger]
            self.tree_went(t, crate::tree::restarted(t, id, n)) && self.sound_tree(t)
    }

    /// Every subscriber was told of this event.
    pub open spec fn announced(self, ev: EventView) -> bool {
        exists|e: SupervisionEvent| #[trigger]
            crate::outside::published(self.event_sender(), e) && e@ == ev
    }

    /// The subscription is one to the events of this system.
    pub closed spec fn feeds(self, rx: broadcast::Receiver<SupervisionEvent>) -> bool {
        crate::outside::subscribed(self.event_sender(), rx)
    }

    /// `chain` is the parent chain of `id` in the tree as it was seen.
    pub open spec fn ancestry_seen(self, id: ActorId, chain: Seq<ActorId>) -> bool {
        exists|t: Tree| #[trigger]
            self.tree_seen(t) && self.sound_tree(t) && chain == crate::tree::ancestry_of(t, id)
    }

    /// `r` lists the children of `id` in the tree as it was seen; `None` exactly if
    /// it was not registered.
    pub open spec fn children_seen(self, id: ActorId, r: Option<Vec<ActorId>>) -> bool {
        exists|t: Tree| #[trigger]
            self.tree_seen(t) && self.sound_tree(t) && (r is Some <==> t.contains_key(id)) && (
            r matches Some(ids) ==> ids@ == t[id].children)
    }

    /// `r` is the status of `id` in the tree as it was seen; `None` exactly if it
    /// was not registered.
    pub open spec fn status_of_seen(self, id: ActorId, r: Option<ActorStatus>) -> bool {
        exists|t: Tree| #[trigger]
            self.tree_seen(t) && self.sound_tree(t) && (r is Some <==> t.contains_key(id)) && (
            r matches Some(s) ==> s.describes(id, t[id]))
    }

    /// The nodes picture the whole tree as it was seen.
    pub open spec fn forest_seen(self, nodes: Seq<ActorNode>) -> bool {
        exists|t: Tree, roots: Seq<ActorId>| #[trigger]
            self.tree_seen(t) && self.sound_tree(t) && #[trigger] crate::tree::is_forest(
                t,
                roots,
                nodes,
            )
    }

    /// `site` is where a new actor of this system belongs: below the root actor,
    /// if there is one, with the root actor's token as long as it is registered;
    /// else on its own.
    pub open spec fn site_seen(self, site: SpawnSite) -> bool {
        &&& site.home() == self
        &&& site.parent() == self.root_actor()
        &&& match self.root_actor() {
            Some(root) => exists|t: Tree| #[trigger]
                self.tree_seen(t) && site.token() == if t.contains_key(root) {
                    t[root].token
                } else {
                    self.root_source()
                },
            None => site.token() == self.root_source(),
        }
    }
}

/// The picture that a live system gives of itself shows every actor that hangs on
/// one without a parent, each once, and nobody else.
pub proof fn law_live_forest_shows_everybody_once(
    system: ActorSystem,
    nodes: Seq<ActorNode>,
)
    requires
        system.forest_seen(nodes),
    ensures
        crate::tree_laws::shown_all(nodes).no_duplicates(),
        exists|t: Tree| #[trigger]
            system.tree_seen(t) && forall|x: ActorId| #[trigger]
                crate::tree_laws::shown_all(nodes).contains(x) <==> crate::tree_laws::anchored(
                    t,
                    x,
                ),
{
    let (t, roots) = choose|t: Tree, roots: Seq<ActorId>| #[trigger]
        system.tree_seen(t) && system.sound_tree(t) && #[trigger] crate::tree::is_forest(
            t,
            roots,
            nodes,
        );
    crate::tree_laws::law_forest_shows_the_anchored_once(t, roots, nodes);
    assert(system.tree_seen(t));
}

impl ActorSystem {
    /// A system around a roster whose actors all stop with `token`.
    fn around(
        token: CancellationToken,
        roster: Roster,
        root: Option<ActorId>,
        root_ref: Option<ActorRef<()>>,
        status: Option<StatusRef>,
    ) -> (s: ActorSystem)
        requires
            roster@.sound(),
            crate::cascade::all_stop_with(roster@.tree, token),
        ensures
            s.began_with(roster@.tree),
            s.root_source() == token,
            s.root_actor() == root,
            s.root_keeper() == root_ref,
            s.status_actor() == status,
    {
        let (events, rx) = broadcast::channel(EVENT_BACKLOG);
        let ghost first = roster;
        let roster = RwLock::new(roster, Ghost(RosterInv { source: token }));
        let inner = Inner {
            roster: Arc::new(roster),
            events: Arc::new(events),
            token,
            status,
            root,
            root_ref,
        };
        let system = ActorSystem { inner: Arc::new(inner) };
        proof {
            assert(crate::shared::began(system.roster_lock(), first));
            assert(call_ensures(
                broadcast::channel::<SupervisionEvent>,
                (EVENT_BACKLOG,),
                (system.event_sender(), rx),
            ));
        }
        system
    }

    /// A system with no actors at all.
    pub fn new() -> (s: ActorSystem)
        ensures
            s.began_with(Map::<ActorId, Node>::empty()),
            crate::outside::independent(s.root_source()),
            s.root_actor() is None,
            s.status_actor() is None,
    {
        ActorSystem::around(CancellationToken::new(), Roster::new(), None, None, None)
    }

    /// Subscribe to lifecycle events.
    pub fn events(&self) -> (rx: broadcast::Receiver<SupervisionEvent>)
        ensures
            self.feeds(rx),
    {
        self.inner.events.subscribe()
    }

    /// Tell every subscriber; that there is none is no error.
    pub fn emit(&self, ev: SupervisionEvent)
        ensures
            self.announced(ev@),
    {
        let ghost said = ev;
        publish(&self.inner.events, ev);
        assert(crate::outside::published(self.event_sender(), said));
    }

    /// Draw an id for an actor and enter it into the tree: [`Roster::enter`].
    fn enter(&self, ids: &mut IdSequence, entry: SupervisedEntry) -> (r: Option<ActorId>)
        requires
            entry.children@.len() == 0,
            self.covers(entry.token),
        ensures
            match r {
                Some(id) => self.entered(id, entry@, old(ids)@) && final(ids)@
                    == crate::id::successor(id@) && (entry.parent matches Some(p) ==> p@ < id@),
                None => self.ran_out(old(ids)@, entry.parent) && final(ids)@ == old(ids)@,
            },
    {
        proof {
            use_type_invariant(self);
        }
        let (roster, lock) = self.inner.roster.acquire_write();
        let ghost before = roster;
        let mut roster = roster;
        let ghost node = entry@;
        let r = roster.enter(ids, entry);
        lock.release_write(roster);
        proof {
            assert(crate::shared::replaced(self.roster_lock(), before, roster));
            match r {
                Some(id) => {
                    crate::roster::law_next_actor_is_unknown(
                        before@,
                        old(ids)@,
                        node.parent,
                        id,
                    );
                    let after = crate::tree::registered(before@.tree, id, node);
                    assert(self.entry_tried(before@.youngest, before@.tree, after));
                },
                None => {
                    assert(self.entry_tried(before@.youngest, before@.tree, before@.tree));
                },
            }
        }
        r
    }

    /// Take the actor of this seat out of its system's tree: [`Roster::leave`].
    pub(crate) fn deregister(seat: &Seat, deeds: &mut Deeds)
        ensures
            seat.system().taken_out(seat.id()),
            final(deeds).told() == old(deeds).told(),
            exists|a: RosterView, b: RosterView| #[trigger]
                final(deeds).one_more_change(*old(deeds), a, b) && a.leaves_to(b, seat.id()),
            final(deeds).clearings() == old(deeds).clearings(),
            final(deeds).stops() == old(deeds).stops(),
    {
        seat.leave(deeds);
    }

    /// Record how often the actor of this seat has been restarted:
    /// [`Roster::note_restarts`].
    pub(crate) fn note_restarts(seat: &Seat, deeds: &mut Deeds, n: u32)
        ensures
            seat.system().restarts_noted(seat.id(), n),
            final(deeds).told() == old(deeds).told(),
            exists|a: RosterView, b: RosterView| #[trigger]
                final(deeds).one_more_change(*old(deeds), a, b) && a.notes_to(b, seat.id(), n),
            final(deeds).clearings() == old(deeds).clearings(),
            final(deeds).stops() == old(deeds).stops(),
    {
        seat.note(deeds, n);
    }

    /// Parent chain from `id` (left out) up to the root, nearest first:
    /// [`SupervisionTree::ancestry`](crate::tree::SupervisionTree::ancestry) of the
    /// tree as it is.
    pub fn ancestry(&self, id: ActorId) -> (chain: Vec<ActorId>)
        ensures
            self.ancestry_seen(id, chain@),
            leads_to_older(chain@, id),
    {
        proof {
            use_type_invariant(self);
        }
        let lock = self.inner.roster.acquire_read();
        let roster = lock.borrow();
        let chain = roster.tree().ancestry(id);
        proof {
            assert(crate::shared::found(self.roster_lock(), *roster));
            assert(self.tree_seen(roster@.tree));
            crate::tree_laws::law_ancestry_leads_to_older(roster@.tree, id);
        }
        lock.release_read();
        chain
    }

    /// The children listed under an actor; `None` if it is not registered.
    pub fn children(&self, id: ActorId) -> (r: Option<Vec<ActorId>>)
        ensures
            self.children_seen(id, r),
    {
        proof {
            use_type_invariant(self);
        }
        let lock = self.inner.roster.acquire_read();
        let roster = lock.borrow();
        let r = roster.tree().children(id);
        proof {
            assert(crate::shared::found(self.roster_lock(), *roster));
            assert(self.tree_seen(roster@.tree));
        }
        lock.release_read();
        r
    }

    /// The token that the whole system stops with.
    pub fn root_token(&self) -> (t: CancellationToken)
        ensures
            t == self.root_source(),
    {
        self.inner.token.clone()
    }

    /// Where a new actor goes: below the root actor if there is one, else on its
    /// own. It stops when the system shuts down.
    pub fn spawn_site(&self) -> (site: SpawnSite)
        ensures
            self.site_seen(site),
            self.covers(site.token()),
    {
        proof {
            use_type_invariant(self);
            crate::cascade::lemma_stops_with_itself(self.root_source());
        }
        match self.inner.root {
            Some(root) => {
                let lock = self.inner.roster.acquire_read();
                let roster = lock.borrow();
                proof {
                    assert(crate::shared::found(self.roster_lock(), *roster));
                    assert(self.tree_seen(roster@.tree));
                }
                let token = match roster.tree().token(root) {
                    Some(token) => token,
                    None => self.root_token(),
                };
                lock.release_read();
                SpawnSite::new(self.clone(), Some(root), token)
            },
            None => SpawnSite::new(self.clone(), None, self.root_token()),
        }
    }

    /// Status of one actor; `None` if it is not registered.
    pub fn snapshot_actor(&self, id: ActorId) -> (r: Option<ActorStatus>)
        ensures
            self.status_of_seen(id, r),
    {
        proof {
            use_type_invariant(self);
        }
        let lock = self.inner.roster.acquire_read();
        let roster = lock.borrow();
        let r = roster.tree().snapshot_actor(id);
        proof {
            assert(crate::shared::found(self.roster_lock(), *roster));
            assert(self.tree_seen(roster@.tree));
        }
        lock.release_read();
        r
    }

    /// Picture of the whole tree:
    /// [`SupervisionTree::snapshot_forest`](crate::tree::SupervisionTree::snapshot_forest)
    /// of the tree as it is.
    pub fn snapshot_forest(&self) -> (nodes: Vec<ActorNode>)
        ensures
            self.forest_seen(nodes@),
    {
        proof {
            use_type_invariant(self);
        }
        let lock = self.inner.roster.acquire_read();
        let roster = lock.borrow();
        let nodes = roster.tree().snapshot_forest();
        proof {
            assert(crate::shared::found(self.roster_lock(), *roster));
            assert(self.tree_seen(roster@.tree));
        }
        lock.release_read();
        nodes
    }

    /// A place from which the tree can be looked at, and nothing more.
    pub(crate) fn lookout(&self) -> (l: Lookout)
        ensures
            l.system() == *self,
    {
        proof {
            use_type_invariant(self);
        }
        Lookout::new(self.inner.roster.clone(), Ghost(*self))
    }

    /// Whether the system was started, and so has a status actor.
    pub fn is_started(&self) -> (b: bool)
        ensures
            b == (self.status_actor() is Some),
    {
        self.inner.status.is_some()
    }

    /// Handle to the status actor, the same one on every call. The system must
    /// have been started.
    pub fn status(&self) -> (s: StatusRef)
        requires
            self.status_actor() is Some,
        ensures
            Some(s) == self.status_actor(),
    {
        self.inner.status.as_ref().unwrap().clone()
    }

    /// Shut the whole system down: cancel its root token, which tells all its
    /// actors to stop, whether it was started or not.
    pub fn shutdown(&self)
        ensures
            crate::outside::cancelled(self.root_source()),
            forall|t: CancellationToken| #[trigger]
                self.covers(t) ==> crate::cascade::told_to_stop(t),
    {
        self.inner.token.cancel();
        assert(crate::outside::cancelled(self.root_source()));
    }
}

// ---------------------------------------------------------------------------
// Supervised actors
// ---------------------------------------------------------------------------

/// A supervised actor that has been registered and announced, ready to run.
#[verifier::reject_recursive_types(M)]
pub struct Enrollment<M: Send + 'static> {
    /// For the owner of the actor.
    pub actor: ActorRef<M>,
    /// For the behaviour of the actor, through [`Context::at_work`]. This one does
    /// not keep the actor from ending.
    pub ctx: Context<M>,
    /// For the receive loop. The mailbox outlives every restart.
    pub inbox: Inbox<M>,
    /// For the supervising loop.
    pub life: Life,
    /// The event with which the actor was announced.
    pub announced: SupervisionEvent,
}

impl<M: Send + 'static> Enrollment<M> {
    /// All parts belong to the same actor of the same system: they share its
    /// token, its counters and its poison.
    pub open spec fn coherent(self) -> bool {
        &&& self.actor.token() == self.ctx@.token
        &&& self.inbox.token == self.ctx@.token
        &&& self.life.token() == self.ctx@.token
        &&& self.ctx.own_ref().same_actor(self.actor)
        &&& self.ctx.own_ref().link().lease() is None
        &&& self.actor.poison_token() == self.inbox.poison
        &&& self.actor.link().counters() == *self.inbox.stats
        &&& self.life.counters() == *self.inbox.stats
        &&& self.life.policy().id == self.ctx@.id
        &&& self.life.system() == self.ctx.own_system()
    }

    /// The actor begins its life in this system: nothing has been counted, its
    /// mailbox is a new one for `buffer` messages, it may be restarted
    /// `max_restarts` times, it stops with the system, and it has been announced.
    pub open spec fn begins(self, system: ActorSystem, max_restarts: u32, buffer: usize) -> bool {
        &&& self.coherent()
        &&& self.ctx.own_system() == system
        &&& system.covers(self.ctx@.token)
        &&& self.inbox.serves(self.actor, buffer)
        &&& self.life.policy() == (Supervision { id: self.ctx@.id, max_restarts, restarts: 0 })
        &&& self.life.deeds().told() == seq![self.announced@]
        &&& self.life.deeds().changes() == 0
        &&& self.life.deeds().clearings() == 0
        &&& self.life.deeds().stops() == Seq::<CancellationToken>::empty()
        &&& self.announced@ == (EventView::Spawned {
            id: self.ctx@.id,
            name: self.ctx@.name,
            parent: self.ctx@.parent,
        })
        &&& system.announced(self.announced@)
    }

    /// The node stands for this actor as it begins.
    pub open spec fn is_shown_by(self, node: Node) -> bool {
        &&& node.name == self.ctx@.name
        &&& node.parent == self.ctx@.parent
        &&& shows_newcomer(node, self.actor)
    }
}

/// The node stands for the actor behind the reference, without children and
/// without restarts.
pub open spec fn shows_newcomer<M: Send + 'static>(node: Node, actor: ActorRef<M>) -> bool {
    &&& node.children.len() == 0
    &&& node.restarts == 0
    &&& node.token == actor.token()
    &&& node.stats == actor.link().counters()
    &&& forall|depth: usize| #[trigger]
        (node.depth_reads)(depth) <==> crate::handle::depth_read(actor.link().mailbox(), depth)
}

/// The entry with which an actor goes into the tree.
fn entry_of<M: Send + 'static>(
    name: &Arc<str>,
    parent: Option<ActorId>,
    actor: &ActorRef<M>,
    inbox: &Inbox<M>,
) -> (e: SupervisedEntry)
    requires
        actor.token() == inbox.token,
        actor.link().counters() == *inbox.stats,
    ensures
        e@.name == name@,
        e@.parent == parent,
        e.parent == parent,
        e.token == inbox.token,
        e.children@.len() == 0,
        shows_newcomer(e@, *actor),
{
    SupervisedEntry {
        name: name.clone(),
        parent,
        children: Vec::new(),
        token: inbox.token.clone(),
        stats: inbox.stats.clone(),
        restarts: 0,
        depth_probe: Box::new(MailboxProbe::new(actor.handle().sender().clone())),
    }
}

/// Announce an actor that has entered the tree, and put its parts together.
fn settle<M: Send + 'static>(
    system: &ActorSystem,
    id: ActorId,
    name: Arc<str>,
    parent: Option<ActorId>,
    max_restarts: u32,
    parts: (ActorRef<M>, Inbox<M>),
    Ghost(buffer): Ghost<usize>,
) -> (a: Enrollment<M>)
    requires
        parts.1.serves(parts.0, buffer),
        system.covers(parts.1.token),
    ensures
        a.begins(*system, max_restarts, buffer),
        a.actor == parts.0,
        a.inbox == parts.1,
        a.ctx@.id == id,
        a.ctx@.name == name@,
        a.ctx@.parent == parent,
{
    let (actor, inbox) = parts;
    proof {
        use_type_invariant(system);
    }
    let seat = Seat::new(
        id,
        system.inner.events.clone(),
        system.inner.roster.clone(),
        &inbox.stats,
        inbox.token.clone(),
        Ghost(*system),
    );
    let announced = SupervisionEvent::Spawned { id, name: name.clone(), parent };
    let mut deeds = Deeds::new(&Birth(()));
    seat.announce(&mut deeds, announced.clone());
    let life = Life::new(Supervision::new(id, max_restarts), seat, deeds);
    let ctx = Context::new(
        id,
        name,
        parent,
        inbox.token.clone(),
        actor.holding(None),
        system.clone(),
    );
    Enrollment { actor, ctx, inbox, life, announced }
}

impl ActorSystem {
    /// Enroll a supervised actor: give it a mailbox, counters and a token that
    /// stops with that of its site, draw an id for it and enter it into the tree
    /// under that id, and announce it. The id is the next one of the sequence;
    /// numbers are passed over only if somebody as young is in the tree already, or
    /// is its parent. `None` if the numbers have run out.
    ///
    /// The mailbox cannot be made with a buffer of zero, or beyond what it can
    /// count.
    pub fn enroll<M: Send + 'static>(
        ids: &mut IdSequence,
        site: SpawnSite,
        opts: SpawnOptions,
    ) -> (r: Option<Enrollment<M>>)
        requires
            0 < opts.buffer <= usize::MAX / 8,
        ensures
            match r {
                Some(a) => {
                    &&& a.begins(site.home(), opts.max_restarts, opts.buffer)
                    &&& a.ctx@.name == opts.name@
                    &&& a.ctx@.parent == site.parent()
                    &&& a.enrolled_at(site, old(ids)@)
                    &&& final(ids)@ == crate::id::successor(a.ctx@.id@)
                },
                None => site.home().ran_out(old(ids)@, site.parent()) && final(ids)@ == old(ids)@,
            },
    {
        proof {
            use_type_invariant(&site);
        }
        let ghost at = site;
        let SpawnSite { system, parent, token: above } = site;
        let token = above.child_token();
        proof {
            assert forall|source: CancellationToken| #[trigger]
                crate::cascade::stops_with(above, source) implies crate::cascade::stops_with(
                token,
                source,
            ) by {
                crate::cascade::lemma_child_stops_with(token, above, source);
            }
        }
        let (actor, inbox) = open_inbox_under(token, opts.buffer);
        let name = shared_text(opts.name.as_str());
        let entry = entry_of(&name, parent, &actor, &inbox);
        let ghost node = entry@;
        match system.enter(ids, entry) {
            Some(id) => {
                let a = settle(
                    &system,
                    id,
                    name,
                    parent,
                    opts.max_restarts,
                    (actor, inbox),
                    Ghost(opts.buffer),
                );
                assert(at.home().entered(a.ctx@.id, node, old(ids)@) && a.is_shown_by(node));
                Some(a)
            },
            None => None,
        }
    }

    /// Set up a started system: a root actor that anchors the tree, and the
    /// status actor as its child. Both have the default tuning.
    pub fn start(ids: &mut IdSequence) -> (b: Boot)
        requires
            old(ids)@ < u64::MAX,
        ensures
            final(ids)@ == crate::id::successor(crate::id::successor(old(ids)@)),
            b.root.begins(b.system, 3, 16),
            b.root.ctx@.id@ == old(ids)@,
            b.root.ctx@.name == "root"@,
            b.root.ctx@.parent is None,
            b.status.begins(b.system, 3, 16),
            b.status.ctx@.id@ == crate::id::successor(old(ids)@),
            b.status.ctx@.name == "status"@,
            b.status.ctx@.parent == Some(b.root.ctx@.id),
            crate::cascade::stops_with(b.status.ctx@.token, b.root.ctx@.token),
            b.tree_is_up(),
            crate::outside::independent(b.system.root_source()),
            b.system.root_actor() == Some(b.root.ctx@.id),
            b.system.root_keeper() == Some(b.root.actor),
            b.system.status_actor() is Some,
            b.system.status_actor()->0.target() == b.status.actor,
            b.system.feeds(b.feed),
    {
        let opts = SpawnOptions::default();
        let token = CancellationToken::new();
        let root_token = token.child_token();
        let status_token = root_token.child_token();
        proof {
            crate::cascade::lemma_stops_with_itself(token);
            crate::cascade::lemma_stops_with_itself(root_token);
            crate::cascade::lemma_child_stops_with(root_token, token, token);
            crate::cascade::lemma_child_stops_with(status_token, root_token, token);
            crate::cascade::lemma_child_stops_with(status_token, root_token, root_token);
        }
        let (root_ref, root_inbox) = open_inbox_under::<()>(root_token, opts.buffer);
        let (status_ref, status_inbox) = open_inbox_under::<StatusMsg>(status_token, opts.buffer);
        let root_name = shared_text("root");
        let status_name = shared_text("status");

        let mut roster = Roster::new();
        let root_entry = entry_of(&root_name, None, &root_ref, &root_inbox);
        let ghost root_node = root_entry@;
        let root_id = roster.enter(ids, root_entry).unwrap();
        let status_entry = entry_of(&status_name, Some(root_id), &status_ref, &status_inbox);
        let ghost status_node = status_entry@;
        let status_id = roster.enter(ids, status_entry).unwrap();

        let system = ActorSystem::around(
            token,
            roster,
            Some(root_id),
            Some(root_ref.clone()),
            Some(StatusRef::new(status_ref.clone())),
        );
        let root = settle(
            &system,
            root_id,
            root_name,
            None,
            opts.max_restarts,
            (root_ref, root_inbox),
            Ghost(opts.buffer),
        );
        let status = settle(
            &system,
            status_id,
            status_name,
            Some(root_id),
            opts.max_restarts,
            (status_ref, status_inbox),
            Ghost(opts.buffer),
        );
        let feed = system.events();
        let b = Boot { system, root, status, feed };
        assert(b.first_tree(root_node, status_node) == roster@.tree);
        b
    }
}

impl<M: Send + 'static> Enrollment<M> {
    /// The actor was entered into the tree of the site's system under the first
    /// fresh number from `next` on, and stops with whatever the site stops with.
    pub open spec fn enrolled_at(self, site: SpawnSite, next: u64) -> bool {
        &&& exists|node: Node| #[trigger]
            site.home().entered(self.ctx@.id, node, next) && self.is_shown_by(node)
        &&& crate::outside::child_of(self.ctx@.token, site.token())
        &&& forall|source: CancellationToken| #[trigger]
            crate::cascade::stops_with(site.token(), source) ==> crate::cascade::stops_with(
                self.ctx@.token,
                source,
            )
    }
}

/// A started system whose two first actors are about to run.
pub struct Boot {
    pub system: ActorSystem,
    /// The root actor: it never receives anything.
    pub root: Enrollment<()>,
    /// The status actor.
    pub status: Enrollment<StatusMsg>,
    /// The events that go into the status actor's log.
    pub feed: broadcast::Receiver<SupervisionEvent>,
}

impl Boot {
    /// The tree that holds these two nodes, the first for the root actor and the
    /// second for the status actor.
    pub open spec fn first_tree(self, root: Node, status: Node) -> Tree {
        crate::tree::registered(
            crate::tree::registered(Map::<ActorId, Node>::empty(), self.root.ctx@.id, root),
            self.status.ctx@.id,
            status,
        )
    }

    /// The system began with the root actor and the status actor in its tree, and
    /// nobody else.
    pub open spec fn tree_is_up(self) -> bool {
        exists|root: Node, status: Node|
            {
                &&& self.system.began_with(#[trigger] self.first_tree(root, status))
                &&& self.root.is_shown_by(root)
                &&& self.status.is_shown_by(status)
            }
    }
}

/// Whoever entered the tree was new to it, and the tree went from what it was to
/// that with the newcomer.
pub proof fn lemma_entered(system: ActorSystem, id: ActorId, node: Node, next: u64)
    requires
        system.entered(id, node, next),
    ensures
        exists|t: Tree| #[trigger]
            system.tree_went(t, crate::tree::registered(t, id, node)) && crate::tree::unknown(
                t,
                id,
            ),
        next <= id@,
{
    let (youngest, t) = choose|youngest: Option<u64>, t: Tree|
        {
            &&& #[trigger] system.entry_tried(
                youngest,
                t,
                crate::tree::registered(t, id, node),
            )
            &&& system.sound_tree(t)
            &&& system.sound_tree(crate::tree::registered(t, id, node))
            &&& crate::tree::unknown(t, id)
            &&& crate::roster::first_fresh(next, youngest, node.parent) == Some(id@)
        };
    assert(system.tree_went(t, crate::tree::registered(t, id, node)));
}

/// Shutdown stops everything: once the root token of a system is cancelled, every
/// actor that was enrolled in it is told to stop, the root actor, the status actor
/// and all descendants included, whether the system was started or not.
pub proof fn law_shutdown_stops_everybody<M: Send + 'static>(
    system: ActorSystem,
    a: Enrollment<M>,
    max_restarts: u32,
    buffer: usize,
)
    requires
        a.begins(system, max_restarts, buffer),
        crate::outside::cancelled(system.root_source()),
    ensures
        crate::cascade::told_to_stop(a.actor.token()),
        crate::cascade::told_to_stop(a.inbox.token),
{
}

/// A child stops with its parent: an actor enrolled at the site of a context is
/// told to stop as soon as the token of that context is.
pub proof fn law_children_stop_with_their_parent<P: Send + 'static, M: Send + 'static>(
    parent: Context<P>,
    site: SpawnSite,
    child: Enrollment<M>,
    next: u64,
)
    requires
        crate::cascade::stops_with(site.token(), parent@.token),
        child.enrolled_at(site, next),
        crate::cascade::told_to_stop(parent@.token),
    ensures
        crate::cascade::told_to_stop(child.ctx@.token),
{
    assert(crate::cascade::stops_with(child.ctx@.token, parent@.token));
    crate::cascade::law_cascade_reaches_everybody_below(child.ctx@.token, parent@.token);
}

/// A child leaves its parent alone: whatever is cancelled by or below an actor that
/// was enrolled at the site of a context does not reach that context's token. The
/// parent is told to stop only by somebody who cancels another token.
pub proof fn law_children_spare_their_parent<P: Send + 'static, M: Send + 'static>(
    parent: Context<P>,
    site: SpawnSite,
    child: Enrollment<M>,
    next: u64,
    max_restarts: u32,
    buffer: usize,
)
    requires
        crate::cascade::stops_with(site.token(), parent@.token),
        child.enrolled_at(site, next),
        child.begins(site.home(), max_restarts, buffer),
    ensures
        forall|t: CancellationToken| #[trigger]
            crate::cascade::stops_with(t, child.ctx@.token) ==> !crate::cascade::stops_with(
                parent@.token,
                t,
            ),
        crate::cascade::told_to_stop(parent@.token) ==> crate::cascade::told_to_stop_apart_from(
            parent@.token,
            child.ctx@.token,
        ),
{
    crate::cascade::law_children_spare_those_above(
        child.ctx@.token,
        site.token(),
        parent@.token,
    );
}

impl Default for ActorSystem {
    fn default() -> (s: ActorSystem)
        ensures
            s.began_with(Map::<ActorId, Node>::empty()),
            crate::outside::independent(s.root_source()),
            s.root_actor() is None,
            s.status_actor() is None,
    {
        ActorSystem::new()
    }
}

} // verus!
