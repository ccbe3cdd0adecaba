//! Named registry of actor handles.

use std::time::Duration;
use vstd::prelude::*;
use vstd::string::*;

use crate::handle::ActorHandle;
use crate::stats::ActorStatsSnapshot;

verus! {

/// What was seen of one child when idle ones were looked for.
pub struct Observation {
    /// The child's counters and mailbox depth.
    pub snapshot: ActorStatsSnapshot,
    /// How long it had been idle; `None` if it has never handled a message.
    pub idle: Option<Duration>,
}

impl Observation {
    /// A child is evictable when it is not busy, has an empty mailbox, and has
    /// been idle for at least `ttl`. One that has never handled a message is kept:
    /// it is likely mid-spawn.
    pub open spec fn evictable(self, ttl: Duration) -> bool {
        &&& !self.snapshot.is_busy
        &&& self.snapshot.mailbox_depth == 0
        &&& self.idle matches Some(d) && crate::outside::nanos(d) >= crate::outside::nanos(ttl)
    }

    /// Whether a child seen like this may be evicted.
    pub fn is_evictable(&self, ttl: Duration) -> (b: bool)
        ensures
            b == self.evictable(ttl),
    {
        !self.snapshot.is_busy && self.snapshot.mailbox_depth == 0 && match self.idle {
            Some(d) => d.as_nanos() >= ttl.as_nanos(),
            None => false,
        }
    }
}

/// What is registered under `id`.
pub open spec fn looked_up<V>(m: Map<Seq<char>, V>, id: Seq<char>) -> Option<V> {
    if m.contains_key(id) {
        Some(m[id])
    } else {
        None
    }
}

/// A child that was registered is found again under its id, and nobody else is
/// touched; one that was removed is not found any more.
pub proof fn law_registry_finds_what_was_registered<V>(
    m: Map<Seq<char>, V>,
    id: Seq<char>,
    v: V,
    other: Seq<char>,
)
    ensures
        looked_up(m.insert(id, v), id) == Some(v),
        looked_up(m.remove(id), id) is None,
        other != id ==> looked_up(m.insert(id, v), other) == looked_up(m, other),
        other != id ==> looked_up(m.remove(id), other) == looked_up(m, other),
{
}

/// Whoever asks for `id` now makes a child: there is none.
pub open spec fn makes_one<V>(m: Map<Seq<char>, V>, id: Seq<char>) -> bool {
    !m.contains_key(id)
}

/// The registry after `id` has been asked for by somebody who would register `v`.
pub open spec fn kept_or_made<V>(m: Map<Seq<char>, V>, id: Seq<char>, v: V) -> Map<Seq<char>, V> {
    if m.contains_key(id) {
        m
    } else {
        m.insert(id, v)
    }
}

/// The registry after several have asked for `id`, one after the other, each of
/// whom would register what stands at their place in `made`.
pub open spec fn after_askers<V>(
    m: Map<Seq<char>, V>,
    id: Seq<char>,
    made: Seq<V>,
) -> Map<Seq<char>, V>
    decreases made.len(),
{
    if made.len() == 0 {
        m
    } else {
        kept_or_made(after_askers(m, id, made.drop_last()), id, made.last())
    }
}

/// How many of those who ask, one after the other, make a child.
pub open spec fn children_made<V>(m: Map<Seq<char>, V>, id: Seq<char>, made: Seq<V>) -> nat
    decreases made.len(),
{
    if made.len() == 0 {
        0
    } else {
        children_made(m, id, made.drop_last()) + if makes_one(
            after_askers(m, id, made.drop_last()),
            id,
        ) {
            1nat
        } else {
            0nat
        }
    }
}

/// Created only once: however many ask for a child that is not registered, in
/// whatever order their turns come, one child is made. It is the first who makes
/// and registers it, and everybody gets that one.
pub proof fn law_created_only_once<V>(
    m: Map<Seq<char>, V>,
    id: Seq<char>,
    made: Seq<V>,
    asker: int,
)
    requires
        !m.contains_key(id),
        0 <= asker < made.len(),
    ensures
        after_askers(m, id, made) == m.insert(id, made[0]),
        children_made(m, id, made) == 1,
        makes_one(after_askers(m, id, made.take(asker)), id) <==> asker == 0,
        looked_up(after_askers(m, id, made.take(asker + 1)), id) == Some(made[0]),
{
    lemma_after_askers(m, id, made);
    lemma_after_askers(m, id, made.take(asker + 1));
    if asker > 0 {
        lemma_after_askers(m, id, made.take(asker));
    }
}

proof fn lemma_after_askers<V>(m: Map<Seq<char>, V>, id: Seq<char>, made: Seq<V>)
    requires
        !m.contains_key(id),
        made.len() > 0,
    ensures
        after_askers(m, id, made) == m.insert(id, made[0]),
        children_made(m, id, made) == 1,
    decreases made.len(),
{
    let front = made.drop_last();
    if front.len() > 0 {
        lemma_after_askers(m, id, front);
    } else {
        assert(after_askers(m, id, front) == m);
        assert(children_made(m, id, front) == 0);
    }
}

/// The keys of a list of pairs.
pub open spec fn keys_of<T>(pairs: Seq<(String, T)>) -> Seq<Seq<char>> {
    pairs.map_values(|p: (String, T)| p.0@)
}

/// `keys` lists the keys of `m`, each once.
pub open spec fn lists_keys<V>(keys: Seq<Seq<char>>, m: Map<Seq<char>, V>) -> bool {
    &&& keys.no_duplicates()
    &&& forall|k: Seq<char>| #[trigger] keys.contains(k) <==> m.contains_key(k)
}

/// `seen` holds one observation of each child: what its handle reported, and the
/// idle time at the clock's reading.
pub open spec fn observed<Msg: Send + 'static>(
    m: Map<Seq<char>, ActorHandle<Msg>>,
    seen: Seq<(String, Observation)>,
) -> bool {
    &&& lists_keys(keys_of(seen), m)
    &&& forall|i: int|
        0 <= i < seen.len() ==> m[seen[i].0@].reports((#[trigger] seen[i]).1.snapshot)
            && seen[i].1.snapshot.idle_read(seen[i].1.idle)
}

/// `idle` is how long the child had been idle when it was looked at; `None` if it
/// is absent or had never handled a message.
pub open spec fn idle_of<Msg: Send + 'static>(
    m: Map<Seq<char>, ActorHandle<Msg>>,
    id: Seq<char>,
    idle: Option<Duration>,
) -> bool {
    if m.contains_key(id) {
        exists|s: ActorStatsSnapshot| #[trigger] m[id].reports(s) && s.idle_read(idle)
    } else {
        idle is None
    }
}

/// The keys of the evictable ones among the observations, in their order.
pub open spec fn evicted_keys(seen: Seq<(String, Observation)>, ttl: Duration) -> Seq<Seq<char>>
    decreases seen.len(),
{
    if seen.len() == 0 {
        seq![]
    } else {
        let before = evicted_keys(seen.drop_last(), ttl);
        if seen.last().1.evictable(ttl) {
            before.push(seen.last().0@)
        } else {
            before
        }
    }
}

/// Eviction spares whoever may still be needed: a child that is busy, one with
/// messages waiting, one that was active within the `ttl`, and one that has never
/// handled a message.
pub proof fn law_eviction_spares_the_needed<Msg: Send + 'static>(
    m: Map<Seq<char>, ActorHandle<Msg>>,
    seen: Seq<(String, Observation)>,
    ttl: Duration,
    i: int,
)
    requires
        observed(m, seen),
        0 <= i < seen.len(),
        ({
            let o = seen[i].1;
            ||| o.snapshot.is_busy
            ||| o.snapshot.mailbox_depth > 0
            ||| o.snapshot.last_activity is None
            ||| o.idle matches Some(d) && crate::outside::nanos(d) < crate::outside::nanos(ttl)
        }),
    ensures
        !evicted_keys(seen, ttl).contains(seen[i].0@),
        looked_up(m.remove_keys(evicted_keys(seen, ttl).to_set()), seen[i].0@) == Some(
            m[seen[i].0@],
        ),
{
    lemma_evicted(seen, ttl);
    assert(keys_of(seen)[i] == seen[i].0@);
    assert(keys_of(seen).contains(seen[i].0@));
    if evicted_keys(seen, ttl).contains(seen[i].0@) {
        let j = choose|j: int|
            0 <= j < seen.len() && seen[j].0@ == seen[i].0@ && (#[trigger] seen[j]).1.evictable(
                ttl,
            );
        assert(keys_of(seen)[i] == keys_of(seen)[j]);
    }
}

/// Exactly the evictable children are evicted.
pub proof fn law_eviction_takes_the_evictable(seen: Seq<(String, Observation)>, ttl: Duration)
    ensures
        forall|k: Seq<char>| #[trigger]
            evicted_keys(seen, ttl).contains(k) <==> exists|j: int|
                0 <= j < seen.len() && seen[j].0@ == k && (#[trigger] seen[j]).1.evictable(ttl),
{
    lemma_evicted(seen, ttl);
}

proof fn lemma_evicted(seen: Seq<(String, Observation)>, ttl: Duration)
    ensures
        forall|k: Seq<char>| #[trigger]
            evicted_keys(seen, ttl).contains(k) <==> exists|j: int|
                0 <= j < seen.len() && seen[j].0@ == k && (#[trigger] seen[j]).1.evictable(ttl),
    decreases seen.len(),
{
    if seen.len() > 0 {
        let front = seen.drop_last();
        let n = seen.len() - 1;
        lemma_evicted(front, ttl);
        let before = evicted_keys(front, ttl);
        assert forall|k: Seq<char>| #[trigger] evicted_keys(seen, ttl).contains(k) <==> exists|
            j: int,
        |
            0 <= j < seen.len() && seen[j].0@ == k && (#[trigger] seen[j]).1.evictable(ttl) by {
            if before.contains(k) {
                let j = choose|j: int|
                    0 <= j < front.len() && front[j].0@ == k && (#[trigger] front[j]).1.evictable(
                        ttl,
                    );
                assert(seen[j] == front[j]);
                if seen.last().1.evictable(ttl) {
                    assert(evicted_keys(seen, ttl)[before.index_of(k)] == k);
                }
            }
            if seen[n].1.evictable(ttl) && seen[n].0@ == k {
                assert(evicted_keys(seen, ttl)[before.len() as int] == k);
            }
            if exists|j: int|
                0 <= j < seen.len() && seen[j].0@ == k && (#[trigger] seen[j]).1.evictable(ttl) {
                let j = choose|j: int|
                    0 <= j < seen.len() && seen[j].0@ == k && (#[trigger] seen[j]).1.evictable(
                        ttl,
                    );
                if j < n {
                    assert(front[j] == seen[j]);
                }
            }
            if evicted_keys(seen, ttl).contains(k) && !before.contains(k) {
                let i = evicted_keys(seen, ttl).index_of(k);
                if i < before.len() {
                    assert(before[i] == k);
                }
            }
        }
    }
}

/// Named registry for actor handles: find or create.
///
/// Useful for per-entity actors. The registry is intended to hold the canonical
/// handle for each entity: callers fetch a clone, use it for a single operation,
/// and drop it.
///
/// The registry has no background reaper: it never evicts on its own. A parent
/// observes its children via [`ActorRegistry::snapshot`] and reclaims idle ones
/// by calling [`ActorRegistry::evict_idle`] on its own schedule.
#[verifier::reject_recursive_types(Msg)]
pub struct ActorRegistry<Msg: Send + 'static> {
    actors: Vec<(String, ActorHandle<Msg>)>,
}

/// No two entries have the same key.
spec fn distinct<Msg: Send + 'static>(actors: Seq<(String, ActorHandle<Msg>)>) -> bool {
    forall|i: int, j: int|
        0 <= i < j < actors.len() ==> (#[trigger] actors[i]).0@ != (#[trigger] actors[j]).0@
}

/// The entry number `i` has this key.
spec fn at<Msg: Send + 'static>(
    actors: Seq<(String, ActorHandle<Msg>)>,
    i: int,
    key: Seq<char>,
) -> bool {
    0 <= i < actors.len() && actors[i].0@ == key
}

/// The entries as a map.
spec fn as_map<Msg: Send + 'static>(actors: Seq<(String, ActorHandle<Msg>)>) -> Map<
    Seq<char>,
    ActorHandle<Msg>,
> {
    Map::new(
        |key: Seq<char>| exists|i: int| at(actors, i, key),
        |key: Seq<char>| actors[choose|i: int| at(actors, i, key)].1,
    )
}

proof fn lemma_lookup<Msg: Send + 'static>(actors: Seq<(String, ActorHandle<Msg>)>, i: int)
    requires
        distinct(actors),
        0 <= i < actors.len(),
    ensures
        as_map(actors).contains_key(actors[i].0@),
        as_map(actors)[actors[i].0@] == actors[i].1,
{
    let key = actors[i].0@;
    assert(at(actors, i, key));
    let j = choose|j: int| at(actors, j, key);
    assert(at(actors, j, key));
    if i < j {
        assert(actors[i].0@ != actors[j].0@);
    }
    if j < i {
        assert(actors[j].0@ != actors[i].0@);
    }
}

proof fn lemma_pushed<Msg: Send + 'static>(
    actors: Seq<(String, ActorHandle<Msg>)>,
    key: String,
    handle: ActorHandle<Msg>,
)
    requires
        distinct(actors),
        !as_map(actors).contains_key(key@),
    ensures
        distinct(actors.push((key, handle))),
        as_map(actors.push((key, handle))) == as_map(actors).insert(key@, handle),
{
    let more = actors.push((key, handle));
    assert forall|i: int, j: int| 0 <= i < j < more.len() implies (#[trigger] more[i]).0@ != (
    #[trigger] more[j]).0@ by {
        if j == actors.len() {
            assert(!at(actors, i, key@));
        }
    }
    let want = as_map(actors).insert(key@, handle);
    assert forall|k: Seq<char>| #[trigger] as_map(more).contains_key(k) <==> want.contains_key(k) by {
        if as_map(more).contains_key(k) {
            let i = choose|i: int| at(more, i, k);
            if i < actors.len() {
                assert(at(actors, i, k));
            }
        }
        if as_map(actors).contains_key(k) {
            let i = choose|i: int| at(actors, i, k);
            assert(at(more, i, k));
        }
        if k == key@ {
            assert(at(more, actors.len() as int, k));
        }
    }
    assert forall|k: Seq<char>| #[trigger] as_map(more).contains_key(k) implies as_map(more)[k]
        == want[k] by {
        let i = choose|i: int| at(more, i, k);
        lemma_lookup(more, i);
        if i < actors.len() {
            lemma_lookup(actors, i);
        }
    }
    assert(as_map(more) =~= want);
}

proof fn lemma_removed<Msg: Send + 'static>(actors: Seq<(String, ActorHandle<Msg>)>, at_index: int)
    requires
        distinct(actors),
        0 <= at_index < actors.len(),
    ensures
        distinct(actors.remove(at_index)),
        as_map(actors.remove(at_index)) == as_map(actors).remove(actors[at_index].0@),
{
    let fewer = actors.remove(at_index);
    let key = actors[at_index].0@;
    assert forall|i: int, j: int| 0 <= i < j < fewer.len() implies (#[trigger] fewer[i]).0@ != (
    #[trigger] fewer[j]).0@ by {
        let i0 = if i < at_index {
            i
        } else {
            i + 1
        };
        let j0 = if j < at_index {
            j
        } else {
            j + 1
        };
        assert(fewer[i] == actors[i0]);
        assert(fewer[j] == actors[j0]);
    }
    let want = as_map(actors).remove(key);
    assert forall|k: Seq<char>| #[trigger] as_map(fewer).contains_key(k) <==> want.contains_key(
        k,
    ) by {
        if as_map(fewer).contains_key(k) {
            let i = choose|i: int| at(fewer, i, k);
            let i0 = if i < at_index {
                i
            } else {
                i + 1
            };
            assert(at(actors, i0, k));
            if i0 < at_index {
                assert(actors[i0].0@ != actors[at_index].0@);
            } else {
                assert(actors[at_index].0@ != actors[i0].0@);
            }
        }
        if want.contains_key(k) {
            let i = choose|i: int| at(actors, i, k);
            if i < at_index {
                assert(at(fewer, i, k));
            } else {
                assert(at(fewer, i - 1, k));
            }
        }
    }
    assert forall|k: Seq<char>| #[trigger] as_map(fewer).contains_key(k) implies as_map(fewer)[k]
        == want[k] by {
        let i = choose|i: int| at(fewer, i, k);
        lemma_lookup(fewer, i);
        let i0 = if i < at_index {
            i
        } else {
            i + 1
        };
        lemma_lookup(actors, i0);
    }
    assert(as_map(fewer) =~= want);
}

proof fn lemma_size<Msg: Send + 'static>(actors: Seq<(String, ActorHandle<Msg>)>)
    requires
        distinct(actors),
    ensures
        as_map(actors).dom().finite(),
        as_map(actors).len() == actors.len(),
    decreases actors.len(),
{
    if actors.len() == 0 {
        assert(as_map(actors).dom() =~= Set::empty());
    } else {
        let last = actors.len() - 1;
        lemma_removed(actors, last);
        lemma_lookup(actors, last);
        lemma_size(actors.remove(last));
        let key = actors[last].0@;
        assert(as_map(actors).dom() =~= as_map(actors.remove(last)).dom().insert(key));
    }
}

impl<Msg: Send + 'static> View for ActorRegistry<Msg> {
    type V = Map<Seq<char>, ActorHandle<Msg>>;

    closed spec fn view(&self) -> Map<Seq<char>, ActorHandle<Msg>> {
        as_map(self.actors@)
    }
}

impl<Msg: Send + 'static> Default for ActorRegistry<Msg> {
    fn default() -> (r: ActorRegistry<Msg>)
        ensures
            r@ == Map::<Seq<char>, ActorHandle<Msg>>::empty(),
    {
        ActorRegistry::new()
    }
}

impl<Msg: Send + 'static> ActorRegistry<Msg> {
    #[verifier::type_invariant]
    spec fn inv(&self) -> bool {
        distinct(self.actors@)
    }

    /// An empty registry.
    pub fn new() -> (r: ActorRegistry<Msg>)
        ensures
            r@ == Map::<Seq<char>, ActorHandle<Msg>>::empty(),
    {
        let r = ActorRegistry { actors: Vec::new() };
        assert(r@ =~= Map::<Seq<char>, ActorHandle<Msg>>::empty());
        r
    }

    /// The place of a child among the entries.
    fn position(&self, id: &str) -> (p: Option<usize>)
        ensures
            match p {
                Some(i) => at(self.actors@, i as int, id@),
                None => !self@.contains_key(id@),
            },
    {
        let key = String::from_str(id);
        for i in 0..self.actors.len()
            invariant
                key@ == id@,
                forall|j: int| 0 <= j < i ==> !at(self.actors@, j, id@),
        {
            if self.actors[i].0 == key {
                return Some(i);
            }
        }
        None
    }

    /// The handle of a child, if it is registered.
    pub fn get(&self, id: &str) -> (h: Option<ActorHandle<Msg>>)
        ensures
            h == looked_up(self@, id@),
    {
        proof {
            use_type_invariant(self);
        }
        match self.position(id) {
            Some(i) => {
                proof {
                    lemma_lookup(self.actors@, i as int);
                }
                Some(self.actors[i].1.clone())
            },
            None => None,
        }
    }

    /// Register a child; one with the same id is replaced.
    pub fn insert(&mut self, id: String, handle: ActorHandle<Msg>)
        ensures
            final(self)@ == old(self)@.insert(id@, handle),
    {
        self.remove(id.as_str());
        proof {
            use_type_invariant(&*self);
            lemma_pushed(self.actors@, id, handle);
        }
        let mut actors: Vec<(String, ActorHandle<Msg>)> = Vec::new();
        std::mem::swap(&mut actors, &mut self.actors);
        actors.push((id, handle));
        self.actors = actors;
        assert(self@ =~= old(self)@.insert(id@, handle));
    }

    /// Forget a child. Dropping its last handle ends the actor.
    pub fn remove(&mut self, id: &str)
        ensures
            final(self)@ == old(self)@.remove(id@),
    {
        proof {
            use_type_invariant(&*self);
        }
        match self.position(id) {
            Some(i) => {
                proof {
                    lemma_removed(self.actors@, i as int);
                }
                let mut actors: Vec<(String, ActorHandle<Msg>)> = Vec::new();
                std::mem::swap(&mut actors, &mut self.actors);
                actors.remove(i);
                self.actors = actors;
            },
            None => {
                assert(self@.remove(id@) =~= self@);
            },
        }
    }

    /// Returns an existing handle or calls `f` to create one and registers it. `f` is
    /// left alone if there is one: it may then be a function that cannot be called.
    pub fn get_or_insert_with<F: FnOnce() -> ActorHandle<Msg>>(
        &mut self,
        id: String,
        f: F,
    ) -> (h: ActorHandle<Msg>)
        requires
            makes_one(old(self)@, id@) ==> f.requires(()),
        ensures
            old(self)@.contains_key(id@) ==> h == old(self)@[id@] && final(self)@ == old(self)@,
            !old(self)@.contains_key(id@) ==> f.ensures((), h) && final(self)@
                == old(self)@.insert(id@, h),
            final(self)@ == kept_or_made(old(self)@, id@, h),
            looked_up(final(self)@, id@) == Some(h),
    {
        match self.get(id.as_str()) {
            Some(h) => h,
            None => {
                let h = f();
                self.insert(id, h.clone());
                h
            },
        }
    }

    // -- Inspection ---------------------------------------------------------

    /// Number of children currently registered.
    pub fn len(&self) -> (n: usize)
        ensures
            n == self@.len(),
            self@.dom().finite(),
    {
        proof {
            use_type_invariant(self);
            lemma_size(self.actors@);
        }
        self.actors.len()
    }

    /// `true` if no children are registered.
    pub fn is_empty(&self) -> (b: bool)
        ensures
            b == (self@ == Map::<Seq<char>, ActorHandle<Msg>>::empty()),
    {
        proof {
            if self.actors@.len() > 0 {
                assert(at(self.actors@, 0, self.actors@[0].0@));
                assert(self@.contains_key(self.actors@[0].0@));
            } else {
                assert(self@ =~= Map::empty());
            }
        }
        self.actors.len() == 0
    }

    /// `true` if a child with this id is registered.
    pub fn contains(&self, id: &str) -> (b: bool)
        ensures
            b == self@.contains_key(id@),
    {
        self.position(id).is_some()
    }

    proof fn lemma_lists(&self, keys: Seq<Seq<char>>)
        requires
            distinct(self.actors@),
            keys.len() == self.actors@.len(),
            forall|i: int| 0 <= i < keys.len() ==> #[trigger] keys[i] == self.actors@[i].0@,
        ensures
            lists_keys(keys, self@),
    {
        assert forall|i: int, j: int| 0 <= i < keys.len() && 0 <= j < keys.len() && i
            != j implies keys[i] != keys[j] by {
            if i < j {
                assert(self.actors@[i].0@ != self.actors@[j].0@);
            } else {
                assert(self.actors@[j].0@ != self.actors@[i].0@);
            }
        }
        assert forall|k: Seq<char>| #[trigger] keys.contains(k) <==> self@.contains_key(k) by {
            if keys.contains(k) {
                assert(at(self.actors@, keys.index_of(k), k));
            }
            if self@.contains_key(k) {
                let i = choose|i: int| at(self.actors@, i, k);
                assert(keys[i] == k);
            }
        }
    }

    /// Ids of every child, each once, in no particular order.
    pub fn ids(&self) -> (ids: Vec<String>)
        ensures
            lists_keys(crate::text::texts(ids@), self@),
    {
        proof {
            use_type_invariant(self);
        }
        let mut ids: Vec<String> = Vec::new();
        for i in 0..self.actors.len()
            invariant
                ids@.len() == i,
                forall|j: int| 0 <= j < i ==> (#[trigger] ids@[j])@ == self.actors@[j].0@,
        {
            ids.push(self.actors[i].0.clone());
        }
        proof {
            self.lemma_lists(crate::text::texts(ids@));
        }
        ids
    }

    /// The id of every child with its activity: observability, and the raw
    /// material for an eviction policy of one's own.
    pub fn snapshot(&self) -> (all: Vec<(String, ActorStatsSnapshot)>)
        ensures
            lists_keys(keys_of(all@), self@),
            forall|i: int|
                0 <= i < all@.len() ==> self@[all@[i].0@].reports((#[trigger] all@[i]).1),
    {
        proof {
            use_type_invariant(self);
        }
        let mut all: Vec<(String, ActorStatsSnapshot)> = Vec::new();
        for i in 0..self.actors.len()
            invariant
                distinct(self.actors@),
                all@.len() == i,
                forall|j: int|
                    0 <= j < i ==> (#[trigger] all@[j]).0@ == self.actors@[j].0@
                        && self@[all@[j].0@].reports(all@[j].1),
        {
            proof {
                lemma_lookup(self.actors@, i as int);
            }
            all.push((self.actors[i].0.clone(), self.actors[i].1.stats()));
        }
        proof {
            self.lemma_lists(keys_of(all@));
        }
        all
    }

    // -- Eviction -----------------------------------------------------------

    /// How long one child has been idle, or `None` if it is absent or has never
    /// handled a message.
    pub fn idle_for(&self, id: &str) -> (idle: Option<Duration>)
        ensures
            idle_of(self@, id@, idle),
    {
        match self.get(id) {
            Some(handle) => {
                let s = handle.stats();
                assert(self@[id@].reports(s));
                s.idle_for()
            },
            None => None,
        }
    }

    /// Look at every child once.
    pub fn observe(&self) -> (seen: Vec<(String, Observation)>)
        ensures
            observed(self@, seen@),
    {
        proof {
            use_type_invariant(self);
        }
        let mut seen: Vec<(String, Observation)> = Vec::new();
        for i in 0..self.actors.len()
            invariant
                distinct(self.actors@),
                seen@.len() == i,
                forall|j: int|
                    0 <= j < i ==> (#[trigger] seen@[j]).0@ == self.actors@[j].0@
                        && self@[seen@[j].0@].reports(seen@[j].1.snapshot)
                        && seen@[j].1.snapshot.idle_read(seen@[j].1.idle),
        {
            proof {
                lemma_lookup(self.actors@, i as int);
            }
            let snapshot = self.actors[i].1.stats();
            let idle = snapshot.idle_for();
            seen.push((self.actors[i].0.clone(), Observation { snapshot, idle }));
        }
        proof {
            self.lemma_lists(keys_of(seen@));
        }
        seen
    }

    /// Forget the children that are evictable by what was seen of them, and
    /// return their ids.
    pub fn evict(&mut self, seen: &Vec<(String, Observation)>, ttl: Duration) -> (ids: Vec<String>)
        ensures
            crate::text::texts(ids@) == evicted_keys(seen@, ttl),
            final(self)@ == old(self)@.remove_keys(evicted_keys(seen@, ttl).to_set()),
    {
        let mut ids: Vec<String> = Vec::new();
        assert(seen@.take(0) =~= seq![]);
        assert(crate::text::texts(ids@) =~= seq![]);
        assert(old(self)@.remove_keys(Seq::<Seq<char>>::empty().to_set()) =~= old(self)@);
        for i in 0..seen.len()
            invariant
                crate::text::texts(ids@) == evicted_keys(seen@.take(i as int), ttl),
                self@ == old(self)@.remove_keys(
                    evicted_keys(seen@.take(i as int), ttl).to_set(),
                ),
        {
            let ghost before = evicted_keys(seen@.take(i as int), ttl);
            let ghost ids_before = ids@;
            assert(seen@.take(i + 1).drop_last() =~= seen@.take(i as int));
            if seen[i].1.is_evictable(ttl) {
                self.remove(seen[i].0.as_str());
                ids.push(seen[i].0.clone());
                proof {
                    let key = seen@[i as int].0@;
                    assert(crate::text::texts(ids@) =~= before.push(key));
                    assert(before.push(key).to_set() =~= before.to_set().insert(key)) by {
                        broadcast use vstd::seq_lib::group_seq_properties;
                    }
                    assert(self@ =~= old(self)@.remove_keys(before.push(key).to_set()));
                }
            }
        }
        assert(seen@.take(seen@.len() as int) =~= seen@);
        ids
    }

    /// Forget the children that are evictable at the moment and return their
    /// ids. The parent decides when to call this; the registry never sweeps on
    /// its own.
    ///
    /// A child is evictable when it is not busy, has an empty mailbox, and has
    /// been idle for at least `ttl`. Forgetting it drops the registry's handle;
    /// since it is not busy and has an empty mailbox, dropping the last handle ends
    /// the actor with no message lost.
    pub fn evict_idle(&mut self, ttl: Duration) -> (ids: Vec<String>)
        ensures
            exists|seen: Seq<(String, Observation)>| #[trigger]
                observed(old(self)@, seen) && crate::text::texts(ids@) == evicted_keys(seen, ttl)
                    && final(self)@ == old(self)@.remove_keys(evicted_keys(seen, ttl).to_set()),
    {
        let seen = self.observe();
        assert(observed(old(self)@, seen@));
        self.evict(&seen, ttl)
    }
}

} // verus!
