# kathputli

**कठपुतली** is Hindi for "marionette": actors respond to messages the way puppets
respond to strings. This is a typed-mailbox actor library on Tokio whose decisions
are proved with Verus.

## Layout

- `src/` is the library. Every function states what it does and is verified, except
  for what `outside` takes on trust.
  - `id`, `text`, `event`: ids, decimal text, lifecycle events and their log lines.
  - `stats`, `handle`, `actor_ref`, `presence`, `envelope`: counters, mailboxes,
    references, and whether anybody refers to an actor.
  - `pool`, `registry`: round-robin pools, named actors and eviction of idle ones.
  - `incarnation`, `lifecycle`: the receive loop and the restart policy.
  - `tree`, `roster`, `tree_laws`, `cascade`: the supervision tree, and who stops with
    whom.
  - `supervisor`, `context`, `setback`, `departure`, `status`, `status_actor`: the actor
    system.
  - `shared`: what contracts say of values under a lock.
  - `outside`: what is taken from Tokio and the standard library on trust.
- `app/` runs the library on Tokio: it spawns tasks, waits for messages and
  cancellations, catches panics, and serializes statuses.
- `tests/` runs the library.

Public proof functions whose names begin with `law_` state what holds of the library
as a whole; their doc comments say it in words.
