//! # kathputli: a typed-mailbox actor primitive
//!
//! Actors respond to messages the way puppets respond to strings. This library
//! holds what actors, pools, registries and supervised actor systems decide and
//! compute; a thin layer around it runs the tasks, waits, and calls back.
//!
//! ## Actors
//!
//! An unsupervised actor is set up by [`handle::open_inbox`], which gives its
//! owner an [`ActorRef`] and its receive loop an [`handle::Inbox`]. An
//! [`ActorHandle`] only communicates; an [`ActorRef`] also controls the actor's
//! lifetime. [`ActorPool`] spreads messages over identical actors,
//! [`ActorRegistry`] keeps one actor per name.
//!
//! ## Actor system
//!
//! An [`ActorSystem`] supervises actors: [`ActorSystem::enroll`] enters one into
//! the tree, [`supervisor::Life`] decides what follows when it panics and cleans
//! up when it ends, [`incarnation::Incarnation`] drives its receive loop.
//!
//! ### Restart policy
//!
//! Each actor restarts up to `max_restarts` times (default 3) on panic. After the
//! limit is reached, the system announces [`SupervisionEvent::Failed`] and the
//! actor dies for good. The mailbox survives restarts: only the message in hand is
//! lost to a panic.
//!
//! ### Shutdown flavours
//!
//! * [`ActorRef::poison`]: drain pending messages, then stop.
//! * [`ActorRef::shutdown`], and [`ActorSystem::shutdown`] for the whole system:
//!   stop as soon as the message in hand is done, and all descendants too.
//! * Nobody refers to the actor any more: handle what is in the mailbox, then stop.
//!   What counts as a reference is the matter of [`presence`].
//!
//! ## What the contracts speak of
//!
//! Values that only one task sees have exact contracts. What several tasks share
//! (counters, the tree, mailboxes, tokens) may change between any two calls; the
//! contracts then say what a call found, which calls it made with which arguments,
//! and what it left behind: see [`shared`] and [`outside`]. That nothing else was
//! done is said of whoever can act only through what keeps a log, see [`reach`] and
//! [`turns`]. What holds of the library as a whole stands with its parts, and in
//! [`laws`].
pub mod actor_ref;
pub mod cascade;
pub mod context;
pub mod departure;
pub mod dial;
pub mod envelope;
pub mod event;
pub mod handle;
pub mod id;
pub mod incarnation;
pub mod laws;
pub mod life;
pub mod lifecycle;
pub mod lookout;
pub mod outside;
pub mod pool;
pub mod presence;
pub mod reach;
pub mod registry;
pub mod roster;
pub mod seat;
pub mod setback;
pub mod shared;
pub mod stats;
pub mod status;
pub mod status_actor;
pub mod supervisor;
pub mod text;
pub mod tree;
pub mod tree_laws;
pub mod turns;
pub mod turnstile;

pub use actor_ref::ActorRef;
pub use context::Context;
pub use envelope::Envelope;
pub use event::SupervisionEvent;
pub use handle::ActorHandle;
pub use id::{ActorId, IdSequence};
pub use lifecycle::SpawnOptions;
pub use pool::ActorPool;
pub use registry::ActorRegistry;
pub use stats::ActorStatsSnapshot;
pub use status::{ActorNode, ActorStatus, StatusMsg, StatusRef};
pub use supervisor::ActorSystem;
