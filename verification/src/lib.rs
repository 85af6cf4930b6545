//! Control logic for keeping named conda environments in step with what their
//! manifests ask for.
//!
//! The heart of the library is in four modules. [`satisfaction`] decides
//! whether the packages installed in an environment already meet its desired
//! dependencies. [`coordinator`] sees to it that an environment is updated
//! once, however many callers ask for it. [`reconcile`] drives the
//! reconciliation of a list of environments and builds the [`lock`] artifact.
//! [`transaction`] makes a batch of [`manifest`] edits all-or-nothing.
//!
//! Nothing in here touches the disk, the network or the clock. Where outside
//! work is due, the library says what to do next and is told how it went.
//!
//! Around this stand the smaller decisions of the command line tools:
//! validated [`environment_name`]s and the [`registry`] of environments, what
//! a new environment is created from ([`input`], [`create`]), the table of a
//! transaction ([`report`]), the slots of an installation's observer
//! ([`progress`]), and which [`executables`] of a package are exposed through
//! which [`scripts`].

pub mod constraint;
pub mod coordinator;
pub mod create;
pub mod environment_name;
pub mod executables;
pub mod input;
pub mod lock;
pub mod manifest;
pub mod ordering;
pub mod progress;
pub mod reconcile;
pub mod registry;
pub mod report;
pub mod satisfaction;
pub mod scripts;
pub mod state_changes;
pub mod transaction;
