//! Planky: a list of tasks that can be edited offline and is kept in line with
//! a remote Kanban board of three lists, To Do, Doing and Done.
//!
//! The library is the synchronisation core and the rules of the application
//! around it. It never talks to the board itself. Where an action needs the
//! board, the library names the request, the caller carries it out and hands
//! the answer back, and the library says what the answer means. So every
//! function here is a function of plain values, and its contract says what
//! it returns for each of them.
//!
//! - [`todo`]: a task and the column it is shown in.
//! - [`delta`]: changes that the board reports, applied without overwriting
//!   unsynced local edits.
//! - [`queue`] and [`flush_laws`]: the queue of local changes that wait for
//!   the board, the conversation that flushes it, and what a whole flush
//!   comes to.
//! - [`sync`] and [`resync`]: the full two-way reconciliation of a project
//!   and the conversation that reconciles all projects, and the changes that
//!   one round of polling reports.
//! - [`app`], [`actions`] and [`dialogs`]: the state of the application and
//!   what the user does to it.
//! - [`planka`]: what the board hands over, and which of its lists plays
//!   which part.
//! - [`dates`] and [`due`]: dates as the board sends them and as the user
//!   types them.
//! - [`clock`]: the clock and the calendar, as `chrono` has them.
//! - [`wire`] and [`trace`]: the address and the credential of a request,
//!   and what a record of the traffic with the board shows.
//! - [`text`], [`order`] and [`find`]: texts, their order, and searching in
//!   sequences.

pub mod find;
pub mod text;
pub mod trace;
pub mod wire;
pub mod clock;
pub mod order;
pub mod dates;
pub mod due;
pub mod planka;
pub mod todo;
pub mod delta;
pub mod queue;
pub mod flush_laws;
pub mod sync;
pub mod app;
pub mod actions;
pub mod dialogs;
pub mod resync;
