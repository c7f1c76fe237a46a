//! An address book driven by a unidirectional store.
//!
//! - `address_book`: contacts, the state, the actions and the reducer.
//! - `middleware`: the middlewares, the effects they ask for, and how a
//!   provider's reply becomes a contact.
//! - `store`: the dispatch pipeline, its history, and the laws it keeps.
//! - `command`: the words of the line-oriented front end and contact ids.
//! - `layout`: boxes laid out on a terminal canvas.
//! - `tree`: nodes that own their children and name their parent.

use vstd::prelude::*;

pub mod address_book;
pub mod command;
pub mod layout;
pub mod middleware;
pub mod store;
pub mod tree;

verus! {

/// Entry point of the tree demonstration; it has nothing to do.
pub fn run() {
}

} // verus!
