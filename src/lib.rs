//! A singly linked list with push, pop and peek at the head, reversal, and
//! conversion to and from a `Vec`, each stated over the list's contents as a
//! sequence in pop order.
pub mod laws;
mod list;

pub use list::{Node, SimpleLinkedList};
