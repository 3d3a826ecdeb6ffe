//! Named publish/subscribe groups over a bounded broadcast channel.
//!
//! A [`group_table::GroupTable`] holds one [`group::Group`] for each name.
//! Posting to a group publishes to its [`channel::Channel`]; joining attaches
//! a subscriber, whose delivery task is a [`delivery::Subscription`].
//! Everything here is sequential: a program that shares a table among tasks
//! keeps it behind a lock.

pub mod channel;
pub mod decimal;
pub mod delivery;
pub mod group;
pub mod group_table;
