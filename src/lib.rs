//! Users and their posts: the relational schema with its ordered migrations,
//! an entity store that enforces the foreign key from posts to users, and the
//! request handlers built on that store.

pub mod schema;
pub mod migration;
pub mod migrator;
pub mod store;
pub mod api;
