//! Audit of a follow list on a federated social network instance: walking the
//! paginated "following" collection, reading its continuation links, and
//! telling active accounts from inactive ones by the date of their last post.

pub mod date;
pub mod fetch;
pub mod instance;
pub mod link;
pub mod text;
pub mod user;
