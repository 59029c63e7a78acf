//! Identity-directory administration: paged, searchable listings of users
//! and client applications, user updates, and invitation issuance.

pub mod directory;
pub mod invite;
pub mod models;
pub mod paging;
pub mod pending;
pub mod search;
pub mod text_order;
