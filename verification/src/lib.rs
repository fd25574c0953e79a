//! Access control for shared collections of a multi-tenant vault.
//!
//! A collection groups secret records and belongs to one organization. A
//! user reaches it along two independent paths: blanket access, through a
//! membership in the organization that has `access_all`, or an explicit
//! grant of that one collection, which may be read-only. The resolver merges
//! the two paths.
//!
//! * [`entity`] holds the rows and their mathematical values.
//! * [`table`] says what a table with a primary key is: insert-or-replace and
//!   delete by key, over sequences of rows.
//! * [`model`] is the store as a value, and what a user reaches in it.
//! * [`store`] is the store itself, held in memory. Its primary keys are a
//!   type invariant, so no operation asks the caller for anything.
//! * [`resolver`] merges what the two paths gave, under a policy.
//! * [`ident`] makes identifiers, and [`projection`] the JSON form of a
//!   collection.
//! * [`collection`] is what callers use: the operations on
//!   [`Collection`] and [`CollectionUsers`].
//! * [`laws`] states and proves what holds of every store.
//!
//! Three decisions are worth knowing before use.
//!
//! A collection reached along both paths is listed twice by
//! [`Collection::find_by_user_uuid`]. [`resolver::visible_collections`] takes
//! a [`ResolverPolicy`] and lists each identifier once where that is asked
//! for.
//!
//! [`Collection::find_by_uuid_and_user`] looks at explicit grants only. A
//! user who reaches a collection through blanket access alone is not found
//! by it.
//!
//! A write is done iff the store reports exactly one row affected. Revoking
//! a grant that is not there and deleting a collection that was never saved
//! both answer `false`.

pub mod entity;
pub mod table;
pub mod model;
pub mod store;
pub mod resolver;
pub mod ident;
pub mod projection;
pub mod collection;
pub mod laws;

pub use entity::{Collection, CollectionUsers, GrantKey, OrgMembership};
pub use resolver::{IntegrityViolation, ResolverPolicy};
pub use store::Store;
