//! The administrative read surface: the decisions behind the HTTP handlers.
//!
//! The handlers share nothing with the live session registry: they read and
//! delete rows of the stores. The surrounding HTTP framework only turns
//! these results into responses.

use crate::store::{contains_id, rows_view, sorted_desc, MemoryDb, MessageInfo, RowView, UserApiDto};
use vstd::prelude::*;

verus! {

/// The status code of the liveness probe: always 200 with an empty body.
pub fn health_check() -> (r: u16)
    ensures
        r == 200,
{
    200
}

/// The status code answering a user deletion that affected `rows` rows:
/// 204 on exactly one deleted row, 404 otherwise.
pub fn delete_status(rows: u64) -> (r: u16)
    ensures
        r == 204 <==> rows == 1,
        r == 204 || r == 404,
{
    if rows == 1 {
        204
    } else {
        404
    }
}

/// Deletes a user by id and answers with the HTTP status: 204 exactly when
/// the id named a row — which is then the one row removed — and 404 exactly
/// when it was unknown.
pub fn delete_user(db: &mut MemoryDb, id: u128) -> (r: u16)
    requires
        old(db).wf(),
        old(db).users().len() <= u64::MAX,
    ensures
        final(db).wf(),
        final(db).users() == old(db).users().filter(|u: crate::credentials::User| u.id != id),
        r == 204 || r == 404,
        (r == 204) == contains_id(old(db).users(), id),
        (r == 204) == (old(db).users().len() - final(db).users().len() == 1),
        r == 404 ==> final(db).users() == old(db).users(),
    {
        let rows = db.remove_user(id);
        delete_status(rows)
    }

/// Reads the bounded message history for the admin surface; the missing
/// filter is the empty prefix. Exactly what the store's bounded read
/// returns: up to the 50 most recent qualifying rows, newest first.
pub fn get_messages(db: &MemoryDb, username_prefix: &str) -> (r: Vec<MessageInfo>)
    ensures
        r@.len() <= 50,
        r@.len() == if db.qualifying(username_prefix@).len() <= 50 {
            db.qualifying(username_prefix@).len() as int
        } else {
            50int
        },
        forall|i: int|
            0 <= i < r@.len() ==> db.row_from(username_prefix@, #[trigger] r@[i]),
        forall|i: int, j: int| 0 <= i < j < r@.len() ==> r@[i].timestamp >= r@[j].timestamp,
        exists|rest: Seq<RowView>|
            {
                &&& #[trigger] (rows_view(r@) + rest).to_multiset() == db.qualifying(
                    username_prefix@,
                ).map_values(db.join_fn()).to_multiset()
                &&& sorted_desc(rows_view(r@) + rest)
                &&& (rest.len() > 0 ==> r@.len() == 50)
            },
{
    db.get_messages(username_prefix)
}

/// Enumerates the users for the admin surface.
pub fn get_users(db: &MemoryDb) -> (r: Vec<UserApiDto>)
    ensures
        r@.len() == db.users().len(),
        forall|i: int|
            0 <= i < r@.len() ==> (#[trigger] r@[i]).id == db.users()[i].id && r@[i].username@
                == db.users()[i].username@,
{
    db.get_users()
}

} // verus!
