//! The user and message stores, as one verified in-memory database.
//!
//! The chat relay depends on the stores only through these contracts; any
//! backend honouring them is acceptable. This in-memory form is itself the
//! verified model: usernames are unique, message history is append-only, and
//! the bounded history read is filtered by username prefix and sorted by
//! timestamp, newest first.

use crate::clock::now_timestamp;
use crate::credentials::{new_uuid, User};
use crate::errors::ServerError;
use crate::messages::{rendered_text, Message, MessagePayload};
use crate::strutil::{is_char_prefix, str_eq, str_starts_with};
use vstd::prelude::*;
use vstd::seq_lib::group_seq_lib_default;

verus! {

broadcast use group_seq_lib_default;

/// One persisted chat message: identifier, author, rendered text, timestamp.
pub struct StoredMessage {
    pub id: u128,
    pub user_id: u128,
    pub text: String,
    pub timestamp: i64,
}

/// One row of the bounded history read: message joined with its author.
pub struct MessageInfo {
    pub id: u128,
    pub username: String,
    pub text: String,
    pub timestamp: i64,
}

/// One row of the user enumeration: identifier and username.
pub struct UserApiDto {
    pub id: u128,
    pub username: String,
}

impl Clone for User {
    /// An exact copy, field for field.
    fn clone(&self) -> (res: Self)
        ensures
            res == *self,
    {
        let res = User {
            id: self.id,
            password: self.password.clone(),
            username: self.username.clone(),
            salt: self.salt.clone(),
        };
        res
    }
}

/// The first user in `users` carrying `id`.
pub open spec fn find_by_id(users: Seq<User>, id: u128) -> Option<User>
    decreases users.len(),
{
    if users.len() == 0 {
        None
    } else if users[0].id == id {
        Some(users[0])
    } else {
        find_by_id(users.drop_first(), id)
    }
}

/// Whether some user in `users` is named `name`.
pub open spec fn contains_username(users: Seq<User>, name: Seq<char>) -> bool {
    exists|i: int| 0 <= i < users.len() && users[i].username@ == name
}

/// Whether some user in `users` carries `id`.
pub open spec fn contains_id(users: Seq<User>, id: u128) -> bool {
    exists|i: int| 0 <= i < users.len() && users[i].id == id
}

/// The first user named `name`, scanning in insertion order.
pub open spec fn spec_get_user(users: Seq<User>, name: Seq<char>) -> Option<User>
    decreases users.len(),
{
    if users.len() == 0 {
        None
    } else if users[0].username@ == name {
        Some(users[0])
    } else {
        spec_get_user(users.drop_first(), name)
    }
}

/// A user fetched right after being inserted under a fresh username is the
/// inserted row itself, with its id, username, and salt.
pub proof fn lemma_insert_then_get(users: Seq<User>, u: User)
    requires
        !contains_username(users, u.username@),
    ensures
        spec_get_user(users.push(u), u.username@) == Some(u),
    decreases users.len(),
{
    if users.len() == 0 {
        assert(users.push(u)[0] == u);
    } else {
        assert(users[0].username@ != u.username@) by {
            assert(!(exists|i: int|
                0 <= i < users.len() && users[i].username@ == u.username@));
        }
        assert(users.push(u).drop_first() =~= users.drop_first().push(u));
        assert(!contains_username(users.drop_first(), u.username@)) by {
            if exists|i: int|
                0 <= i < users.drop_first().len() && users.drop_first()[i].username@
                    == u.username@ {
                let i = choose|i: int|
                    0 <= i < users.drop_first().len() && users.drop_first()[i].username@
                        == u.username@;
                assert(users[i + 1].username@ == u.username@);
            }
        }
        lemma_insert_then_get(users.drop_first(), u);
    }
}

/// A user found by id is one of the rows.
pub proof fn lemma_find_by_id_member(users: Seq<User>, id: u128)
    requires
        find_by_id(users, id) is Some,
    ensures
        exists|i: int| 0 <= i < users.len() && users[i] == find_by_id(users, id)->Some_0,
    decreases users.len(),
{
    if users.len() > 0 && users[0].id != id {
        lemma_find_by_id_member(users.drop_first(), id);
        let i = choose|i: int|
            0 <= i < users.drop_first().len() && users.drop_first()[i] == find_by_id(
                users.drop_first(),
                id,
            )->Some_0;
        assert(users[i + 1] == find_by_id(users, id)->Some_0);
    }
}

/// One history row reduced to plain values, for stating what the bounded
/// history read returns.
pub struct RowView {
    pub id: u128,
    pub username: Seq<char>,
    pub text: Seq<char>,
    pub timestamp: int,
}

/// The plain-value view of one returned row.
pub open spec fn row_view(r: MessageInfo) -> RowView {
    RowView { id: r.id, username: r.username@, text: r.text@, timestamp: r.timestamp as int }
}

/// The plain-value view, as a function value.
pub open spec fn row_fn() -> spec_fn(MessageInfo) -> RowView {
    |r: MessageInfo| row_view(r)
}

/// The plain-value views of a row sequence.
pub open spec fn rows_view(rs: Seq<MessageInfo>) -> Seq<RowView> {
    rs.map_values(row_fn())
}

/// Newest first: timestamps never increase along the sequence.
pub open spec fn sorted_desc(vs: Seq<RowView>) -> bool {
    forall|i: int, j: int| 0 <= i < j < vs.len() ==> vs[i].timestamp >= vs[j].timestamp
}

/// A sequence whose every element satisfies the predicate is its own
/// filtrate.
proof fn lemma_filter_all_kept<A>(s: Seq<A>, pred: spec_fn(A) -> bool)
    requires
        forall|i: int| 0 <= i < s.len() ==> pred(#[trigger] s[i]),
    ensures
        s.filter(pred) == s,
    decreases s.len(),
{
    reveal(Seq::filter);
    if s.len() > 0 {
        lemma_filter_all_kept(s.drop_last(), pred);
        assert(s.drop_last().filter(pred).push(s.last()) =~= s);
    }
}

/// The in-memory database: a user table with unique usernames and an
/// append-only message log.
pub struct MemoryDb {
    users: Vec<User>,
    messages: Vec<StoredMessage>,
}

impl MemoryDb {
    /// The user table, in insertion order.
    pub closed spec fn users(&self) -> Seq<User> {
        self.users@
    }

    /// The message log, in insertion order.
    pub closed spec fn messages(&self) -> Seq<StoredMessage> {
        self.messages@
    }

    /// The store's invariant: usernames are unique, and so are the
    /// identifiers (the table's primary key).
    pub open spec fn wf(&self) -> bool {
        &&& forall|i: int, j: int|
            0 <= i < j < self.users().len() ==> self.users()[i].username@
                != self.users()[j].username@
        &&& forall|i: int, j: int|
            0 <= i < j < self.users().len() ==> self.users()[i].id != self.users()[j].id
    }

    /// Whether `m` joins to a user whose name starts with `prefix`.
    pub open spec fn message_qualifies(&self, m: StoredMessage, prefix: Seq<char>) -> bool {
        match find_by_id(self.users(), m.user_id) {
            Some(u) => is_char_prefix(u.username@, prefix),
            None => false,
        }
    }

    /// The qualifying slice of the message log for `prefix`.
    pub open spec fn qualifying(&self, prefix: Seq<char>) -> Seq<StoredMessage> {
        self.messages().filter(|m: StoredMessage| self.message_qualifies(m, prefix))
    }

    /// Whether `row` is the join of some qualifying stored message with its
    /// author.
    pub open spec fn row_from(&self, prefix: Seq<char>, row: MessageInfo) -> bool {
        exists|k: int|
            {
                &&& 0 <= k < self.messages().len()
                &&& {
                    let m = #[trigger] self.messages()[k];
                    match find_by_id(self.users(), m.user_id) {
                        Some(u) => {
                            &&& is_char_prefix(u.username@, prefix)
                            &&& row.id == m.id
                            &&& row.username@ == u.username@
                            &&& row.text@ == m.text@
                            &&& row.timestamp == m.timestamp
                        },
                        None => false,
                    }
                }
            }
    }

    /// The join of one stored message with its author, as plain values. For
    /// a message without an author row the username is empty; such a message
    /// never qualifies.
    pub open spec fn join_view(&self, m: StoredMessage) -> RowView {
        match find_by_id(self.users(), m.user_id) {
            Some(u) => RowView {
                id: m.id,
                username: u.username@,
                text: m.text@,
                timestamp: m.timestamp as int,
            },
            None => RowView {
                id: m.id,
                username: Seq::empty(),
                text: m.text@,
                timestamp: m.timestamp as int,
            },
        }
    }

    /// The join, as a function value, so that every contract speaks of the
    /// same mapping.
    pub open spec fn join_fn(&self) -> spec_fn(StoredMessage) -> RowView {
        |m: StoredMessage| self.join_view(m)
    }

    /// An empty store.
    pub fn new() -> (r: Self)
        ensures
            r.wf(),
            r.users() == Seq::<User>::empty(),
            r.messages() == Seq::<StoredMessage>::empty(),
    {
        MemoryDb { users: Vec::new(), messages: Vec::new() }
    }

    /// Inserts a user; fails exactly on a uniqueness violation: the
    /// username or the identifier is already taken.
    pub fn insert_user(&mut self, user: &User) -> (r: Result<(), ServerError>)
        requires
            old(self).wf(),
        ensures
            final(self).wf(),
            final(self).messages() == old(self).messages(),
            match r {
                Ok(()) => !contains_username(old(self).users(), user.username@) && !contains_id(
                    old(self).users(),
                    user.id,
                ) && final(self).users() == old(self).users().push(*user),
                Err(e) => e == ServerError::StoreUser && (contains_username(
                    old(self).users(),
                    user.username@,
                ) || contains_id(old(self).users(), user.id)) && final(self).users() == old(
                    self,
                ).users(),
            },
    {
        let n = self.users.len();
        let mut i: usize = 0;
        while i < n
            invariant
                *self == *old(self),
                old(self).wf(),
                n == self.users@.len(),
                i <= n,
                forall|j: int| 0 <= j < i ==> self.users@[j].username@ != user.username@,
                forall|j: int| 0 <= j < i ==> (#[trigger] self.users@[j]).id != user.id,
            decreases n - i,
        {
            if str_eq(self.users[i].username.as_str(), user.username.as_str()) {
                return Err(ServerError::StoreUser);
            }
            if self.users[i].id == user.id {
                return Err(ServerError::StoreUser);
            }
            i += 1;
        }
        self.users.push(user.clone());
        proof {
            assert forall|a: int, b: int|
                0 <= a < b < self.users@.len() implies self.users@[a].username@
                != self.users@[b].username@ by {
                assert(self.users@[a] == old(self).users@.push(*user)[a]);
                if b < self.users@.len() - 1 {
                    assert(old(self).users()[a].username@ != old(self).users()[b].username@);
                }
            }
            assert forall|a: int, b: int|
                0 <= a < b < self.users@.len() implies self.users@[a].id != self.users@[b].id by {
                assert(self.users@[a] == old(self).users@.push(*user)[a]);
                if b < self.users@.len() - 1 {
                    assert(old(self).users()[a].id != old(self).users()[b].id);
                }
            }
        }
        Ok(())
    }

    /// Fetches the user named `username`, if any; `None` means no such row,
    /// as distinct from a backend failure.
    pub fn get_user(&self, username: &str) -> (r: Option<User>)
        ensures
            r == spec_get_user(self.users(), username@),
            match r {
                Some(u) => exists|i: int|
                    0 <= i < self.users().len() && self.users()[i] == u && u.username@
                        == username@,
                None => !contains_username(self.users(), username@),
            },
    {
        let n = self.users.len();
        let mut i: usize = 0;
        proof {
            assert(self.users@.skip(0) =~= self.users@);
        }
        while i < n
            invariant
                n == self.users@.len(),
                i <= n,
                forall|j: int| 0 <= j < i ==> self.users@[j].username@ != username@,
                spec_get_user(self.users@, username@) == spec_get_user(
                    self.users@.skip(i as int),
                    username@,
                ),
            decreases n - i,
        {
            proof {
                assert(self.users@.skip(i as int).drop_first() =~= self.users@.skip(i + 1));
                assert(self.users@.skip(i as int)[0] == self.users@[i as int]);
            }
            if str_eq(self.users[i].username.as_str(), username) {
                let u = self.users[i].clone();
                proof {
                    assert(self.users()[i as int] == u);
                }
                return Some(u);
            }
            i += 1;
        }
        proof {
            assert(self.users@.skip(n as int) =~= Seq::<User>::empty());
        }
        None
    }

    /// Enumerates all users, in insertion order.
    pub fn get_users(&self) -> (r: Vec<UserApiDto>)
        ensures
            r@.len() == self.users().len(),
            forall|i: int|
                0 <= i < r@.len() ==> (#[trigger] r@[i]).id == self.users()[i].id && r@[i].username@
                    == self.users()[i].username@,
    {
        let n = self.users.len();
        let mut out: Vec<UserApiDto> = Vec::new();
        let mut i: usize = 0;
        while i < n
            invariant
                n == self.users@.len(),
                i <= n,
                out@.len() == i,
                forall|j: int|
                    0 <= j < i ==> (#[trigger] out@[j]).id == self.users@[j].id && out@[j].username@
                        == self.users@[j].username@,
            decreases n - i,
        {
            let u = &self.users[i];
            out.push(UserApiDto { id: u.id, username: u.username.as_str().to_owned() });
            i += 1;
        }
        out
    }

    /// Deletes the user carrying `id` and reports how many rows that
    /// removed: 0 exactly when the id is unknown, 1 exactly when a row
    /// carried it — never more, as identifiers are unique.
    pub fn remove_user(&mut self, id: u128) -> (r: u64)
        requires
            old(self).wf(),
            old(self).users().len() <= u64::MAX,
        ensures
            final(self).wf(),
            final(self).messages() == old(self).messages(),
            final(self).users() == old(self).users().filter(|u: User| u.id != id),
            r == old(self).users().len() - final(self).users().len(),
            r == 0 || r == 1,
            (r == 0) == (forall|i: int|
                0 <= i < old(self).users().len() ==> (#[trigger] old(self).users()[i]).id != id),
            (r == 1) == contains_id(old(self).users(), id),
            r == 0 ==> final(self).users() == old(self).users(),
    {
        let ghost orig = self.users@;
        let ghost pred = |u: User| u.id != id;
        let n = self.users.len();
        let mut out: Vec<User> = Vec::new();
        let mut i: usize = 0;
        while i < n
            invariant
                n == self.users@.len(),
                self.users@ == orig,
                old(self).wf(),
                orig == old(self).users(),
                pred == (|u: User| u.id != id),
                i <= n,
                out@ == orig.take(i as int).filter(pred),
                out@.len() <= i,
                (forall|j: int| 0 <= j < i ==> (#[trigger] orig[j]).id != id) ==> out@.len() == i,
                (exists|j: int| 0 <= j < i && (#[trigger] orig[j]).id == id) ==> out@.len() < i,
                i - 1 <= out@.len(),
                forall|a: int|
                    0 <= a < out@.len() ==> exists|j: int|
                        0 <= j < i && #[trigger] out@[a] == orig[j],
                forall|a: int, b: int|
                    0 <= a < b < out@.len() ==> out@[a].username@ != out@[b].username@,
                forall|a: int, b: int|
                    0 <= a < b < out@.len() ==> out@[a].id != out@[b].id,
            decreases n - i,
        {
            proof {
                broadcast use Seq::lemma_filter_push;

                assert(orig.take(i + 1) =~= orig.take(i as int).push(orig[i as int]));
                if orig[i as int].id == id {
                    assert forall|j: int| 0 <= j < i implies (#[trigger] orig[j]).id != id by {
                        assert(orig[j].id != orig[i as int].id);
                    }
                    assert(out@.len() == i);
                }
            }
            if self.users[i].id != id {
                let ghost prev = out@;
                out.push(self.users[i].clone());
                proof {
                    assert forall|a: int| 0 <= a < out@.len() implies exists|j: int|
                        0 <= j < i + 1 && #[trigger] out@[a] == orig[j] by {
                        if a < prev.len() {
                            assert(out@[a] == prev[a]);
                        } else {
                            assert(out@[a] == orig[i as int]);
                        }
                    }
                    assert forall|a: int, b: int| 0 <= a < b < out@.len() implies out@[a].username@
                        != out@[b].username@ by {
                        if b == out@.len() - 1 {
                            let j = choose|j: int| 0 <= j < i && #[trigger] prev[a] == orig[j];
                            assert(out@[a] == orig[j]);
                            assert(out@[b] == orig[i as int]);
                        } else {
                            assert(out@[a] == prev[a] && out@[b] == prev[b]);
                        }
                    }
                    assert forall|a: int, b: int| 0 <= a < b < out@.len() implies out@[a].id
                        != out@[b].id by {
                        if b == out@.len() - 1 {
                            let j = choose|j: int| 0 <= j < i && #[trigger] prev[a] == orig[j];
                            assert(out@[a] == orig[j]);
                            assert(out@[b] == orig[i as int]);
                        } else {
                            assert(out@[a] == prev[a] && out@[b] == prev[b]);
                        }
                    }
                }
            }
            i += 1;
        }
        proof {
            assert(orig.take(n as int) =~= orig);
        }
        let removed = (n - out.len()) as u64;
        proof {
            if removed == 0 {
                lemma_filter_all_kept(orig, pred);
            }
        }
        self.users = out;
        removed
    }

    /// The author row carrying `id`, if any.
    fn find_user_by_id(&self, id: u128) -> (r: Option<&User>)
        ensures
            match r {
                Some(u) => find_by_id(self.users(), id) == Some(*u),
                None => find_by_id(self.users(), id) is None,
            },
    {
        let n = self.users.len();
        let mut i: usize = 0;
        proof {
            assert(self.users@.skip(0) =~= self.users@);
        }
        while i < n
            invariant
                n == self.users@.len(),
                i <= n,
                find_by_id(self.users@, id) == find_by_id(self.users@.skip(i as int), id),
            decreases n - i,
        {
            proof {
                assert(self.users@.skip(i as int).drop_first() =~= self.users@.skip(i + 1));
                assert(self.users@.skip(i as int)[0] == self.users@[i as int]);
            }
            if self.users[i].id == id {
                return Some(&self.users[i]);
            }
            i += 1;
        }
        proof {
            assert(self.users@.skip(n as int) =~= Seq::<User>::empty());
        }
        None
    }

    /// Reads up to the 50 most recent qualifying messages, newest first. The
    /// empty prefix qualifies every stored message whose author still exists;
    /// otherwise only messages whose author's username starts with the prefix
    /// qualify.
    pub fn get_messages(&self, username_prefix: &str) -> (r: Vec<MessageInfo>)
        ensures
            r@.len() <= 50,
            r@.len() == if self.qualifying(username_prefix@).len() <= 50 {
                self.qualifying(username_prefix@).len() as int
            } else {
                50int
            },
            forall|i: int, j: int| 0 <= i < j < r@.len() ==> r@[i].timestamp >= r@[j].timestamp,
            forall|i: int|
                0 <= i < r@.len() ==> self.row_from(username_prefix@, #[trigger] r@[i]),
            exists|rest: Seq<RowView>|
                {
                    &&& #[trigger] (rows_view(r@) + rest).to_multiset() == self.qualifying(
                        username_prefix@,
                    ).map_values(self.join_fn()).to_multiset()
                    &&& sorted_desc(rows_view(r@) + rest)
                    &&& (rest.len() > 0 ==> r@.len() == 50)
                },
    {
        broadcast use Seq::lemma_filter_push;

        let ghost pred = |m: StoredMessage| self.message_qualifies(m, username_prefix@);
        let n = self.messages.len();
        let mut rows: Vec<MessageInfo> = Vec::new();
        let mut i: usize = 0;
        while i < n
            invariant
                n == self.messages@.len(),
                i <= n,
                pred == (|m: StoredMessage| self.message_qualifies(m, username_prefix@)),
                rows@.len() == self.messages@.take(i as int).filter(pred).len(),
                rows_view(rows@) == self.messages@.take(i as int).filter(pred).map_values(
                    self.join_fn(),
                ),
                forall|k: int|
                    0 <= k < rows@.len() ==> self.row_from(username_prefix@, #[trigger] rows@[k]),
            decreases n - i,
        {
            let ghost prev_rows = rows@;
            proof {
                let t1 = self.messages@.take(i as int);
                let x = self.messages@[i as int];
                assert(self.messages@.take(i + 1) =~= t1.push(x));
                t1.lemma_filter_push(x, pred);
            }
            let m = &self.messages[i];
            match self.find_user_by_id(m.user_id) {
                Some(u) => {
                    if str_starts_with(u.username.as_str(), username_prefix) {
                        let row = MessageInfo {
                            id: m.id,
                            username: u.username.as_str().to_owned(),
                            text: m.text.as_str().to_owned(),
                            timestamp: m.timestamp,
                        };
                        rows.push(row);
                        proof {
                            assert(pred(self.messages@[i as int]));
                            assert(self.messages()[i as int] == self.messages@[i as int]);
                            assert(self.row_from(username_prefix@, rows@[rows@.len() - 1]));
                            let x = self.messages@[i as int];
                            assert(row_view(rows@.last()) == self.join_view(x));
                            assert(rows_view(rows@) =~= rows_view(prev_rows).push(
                                self.join_fn()(x),
                            ));
                            assert(rows_view(rows@) =~= self.messages@.take(i + 1).filter(
                                pred,
                            ).map_values(self.join_fn()));
                        }
                    } else {
                        proof {
                            assert(!pred(self.messages@[i as int]));
                        }
                    }
                },
                None => {
                    proof {
                        assert(!pred(self.messages@[i as int]));
                    }
                },
            }
            i += 1;
        }
        proof {
            assert(self.messages@.take(n as int) =~= self.messages@);
        }
        let ghost total = self.qualifying(username_prefix@).len();
        let count = rows.len();
        let mut sorted: Vec<MessageInfo> = Vec::new();
        let mut j: usize = 0;
        proof {
            assert(rows_view(sorted@) =~= rows_view(rows@.take(0)));
        }
        while j < count
            invariant
                count == rows@.len(),
                j <= count,
                sorted@.len() == j,
                forall|a: int, b: int|
                    0 <= a < b < sorted@.len() ==> sorted@[a].timestamp >= sorted@[b].timestamp,
                forall|k: int|
                    0 <= k < rows@.len() ==> self.row_from(username_prefix@, #[trigger] rows@[k]),
                forall|k: int|
                    0 <= k < sorted@.len() ==> self.row_from(
                        username_prefix@,
                        #[trigger] sorted@[k],
                    ),
                rows_view(sorted@).to_multiset() == rows_view(
                    rows@.take(j as int),
                ).to_multiset(),
            decreases count - j,
        {
            let item = MessageInfo {
                id: rows[j].id,
                username: rows[j].username.as_str().to_owned(),
                text: rows[j].text.as_str().to_owned(),
                timestamp: rows[j].timestamp,
            };
            let len = sorted.len();
            let mut p: usize = 0;
            loop
                invariant_except_break
                    len == sorted@.len(),
                    p <= len,
                    forall|q: int| 0 <= q < p ==> sorted@[q].timestamp >= item.timestamp,
                ensures
                    len == sorted@.len(),
                    p <= len,
                    forall|q: int| 0 <= q < p ==> sorted@[q].timestamp >= item.timestamp,
                    p < len ==> sorted@[p as int].timestamp < item.timestamp,
                decreases len - p,
            {
                if p >= len {
                    break;
                }
                if sorted[p].timestamp < item.timestamp {
                    break;
                }
                p += 1;
            }
            let ghost before = sorted@;
            proof {
                before.insert_ensures(p as int, item);
                rows_view(before).insert_ensures(p as int, row_view(item));
            }
            sorted.insert(p, item);
            proof {
                assert(self.row_from(username_prefix@, rows@[j as int]));
                assert(rows_view(sorted@) =~= rows_view(before).insert(p as int, row_view(item)));
                vstd::seq_lib::to_multiset_insert(rows_view(before), p as int, row_view(item));
                assert(row_view(item) == row_view(rows@[j as int]));
                assert(rows_view(rows@.take(j + 1)) =~= rows_view(rows@.take(j as int)).push(
                    row_view(rows@[j as int]),
                ));
                vstd::seq_lib::to_multiset_build(
                    rows_view(rows@.take(j as int)),
                    row_view(rows@[j as int]),
                );
                assert(rows_view(sorted@).to_multiset() =~= rows_view(
                    rows@.take(j + 1),
                ).to_multiset());
                assert forall|a: int, b: int|
                    0 <= a < b < sorted@.len() implies sorted@[a].timestamp
                    >= sorted@[b].timestamp by {
                    if a == p {
                        if b > p {
                            assert(sorted@[b] == before[b - 1]);
                            assert(before[p as int].timestamp < item.timestamp);
                            if b - 1 > p {
                                assert(before[p as int].timestamp >= before[b - 1].timestamp);
                            }
                        }
                    } else if b == p {
                        assert(sorted@[a] == before[a]);
                    } else if a < p && b > p {
                        assert(sorted@[a] == before[a] && sorted@[b] == before[b - 1]);
                        if b - 1 > a {
                            assert(before[a].timestamp >= before[b - 1].timestamp);
                        }
                    } else if b < p {
                        assert(sorted@[a] == before[a] && sorted@[b] == before[b]);
                    } else {
                        assert(sorted@[a] == before[a - 1] && sorted@[b] == before[b - 1]);
                    }
                }
                assert forall|k: int| 0 <= k < sorted@.len() implies self.row_from(
                    username_prefix@,
                    #[trigger] sorted@[k],
                ) by {
                    if k < p {
                        assert(sorted@[k] == before[k]);
                    } else if k == p {
                        assert(sorted@[k] == item);
                        let src = rows@[j as int];
                        let w = choose|w: int|
                            {
                                &&& 0 <= w < self.messages().len()
                                &&& {
                                    let m = #[trigger] self.messages()[w];
                                    match find_by_id(self.users(), m.user_id) {
                                        Some(u) => {
                                            &&& is_char_prefix(u.username@, username_prefix@)
                                            &&& src.id == m.id
                                            &&& src.username@ == u.username@
                                            &&& src.text@ == m.text@
                                            &&& src.timestamp == m.timestamp
                                        },
                                        None => false,
                                    }
                                }
                            };
                        assert(self.messages()[w] == self.messages()[w]);
                    } else {
                        assert(sorted@[k] == before[k - 1]);
                    }
                }
            }
            j += 1;
        }
        let ghost full = rows_view(sorted@);
        let ghost full_len = sorted@.len() as int;
        proof {
            assert(rows@.take(count as int) =~= rows@);
            assert(full.to_multiset() == self.qualifying(username_prefix@).map_values(
                self.join_fn(),
            ).to_multiset());
            assert(sorted_desc(full));
        }
        sorted.truncate(50);
        proof {
            assert(sorted@.len() == if total <= 50 {
                total as int
            } else {
                50int
            });
            let keep = sorted@.len() as int;
            let rv = rows_view(sorted@);
            assert(rv =~= full.take(keep));
            let rest = full.skip(keep);
            assert(rv + rest =~= full);
            assert((rows_view(sorted@) + rest).to_multiset() == self.qualifying(
                username_prefix@,
            ).map_values(self.join_fn()).to_multiset());
            assert(sorted_desc(rows_view(sorted@) + rest));
            assert(rest.len() > 0 ==> sorted@.len() == 50);
        }
        sorted
    }

    /// Appends one message to the log: a fresh identifier, the author, the
    /// rendered text of the payload, and the current time.
    pub fn insert_message(&mut self, message: &Message, user_id: u128) -> (r: Result<
        (),
        ServerError,
    >)
        requires
            old(self).wf(),
        ensures
            final(self).wf(),
            final(self).users() == old(self).users(),
            r is Ok,
            final(self).messages().len() == old(self).messages().len() + 1,
            final(self).messages() == old(self).messages().push(
                final(self).messages().last(),
            ),
            final(self).messages().last().user_id == user_id,
            final(self).messages().last().text@ == rendered_text(message@.data),
    {
        let text = MessagePayload::serialize_to_text(&message.data);
        let row = StoredMessage {
            id: new_uuid(),
            user_id,
            text,
            timestamp: now_timestamp(),
        };
        self.messages.push(row);
        proof {
            assert(self.messages@ =~= old(self).messages@.push(self.messages@.last()));
            assert forall|a: int, b: int|
                0 <= a < b < self.users@.len() implies self.users@[a].username@
                != self.users@[b].username@ by {
                assert(old(self).users()[a].username@ != old(self).users()[b].username@);
            }
            assert forall|a: int, b: int|
                0 <= a < b < self.users@.len() implies self.users@[a].id != self.users@[b].id by {
                assert(old(self).users()[a].id != old(self).users()[b].id);
            }
        }
        Ok(())
    }
}

/// When no user's name starts with the prefix, the bounded history read
/// returns nothing: no stored message can qualify.
pub proof fn lemma_no_prefix_match_empty(db: &MemoryDb, prefix: Seq<char>)
    requires
        forall|i: int|
            0 <= i < db.users().len() ==> !is_char_prefix(
                (#[trigger] db.users()[i]).username@,
                prefix,
            ),
    ensures
        db.qualifying(prefix).len() == 0,
{
    let pred = |m: StoredMessage| db.message_qualifies(m, prefix);
    assert forall|i: int| 0 <= i < db.messages().len() implies !pred(
        #[trigger] db.messages()[i],
    ) by {
        let m = db.messages()[i];
        if find_by_id(db.users(), m.user_id) is Some {
            lemma_find_by_id_member(db.users(), m.user_id);
        }
    }
    assert(db.messages().all(|m: StoredMessage| !pred(m)));
    db.messages().lemma_all_neg_filter_empty(pred);
}

} // verus!
