//! UID ↔ username resolution over the system's passwd database.
//!
//! The table is built once from the text of `/etc/passwd` (which the caller
//! reads) and then answers lookups in both directions. Lookups of a UID that
//! is not in the table fall back to its decimal number.

use vstd::prelude::*;

use crate::text::{chars_of, dec, find_from, first_index, lemma_first_index, lines_of, parse_u32, parse_u32_str, strip_cr, string_from_range, u64_to_string};

verus! {

/// The third `:`-separated field of a line (std's `splitn(4, ':')`), when
/// the line has at least three fields.
pub open spec fn third_field(line: Seq<char>) -> Option<Seq<char>> {
    match first_index(line, ':') {
        None => None,
        Some(a) => {
            let rest = line.skip(a + 1);
            match first_index(rest, ':') {
                None => None,
                Some(b) => {
                    let tail = rest.skip(b + 1);
                    match first_index(tail, ':') {
                        None => Some(tail),
                        Some(c) => Some(tail.take(c)),
                    }
                },
            }
        },
    }
}

/// The account a passwd line describes: its UID (third field) and its name
/// (first field), when the line has three fields and the third is a UID.
pub open spec fn passwd_entry(line: Seq<char>) -> Option<(u32, Seq<char>)> {
    match third_field(line) {
        None => None,
        Some(f) => match parse_u32(f) {
            None => None,
            Some(uid) => match first_index(line, ':') {
                Some(a) => Some((uid, line.take(a))),
                None => None,
            },
        },
    }
}

/// The position of the first entry with UID `uid`.
pub open spec fn uid_index(t: Seq<(u32, Seq<char>)>, uid: u32) -> Option<int>
    decreases t.len(),
{
    if t.len() == 0 {
        None
    } else if t[0].0 == uid {
        Some(0)
    } else {
        match uid_index(t.drop_first(), uid) {
            Some(i) => Some(i + 1),
            None => None,
        }
    }
}

/// The table after recording `name` for `uid`: a UID already present keeps
/// its place and takes the new name; a new UID is appended.
pub open spec fn upsert(t: Seq<(u32, Seq<char>)>, uid: u32, name: Seq<char>) -> Seq<(u32, Seq<char>)> {
    match uid_index(t, uid) {
        Some(i) => t.update(i, (uid, name)),
        None => t.push((uid, name)),
    }
}

/// The table after reading the lines `ls` in order into `t`.
pub open spec fn read_lines(t: Seq<(u32, Seq<char>)>, ls: Seq<Seq<char>>) -> Seq<(u32, Seq<char>)>
    decreases ls.len(),
{
    if ls.len() == 0 {
        t
    } else {
        let t2 = match passwd_entry(ls[0]) {
            Some(e) => upsert(t, e.0, e.1),
            None => t,
        };
        read_lines(t2, ls.skip(1))
    }
}

/// The table that the text of a passwd file gives.
pub open spec fn passwd_table(contents: Seq<char>) -> Seq<(u32, Seq<char>)> {
    read_lines(Seq::empty(), lines_of(contents))
}

/// No UID occurs twice.
pub open spec fn unique_uids(t: Seq<(u32, Seq<char>)>) -> bool {
    forall|i: int, j: int| 0 <= i < j < t.len() ==> #[trigger] t[i].0 != #[trigger] t[j].0
}

/// The UID of the first entry named `name`.
pub open spec fn uid_of_name(t: Seq<(u32, Seq<char>)>, name: Seq<char>) -> Option<u32>
    decreases t.len(),
{
    if t.len() == 0 {
        None
    } else if t[0].1 == name {
        Some(t[0].0)
    } else {
        uid_of_name(t.drop_first(), name)
    }
}

/// The name a UID is shown under: its account name, else its number.
pub open spec fn display_uid(t: Seq<(u32, Seq<char>)>, uid: u32) -> Seq<char> {
    match uid_index(t, uid) {
        Some(i) => t[i].1,
        None => dec(uid as nat),
    }
}

/// One account: a UID and its name.
#[derive(Debug, Clone)]
pub struct UserEntry {
    pub uid: u32,
    pub name: String,
}

/// The accounts of a passwd database, each UID once, kept in the order of
/// the file (a UID seen again keeps its place and takes the later name).
/// The order makes a name lookup a function of the table: the first account
/// of that name answers, so the SQL built for a `user:` filter is stated
/// exactly in terms of the table.
#[derive(Debug, Clone)]
pub struct PasswdTable {
    entries: Vec<UserEntry>,
}

impl View for PasswdTable {
    type V = Seq<(u32, Seq<char>)>;

    closed spec fn view(&self) -> Seq<(u32, Seq<char>)> {
        self.entries@.map_values(|e: UserEntry| (e.uid, e.name@))
    }
}

proof fn lemma_uid_index(t: Seq<(u32, Seq<char>)>, uid: u32)
    ensures
        uid_index(t, uid) matches Some(i) ==> 0 <= i < t.len() && t[i].0 == uid && forall|k: int|
            0 <= k < i ==> t[k].0 != uid,
        uid_index(t, uid) is None ==> forall|k: int| 0 <= k < t.len() ==> t[k].0 != uid,
    decreases t.len(),
{
    if t.len() > 0 && t[0].0 != uid {
        lemma_uid_index(t.drop_first(), uid);
        assert forall|k: int| 1 <= k < t.len() implies t[k] == t.drop_first()[k - 1] by {}
    }
}

proof fn lemma_uid_index_is(t: Seq<(u32, Seq<char>)>, uid: u32, i: int)
    requires
        0 <= i < t.len(),
        t[i].0 == uid,
        forall|k: int| 0 <= k < i ==> t[k].0 != uid,
    ensures
        uid_index(t, uid) == Some(i),
    decreases t.len(),
{
    if i > 0 {
        assert forall|k: int| 0 <= k < i - 1 implies t.drop_first()[k].0 != uid by {
            assert(t.drop_first()[k] == t[k + 1]);
        }
        lemma_uid_index_is(t.drop_first(), uid, i - 1);
    }
}

proof fn lemma_upsert_unique(t: Seq<(u32, Seq<char>)>, uid: u32, name: Seq<char>)
    requires
        unique_uids(t),
    ensures
        unique_uids(upsert(t, uid, name)),
{
    lemma_uid_index(t, uid);
    let u = upsert(t, uid, name);
    assert forall|i: int, j: int| 0 <= i < j < u.len() implies #[trigger] u[i].0 != #[trigger] u[j].0 by {
        if uid_index(t, uid) is None {
            if j == t.len() {
                assert(u[i] == t[i]);
            } else {
                assert(u[i] == t[i] && u[j] == t[j]);
            }
        }
    }
}

proof fn lemma_uid_of_name(t: Seq<(u32, Seq<char>)>, name: Seq<char>)
    ensures
        uid_of_name(t, name) matches Some(u) ==> exists|k: int|
            0 <= k < t.len() && t[k] == (u, name) && forall|m: int| 0 <= m < k ==> t[m].1 != name,
        uid_of_name(t, name) is None ==> forall|k: int| 0 <= k < t.len() ==> t[k].1 != name,
    decreases t.len(),
{
    if t.len() > 0 && t[0].1 != name {
        lemma_uid_of_name(t.drop_first(), name);
        assert forall|k: int| 1 <= k < t.len() implies t[k] == t.drop_first()[k - 1] by {}
        if let Some(u) = uid_of_name(t, name) {
            let k = choose|k: int|
                0 <= k < t.drop_first().len() && t.drop_first()[k] == (u, name) && forall|m: int|
                    0 <= m < k ==> t.drop_first()[m].1 != name;
            assert(t[k + 1] == (u, name));
            assert forall|m: int| 0 <= m < k + 1 implies t[m].1 != name by {
                if m > 0 {
                    assert(t[m] == t.drop_first()[m - 1]);
                }
            }
        }
    } else if t.len() > 0 {
        assert(t[0] == (t[0].0, name));
    }
}

/// The account described by the line `v[from..to]`, as `passwd_entry`.
fn parse_entry(v: &[char], from: usize, to: usize) -> (r: Option<UserEntry>)
    requires
        from <= to <= v@.len(),
    ensures
        r matches Some(e) ==> passwd_entry(v@.subrange(from as int, to as int)) == Some(
            (e.uid, e.name@),
        ),
        r is None ==> passwd_entry(v@.subrange(from as int, to as int)) is None,
{
    let line = crate::text::copy_range(v, from, to);
    let a: usize = match find_from(&line, 0, ':') {
        None => {
            assert(line@.skip(0) =~= line@);
            return None;
        },
        Some(a) => a,
    };
    assert(line@.skip(0) =~= line@);
    let b: usize = match find_from(&line, a + 1, ':') {
        None => {
            return None;
        },
        Some(b) => b,
    };
    assert(line@.skip(a + 1).skip(b - (a + 1) + 1) =~= line@.skip(b + 1));
    let end: usize = match find_from(&line, b + 1, ':') {
        None => line.len(),
        Some(c) => c,
    };
    let field = crate::text::copy_range(&line, b + 1, end);
    proof {
        let tail = line@.skip(b + 1);
        if end < line@.len() {
            assert(field@ =~= tail.take(end - (b + 1)));
        } else {
            assert(field@ =~= tail);
        }
        assert(third_field(line@) == Some(field@));
    }
    match parse_u32_str(&field) {
        None => None,
        Some(uid) => {
            let name = string_from_range(&line, 0, a);
            assert(name@ =~= line@.take(a as int));
            Some(UserEntry { uid, name })
        },
    }
}

impl PasswdTable {
    /// A table with no accounts.
    pub fn empty() -> (r: Self)
        ensures
            r@ == Seq::<(u32, Seq<char>)>::empty(),
    {
        let r = PasswdTable { entries: Vec::new() };
        assert(r@ =~= Seq::<(u32, Seq<char>)>::empty());
        r
    }

    /// The position of the entry with UID `uid`.
    fn position(&self, uid: u32) -> (r: Option<usize>)
        ensures
            r matches Some(i) ==> uid_index(self@, uid) == Some(i as int) && i < self@.len()
                && self@.len() == self.entries@.len(),
            r is None ==> uid_index(self@, uid) is None,
    {
        let mut i: usize = 0;
        while i < self.entries.len()
            invariant
                i <= self.entries@.len(),
                forall|k: int| 0 <= k < i ==> self@[k].0 != uid,
            decreases self.entries.len() - i,
        {
            if self.entries[i].uid == uid {
                proof {
                    assert(self@[i as int].0 == uid);
                    lemma_uid_index_is(self@, uid, i as int);
                }
                return Some(i);
            }
            i = i + 1;
        }
        proof {
            lemma_uid_index(self@, uid);
            if let Some(j) = uid_index(self@, uid) {
                assert(self@[j].0 == uid);
            }
        }
        None
    }

    /// Records `name` for `uid`, replacing the name of a UID already present.
    pub fn insert(&mut self, uid: u32, name: String)
        ensures
            final(self)@ == upsert(old(self)@, uid, name@),
            old(self).well_formed() ==> final(self).well_formed(),
    {
        proof {
            if old(self).well_formed() {
                lemma_upsert_unique(old(self)@, uid, name@);
            }
        }
        match self.position(uid) {
            Some(i) => {
                let ghost before = self.entries@;
                self.entries.set(i, UserEntry { uid, name });
                assert(self@ =~= upsert(old(self)@, uid, name@));
            },
            None => {
                self.entries.push(UserEntry { uid, name });
                assert(self@ =~= upsert(old(self)@, uid, name@));
            },
        }
    }

    /// Whether no UID occurs twice (which every table built here keeps).
    pub open spec fn well_formed(&self) -> bool {
        unique_uids(self@)
    }

    /// The UID of the first account named `name`, if any.
    fn username_uid(&self, name: &str) -> (r: Option<u32>)
        ensures
            r == uid_of_name(self@, name@),
    {
        let mut i: usize = 0;
        assert(self@.skip(0) =~= self@);
        while i < self.entries.len()
            invariant
                i <= self.entries@.len(),
                uid_of_name(self@, name@) == uid_of_name(self@.skip(i as int), name@),
            decreases self.entries.len() - i,
        {
            let ghost rest = self@.skip(i as int);
            if crate::text::str_eq(self.entries[i].name.as_str(), name) {
                assert(rest[0] == self@[i as int]);
                return Some(self.entries[i].uid);
            }
            assert(rest.drop_first() =~= self@.skip(i + 1));
            i = i + 1;
        }
        assert(self@.skip(i as int) =~= Seq::<(u32, Seq<char>)>::empty());
        None
    }

    /// The name `uid` is shown under: its account name, or its decimal
    /// number when no account has it.
    fn uid_display(&self, uid: u32) -> (r: String)
        ensures
            r@ == display_uid(self@, uid),
    {
        match self.position(uid) {
            Some(i) => {
                assert(self@[i as int].1 == self.entries@[i as int].name@);
                self.entries[i].name.clone()
            },
            None => u64_to_string(uid as u64),
        }
    }

    /// The number of accounts.
    pub fn len(&self) -> (r: usize)
        ensures
            r == self@.len(),
    {
        self.entries.len()
    }
}

/// Resolves a username to a UID: the UID of the first account of that name,
/// or `None` when no account has it.
pub fn resolve_username(users: &PasswdTable, name: &str) -> (r: Option<u32>)
    ensures
        r == uid_of_name(users@, name@),
{
    users.username_uid(name)
}

/// Resolves a UID to the name it is shown under: the account's name, or the
/// UID in decimal when no account has it.
pub fn resolve_uid(users: &PasswdTable, uid: u32) -> (r: String)
    ensures
        r@ == display_uid(users@, uid),
{
    users.uid_display(uid)
}

/// Reads the text of a passwd file (`username:x:uid:gid:gecos:home:shell`
/// per line) into a table. Lines with fewer than three fields or a third
/// field that is not a UID are skipped; a UID seen again takes the later
/// name.
pub fn load_passwd(contents: &str) -> (r: PasswdTable)
    ensures
        r@ == passwd_table(contents@),
        r.well_formed(),
{
    let v = chars_of(contents);
    let mut t = PasswdTable::empty();
    let mut pos: usize = 0;
    assert(v@.skip(0) =~= v@);
    while pos < v.len()
        invariant
            pos <= v@.len(),
            v@ == contents@,
            read_lines(t@, lines_of(v@.skip(pos as int))) == passwd_table(contents@),
            unique_uids(t@),
        decreases v.len() - pos,
    {
        let ghost rest = v@.skip(pos as int);
        let ghost t0 = t@;
        let (end, next): (usize, usize) = match find_from(&v, pos, '\n') {
            Some(i) => (i, i + 1),
            None => (v.len(), v.len()),
        };
        // The line without a `\r` that precedes its `\n`.
        let line_end: usize = if next > end && end > pos && v[end - 1] == '\r' {
            end - 1
        } else {
            end
        };
        proof {
            let i = end - pos;
            if next > end {
                assert(first_index(rest, '\n') == Some(i));
                assert(rest.take(i) =~= v@.subrange(pos as int, end as int));
                assert(rest.skip(i + 1) =~= v@.skip(next as int));
                if line_end < end {
                    assert(strip_cr(rest.take(i)) =~= v@.subrange(pos as int, line_end as int));
                } else {
                    assert(strip_cr(rest.take(i)) =~= v@.subrange(pos as int, line_end as int));
                }
                assert(lines_of(rest) == seq![v@.subrange(pos as int, line_end as int)] + lines_of(
                    v@.skip(next as int),
                ));
            } else {
                assert(rest =~= v@.subrange(pos as int, line_end as int));
                assert(v@.skip(next as int) =~= Seq::<char>::empty());
                assert(lines_of(rest) == seq![v@.subrange(pos as int, line_end as int)]);
                assert(lines_of(v@.skip(next as int)) =~= Seq::<Seq<char>>::empty());
                assert(seq![v@.subrange(pos as int, line_end as int)] + lines_of(
                    v@.skip(next as int),
                ) =~= seq![v@.subrange(pos as int, line_end as int)]);
            }
            let ls = lines_of(rest);
            assert(ls.skip(1) =~= lines_of(v@.skip(next as int)));
            assert(ls[0] == v@.subrange(pos as int, line_end as int));
        }
        match parse_entry(&v, pos, line_end) {
            Some(e) => {
                proof {
                    lemma_upsert_unique(t@, e.uid, e.name@);
                }
                t.insert(e.uid, e.name);
            },
            None => {},
        }
        pos = next;
    }
    assert(lines_of(v@.skip(pos as int)) =~= Seq::<Seq<char>>::empty());
    t
}

/// Names and UIDs resolve into each other: in a table holding each UID
/// once (as every loaded table does), the UID a name resolves to is shown
/// under that name again.
pub proof fn law_name_resolves_back(t: Seq<(u32, Seq<char>)>, name: Seq<char>)
    requires
        unique_uids(t),
        uid_of_name(t, name) is Some,
    ensures
        display_uid(t, uid_of_name(t, name)->0) == name,
{
    let u = uid_of_name(t, name)->0;
    lemma_uid_of_name(t, name);
    let k = choose|k: int| 0 <= k < t.len() && t[k] == (u, name) && forall|m: int| 0 <= m < k ==> t[m].1 != name;
    lemma_uid_index(t, u);
    let i = uid_index(t, u)->0;
    if i != k {
        if i < k {
            assert(t[i].0 != t[k].0);
        } else {
            assert(t[k].0 != t[i].0);
        }
    }
}

/// A UID is shown under the name of its account, and as its own number
/// when no account has it.
pub proof fn law_uid_shown_as_its_account(t: Seq<(u32, Seq<char>)>, uid: u32)
    requires
        unique_uids(t),
    ensures
        forall|k: int| 0 <= k < t.len() && #[trigger] t[k].0 == uid ==> display_uid(t, uid) == t[k].1,
        (forall|k: int| 0 <= k < t.len() ==> #[trigger] t[k].0 != uid) ==> display_uid(t, uid) == dec(uid as nat),
{
    lemma_uid_index(t, uid);
    assert forall|k: int| 0 <= k < t.len() && #[trigger] t[k].0 == uid implies display_uid(t, uid) == t[k].1 by {
        let i = uid_index(t, uid)->0;
        if i != k {
            if i < k {
                assert(t[i].0 != t[k].0);
            } else {
                assert(t[k].0 != t[i].0);
            }
        }
    }
}

/// A name lookup finds an account exactly when one has that name, and the
/// UID it gives is that of an account of that name.
pub proof fn law_username_lookup(t: Seq<(u32, Seq<char>)>, name: Seq<char>)
    ensures
        uid_of_name(t, name) is None <==> forall|k: int| 0 <= k < t.len() ==> t[k].1 != name,
        uid_of_name(t, name) matches Some(u) ==> exists|k: int| 0 <= k < t.len() && t[k] == (u, name),
{
    lemma_uid_of_name(t, name);
}

/// UIDs resolve into names and back: in a table holding each UID once, the
/// name a present UID is shown under resolves to a UID shown under the same
/// name (the UID itself when names are unique as well).
pub proof fn law_uid_resolves_back(t: Seq<(u32, Seq<char>)>, uid: u32)
    requires
        unique_uids(t),
        uid_index(t, uid) is Some,
    ensures
        uid_of_name(t, display_uid(t, uid)) is Some,
        display_uid(t, uid_of_name(t, display_uid(t, uid))->0) == display_uid(t, uid),
        (forall|i: int, j: int| 0 <= i < j < t.len() ==> t[i].1 != t[j].1) ==> uid_of_name(
            t,
            display_uid(t, uid),
        ) == Some(uid),
{
    lemma_uid_index(t, uid);
    let i = uid_index(t, uid)->0;
    let name = t[i].1;
    lemma_uid_of_name(t, name);
    assert(uid_of_name(t, name) is Some);
    law_name_resolves_back(t, name);
    if forall|a: int, b: int| 0 <= a < b < t.len() ==> t[a].1 != t[b].1 {
        let u = uid_of_name(t, name)->0;
        let k = choose|k: int| 0 <= k < t.len() && t[k] == (u, name) && forall|m: int| 0 <= m < k ==> t[m].1 != name;
        if k != i {
            if k < i {
                assert(t[k].1 != t[i].1);
            } else {
                assert(t[i].1 != t[k].1);
            }
        }
    }
}

} // verus!
