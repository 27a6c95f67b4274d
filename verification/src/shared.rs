//! The table of connected sessions and the state shared between connections.
use crate::json::{clone_fields, fields_view, Json, JsonValue};
use crate::session::Session;
use vstd::prelude::*;

verus! {

/// The identifiers of a sequence of sessions.
pub open spec fn session_ids(s: Seq<Session>) -> Seq<Seq<char>> {
    s.map_values(|x: Session| x@)
}

/// A table from sessions to values. Each session occurs at most once; the
/// sessions are kept in the order in which they were first inserted.
pub struct SessionManager<T> {
    entries: Vec<(Session, T)>,
}

impl<T> SessionManager<T> {
    /// No session occurs twice.
    #[verifier::type_invariant]
    closed spec fn keys_distinct(self) -> bool {
        forall|i: int, j: int|
            0 <= i < j < self.entries.len() ==> self.entries[i].0@ != self.entries[j].0@
    }

    /// The position of session `k`, if it is present.
    closed spec fn index_of(self, k: Seq<char>) -> int {
        choose|i: int| 0 <= i < self.entries.len() && self.entries[i].0@ == k
    }

    /// The sessions in iteration order.
    pub closed spec fn order(self) -> Seq<Seq<char>> {
        Seq::new(self.entries.len() as nat, |i: int| self.entries[i].0@)
    }

    /// The table as a map from session identifiers to values.
    pub closed spec fn map(self) -> Map<Seq<char>, T> {
        Map::new(
            |k: Seq<char>| exists|i: int| 0 <= i < self.entries.len() && self.entries[i].0@ == k,
            |k: Seq<char>| self.entries[self.index_of(k)].1,
        )
    }

    proof fn lemma_index_of(self, i: int)
        requires
            self.keys_distinct(),
            0 <= i < self.entries.len(),
        ensures
            self.index_of(self.entries[i].0@) == i,
            self.map().contains_key(self.entries[i].0@),
            self.map()[self.entries[i].0@] == self.entries[i].1,
    {
        let k = self.entries[i].0@;
        assert(self.map().contains_key(k));
        let j = self.index_of(k);
        if j != i {
            if j < i {
                assert(self.entries[j].0@ != self.entries[i].0@);
            } else {
                assert(self.entries[i].0@ != self.entries[j].0@);
            }
        }
    }

    /// An empty table.
    pub fn new() -> (r: Self)
        ensures
            r@ == Map::<Seq<char>, T>::empty(),
            r.order() == Seq::<Seq<char>>::empty(),
    {
        let r = SessionManager { entries: Vec::new() };
        assert(r.map() =~= Map::<Seq<char>, T>::empty());
        assert(r.order() =~= Seq::<Seq<char>>::empty());
        r
    }

    fn find(&self, k: &Session) -> (r: Option<usize>)
        ensures
            match r {
                Some(i) => i < self.entries.len() && self.entries[i as int].0@ == k@,
                None => !self@.contains_key(k@),
            },
    {
        proof {
            use_type_invariant(self);
        }
        let mut i: usize = 0;
        while i < self.entries.len()
            invariant
                i <= self.entries.len(),
                forall|j: int| 0 <= j < i ==> self.entries[j].0@ != k@,
            decreases self.entries.len() - i,
        {
            if self.entries[i].0 == *k {
                return Some(i);
            }
            i = i + 1;
        }
        None
    }

    /// The value of session `k`, if it is present.
    pub fn get(&self, k: &Session) -> (r: Option<&T>)
        ensures
            match r {
                Some(v) => self@.contains_key(k@) && *v == self@[k@],
                None => !self@.contains_key(k@),
            },
    {
        proof {
            use_type_invariant(self);
        }
        match self.find(k) {
            Some(i) => {
                proof {
                    self.lemma_index_of(i as int);
                }
                Some(&self.entries[i].1)
            },
            None => None,
        }
    }

    /// Whether session `k` is present.
    pub fn contains_key(&self, k: &Session) -> (r: bool)
        ensures
            r == self@.contains_key(k@),
    {
        proof {
            use_type_invariant(self);
        }
        match self.find(k) {
            Some(i) => {
                proof {
                    self.lemma_index_of(i as int);
                }
                true
            },
            None => false,
        }
    }
}

impl<T> SessionManager<T> {
    /// Inserts `v` under `k`. The previous value of `k` is returned; a new
    /// session goes last in the iteration order, a present one keeps its place.
    pub fn insert(&mut self, k: Session, v: T) -> (r: Option<T>)
        ensures
            final(self)@ == old(self)@.insert(k@, v),
            r == if old(self)@.contains_key(k@) {
                Some(old(self)@[k@])
            } else {
                None::<T>
            },
            final(self).order() == if old(self)@.contains_key(k@) {
                old(self).order()
            } else {
                old(self).order().push(k@)
            },
    {
        proof {
            use_type_invariant(&*self);
        }
        let ghost pre = *self;
        match self.find(&k) {
            Some(i) => {
                proof {
                    pre.lemma_index_of(i as int);
                }
                let mut entries: Vec<(Session, T)> = Vec::new();
                std::mem::swap(&mut entries, &mut self.entries);
                let (key, old_v) = entries.remove(i);
                assert(key@ == k@);
                entries.insert(i, (key, v));
                assert(entries@ == pre.entries@.update(i as int, (pre.entries[i as int].0, v)));
                assert forall|a: int, b: int| 0 <= a < b < entries.len() implies entries[a].0@ != entries[b].0@ by {
                    assert(pre.entries[a].0@ != pre.entries[b].0@);
                }
                self.entries = entries;
                proof {
                    let post = *self;
                    assert forall|kk: Seq<char>| #[trigger] post.map().contains_key(kk) == pre.map().insert(k@, v).contains_key(kk) by {
                        if post.map().contains_key(kk) {
                            let j = choose|j: int| 0 <= j < post.entries.len() && post.entries[j].0@ == kk;
                            if j != i {
                                assert(pre.entries[j].0@ == kk);
                            }
                        }
                        if pre.map().contains_key(kk) {
                            let j = choose|j: int| 0 <= j < pre.entries.len() && pre.entries[j].0@ == kk;
                            assert(post.entries[j].0@ == kk);
                        }
                    }
                    assert forall|kk: Seq<char>| post.map().contains_key(kk) implies #[trigger] post.map()[kk] == pre.map().insert(k@, v)[kk] by {
                        let j = choose|j: int| 0 <= j < post.entries.len() && post.entries[j].0@ == kk;
                        post.lemma_index_of(j);
                        if j != i {
                            pre.lemma_index_of(j);
                        }
                    }
                    assert(post.map() =~= pre.map().insert(k@, v));
                    assert(post.order() =~= pre.order());
                }
                Some(old_v)
            },
            None => {
                let mut entries: Vec<(Session, T)> = Vec::new();
                std::mem::swap(&mut entries, &mut self.entries);
                let ghost n = pre.entries.len() as int;
                entries.push((k, v));
                assert(entries@ == pre.entries@.push((k, v)));
                assert forall|a: int, b: int| 0 <= a < b < entries.len() implies entries[a].0@ != entries[b].0@ by {
                    if b < n {
                        assert(pre.entries[a].0@ != pre.entries[b].0@);
                    } else {
                        assert(pre.entries[a].0@ != k@);
                    }
                }
                self.entries = entries;
                proof {
                    let post = *self;
                    assert forall|kk: Seq<char>| #[trigger] post.map().contains_key(kk) == pre.map().insert(k@, v).contains_key(kk) by {
                        if post.map().contains_key(kk) && kk != k@ {
                            let j = choose|j: int| 0 <= j < post.entries.len() && post.entries[j].0@ == kk;
                            assert(pre.entries[j].0@ == kk);
                        }
                        if pre.map().contains_key(kk) {
                            let j = choose|j: int| 0 <= j < pre.entries.len() && pre.entries[j].0@ == kk;
                            assert(post.entries[j].0@ == kk);
                        }
                        if kk == k@ {
                            assert(post.entries[n].0@ == kk);
                        }
                    }
                    assert forall|kk: Seq<char>| post.map().contains_key(kk) implies #[trigger] post.map()[kk] == pre.map().insert(k@, v)[kk] by {
                        let j = choose|j: int| 0 <= j < post.entries.len() && post.entries[j].0@ == kk;
                        post.lemma_index_of(j);
                        if j != n {
                            pre.lemma_index_of(j);
                        }
                    }
                    assert(post.map() =~= pre.map().insert(k@, v));
                    assert(post.order() =~= pre.order().push(k@));
                }
                None
            },
        }
    }
}

impl<T> SessionManager<T> {
    /// Removes session `k` and returns its value, if it was present; the other
    /// sessions keep their order.
    pub fn remove(&mut self, k: &Session) -> (r: Option<T>)
        ensures
            final(self)@ == old(self)@.remove(k@),
            r == if old(self)@.contains_key(k@) {
                Some(old(self)@[k@])
            } else {
                None::<T>
            },
            old(self)@.contains_key(k@) ==> exists|i: int|
                0 <= i < old(self).order().len() && old(self).order()[i] == k@
                    && final(self).order() == old(self).order().remove(i),
            !old(self)@.contains_key(k@) ==> final(self).order() == old(self).order(),
    {
        proof {
            use_type_invariant(&*self);
        }
        let ghost pre = *self;
        match self.find(k) {
            Some(i) => {
                proof {
                    pre.lemma_index_of(i as int);
                }
                let mut entries: Vec<(Session, T)> = Vec::new();
                std::mem::swap(&mut entries, &mut self.entries);
                let (_key, old_v) = entries.remove(i);
                assert(entries@ == pre.entries@.remove(i as int));
                assert forall|a: int, b: int| 0 <= a < b < entries.len() implies entries[a].0@ != entries[b].0@ by {
                    if a < i && b < i {
                        assert(pre.entries[a].0@ != pre.entries[b].0@);
                    } else if a < i {
                        assert(pre.entries[a].0@ != pre.entries[b + 1].0@);
                    } else {
                        assert(pre.entries[a + 1].0@ != pre.entries[b + 1].0@);
                    }
                }
                self.entries = entries;
                proof {
                    let post = *self;
                    assert forall|kk: Seq<char>| #[trigger] post.map().contains_key(kk) == pre.map().remove(k@).contains_key(kk) by {
                        if post.map().contains_key(kk) {
                            let j = choose|j: int| 0 <= j < post.entries.len() && post.entries[j].0@ == kk;
                            if j < i {
                                assert(pre.entries[j].0@ == kk);
                                assert(pre.entries[j].0@ != pre.entries[i as int].0@);
                            } else {
                                assert(pre.entries[j + 1].0@ == kk);
                                assert(pre.entries[i as int].0@ != pre.entries[j + 1].0@);
                            }
                        }
                        if pre.map().contains_key(kk) && kk != k@ {
                            let j = choose|j: int| 0 <= j < pre.entries.len() && pre.entries[j].0@ == kk;
                            if j < i {
                                assert(post.entries[j].0@ == kk);
                            } else {
                                assert(j != i);
                                assert(post.entries[j - 1].0@ == kk);
                            }
                        }
                    }
                    assert forall|kk: Seq<char>| post.map().contains_key(kk) implies #[trigger] post.map()[kk] == pre.map().remove(k@)[kk] by {
                        let j = choose|j: int| 0 <= j < post.entries.len() && post.entries[j].0@ == kk;
                        post.lemma_index_of(j);
                        if j < i {
                            pre.lemma_index_of(j);
                        } else {
                            pre.lemma_index_of(j + 1);
                        }
                    }
                    assert(post.map() =~= pre.map().remove(k@));
                    assert(post.order() =~= pre.order().remove(i as int));
                    assert(pre.order()[i as int] == k@);
                }
                Some(old_v)
            },
            None => {
                proof {
                    assert(self.map() =~= pre.map().remove(k@));
                }
                None
            },
        }
    }

    /// The entry of session `k`, to be read or filled in; the table is not
    /// changed by taking it.
    pub fn entry(&mut self, k: Session) -> (r: Entry<'_, T>)
        ensures
            r.key == k,
            *r.table == *old(self),
            *final(self) == *final(r.table),
    {
        Entry { table: self, key: k }
    }

    /// The number of sessions.
    pub fn len(&self) -> (r: usize)
        ensures
            r == self.order().len(),
    {
        self.entries.len()
    }

    /// The `i`-th session in iteration order and its value.
    pub fn entry_at(&self, i: usize) -> (r: (&Session, &T))
        requires
            i < self.order().len(),
        ensures
            r.0@ == self.order()[i as int],
            self@.contains_key(r.0@),
            *r.1 == self@[r.0@],
    {
        proof {
            use_type_invariant(self);
            self.lemma_index_of(i as int);
        }
        (&self.entries[i].0, &self.entries[i].1)
    }

    /// The sessions in iteration order: each session of the table once, and
    /// nothing else.
    pub fn keys(&self) -> (r: Vec<Session>)
        ensures
            session_ids(r@) == self.order(),
            self.order().no_duplicates(),
            forall|k: Seq<char>| self@.contains_key(k) <==> self.order().contains(k),
    {
        proof {
            use_type_invariant(self);
            assert forall|k: Seq<char>| self@.contains_key(k) implies self.order().contains(k) by {
                let j = choose|j: int| 0 <= j < self.entries.len() && self.entries[j].0@ == k;
                assert(self.order()[j] == k);
            }
            assert forall|k: Seq<char>| self.order().contains(k) implies self@.contains_key(k) by {
                let j = choose|j: int| 0 <= j < self.order().len() && self.order()[j] == k;
                assert(self.entries[j].0@ == k);
            }
        }
        let mut out: Vec<Session> = Vec::new();
        let mut i: usize = 0;
        while i < self.entries.len()
            invariant
                i <= self.entries.len(),
                session_ids(out@) =~= self.order().take(i as int),
            decreases self.entries.len() - i,
        {
            let c = self.entries[i].0.clone();
            let ghost before = out@;
            out.push(c);
            assert(session_ids(out@) =~= session_ids(before).push(c@));
            assert(self.order().take(i + 1) =~= self.order().take(i as int).push(c@));
            i = i + 1;
        }
        assert(self.order().take(i as int) =~= self.order());
        out
    }
}

/// A session's place in a table, as `SessionManager::entry` gives it.
pub struct Entry<'a, T> {
    pub table: &'a mut SessionManager<T>,
    pub key: Session,
}

impl<'a, T> Entry<'a, T> {
    /// The session of this entry.
    pub fn key(&self) -> (r: &Session)
        ensures
            *r == self.key,
    {
        &self.key
    }

    /// The session's value, after inserting `default` when it is absent.
    pub fn or_insert(self, default: T) -> (r: &'a T)
        ensures
            final(self.table)@ == if old(self.table)@.contains_key(self.key@) {
                old(self.table)@
            } else {
                old(self.table)@.insert(self.key@, default)
            },
            *r == final(self.table)@[self.key@],
    {
        let table = self.table;
        let k = self.key;
        if !table.contains_key(&k) {
            let key = k.clone();
            table.insert(key, default);
        }
        table.get(&k).unwrap()
    }
}

impl<T> View for SessionManager<T> {
    type V = Map<Seq<char>, T>;

    open spec fn view(&self) -> Map<Seq<char>, T> {
        self.map()
    }
}

} // verus!

verus! {

/// What a login service says of a user: the members of a JSON object, if any.
pub type Info = Option<Vec<(String, JsonValue)>>;

/// The model of an `Info`.
pub open spec fn info_view(info: Info) -> Option<Seq<(Seq<char>, Json)>> {
    match info {
        Some(fields) => Some(fields_view(fields@)),
        None => None,
    }
}

/// Copies an `Info`.
pub fn clone_info(info: &Info) -> (r: Info)
    ensures
        info_view(r) == info_view(*info),
{
    match info {
        Some(fields) => Some(clone_fields(fields)),
        None => None,
    }
}

/// A connected client: the handle through which it is written to, and what
/// the login service said of it.
#[derive(Debug)]
pub struct Client<T> {
    pub sender: T,
    pub info: Info,
}

impl<T> core::ops::Deref for Client<T> {
    type Target = T;

    fn deref(&self) -> (r: &T)
        ensures
            *r == self.sender,
    {
        &self.sender
    }
}

/// The state that all connections share: the session table and the number
/// of anonymous connections so far.
pub struct Shared<T> {
    pub session: SessionManager<T>,
    pub count: u128,
}

impl<T> Shared<T> {
    /// No sessions and no connections counted yet.
    pub fn new() -> (r: Self)
        ensures
            r.session@ == Map::<Seq<char>, T>::empty(),
            r.session.order() == Seq::<Seq<char>>::empty(),
            r.count == 0,
    {
        Shared { session: SessionManager::new(), count: 0 }
    }
}

} // verus!
