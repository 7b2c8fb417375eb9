//! The client registry: the directory of connected sessions, keyed by name.
//!
//! A session is a client name paired with the handle of its outbound
//! connection, carried here as a plain identifier. Delivery decisions are
//! returned as [`Delivery`] values naming the connection to write to; the
//! caller performs the writes and serializes all access to the registry.

use vstd::prelude::*;

use crate::protocol::bytes_eq;
use crate::protocol::copy_range;

verus! {

/// Why a registry operation refused to act.
#[derive(Clone, Copy, Debug, PartialEq, Eq, Structural)]
pub enum RegistryError {
    /// A session with the given name is already registered.
    NameConflict,
    /// No session with the given name is registered.
    NotFound,
}

/// One outbound write the caller is to perform: `message` goes to the
/// connection with handle `conn`.
pub struct Delivery {
    /// Handle of the connection to write to.
    pub conn: u64,
    /// The bytes to write.
    pub message: Vec<u8>,
}

impl View for Delivery {
    type V = (u64, Seq<u8>);

    open spec fn view(&self) -> (u64, Seq<u8>) {
        (self.conn, self.message@)
    }
}

/// The mathematical model of a list of deliveries.
pub open spec fn deliveries_model(ds: Seq<Delivery>) -> Seq<(u64, Seq<u8>)> {
    ds.map_values(|d: Delivery| d@)
}

/// Delivering `m` to every session of `s`, in registry order.
pub open spec fn broadcast_model(s: Seq<(Seq<u8>, u64)>, m: Seq<u8>) -> Seq<(u64, Seq<u8>)> {
    s.map_values(|e: (Seq<u8>, u64)| (e.1, m))
}

/// Whether some session of `s` bears `name`.
pub open spec fn contains_name(s: Seq<(Seq<u8>, u64)>, name: Seq<u8>) -> bool {
    exists|i: int| 0 <= i < s.len() && s[i].0 == name
}

/// An index of a session bearing `name`; under [`registry_wf`] it is the
/// only one.
pub open spec fn name_index(s: Seq<(Seq<u8>, u64)>, name: Seq<u8>) -> int {
    choose|i: int| 0 <= i < s.len() && s[i].0 == name
}

/// The connection handle registered under `name`.
pub open spec fn conn_of(s: Seq<(Seq<u8>, u64)>, name: Seq<u8>) -> u64 {
    s[name_index(s, name)].1
}

/// `s` without the session bearing `name`; `s` itself when no session does.
pub open spec fn remove_name(s: Seq<(Seq<u8>, u64)>, name: Seq<u8>) -> Seq<(Seq<u8>, u64)> {
    if contains_name(s, name) {
        s.remove(name_index(s, name))
    } else {
        s
    }
}

/// Name uniqueness: no two sessions bear the same name.
pub open spec fn registry_wf(s: Seq<(Seq<u8>, u64)>) -> bool {
    forall|i: int, j: int|
        0 <= i < s.len() && 0 <= j < s.len() && i != j ==> s[i].0 != s[j].0
}

/// When a session bears `name`, [`name_index`] points at one that does.
pub proof fn lemma_name_index(s: Seq<(Seq<u8>, u64)>, name: Seq<u8>)
    requires
        contains_name(s, name),
    ensures
        0 <= name_index(s, name) < s.len(),
        s[name_index(s, name)].0 == name,
{
}

/// Under name uniqueness, any index bearing `name` is [`name_index`].
pub proof fn lemma_name_index_unique(s: Seq<(Seq<u8>, u64)>, name: Seq<u8>, i: int)
    requires
        registry_wf(s),
        0 <= i < s.len(),
        s[i].0 == name,
    ensures
        name_index(s, name) == i,
{
    assert(contains_name(s, name));
    lemma_name_index(s, name);
}

/// The directory of all live sessions. Mutations keep [`registry_wf`]: at
/// most one session per name.
pub struct ClientList {
    clients: Vec<(Vec<u8>, u64)>,
}

impl View for ClientList {
    type V = Seq<(Seq<u8>, u64)>;

    closed spec fn view(&self) -> Seq<(Seq<u8>, u64)> {
        self.clients@.map_values(|e: (Vec<u8>, u64)| (e.0@, e.1))
    }
}

impl ClientList {
    /// Name uniqueness holds of this registry.
    pub open spec fn wf(self) -> bool {
        registry_wf(self@)
    }

    /// Creates an empty registry.
    pub fn new() -> (r: ClientList)
        ensures
            r@ == Seq::<(Seq<u8>, u64)>::empty(),
            r.wf(),
    {
        let r = ClientList { clients: Vec::new() };
        proof {
            assert(r@ =~= Seq::<(Seq<u8>, u64)>::empty());
        }
        r
    }

    /// How many sessions are registered.
    pub fn len(&self) -> (r: usize)
        ensures
            r == self@.len(),
    {
        self.clients.len()
    }

    /// The index of the session bearing `name`, or `None` when no session
    /// does. The first match is returned; under [`ClientList::wf`] it is the
    /// only one.
    pub fn name_exists(&self, name: &Vec<u8>) -> (r: Option<usize>)
        ensures
            match r {
                Some(i) => {
                    &&& i < self@.len()
                    &&& self@[i as int].0 == name@
                    &&& forall|j: int| 0 <= j < i ==> self@[j].0 != name@
                },
                None => !contains_name(self@, name@),
            },
    {
        let mut i: usize = 0;
        while i < self.clients.len()
            invariant
                i <= self@.len(),
                self@.len() == self.clients@.len(),
                forall|j: int| 0 <= j < i ==> self@[j].0 != name@,
            decreases self@.len() - i,
        {
            if bytes_eq(&self.clients[i].0, name) {
                return Some(i);
            }
            i = i + 1;
        }
        None
    }

    /// Registers a session under `name`, or refuses when the name is taken.
    /// Succeeds exactly when no session bears `name`; on success the session
    /// is appended, on conflict nothing changes.
    pub fn add(&mut self, name: Vec<u8>, conn: u64) -> (r: Result<(), RegistryError>)
        ensures
            match r {
                Ok(_) => {
                    &&& !contains_name(old(self)@, name@)
                    &&& final(self)@ == old(self)@.push((name@, conn))
                },
                Err(e) => {
                    &&& e == RegistryError::NameConflict
                    &&& contains_name(old(self)@, name@)
                    &&& final(self)@ == old(self)@
                },
            },
            old(self).wf() ==> final(self).wf(),
    {
        match self.name_exists(&name) {
            Some(_) => Err(RegistryError::NameConflict),
            None => {
                let ghost pre = self@;
                let ghost n = name@;
                self.clients.push((name, conn));
                proof {
                    assert(self@ =~= pre.push((n, conn)));
                    if registry_wf(pre) {
                        assert forall|i: int, j: int|
                            0 <= i < self@.len() && 0 <= j < self@.len() && i != j implies self@[i].0
                            != self@[j].0 by {
                            if i < pre.len() && j < pre.len() {
                                assert(pre[i].0 != pre[j].0);
                            } else if i < pre.len() {
                                assert(pre[i].0 != n);
                            } else {
                                assert(pre[j].0 != n);
                            }
                        }
                    }
                }
                Ok(())
            },
        }
    }

    /// Drops the session bearing `name`, or reports that none does.
    /// Succeeds exactly when a session bears `name`; on success that session
    /// alone leaves the registry and `name` is no longer present.
    pub fn remove(&mut self, name: &Vec<u8>) -> (r: Result<(), RegistryError>)
        requires
            old(self).wf(),
        ensures
            final(self).wf(),
            final(self)@ == remove_name(old(self)@, name@),
            (r matches Ok(_)) <==> contains_name(old(self)@, name@),
            r matches Err(e) ==> e == RegistryError::NotFound,
            contains_name(old(self)@, name@) ==> final(self)@.len() == old(self)@.len() - 1
                && !contains_name(final(self)@, name@),
    {
        match self.name_exists(name) {
            Some(i) => {
                let ghost pre = self@;
                let ghost n = name@;
                let ghost k = i as int;
                self.clients.remove(i);
                proof {
                    assert(self@ =~= pre.remove(k));
                    lemma_name_index_unique(pre, n, k);
                    lemma_removed_wf(pre, k);
                    assert forall|j: int| 0 <= j < self@.len() implies self@[j].0 != n by {
                        if j < k {
                            assert(pre[j].0 != pre[k].0);
                        } else {
                            assert(pre[j + 1].0 != pre[k].0);
                        }
                    }
                }
                Ok(())
            },
            None => Err(RegistryError::NotFound),
        }
    }

    /// One delivery of `message` for every registered session, in registry
    /// order. The registry itself does not change.
    pub fn send_to_all(&self, message: &Vec<u8>) -> (r: Vec<Delivery>)
        ensures
            r@.len() == self@.len(),
            forall|i: int|
                0 <= i < r@.len() ==> r@[i].conn == self@[i].1 && r@[i].message@ == message@,
            deliveries_model(r@) == broadcast_model(self@, message@),
    {
        let mut out: Vec<Delivery> = Vec::new();
        let mut i: usize = 0;
        while i < self.clients.len()
            invariant
                i <= self@.len(),
                self@.len() == self.clients@.len(),
                out@.len() == i,
                forall|j: int|
                    0 <= j < i ==> out@[j].conn == self@[j].1 && out@[j].message@ == message@,
            decreases self@.len() - i,
        {
            let copy = copy_range(message, 0, message.len());
            proof {
                assert(copy@ =~= message@);
            }
            out.push(Delivery { conn: self.clients[i].1, message: copy });
            i = i + 1;
        }
        proof {
            assert(deliveries_model(out@) =~= broadcast_model(self@, message@));
        }
        out
    }

    /// The delivery of `message` to the session bearing `target`, or a
    /// not-found report. On success the delivery names exactly the
    /// connection registered under `target` and carries `message` verbatim;
    /// no other session is addressed.
    pub fn send_to(&self, target: &Vec<u8>, message: &Vec<u8>) -> (r: Result<
        Delivery,
        RegistryError,
    >)
        requires
            self.wf(),
        ensures
            match r {
                Ok(d) => {
                    &&& contains_name(self@, target@)
                    &&& d.conn == conn_of(self@, target@)
                    &&& d.message@ == message@
                },
                Err(e) => {
                    &&& e == RegistryError::NotFound
                    &&& !contains_name(self@, target@)
                },
            },
    {
        match self.name_exists(target) {
            Some(i) => {
                proof {
                    lemma_name_index_unique(self@, target@, i as int);
                }
                let copy = copy_range(message, 0, message.len());
                proof {
                    assert(copy@ =~= message@);
                }
                Ok(Delivery { conn: self.clients[i].1, message: copy })
            },
            None => Err(RegistryError::NotFound),
        }
    }
}

/// Removing one session keeps name uniqueness.
proof fn lemma_removed_wf(s: Seq<(Seq<u8>, u64)>, k: int)
    requires
        registry_wf(s),
        0 <= k < s.len(),
    ensures
        registry_wf(s.remove(k)),
{
    let t = s.remove(k);
    assert forall|i: int, j: int|
        0 <= i < t.len() && 0 <= j < t.len() && i != j implies t[i].0 != t[j].0 by {
        let i0 = if i < k { i } else { i + 1 };
        let j0 = if j < k { j } else { j + 1 };
        assert(s[i0].0 != s[j0].0);
    }
}

/// Law: at most one `add` of a given name succeeds. A name present in the
/// registry stays present across any successful `add`, so every later `add`
/// of that name keeps meeting a conflict; only removing the name frees it,
/// and removing a different name does not.
pub proof fn lemma_name_conflict_until_removed(
    s: Seq<(Seq<u8>, u64)>,
    e: (Seq<u8>, u64),
    name: Seq<u8>,
    other: Seq<u8>,
)
    requires
        contains_name(s, name),
    ensures
        contains_name(s.push(e), name),
        registry_wf(s) ==> !contains_name(remove_name(s, name), name),
        registry_wf(s) && other != name ==> contains_name(remove_name(s, other), name),
{
    let w = name_index(s, name);
    lemma_name_index(s, name);
    assert(s.push(e)[w].0 == name);
    if registry_wf(s) {
        lemma_remove_breaks_presence(s, name);
        if other != name {
            if contains_name(s, other) {
                let k = name_index(s, other);
                lemma_name_index(s, other);
                let t = s.remove(k);
                let w2 = if w < k { w } else { w - 1 };
                assert(t[w2].0 == name);
            }
        }
    }
}

/// Under name uniqueness, removing a name leaves no session bearing it.
proof fn lemma_remove_breaks_presence(s: Seq<(Seq<u8>, u64)>, name: Seq<u8>)
    requires
        registry_wf(s),
        contains_name(s, name),
    ensures
        !contains_name(remove_name(s, name), name),
{
    let k = name_index(s, name);
    lemma_name_index(s, name);
    let t = s.remove(k);
    assert forall|j: int| 0 <= j < t.len() implies t[j].0 != name by {
        if j < k {
            assert(s[j].0 != s[k].0);
        } else {
            assert(s[j + 1].0 != s[k].0);
        }
    }
}

/// Law: removal is idempotent. Removing a present name shrinks the registry
/// by exactly one session and leaves the name absent, so removing it again
/// changes nothing (and, by the contract of `remove`, reports not-found).
pub proof fn lemma_remove_idempotent(s: Seq<(Seq<u8>, u64)>, name: Seq<u8>)
    requires
        registry_wf(s),
        contains_name(s, name),
    ensures
        remove_name(s, name).len() == s.len() - 1,
        !contains_name(remove_name(s, name), name),
        remove_name(remove_name(s, name), name) == remove_name(s, name),
{
    lemma_name_index(s, name);
    lemma_remove_breaks_presence(s, name);
}

} // verus!
