//! The registry of listeners: it creates and names them, keeps their ports
//! distinct, and carries each policy change to the right one.
use vstd::prelude::*;

use std::collections::HashSet;

use dashmap::DashMap;

use crate::codec::IpAddress;
use crate::ids::{random_uuid, uuid_string, uuid_text};
use crate::listener::{ListenerView, Socks5Proxy, auth_with, auth_without, saturating_sum};
use crate::users::{User, UserSet, UserView, user_views, users_with, users_without};

verus! {

#[verifier::external_type_specification]
#[verifier::external_body]
#[verifier::reject_recursive_types(K)]
#[verifier::reject_recursive_types(V)]
#[verifier::reject_recursive_types(S)]
pub struct ExDashMap<K, V, S>(DashMap<K, V, S>);

/// The keys that an id index holds, each with the slot it points to.
pub uninterp spec fn index_slots(m: DashMap<String, usize>) -> Map<Seq<char>, usize>;

/// An index with no key.
pub open spec fn no_slots() -> Map<Seq<char>, usize> {
    Map::empty()
}

/// Relies on `DashMap::new`: a map with no entry.
#[verifier::external_body]
fn new_index() -> (r: DashMap<String, usize>)
    ensures
        index_slots(r) == no_slots(),
{
    DashMap::new()
}

/// Relies on `DashMap::get`: the value stored under a key equal to `id`,
/// if there is one.
#[verifier::external_body]
fn index_get(m: &DashMap<String, usize>, id: &str) -> (r: Option<usize>)
    ensures
        r == (if index_slots(*m).contains_key(id@) {
            Some(index_slots(*m)[id@])
        } else {
            None
        }),
{
    m.get(id).map(|e| *e.value())
}

/// Relies on `DashMap::insert`: `slot` is stored under `id`, replacing
/// what was stored under an equal key; the other entries stay.
#[verifier::external_body]
fn index_insert(m: &mut DashMap<String, usize>, id: String, slot: usize)
    ensures
        index_slots(*final(m)) == index_slots(*old(m)).insert(id@, slot),
{
    m.insert(id, slot);
}

/// The kinds of listener that can be asked for.
#[derive(Clone, Copy, Debug, PartialEq, Eq, Structural)]
pub enum ProxyType {
    Http,
    Socks5,
}

/// Why a control operation was refused; none of them changes anything.
#[derive(Clone, Copy, Debug, PartialEq, Eq, Structural)]
pub enum ProxyError {
    /// A registered listener has the port already.
    PortInUse,
    /// Listeners of this kind cannot be made.
    UnsupportedKind,
    /// No listener has this id.
    ProxyNotFound,
    /// A registered listener has this id already.
    IdInUse,
}

/// The HTTP-CONNECT listener kind, which carries no state yet.
#[derive(Debug)]
pub struct HttpProxy {}

impl HttpProxy {
    pub fn new() -> (r: HttpProxy) {
        HttpProxy {}
    }
}

/// A registered listener and its id.
#[derive(Debug)]
pub struct ProxyEntry {
    id: String,
    proxy: Socks5Proxy,
}

/// What the manager is, to the contracts: the staging set of users, and
/// each registered listener under its id.
pub struct ManagerView {
    pub users: Seq<UserView>,
    pub proxies: Map<Seq<char>, ListenerView>,
}

/// The state of a listener just registered on `port`.
pub open spec fn fresh_listener(port: u16) -> ListenerView {
    ListenerView {
        port,
        auth_methods: Set::empty(),
        users: Seq::empty(),
        blocked: Set::empty(),
        max_bandwidth: 0,
        bandwidth_used: 0,
    }
}

/// Whether a listener of `m` has the port `port`.
pub open spec fn port_taken(m: ManagerView, port: u16) -> bool {
    exists|k: Seq<char>| m.proxies.contains_key(k) && (#[trigger] m.proxies[k]).port == port
}

/// Every listener of `m0` is still in `m1`, on the same port, and has not
/// counted fewer bytes.
pub open spec fn listeners_kept(m0: ManagerView, m1: ManagerView) -> bool {
    forall|k: Seq<char>|
        #[trigger] m0.proxies.contains_key(k) ==> m1.proxies.contains_key(k) && m1.proxies[k].port
            == m0.proxies[k].port && m1.proxies[k].bandwidth_used >= m0.proxies[k].bandwidth_used
}

/// `m` with the listener under `id` changed to `l`.
pub open spec fn with_listener(m: ManagerView, id: Seq<char>, l: ListenerView) -> ManagerView {
    ManagerView { proxies: m.proxies.insert(id, l), ..m }
}

/// The registry of listeners.
#[derive(Debug)]
pub struct ProxyManager {
    users: UserSet,
    avaliable_proxies: Vec<ProxyEntry>,
    index: DashMap<String, usize>,
}

impl View for ProxyManager {
    type V = ManagerView;

    closed spec fn view(&self) -> ManagerView {
        ManagerView {
            users: self.users@,
            proxies: Map::new(
                |k: Seq<char>| index_slots(self.index).contains_key(k),
                |k: Seq<char>| self.avaliable_proxies@[index_slots(self.index)[k] as int].proxy@,
            ),
        }
    }
}

impl ProxyManager {
    /// The index points each id at the one entry that has it, every entry is
    /// indexed, every listener is well formed and no two share a port.
    pub closed spec fn wf(&self) -> bool {
        let es = self.avaliable_proxies@;
        let ix = index_slots(self.index);
        &&& self.users.wf()
        &&& forall|i: int|
            0 <= i < es.len() ==> ix.contains_key((#[trigger] es[i]).id@) && ix[es[i].id@] == i
                && es[i].proxy.wf()
        &&& forall|k: Seq<char>| #[trigger] ix.contains_key(k) ==> ix[k] < es.len() && es[ix[k] as int].id@ == k
        &&& forall|i: int, j: int|
            0 <= i < es.len() && 0 <= j < es.len() && i != j ==> (#[trigger] es[i]).proxy@.port != (#[trigger] es[j]).proxy@.port
    }

    pub fn new() -> (r: ProxyManager)
        ensures
            r.wf(),
            r@.users == Seq::<UserView>::empty(),
            r@.proxies == Map::<Seq<char>, ListenerView>::empty(),
    {
        let r = ProxyManager { users: UserSet::new(), avaliable_proxies: Vec::new(), index: new_index() };
        assert(r@.proxies =~= Map::<Seq<char>, ListenerView>::empty());
        r
    }

    /// The slot of the listener `id`, if one is registered.
    fn slot_of(&self, id: &str) -> (r: Option<usize>)
        requires
            self.wf(),
        ensures
            r is Some <==> self@.proxies.contains_key(id@),
            r matches Some(s) ==> s < self.avaliable_proxies@.len() && self.avaliable_proxies@[s as int].id@ == id@
                && self.avaliable_proxies@[s as int].proxy@ == self@.proxies[id@],
    {
        index_get(&self.index, id)
    }

    /// After the entry at `slot` changed in place, keeping its id and port.
    proof fn lemma_slot_changed(m0: &ProxyManager, m1: &ProxyManager, slot: int)
        requires
            m0.wf(),
            0 <= slot < m0.avaliable_proxies@.len(),
            m1.index == m0.index,
            m1.users == m0.users,
            m1.avaliable_proxies@ == m0.avaliable_proxies@.update(slot, m1.avaliable_proxies@[slot]),
            m1.avaliable_proxies@[slot].id@ == m0.avaliable_proxies@[slot].id@,
            m1.avaliable_proxies@[slot].proxy.wf(),
            m1.avaliable_proxies@[slot].proxy@.port == m0.avaliable_proxies@[slot].proxy@.port,
        ensures
            m1.wf(),
            m1@ == with_listener(m0@, m0.avaliable_proxies@[slot].id@, m1.avaliable_proxies@[slot].proxy@),
    {
        let es0 = m0.avaliable_proxies@;
        let es1 = m1.avaliable_proxies@;
        let ix = index_slots(m0.index);
        assert forall|i: int| 0 <= i < es1.len() implies ix.contains_key((#[trigger] es1[i]).id@) && ix[es1[i].id@] == i
            && es1[i].proxy.wf() by {
            if i != slot {
                assert(es1[i] == es0[i]);
            }
        }
        assert forall|i: int, j: int|
            0 <= i < es1.len() && 0 <= j < es1.len() && i != j implies (#[trigger] es1[i]).proxy@.port != (#[trigger] es1[j]).proxy@.port by {
            assert(es0[i].proxy@.port == es1[i].proxy@.port);
            assert(es0[j].proxy@.port == es1[j].proxy@.port);
        }
        let id = es0[slot].id@;
        assert(m1@.proxies =~= m0@.proxies.insert(id, es1[slot].proxy@)) by {
            assert forall|k: Seq<char>| #[trigger] m1@.proxies.contains_key(k) implies m1@.proxies[k] == m0@.proxies.insert(id, es1[slot].proxy@)[k] by {
                if k != id {
                    assert(ix[k] != slot);
                }
            }
        }
    }

    /// Registers a listener of kind `proxy_type` on `port` under `id`.
    /// Refused, in this order: a port that a registered listener has, a kind
    /// other than SOCKS5, an id that is registered already.
    pub fn register_proxy(&mut self, id: String, proxy_type: ProxyType, port: u16) -> (r: Result<String, ProxyError>)
        requires
            old(self).wf(),
        ensures
            final(self).wf(),
            port_taken(old(self)@, port) ==> r == Err::<String, _>(ProxyError::PortInUse),
            !port_taken(old(self)@, port) && proxy_type == ProxyType::Http ==> r == Err::<String, _>(
                ProxyError::UnsupportedKind,
            ),
            !port_taken(old(self)@, port) && proxy_type == ProxyType::Socks5 && old(self)@.proxies.contains_key(id@)
                ==> r == Err::<String, _>(ProxyError::IdInUse),
            r is Err ==> final(self)@ == old(self)@,
            r matches Ok(k) ==> k@ == id@ && final(self)@ == with_listener(old(self)@, id@, fresh_listener(port))
                && !old(self)@.proxies.contains_key(id@),
            !port_taken(old(self)@, port) && proxy_type == ProxyType::Socks5 && !old(self)@.proxies.contains_key(id@)
                ==> r is Ok,
            listeners_kept(old(self)@, final(self)@),
    {
        let mut i: usize = 0;
        while i < self.avaliable_proxies.len()
            invariant
                self.wf(),
                i <= self.avaliable_proxies@.len(),
                forall|j: int| 0 <= j < i ==> (#[trigger] self.avaliable_proxies@[j]).proxy@.port != port,
            decreases self.avaliable_proxies@.len() - i,
        {
            if self.avaliable_proxies[i].proxy.port() == port {
                proof {
                    let k = self.avaliable_proxies@[i as int].id@;
                    assert(self@.proxies.contains_key(k));
                    assert(self@.proxies[k].port == port);
                }
                return Err(ProxyError::PortInUse);
            }
            i = i + 1;
        }
        assert(!port_taken(self@, port)) by {
            assert forall|k: Seq<char>| self@.proxies.contains_key(k) implies (#[trigger] self@.proxies[k]).port != port by {
                let s = index_slots(self.index)[k] as int;
                assert(self.avaliable_proxies@[s].proxy@.port != port);
            }
        }
        match proxy_type {
            ProxyType::Http => {
                return Err(ProxyError::UnsupportedKind);
            },
            ProxyType::Socks5 => {},
        }
        if self.slot_of(id.as_str()).is_some() {
            return Err(ProxyError::IdInUse);
        }
        let ghost m0 = self@;
        let ghost es0 = self.avaliable_proxies@;
        let ghost ix0 = index_slots(self.index);
        let slot = self.avaliable_proxies.len();
        let key = id.clone();
        index_insert(&mut self.index, key, slot);
        let entry = ProxyEntry { id, proxy: Socks5Proxy::new(port) };
        self.avaliable_proxies.push(entry);
        proof {
            let es = self.avaliable_proxies@;
            let ix = index_slots(self.index);
            assert(es == es0.push(entry));
            assert forall|j: int| 0 <= j < es.len() implies ix.contains_key((#[trigger] es[j]).id@) && ix[es[j].id@] == j
                && es[j].proxy.wf() by {
                if j < es0.len() {
                    assert(es[j] == es0[j]);
                    assert(ix0.contains_key(es0[j].id@));
                    assert(es0[j].id@ != id@);
                }
            }
            assert forall|k: Seq<char>| #[trigger] ix.contains_key(k) implies ix[k] < es.len() && es[ix[k] as int].id@ == k by {
                if k != id@ {
                    assert(ix0.contains_key(k));
                    assert(es[ix0[k] as int] == es0[ix0[k] as int]);
                }
            }
            assert forall|a: int, b: int|
                0 <= a < es.len() && 0 <= b < es.len() && a != b implies (#[trigger] es[a]).proxy@.port != (#[trigger] es[b]).proxy@.port by {
                if a == es0.len() as int {
                    assert(es[b] == es0[b]);
                    assert(m0.proxies.contains_key(es0[b].id@));
                    assert(m0.proxies[es0[b].id@] == es0[b].proxy@);
                } else if b == es0.len() as int {
                    assert(es[a] == es0[a]);
                    assert(m0.proxies.contains_key(es0[a].id@));
                    assert(m0.proxies[es0[a].id@] == es0[a].proxy@);
                } else {
                    assert(es[a] == es0[a]);
                    assert(es[b] == es0[b]);
                }
            }
            assert(self@.proxies =~= m0.proxies.insert(id@, fresh_listener(port))) by {
                assert forall|k: Seq<char>| #[trigger] self@.proxies.contains_key(k) implies self@.proxies[k] == m0.proxies.insert(id@, fresh_listener(port))[k] by {
                    if k != id@ {
                        assert(es[ix0[k] as int] == es0[ix0[k] as int]);
                    }
                }
            }
        }
        let r = self.avaliable_proxies[slot].id.clone();
        Ok(r)
    }

    /// A fresh listener id: the text of a random UUID.
    fn create_proxy_id() -> (r: String)
        ensures
            exists|u: u128| r@ == uuid_text(u),
    {
        uuid_string(random_uuid())
    }

    /// Registers a listener of kind `proxy_type` on `port` under a fresh
    /// random id, and returns the id. Refused as `register_proxy` says.
    pub fn add_proxy(&mut self, proxy_type: ProxyType, port: u16) -> (r: Result<String, ProxyError>)
        requires
            old(self).wf(),
        ensures
            final(self).wf(),
            port_taken(old(self)@, port) ==> r == Err::<String, _>(ProxyError::PortInUse),
            !port_taken(old(self)@, port) && proxy_type == ProxyType::Http ==> r == Err::<String, _>(
                ProxyError::UnsupportedKind,
            ),
            r is Err ==> final(self)@ == old(self)@,
            r matches Err(e) ==> e != ProxyError::ProxyNotFound,
            !port_taken(old(self)@, port) && proxy_type == ProxyType::Socks5 ==> r is Ok || r == Err::<String, _>(
                ProxyError::IdInUse,
            ),
            r == Err::<String, ProxyError>(ProxyError::IdInUse) ==> exists|u: u128|
                old(self)@.proxies.contains_key(#[trigger] uuid_text(u)),
            r matches Ok(k) ==> final(self)@ == with_listener(old(self)@, k@, fresh_listener(port))
                && !old(self)@.proxies.contains_key(k@),
            listeners_kept(old(self)@, final(self)@),
    {
        let id = ProxyManager::create_proxy_id();
        let ghost drawn = id@;
        let r = self.register_proxy(id, proxy_type, port);
        proof {
            if r == Err::<String, ProxyError>(ProxyError::IdInUse) {
                let u = choose|u: u128| drawn == uuid_text(u);
                assert(old(self)@.proxies.contains_key(uuid_text(u)));
            }
        }
        r
    }

    /// The listener `id`, if one is registered.
    pub fn get_proxy(&self, id: &String) -> (r: Option<&Socks5Proxy>)
        requires
            self.wf(),
        ensures
            r is Some <==> self@.proxies.contains_key(id@),
            r matches Some(p) ==> p@ == self@.proxies[id@] && p.wf(),
    {
        match self.slot_of(id.as_str()) {
            Some(s) => Some(&self.avaliable_proxies[s].proxy),
            None => None,
        }
    }

    /// The methods the listener `proxy_id` accepts, each once.
    pub fn list_auth_methods(&self, proxy_id: &String) -> (r: Option<HashSet<u8>>)
        requires
            self.wf(),
        ensures
            r is Some <==> self@.proxies.contains_key(proxy_id@),
            r matches Some(ms) ==> ms@ == self@.proxies[proxy_id@].auth_methods,
    {
        match self.get_proxy(proxy_id) {
            Some(p) => Some(p.avaliable_auth_methods()),
            None => None,
        }
    }

    /// The listener `proxy_id` accepts `method` from now on.
    pub fn set_auth_method(&mut self, proxy_id: &String, method: u8) -> (r: Result<(), ProxyError>)
        requires
            old(self).wf(),
        ensures
            final(self).wf(),
            r is Ok <==> old(self)@.proxies.contains_key(proxy_id@),
            r matches Err(e) ==> e == ProxyError::ProxyNotFound && final(self)@ == old(self)@,
            r is Ok ==> final(self)@ == with_listener(
                old(self)@,
                proxy_id@,
                ListenerView {
                    auth_methods: auth_with(old(self)@.proxies[proxy_id@].auth_methods, seq![method]),
                    ..old(self)@.proxies[proxy_id@]
                },
            ),
            listeners_kept(old(self)@, final(self)@),
    {
        match self.slot_of(proxy_id.as_str()) {
            None => Err(ProxyError::ProxyNotFound),
            Some(s) => {
                let ghost m0 = *self;
                let mut methods: Vec<u8> = Vec::new();
                methods.push(method);
                assert(methods@ == seq![method]);
                self.avaliable_proxies[s].proxy.set_avaliable_auth_method(methods);
                proof {
                    ProxyManager::lemma_slot_changed(&m0, self, s as int);
                }
                Ok(())
            },
        }
    }

    /// The listener `proxy_id` no longer accepts `method`.
    pub fn remove_auth_method(&mut self, proxy_id: &String, method: u8) -> (r: Result<(), ProxyError>)
        requires
            old(self).wf(),
        ensures
            final(self).wf(),
            r is Ok <==> old(self)@.proxies.contains_key(proxy_id@),
            r matches Err(e) ==> e == ProxyError::ProxyNotFound && final(self)@ == old(self)@,
            r is Ok ==> final(self)@ == with_listener(
                old(self)@,
                proxy_id@,
                ListenerView {
                    auth_methods: auth_without(old(self)@.proxies[proxy_id@].auth_methods, seq![method]),
                    ..old(self)@.proxies[proxy_id@]
                },
            ),
            listeners_kept(old(self)@, final(self)@),
    {
        match self.slot_of(proxy_id.as_str()) {
            None => Err(ProxyError::ProxyNotFound),
            Some(s) => {
                let ghost m0 = *self;
                let mut methods: Vec<u8> = Vec::new();
                methods.push(method);
                assert(methods@ == seq![method]);
                self.avaliable_proxies[s].proxy.remove_avaliable_auth_method(methods);
                proof {
                    ProxyManager::lemma_slot_changed(&m0, self, s as int);
                }
                Ok(())
            },
        }
    }

    /// The users of the listener `proxy_id`, or of the staging set when no
    /// id is given.
    pub fn list_users(&self, proxy_id: Option<&String>) -> (r: Option<Vec<User>>)
        requires
            self.wf(),
        ensures
            proxy_id is None ==> r is Some && user_views(r->Some_0@) == self@.users,
            proxy_id matches Some(id) ==> {
                &&& r is Some <==> self@.proxies.contains_key(id@)
                &&& r matches Some(us) ==> user_views(us@) == self@.proxies[id@].users
            },
    {
        match proxy_id {
            Some(id) => match self.get_proxy(id) {
                Some(p) => Some(p.avaliable_users()),
                None => None,
            },
            None => Some(self.users.to_vec()),
        }
    }

    /// Registers `user` with the listener `proxy_id`, or in the staging set
    /// when no id is given; a user whose id is there already stays as it is.
    pub fn register_user(&mut self, proxy_id: Option<&String>, user: User) -> (r: Result<(), ProxyError>)
        requires
            old(self).wf(),
        ensures
            final(self).wf(),
            listeners_kept(old(self)@, final(self)@),
            proxy_id is None ==> r is Ok && final(self)@ == (ManagerView {
                users: users_with(old(self)@.users, user@),
                ..old(self)@
            }),
            proxy_id matches Some(id) ==> {
                &&& r is Ok <==> old(self)@.proxies.contains_key(id@)
                &&& r matches Err(e) ==> e == ProxyError::ProxyNotFound && final(self)@ == old(self)@
                &&& r is Ok ==> final(self)@ == with_listener(
                    old(self)@,
                    id@,
                    ListenerView { users: users_with(old(self)@.proxies[id@].users, user@), ..old(self)@.proxies[id@] },
                )
            },
    {
        match proxy_id {
            None => {
                self.users.insert(user);
                proof {
                    assert(self@.proxies =~= old(self)@.proxies);
                }
                Ok(())
            },
            Some(id) => match self.slot_of(id.as_str()) {
                None => Err(ProxyError::ProxyNotFound),
                Some(s) => {
                    let ghost m0 = *self;
                    self.avaliable_proxies[s].proxy.set_user(user);
                    proof {
                        ProxyManager::lemma_slot_changed(&m0, self, s as int);
                    }
                    Ok(())
                },
            },
        }
    }

    /// Removes the user with `user`'s id from the listener `proxy_id`, or
    /// from the staging set when no id is given.
    pub fn remove_user(&mut self, proxy_id: Option<&String>, user: User) -> (r: Result<(), ProxyError>)
        requires
            old(self).wf(),
        ensures
            final(self).wf(),
            listeners_kept(old(self)@, final(self)@),
            proxy_id is None ==> r is Ok && final(self)@ == (ManagerView {
                users: users_without(old(self)@.users, user.user_id),
                ..old(self)@
            }),
            proxy_id matches Some(id) ==> {
                &&& r is Ok <==> old(self)@.proxies.contains_key(id@)
                &&& r matches Err(e) ==> e == ProxyError::ProxyNotFound && final(self)@ == old(self)@
                &&& r is Ok ==> final(self)@ == with_listener(
                    old(self)@,
                    id@,
                    ListenerView {
                        users: users_without(old(self)@.proxies[id@].users, user.user_id),
                        ..old(self)@.proxies[id@]
                    },
                )
            },
    {
        match proxy_id {
            None => {
                self.users.remove_by_id(user.user_id);
                proof {
                    assert(self@.proxies =~= old(self)@.proxies);
                }
                Ok(())
            },
            Some(id) => match self.slot_of(id.as_str()) {
                None => Err(ProxyError::ProxyNotFound),
                Some(s) => {
                    let ghost m0 = *self;
                    self.avaliable_proxies[s].proxy.remove_user_by_id(user.user_id);
                    proof {
                        ProxyManager::lemma_slot_changed(&m0, self, s as int);
                    }
                    Ok(())
                },
            },
        }
    }

    /// Sets the byte budget of the listener `proxy_id`.
    pub fn set_max_bandwith(&mut self, proxy_id: &String, max: u64) -> (r: Result<(), ProxyError>)
        requires
            old(self).wf(),
        ensures
            final(self).wf(),
            r is Ok <==> old(self)@.proxies.contains_key(proxy_id@),
            r matches Err(e) ==> e == ProxyError::ProxyNotFound && final(self)@ == old(self)@,
            r is Ok ==> final(self)@ == with_listener(
                old(self)@,
                proxy_id@,
                ListenerView { max_bandwidth: max, ..old(self)@.proxies[proxy_id@] },
            ),
            listeners_kept(old(self)@, final(self)@),
    {
        match self.slot_of(proxy_id.as_str()) {
            None => Err(ProxyError::ProxyNotFound),
            Some(s) => {
                let ghost m0 = *self;
                self.avaliable_proxies[s].proxy.set_max_bandwith(max);
                proof {
                    ProxyManager::lemma_slot_changed(&m0, self, s as int);
                }
                Ok(())
            },
        }
    }

    /// Adds `used` relayed bytes to the counter of the listener `proxy_id`.
    pub fn update_bandwith_usage(&mut self, proxy_id: &String, used: u64) -> (r: Result<(), ProxyError>)
        requires
            old(self).wf(),
        ensures
            final(self).wf(),
            r is Ok <==> old(self)@.proxies.contains_key(proxy_id@),
            r matches Err(e) ==> e == ProxyError::ProxyNotFound && final(self)@ == old(self)@,
            r is Ok ==> final(self)@ == with_listener(
                old(self)@,
                proxy_id@,
                ListenerView {
                    bandwidth_used: saturating_sum(old(self)@.proxies[proxy_id@].bandwidth_used, used),
                    ..old(self)@.proxies[proxy_id@]
                },
            ),
            listeners_kept(old(self)@, final(self)@),
    {
        match self.slot_of(proxy_id.as_str()) {
            None => Err(ProxyError::ProxyNotFound),
            Some(s) => {
                let ghost m0 = *self;
                self.avaliable_proxies[s].proxy.update_bandwith_usage(used);
                proof {
                    ProxyManager::lemma_slot_changed(&m0, self, s as int);
                }
                Ok(())
            },
        }
    }

    /// The listener `proxy_id` refuses connections to `addrs` from now on.
    pub fn block_ip_address(&mut self, proxy_id: &String, addrs: &IpAddress) -> (r: Result<(), ProxyError>)
        requires
            old(self).wf(),
            addrs.wf(),
        ensures
            final(self).wf(),
            r is Ok <==> old(self)@.proxies.contains_key(proxy_id@),
            r matches Err(e) ==> e == ProxyError::ProxyNotFound && final(self)@ == old(self)@,
            r is Ok ==> final(self)@ == with_listener(
                old(self)@,
                proxy_id@,
                ListenerView { blocked: old(self)@.proxies[proxy_id@].blocked.insert(addrs@), ..old(self)@.proxies[proxy_id@] },
            ),
            listeners_kept(old(self)@, final(self)@),
    {
        match self.slot_of(proxy_id.as_str()) {
            None => Err(ProxyError::ProxyNotFound),
            Some(s) => {
                let ghost m0 = *self;
                self.avaliable_proxies[s].proxy.block_ip_address(addrs);
                proof {
                    ProxyManager::lemma_slot_changed(&m0, self, s as int);
                }
                Ok(())
            },
        }
    }

    /// The listener `proxy_id` no longer refuses connections to `addrs`.
    pub fn remove_blocked_address(&mut self, proxy_id: &String, addrs: &IpAddress) -> (r: Result<(), ProxyError>)
        requires
            old(self).wf(),
        ensures
            final(self).wf(),
            r is Ok <==> old(self)@.proxies.contains_key(proxy_id@),
            r matches Err(e) ==> e == ProxyError::ProxyNotFound && final(self)@ == old(self)@,
            r is Ok ==> final(self)@ == with_listener(
                old(self)@,
                proxy_id@,
                ListenerView { blocked: old(self)@.proxies[proxy_id@].blocked.remove(addrs@), ..old(self)@.proxies[proxy_id@] },
            ),
            listeners_kept(old(self)@, final(self)@),
    {
        match self.slot_of(proxy_id.as_str()) {
            None => Err(ProxyError::ProxyNotFound),
            Some(s) => {
                let ghost m0 = *self;
                self.avaliable_proxies[s].proxy.remove_blocked_address(addrs);
                proof {
                    ProxyManager::lemma_slot_changed(&m0, self, s as int);
                }
                Ok(())
            },
        }
    }
}

/// No two registered listeners share a port.
pub proof fn lemma_ports_distinct(m: &ProxyManager, a: Seq<char>, b: Seq<char>)
    requires
        m.wf(),
        m@.proxies.contains_key(a),
        m@.proxies.contains_key(b),
        a != b,
    ensures
        m@.proxies[a].port != m@.proxies[b].port,
{
    let ix = index_slots(m.index);
    let es = m.avaliable_proxies@;
    assert(es[ix[a] as int].id@ == a);
    assert(es[ix[b] as int].id@ == b);
}

/// Over any run of operations, each of which keeps the listeners (as every
/// `&mut` operation of `ProxyManager` ensures), a listener registered at
/// some point stays registered on its port, and its byte count read later
/// is never smaller than one read earlier.
pub proof fn lemma_bandwidth_never_decreases(run: Seq<ManagerView>, k: Seq<char>, i: int, j: int)
    requires
        forall|n: int| 0 <= n < run.len() - 1 ==> listeners_kept(#[trigger] run[n], run[n + 1]),
        0 <= i <= j < run.len(),
        run[i].proxies.contains_key(k),
    ensures
        run[j].proxies.contains_key(k),
        run[j].proxies[k].port == run[i].proxies[k].port,
        run[j].proxies[k].bandwidth_used >= run[i].proxies[k].bandwidth_used,
    decreases j - i,
{
    if i < j {
        lemma_bandwidth_never_decreases(run, k, i, j - 1);
        assert(listeners_kept(run[j - 1], run[j]));
    }
}

} // verus!
