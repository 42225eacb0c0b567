//! The policy state of one SOCKS5 listener: its port, the authentication
//! methods it accepts, its users, the addresses it refuses to reach, and
//! its bandwidth budget and use.
use vstd::prelude::*;

use std::collections::HashSet;

use crate::codec::IpAddress;
use crate::ids::{parse_uuid, uuid_parse};
use crate::users::{User, UserSet, UserView, credentials_accepted, has_user_id, user_views, users_with, users_without};

verus! {

broadcast use vstd::std_specs::hash::group_hash_axioms;

/// What a listener's state is, to the contracts.
pub struct ListenerView {
    pub port: u16,
    pub auth_methods: Set<u8>,
    pub users: Seq<UserView>,
    pub blocked: Set<Seq<u8>>,
    pub max_bandwidth: u64,
    pub bandwidth_used: u64,
}

/// The methods of `s` once every method of `ms` is accepted too.
pub open spec fn auth_with(s: Set<u8>, ms: Seq<u8>) -> Set<u8> {
    s.union(Set::new(|m: u8| ms.contains(m)))
}

/// The methods of `s` once no method of `ms` is accepted any more.
pub open spec fn auth_without(s: Set<u8>, ms: Seq<u8>) -> Set<u8> {
    s.difference(Set::new(|m: u8| ms.contains(m)))
}

/// The counter after `n` more bytes: it stops at `u64::MAX` rather than wrap.
pub open spec fn saturating_sum(a: u64, n: u64) -> u64 {
    if a as int + n as int > u64::MAX as int {
        u64::MAX
    } else {
        (a + n) as u64
    }
}

/// The policy state of a SOCKS5 listener.
#[derive(Debug)]
pub struct Socks5Proxy {
    port: u16,
    avaliable_auth_methods: HashSet<u8>,
    avaliable_users: UserSet,
    blocked_ippaddr: Vec<IpAddress>,
    max_bandwith: u64,
    bandwith: u64,
}

impl View for Socks5Proxy {
    type V = ListenerView;

    closed spec fn view(&self) -> ListenerView {
        ListenerView {
            port: self.port,
            auth_methods: self.avaliable_auth_methods@,
            users: self.avaliable_users@,
            blocked: Set::new(
                |a: Seq<u8>| exists|i: int| 0 <= i < self.blocked_ippaddr@.len() && (#[trigger] self.blocked_ippaddr@[i])@ == a,
            ),
            max_bandwidth: self.max_bandwith,
            bandwidth_used: self.bandwith,
        }
    }
}

impl Socks5Proxy {
    /// The state's internal invariant: no blocked address is listed twice,
    /// no two users share an id, and every blocked address is an IPv4 or
    /// IPv6 address.
    pub closed spec fn wf(&self) -> bool {
        &&& self.avaliable_users.wf()
        &&& forall|i: int, j: int|
            0 <= i < self.blocked_ippaddr@.len() && 0 <= j < self.blocked_ippaddr@.len() && i != j
                ==> (#[trigger] self.blocked_ippaddr@[i])@ != (#[trigger] self.blocked_ippaddr@[j])@
        &&& forall|i: int| 0 <= i < self.blocked_ippaddr@.len() ==> (#[trigger] self.blocked_ippaddr@[i]).wf()
    }

    /// A listener for `port` that accepts no method, has no user, blocks
    /// nothing and has a budget of zero bytes.
    pub fn new(port: u16) -> (r: Socks5Proxy)
        ensures
            r.wf(),
            r@ == (ListenerView {
                port,
                auth_methods: Set::empty(),
                users: Seq::empty(),
                blocked: Set::empty(),
                max_bandwidth: 0,
                bandwidth_used: 0,
            }),
    {
        let r = Socks5Proxy {
            port,
            avaliable_auth_methods: HashSet::new(),
            avaliable_users: UserSet::new(),
            blocked_ippaddr: Vec::new(),
            max_bandwith: 0,
            bandwith: 0,
        };
        assert(r@.auth_methods =~= Set::empty());
        assert(r@.users =~= Seq::empty());
        assert(r@.blocked =~= Set::empty());
        r
    }

    pub fn port(&self) -> (r: u16)
        ensures
            r == self@.port,
    {
        self.port
    }

    /// The accepted methods.
    pub fn avaliable_auth_methods(&self) -> (r: HashSet<u8>)
        ensures
            r@ == self@.auth_methods,
    {
        let mut r: HashSet<u8> = HashSet::new();
        let mut b: u16 = 0;
        while b < 256
            invariant
                b <= 256,
                forall|m: u8| #[trigger] r@.contains(m) <==> (m < b && self@.auth_methods.contains(m)),
            decreases 256 - b,
        {
            let m = b as u8;
            if self.avaliable_auth_methods.contains(&m) {
                r.insert(m);
            }
            b = b + 1;
        }
        assert(r@ =~= self@.auth_methods);
        r
    }

    /// Whether `method` is accepted.
    pub fn accepts_method(&self, method: u8) -> (r: bool)
        ensures
            r == self@.auth_methods.contains(method),
    {
        self.avaliable_auth_methods.contains(&method)
    }

    /// Accepts every method of `methods` from now on.
    pub fn set_avaliable_auth_method(&mut self, methods: Vec<u8>)
        requires
            old(self).wf(),
        ensures
            final(self).wf(),
            final(self)@ == (ListenerView {
                auth_methods: auth_with(old(self)@.auth_methods, methods@),
                ..old(self)@
            }),
    {
        assert(auth_with(old(self)@.auth_methods, methods@.subrange(0, 0)) =~= old(self)@.auth_methods);
        let mut i: usize = 0;
        while i < methods.len()
            invariant
                self.wf(),
                i <= methods@.len(),
                self@ == (ListenerView {
                    auth_methods: auth_with(old(self)@.auth_methods, methods@.subrange(0, i as int)),
                    ..old(self)@
                }),
            decreases methods@.len() - i,
        {
            self.avaliable_auth_methods.insert(methods[i]);
            proof {
                lemma_prefix_members(methods@, i as int);
                assert(auth_with(old(self)@.auth_methods, methods@.subrange(0, i + 1)) =~= auth_with(
                    old(self)@.auth_methods,
                    methods@.subrange(0, i as int),
                ).insert(methods@[i as int]));
                assert(self@.auth_methods =~= auth_with(
                    old(self)@.auth_methods,
                    methods@.subrange(0, i + 1),
                ));
            }
            i = i + 1;
        }
        assert(methods@.subrange(0, methods@.len() as int) == methods@);
    }

    /// Stops accepting every method of `methods`.
    pub fn remove_avaliable_auth_method(&mut self, methods: Vec<u8>)
        requires
            old(self).wf(),
        ensures
            final(self).wf(),
            final(self)@ == (ListenerView {
                auth_methods: auth_without(old(self)@.auth_methods, methods@),
                ..old(self)@
            }),
    {
        assert(auth_without(old(self)@.auth_methods, methods@.subrange(0, 0)) =~= old(self)@.auth_methods);
        let mut i: usize = 0;
        while i < methods.len()
            invariant
                self.wf(),
                i <= methods@.len(),
                self@ == (ListenerView {
                    auth_methods: auth_without(old(self)@.auth_methods, methods@.subrange(0, i as int)),
                    ..old(self)@
                }),
            decreases methods@.len() - i,
        {
            let m = methods[i];
            self.avaliable_auth_methods.remove(&m);
            proof {
                lemma_prefix_members(methods@, i as int);
                assert(auth_without(old(self)@.auth_methods, methods@.subrange(0, i + 1)) =~= auth_without(
                    old(self)@.auth_methods,
                    methods@.subrange(0, i as int),
                ).remove(methods@[i as int]));
                assert(self@.auth_methods =~= auth_without(
                    old(self)@.auth_methods,
                    methods@.subrange(0, i + 1),
                ));
            }
            i = i + 1;
        }
        assert(methods@.subrange(0, methods@.len() as int) == methods@);
    }
}

/// The members of the first `i + 1` elements of `ms` are those of the first
/// `i` and the element at `i`.
proof fn lemma_prefix_members(ms: Seq<u8>, i: int)
    requires
        0 <= i < ms.len(),
    ensures
        forall|m: u8|
            #[trigger] ms.subrange(0, i + 1).contains(m) <==> ms.subrange(0, i).contains(m) || m == ms[i],
{
    let prev = ms.subrange(0, i);
    let next = ms.subrange(0, i + 1);
    assert(next == prev.push(ms[i]));
    assert forall|m: u8| next.contains(m) <==> prev.contains(m) || m == ms[i] by {
        if next.contains(m) {
            let k = choose|k: int| 0 <= k < next.len() && next[k] == m;
            if k < prev.len() {
                assert(prev[k] == m);
            }
        }
        if prev.contains(m) {
            let k = choose|k: int| 0 <= k < prev.len() && prev[k] == m;
            assert(next[k] == m);
        }
        if m == ms[i] {
            assert(next[i] == m);
        }
    }
}

impl Socks5Proxy {
    /// The registered users.
    pub fn avaliable_users(&self) -> (r: Vec<User>)
        ensures
            user_views(r@) == self@.users,
    {
        self.avaliable_users.to_vec()
    }

    /// Whether some registered user has this name and this password, byte
    /// for byte in UTF-8.
    pub fn check_credentials(&self, user_name: &[u8], password: &[u8]) -> (r: bool)
        ensures
            r == credentials_accepted(self@.users, user_name@, password@),
    {
        self.avaliable_users.check_credentials(user_name, password)
    }

    /// Registers `user`, unless a user with its id is registered already.
    pub fn set_user(&mut self, user: User)
        requires
            old(self).wf(),
        ensures
            final(self).wf(),
            final(self)@ == (ListenerView { users: users_with(old(self)@.users, user@), ..old(self)@ }),
    {
        self.avaliable_users.insert(user);
    }

    /// Removes the user whose id is `user_id`; whether there was one.
    pub fn remove_user_by_id(&mut self, user_id: u128) -> (r: bool)
        requires
            old(self).wf(),
        ensures
            final(self).wf(),
            r == has_user_id(old(self)@.users, user_id),
            final(self)@ == (ListenerView { users: users_without(old(self)@.users, user_id), ..old(self)@ }),
    {
        self.avaliable_users.remove_by_id(user_id)
    }

    /// Removes the user whose id the text `user_id` spells; whether there
    /// was one. Text that spells no UUID removes nothing.
    pub fn remove_user(&mut self, user_id: &str) -> (r: bool)
        requires
            old(self).wf(),
        ensures
            final(self).wf(),
            uuid_parse(user_id@) is None ==> !r && final(self)@ == old(self)@,
            uuid_parse(user_id@) matches Some(id) ==> {
                &&& r == has_user_id(old(self)@.users, id)
                &&& final(self)@ == (ListenerView { users: users_without(old(self)@.users, id), ..old(self)@ })
            },
    {
        match parse_uuid(user_id) {
            None => false,
            Some(id) => self.remove_user_by_id(id),
        }
    }

    /// The position of `addr` among the blocked addresses, if it is there.
    fn blocked_index(&self, addr: &IpAddress) -> (r: Option<usize>)
        ensures
            r is None <==> !self@.blocked.contains(addr@),
            r matches Some(i) ==> i < self.blocked_ippaddr@.len() && self.blocked_ippaddr@[i as int]@ == addr@,
    {
        let mut i: usize = 0;
        while i < self.blocked_ippaddr.len()
            invariant
                i <= self.blocked_ippaddr@.len(),
                forall|j: int| 0 <= j < i ==> (#[trigger] self.blocked_ippaddr@[j])@ != addr@,
            decreases self.blocked_ippaddr@.len() - i,
        {
            if self.blocked_ippaddr[i].same_as(addr) {
                return Some(i);
            }
            i = i + 1;
        }
        None
    }

    /// Whether connections to `addr` are refused.
    pub fn is_blocked(&self, addr: &IpAddress) -> (r: bool)
        ensures
            r == self@.blocked.contains(addr@),
    {
        self.blocked_index(addr).is_some()
    }

    /// Refuses connections to `addrs` from now on.
    pub fn block_ip_address(&mut self, addrs: &IpAddress)
        requires
            old(self).wf(),
            addrs.wf(),
        ensures
            final(self).wf(),
            final(self)@ == (ListenerView { blocked: old(self)@.blocked.insert(addrs@), ..old(self)@ }),
    {
        if self.blocked_index(addrs).is_none() {
            let ghost before = self.blocked_ippaddr@;
            self.blocked_ippaddr.push(addrs.duplicate());
            proof {
                let after = self.blocked_ippaddr@;
                assert forall|i: int, j: int|
                    0 <= i < after.len() && 0 <= j < after.len() && i != j implies (#[trigger] after[i])@
                    != (#[trigger] after[j])@ by {
                    if i == after.len() - 1 {
                        assert(after[j] == before[j]);
                    }
                    if j == after.len() - 1 {
                        assert(after[i] == before[i]);
                    }
                }
                assert forall|a: Seq<u8>| #[trigger] self@.blocked.contains(a) <==> old(self)@.blocked.contains(a) || a == addrs@ by {
                    if self@.blocked.contains(a) {
                        let k = choose|k: int| 0 <= k < after.len() && (#[trigger] after[k])@ == a;
                        if k < before.len() {
                            assert(before[k] == after[k]);
                        }
                    }
                    if old(self)@.blocked.contains(a) {
                        let k = choose|k: int| 0 <= k < before.len() && (#[trigger] before[k])@ == a;
                        assert(after[k] == before[k]);
                    }
                    if a == addrs@ {
                        assert(after[before.len() as int]@ == a);
                    }
                }
            }
        }
        assert(self@.blocked =~= old(self)@.blocked.insert(addrs@));
    }

    /// The blocked addresses, each once.
    pub fn get_blocked_address(&self) -> (r: Vec<IpAddress>)
        requires
            self.wf(),
        ensures
            forall|a: Seq<u8>|
                (exists|i: int| 0 <= i < r@.len() && (#[trigger] r@[i])@ == a) <==> self@.blocked.contains(a),
            forall|i: int| 0 <= i < r@.len() ==> (#[trigger] r@[i]).wf(),
            forall|i: int, j: int| 0 <= i < r@.len() && 0 <= j < r@.len() && i != j ==> (#[trigger] r@[i])@ != (#[trigger] r@[j])@,
    {
        let mut r: Vec<IpAddress> = Vec::new();
        let mut i: usize = 0;
        while i < self.blocked_ippaddr.len()
            invariant
                self.wf(),
                i <= self.blocked_ippaddr@.len(),
                r@.len() == i,
                forall|j: int| 0 <= j < i ==> (#[trigger] r@[j])@ == self.blocked_ippaddr@[j]@,
            decreases self.blocked_ippaddr@.len() - i,
        {
            r.push(self.blocked_ippaddr[i].duplicate());
            i = i + 1;
        }
        assert forall|a: Seq<u8>|
            (exists|i: int| 0 <= i < r@.len() && (#[trigger] r@[i])@ == a) <==> self@.blocked.contains(a) by {
            if exists|i: int| 0 <= i < r@.len() && (#[trigger] r@[i])@ == a {
                let k = choose|k: int| 0 <= k < r@.len() && (#[trigger] r@[k])@ == a;
                assert(self.blocked_ippaddr@[k]@ == a);
            }
            if self@.blocked.contains(a) {
                let k = choose|k: int| 0 <= k < self.blocked_ippaddr@.len() && (#[trigger] self.blocked_ippaddr@[k])@ == a;
                assert(r@[k]@ == a);
            }
        }
        assert forall|i: int| 0 <= i < r@.len() implies (#[trigger] r@[i]).wf() by {
            assert(self.blocked_ippaddr@[i].wf());
        }
        assert forall|i: int, j: int| 0 <= i < r@.len() && 0 <= j < r@.len() && i != j implies (#[trigger] r@[i])@ != (#[trigger] r@[j])@ by {
            assert(r@[i]@ == self.blocked_ippaddr@[i]@);
            assert(r@[j]@ == self.blocked_ippaddr@[j]@);
        }
        r
    }

    /// Stops refusing connections to `addrs`.
    pub fn remove_blocked_address(&mut self, addrs: &IpAddress)
        requires
            old(self).wf(),
        ensures
            final(self).wf(),
            final(self)@ == (ListenerView { blocked: old(self)@.blocked.remove(addrs@), ..old(self)@ }),
    {
        match self.blocked_index(addrs) {
            None => {},
            Some(i) => {
                let ghost before = self.blocked_ippaddr@;
                self.blocked_ippaddr.remove(i);
                proof {
                    let after = self.blocked_ippaddr@;
                    assert(after =~= before.remove(i as int));
                    assert forall|k: int| 0 <= k < after.len() implies after[k] == before[if k < i { k } else { k + 1 }] by {}
                    assert forall|a: int, b: int|
                        0 <= a < after.len() && 0 <= b < after.len() && a != b implies (#[trigger] after[a])@
                        != (#[trigger] after[b])@ by {
                        let a2 = if a < i { a } else { a + 1 };
                        let b2 = if b < i { b } else { b + 1 };
                        assert(after[a] == before[a2]);
                        assert(after[b] == before[b2]);
                    }
                    assert forall|k: int| 0 <= k < after.len() implies (#[trigger] after[k]).wf() by {
                        let k2 = if k < i { k } else { k + 1 };
                        assert(after[k] == before[k2]);
                    }
                    assert forall|a: Seq<u8>| #[trigger] self@.blocked.contains(a) <==> old(self)@.blocked.contains(a) && a != addrs@ by {
                        if self@.blocked.contains(a) {
                            let k = choose|k: int| 0 <= k < after.len() && (#[trigger] after[k])@ == a;
                            let k2 = if k < i { k } else { k + 1 };
                            assert(after[k] == before[k2]);
                            assert(k2 != i);
                        }
                        if old(self)@.blocked.contains(a) && a != addrs@ {
                            let k = choose|k: int| 0 <= k < before.len() && (#[trigger] before[k])@ == a;
                            assert(k != i);
                            if k < i {
                                assert(after[k] == before[k]);
                            } else {
                                assert(after[k - 1] == before[k]);
                            }
                        }
                    }
                }
            },
        }
        assert(self@.blocked =~= old(self)@.blocked.remove(addrs@));
    }

    /// Sets the total number of bytes the listener may relay.
    pub fn set_max_bandwith(&mut self, max: u64)
        requires
            old(self).wf(),
        ensures
            final(self).wf(),
            final(self)@ == (ListenerView { max_bandwidth: max, ..old(self)@ }),
    {
        self.max_bandwith = max;
    }

    /// The number of bytes relayed so far.
    pub fn current_bandwith(&self) -> (r: u64)
        ensures
            r == self@.bandwidth_used,
    {
        self.bandwith
    }

    /// The bytes relayed so far, the counter that relays add to.
    pub fn bandwith(&self) -> (r: u64)
        ensures
            r == self@.bandwidth_used,
    {
        self.bandwith
    }

    /// The total number of bytes the listener may relay.
    pub fn max_bandwith(&self) -> (r: u64)
        ensures
            r == self@.max_bandwidth,
    {
        self.max_bandwith
    }

    /// Whether the listener may relay more: the budget exceeds the bytes
    /// relayed so far. A budget of zero admits nothing.
    pub fn has_bandwith(&self) -> (r: bool)
        ensures
            r == (self@.max_bandwidth > self@.bandwidth_used),
    {
        self.max_bandwith > self.bandwith
    }

    /// Adds `used_bandwith` relayed bytes to the counter.
    pub fn update_bandwith_usage(&mut self, used_bandwith: u64)
        requires
            old(self).wf(),
        ensures
            final(self).wf(),
            final(self)@ == (ListenerView {
                bandwidth_used: saturating_sum(old(self)@.bandwidth_used, used_bandwith),
                ..old(self)@
            }),
            final(self)@.bandwidth_used >= old(self)@.bandwidth_used,
    {
        self.bandwith = self.bandwith.saturating_add(used_bandwith);
    }
}

/// Accepting the same methods a second time changes nothing.
pub proof fn lemma_auth_with_idempotent(s: Set<u8>, ms: Seq<u8>)
    ensures
        auth_with(auth_with(s, ms), ms) == auth_with(s, ms),
{
    assert(auth_with(auth_with(s, ms), ms) =~= auth_with(s, ms));
}

/// The bytes counted never decrease.
pub proof fn lemma_saturating_sum_monotonic(a: u64, n: u64)
    ensures
        saturating_sum(a, n) >= a,
{
}

} // verus!
