//! Routing table of the proxy.
//!
//! Maps each application id to its front-end listener and to its pool of
//! back-end addresses, owns the listener slab, and applies control
//! commands.  Binding, registering and closing of the listening sockets
//! is carried out by the surrounding program on the tokens returned
//! here; selecting a back end draws one uniformly at random from the
//! pool of the accepting listener.

use vstd::prelude::*;
use vstd::string::StringExecFns;

use crate::client::Client;
use crate::client::ConnectionStatus;
use crate::messages::Command;
use crate::messages::ServerMessage;
use crate::messages::TcpProxyOrder;
use crate::slab::Slab;

verus! {

/// A back-end address: host and port, kept as the caller provided them.
pub struct Addr {
    pub ip: String,
    pub port: u16,
}

impl View for Addr {
    type V = (Seq<char>, u16);

    open spec fn view(&self) -> (Seq<char>, u16) {
        (self.ip@, self.port)
    }
}

/// Compare two addresses by host and port.
pub fn addr_eq(a: &Addr, b: &Addr) -> (r: bool)
    ensures
        r == (a@ == b@),
{
    a.ip == b.ip && a.port == b.port
}

/// Value copy of an address.
pub fn copy_addr(a: &Addr) -> (r: Addr)
    ensures
        r == *a,
{
    Addr { ip: a.ip.clone(), port: a.port }
}

/// Value copy of an address pool.
fn copy_addrs(v: &Vec<Addr>) -> (r: Vec<Addr>)
    ensures
        r@ == v@,
{
    let mut r: Vec<Addr> = Vec::new();
    let mut i: usize = 0;
    while i < v.len()
        invariant
            i <= v@.len(),
            r@ =~= v@.take(i as int),
        decreases v@.len() - i,
    {
        r.push(copy_addr(&v[i]));
        i = i + 1;
    }
    proof {
        assert(r@ =~= v@);
    }
    r
}

/// One bound front-end: the application it belongs to, its token, the
/// local port it listens on, and the pool its sessions draw from.
pub struct ApplicationListener {
    pub app_id: String,
    pub token: Option<usize>,
    pub front_port: u16,
    pub back_addresses: Vec<Addr>,
}

/// Index of the first entry with the given key in an association list.
pub open spec fn key_index<V>(s: Seq<(String, V)>, key: Seq<char>) -> Option<int>
    decreases s.len(),
{
    if s.len() == 0 {
        None
    } else if s[0].0@ == key {
        Some(0int)
    } else {
        match key_index(s.skip(1), key) {
            Some(i) => Some(i + 1),
            None => None,
        }
    }
}

/// Value of the first entry with the given key.
pub open spec fn assoc_find<V>(s: Seq<(String, V)>, key: Seq<char>) -> Option<V> {
    match key_index(s, key) {
        Some(i) => Some(s[i].1),
        None => None,
    }
}

/// No two entries share a key.
pub open spec fn keys_unique<V>(s: Seq<(String, V)>) -> bool {
    forall|i: int, j: int| 0 <= i < j < s.len() ==> s[i].0@ != s[j].0@
}

/// `key_index` finds the first match: what it returns is in range,
/// matches, and nothing before it does; `None` means nothing matches.
pub proof fn lemma_key_index<V>(s: Seq<(String, V)>, key: Seq<char>)
    ensures
        match key_index(s, key) {
            Some(i) => 0 <= i < s.len() && s[i].0@ == key && forall|j: int|
                0 <= j < i ==> s[j].0@ != key,
            None => forall|j: int| 0 <= j < s.len() ==> s[j].0@ != key,
        },
    decreases s.len(),
{
    if s.len() > 0 && s[0].0@ != key {
        lemma_key_index(s.skip(1), key);
        match key_index(s, key) {
            Some(i) => {
                assert(s.skip(1)[i - 1] == s[i]);
                assert forall|j: int| 0 <= j < i implies s[j].0@ != key by {
                    if j > 0 {
                        assert(s.skip(1)[j - 1] == s[j]);
                    }
                }
            },
            None => {
                assert forall|j: int| 0 <= j < s.len() implies s[j].0@ != key by {
                    if j > 0 {
                        assert(s.skip(1)[j - 1] == s[j]);
                    }
                }
            },
        }
    }
}

/// Converse: a first match at `i` pins `key_index` down.
pub proof fn lemma_key_index_of<V>(s: Seq<(String, V)>, key: Seq<char>, i: int)
    requires
        0 <= i < s.len(),
        s[i].0@ == key,
        forall|j: int| 0 <= j < i ==> s[j].0@ != key,
    ensures
        key_index(s, key) == Some(i),
    decreases i,
{
    if i > 0 {
        assert forall|j: int| 0 <= j < i - 1 implies s.skip(1)[j].0@ != key by {
            assert(s.skip(1)[j] == s[j + 1]);
        }
        assert(s.skip(1)[i - 1] == s[i]);
        lemma_key_index_of(s.skip(1), key, i - 1);
    }
}

/// First index in `fronts` whose key is `app_id`, scanning in order.
fn find_key_front(fronts: &Vec<(String, usize)>, app_id: &String) -> (r: Option<usize>)
    ensures
        match r {
            Some(i) => key_index(fronts@, app_id@) == Some(i as int),
            None => key_index(fronts@, app_id@) is None,
        },
{
    let mut i: usize = 0;
    while i < fronts.len()
        invariant
            i <= fronts@.len(),
            forall|j: int| 0 <= j < i ==> fronts@[j].0@ != app_id@,
        decreases fronts@.len() - i,
    {
        if fronts[i].0 == *app_id {
            proof {
                lemma_key_index_of(fronts@, app_id@, i as int);
            }
            return Some(i);
        }
        i = i + 1;
    }
    proof {
        lemma_key_index(fronts@, app_id@);
    }
    None
}

/// Same scan over the instance table.
fn find_key_instance(instances: &Vec<(String, Vec<Addr>)>, app_id: &String) -> (r: Option<usize>)
    ensures
        match r {
            Some(i) => key_index(instances@, app_id@) == Some(i as int),
            None => key_index(instances@, app_id@) is None,
        },
{
    let mut i: usize = 0;
    while i < instances.len()
        invariant
            i <= instances@.len(),
            forall|j: int| 0 <= j < i ==> instances@[j].0@ != app_id@,
        decreases instances@.len() - i,
    {
        if instances[i].0 == *app_id {
            proof {
                lemma_key_index_of(instances@, app_id@, i as int);
            }
            return Some(i);
        }
        i = i + 1;
    }
    proof {
        lemma_key_index(instances@, app_id@);
    }
    None
}

/// Index of the first address in `s` equal (as host and port) to `a`.
pub open spec fn addr_index(s: Seq<Addr>, a: (Seq<char>, u16)) -> Option<int>
    decreases s.len(),
{
    if s.len() == 0 {
        None
    } else if s[0]@ == a {
        Some(0int)
    } else {
        match addr_index(s.skip(1), a) {
            Some(i) => Some(i + 1),
            None => None,
        }
    }
}

/// Characterization of `addr_index`, as for `key_index`.
pub proof fn lemma_addr_index(s: Seq<Addr>, a: (Seq<char>, u16))
    ensures
        match addr_index(s, a) {
            Some(i) => 0 <= i < s.len() && s[i]@ == a && forall|j: int| 0 <= j < i ==> s[j]@ != a,
            None => forall|j: int| 0 <= j < s.len() ==> s[j]@ != a,
        },
    decreases s.len(),
{
    if s.len() > 0 && s[0]@ != a {
        lemma_addr_index(s.skip(1), a);
        match addr_index(s, a) {
            Some(i) => {
                assert(s.skip(1)[i - 1] == s[i]);
                assert forall|j: int| 0 <= j < i implies s[j]@ != a by {
                    if j > 0 {
                        assert(s.skip(1)[j - 1] == s[j]);
                    }
                }
            },
            None => {
                assert forall|j: int| 0 <= j < s.len() implies s[j]@ != a by {
                    if j > 0 {
                        assert(s.skip(1)[j - 1] == s[j]);
                    }
                }
            },
        }
    }
}

/// Converse: a first match at `i` pins `addr_index` down.
pub proof fn lemma_addr_index_of(s: Seq<Addr>, a: (Seq<char>, u16), i: int)
    requires
        0 <= i < s.len(),
        s[i]@ == a,
        forall|j: int| 0 <= j < i ==> s[j]@ != a,
    ensures
        addr_index(s, a) == Some(i),
    decreases i,
{
    if i > 0 {
        assert forall|j: int| 0 <= j < i - 1 implies s.skip(1)[j]@ != a by {
            assert(s.skip(1)[j] == s[j + 1]);
        }
        assert(s.skip(1)[i - 1] == s[i]);
        lemma_addr_index_of(s.skip(1), a, i - 1);
    }
}

/// Remove the first address equal to `a` from the pool `v`; leave the
/// pool alone when none matches.
fn remove_first_addr(v: &mut Vec<Addr>, a: &Addr)
    ensures
        final(v)@ == (match addr_index(old(v)@, a@) {
            Some(k) => old(v)@.remove(k),
            None => old(v)@,
        }),
{
    let mut i: usize = 0;
    while i < v.len()
        invariant
            i <= v@.len(),
            v@ == old(v)@,
            forall|j: int| 0 <= j < i ==> v@[j]@ != a@,
        decreases v@.len() - i,
    {
        if addr_eq(&v[i], a) {
            proof {
                lemma_addr_index_of(v@, a@, i as int);
            }
            v.remove(i);
            return ;
        }
        i = i + 1;
    }
    proof {
        lemma_addr_index(v@, a@);
    }
}

/// Outcome of one control command: the acknowledgement to put on the
/// reply channel, the token the command concerned, and whether the
/// reactor is to shut down.
#[derive(Debug)]
pub struct NotifyResult {
    pub reply: Option<ServerMessage>,
    pub token: Option<usize>,
    pub stop: bool,
}

/// The routing table: fronts by application id, back-end pools by
/// application id, and the listener slab.
pub struct ServerConfiguration {
    pub fronts: Vec<(String, usize)>,
    pub instances: Vec<(String, Vec<Addr>)>,
    pub listeners: Slab<ApplicationListener>,
}

impl ServerConfiguration {
    /// Every slot up to the capacity is taken.
    pub open spec fn listeners_full(&self) -> bool {
        self.listeners@.len() == self.listeners.spec_capacity() && forall|j: int|
            0 <= j < self.listeners@.len() ==> self.listeners@[j] is Some
    }

    /// Table invariant: at most one listener per application, every
    /// route points at a live listener of that application, and every
    /// listener knows the token of its own slot.
    pub open spec fn wf(&self) -> bool {
        &&& self.listeners.wf()
        &&& keys_unique(self.fronts@)
        &&& keys_unique(self.instances@)
        &&& forall|i: int| 0 <= i < self.fronts@.len() ==> {
            let t = #[trigger] self.fronts@[i].1 as int;
            &&& 0 <= t < self.listeners@.len()
            &&& self.listeners@[t] is Some
            &&& self.listeners@[t]->0.app_id@ == self.fronts@[i].0@
        }
        &&& forall|t: int|
            0 <= t < self.listeners@.len() && self.listeners@[t] is Some
                ==> self.listeners@[t]->0.token == Some(t as usize)
    }

    /// An empty table with room for `max_listeners` listeners.
    pub fn new(max_listeners: usize) -> (r: ServerConfiguration)
        ensures
            r.wf(),
            r.fronts@ == Seq::<(String, usize)>::empty(),
            r.instances@ == Seq::<(String, Vec<Addr>)>::empty(),
            r.listeners@ == Seq::<Option<ApplicationListener>>::empty(),
            r.listeners.spec_capacity() == max_listeners,
    {
        ServerConfiguration {
            fronts: Vec::new(),
            instances: Vec::new(),
            listeners: Slab::new(max_listeners),
        }
    }
}

/// Effect of `add_tcp_front`.  A listener is created exactly when the
/// bind succeeded, no front exists yet for the application, and the
/// listener slab has room; it is seeded with the application's current
/// pool and routed under a fresh token.
pub open spec fn add_front_post(
    pre: ServerConfiguration,
    post: ServerConfiguration,
    port: u16,
    app: Seq<char>,
    bound: bool,
    r: Option<usize>,
) -> bool {
    &&& post.listeners.spec_capacity() == pre.listeners.spec_capacity()
    &&& (r is Some <==> (bound && key_index(pre.fronts@, app) is None && !pre.listeners_full()))
    &&& (r is None ==> post == pre)
    &&& (r matches Some(t) ==> {
        let ti = t as int;
        &&& pre.listeners.free_at(ti)
        &&& post.instances@ == pre.instances@
        &&& post.fronts@.len() == pre.fronts@.len() + 1
        &&& post.fronts@.take(pre.fronts@.len() as int) == pre.fronts@
        &&& post.fronts@.last().0@ == app
        &&& post.fronts@.last().1 == t
        &&& post.listeners@.len() == (if ti < pre.listeners@.len() {
            pre.listeners@.len() as int
        } else {
            ti + 1
        })
        &&& (forall|j: int|
            0 <= j < pre.listeners@.len() && j != ti ==> post.listeners@[j] == pre.listeners@[j])
        &&& post.listeners@[ti] is Some
        &&& post.listeners@[ti]->0.app_id@ == app
        &&& post.listeners@[ti]->0.token == Some(t)
        &&& post.listeners@[ti]->0.front_port == port
        &&& (match assoc_find(pre.instances@, app) {
            Some(v) => post.listeners@[ti]->0.back_addresses@ == v@,
            None => post.listeners@[ti]->0.back_addresses@ == Seq::<Addr>::empty(),
        })
    })
}

/// Effect of `remove_tcp_front`: the returned token is the front's, if
/// one was routed; route and listener are gone afterwards, and nothing
/// else moved.
pub open spec fn remove_front_post(
    pre: ServerConfiguration,
    post: ServerConfiguration,
    app: Seq<char>,
    r: Option<usize>,
) -> bool {
    &&& r == assoc_find(pre.fronts@, app)
    &&& post.listeners.spec_capacity() == pre.listeners.spec_capacity()
    &&& (r is None ==> post == pre)
    &&& (r matches Some(t) ==> {
        &&& post.fronts@ == pre.fronts@.remove(key_index(pre.fronts@, app)->0)
        &&& post.listeners@ == pre.listeners@.update(t as int, None)
        &&& post.instances@ == pre.instances@
        &&& key_index(post.fronts@, app) is None
    })
}

/// Effect of `add_instance`: the address joins the application's pool
/// (created on first use, duplicates kept), and also the pool of the
/// application's listener when one is routed — whose token is returned.
pub open spec fn add_instance_post(
    pre: ServerConfiguration,
    post: ServerConfiguration,
    app: Seq<char>,
    a: Addr,
    r: Option<usize>,
) -> bool {
    &&& r == assoc_find(pre.fronts@, app)
    &&& post.listeners.spec_capacity() == pre.listeners.spec_capacity()
    &&& post.fronts@ == pre.fronts@
    &&& (match key_index(pre.instances@, app) {
        Some(i) => {
            &&& post.instances@.len() == pre.instances@.len()
            &&& (forall|j: int|
                0 <= j < pre.instances@.len() && j != i ==> post.instances@[j]
                    == pre.instances@[j])
            &&& post.instances@[i].0 == pre.instances@[i].0
            &&& post.instances@[i].1@ == pre.instances@[i].1@.push(a)
        },
        None => {
            &&& post.instances@.len() == pre.instances@.len() + 1
            &&& post.instances@.take(pre.instances@.len() as int) == pre.instances@
            &&& post.instances@.last().0@ == app
            &&& post.instances@.last().1@ == seq![a]
        },
    })
    &&& (match r {
        Some(t) => {
            let ti = t as int;
            &&& post.listeners@.len() == pre.listeners@.len()
            &&& (forall|j: int|
                0 <= j < pre.listeners@.len() && j != ti ==> post.listeners@[j]
                    == pre.listeners@[j])
            &&& post.listeners@[ti] is Some
            &&& pre.listeners@[ti] is Some
            &&& post.listeners@[ti]->0.app_id == pre.listeners@[ti]->0.app_id
            &&& post.listeners@[ti]->0.token == pre.listeners@[ti]->0.token
            &&& post.listeners@[ti]->0.front_port == pre.listeners@[ti]->0.front_port
            &&& post.listeners@[ti]->0.back_addresses@ == pre.listeners@[
                ti
            ]->0.back_addresses@.push(a)
        },
        None => post.listeners@ == pre.listeners@,
    })
}

/// Effect of `remove_instance`: the first address equal to `a` leaves
/// the application's pool and the routed listener's pool, where present.
pub open spec fn remove_instance_post(
    pre: ServerConfiguration,
    post: ServerConfiguration,
    app: Seq<char>,
    a: Addr,
    r: Option<usize>,
) -> bool {
    &&& r == assoc_find(pre.fronts@, app)
    &&& post.listeners.spec_capacity() == pre.listeners.spec_capacity()
    &&& post.fronts@ == pre.fronts@
    &&& (match key_index(pre.instances@, app) {
        Some(i) => {
            &&& post.instances@.len() == pre.instances@.len()
            &&& (forall|j: int|
                0 <= j < pre.instances@.len() && j != i ==> post.instances@[j]
                    == pre.instances@[j])
            &&& post.instances@[i].0 == pre.instances@[i].0
            &&& post.instances@[i].1@ == (match addr_index(pre.instances@[i].1@, a@) {
                Some(k) => pre.instances@[i].1@.remove(k),
                None => pre.instances@[i].1@,
            })
        },
        None => post.instances@ == pre.instances@,
    })
    &&& (match r {
        Some(t) => {
            let ti = t as int;
            &&& post.listeners@.len() == pre.listeners@.len()
            &&& (forall|j: int|
                0 <= j < pre.listeners@.len() && j != ti ==> post.listeners@[j]
                    == pre.listeners@[j])
            &&& post.listeners@[ti] is Some
            &&& pre.listeners@[ti] is Some
            &&& post.listeners@[ti]->0.app_id == pre.listeners@[ti]->0.app_id
            &&& post.listeners@[ti]->0.token == pre.listeners@[ti]->0.token
            &&& post.listeners@[ti]->0.front_port == pre.listeners@[ti]->0.front_port
            &&& post.listeners@[ti]->0.back_addresses@ == (match addr_index(
                pre.listeners@[ti]->0.back_addresses@,
                a@,
            ) {
                Some(k) => pre.listeners@[ti]->0.back_addresses@.remove(k),
                None => pre.listeners@[ti]->0.back_addresses@,
            })
        },
        None => post.listeners@ == pre.listeners@,
    })
}

impl ServerConfiguration {
    /// Open a front for `app_id` on `127.0.0.1:<port>`.  The caller has
    /// already attempted the bind and reports its outcome in `bound`;
    /// on success it registers the listening socket, level-triggered
    /// and readable, under the returned token.
    pub fn add_tcp_front(&mut self, port: u16, app_id: &str, bound: bool) -> (r: Option<usize>)
        requires
            old(self).wf(),
        ensures
            final(self).wf(),
            add_front_post(*old(self), *final(self), port, app_id@, bound, r),
    {
        if !bound {
            return None;
        }
        let app = String::from_str(app_id);
        if find_key_front(&self.fronts, &app).is_some() {
            proof {
                lemma_key_index(self.fronts@, app_id@);
            }
            return None;
        }
        let tok = match self.listeners.peek_free() {
            Some(t) => t,
            None => {
                return None;
            },
        };
        let addresses = match find_key_instance(&self.instances, &app) {
            Some(i) => {
                proof {
                    lemma_key_index(self.instances@, app_id@);
                }
                copy_addrs(&self.instances[i].1)
            },
            None => Vec::new(),
        };
        let al = ApplicationListener {
            app_id: String::from_str(app_id),
            token: Some(tok),
            front_port: port,
            back_addresses: addresses,
        };
        let ghost pre = *self;
        self.listeners.insert_at(tok, al);
        self.fronts.push((app, tok));
        proof {
            lemma_key_index(pre.fronts@, app_id@);
            assert(self.fronts@.take(pre.fronts@.len() as int) =~= pre.fronts@);
            assert forall|i: int| 0 <= i < pre.fronts@.len() implies pre.fronts@[i].1
                != tok by {}
            assert forall|i: int| 0 <= i < self.fronts@.len() implies {
                let t = #[trigger] self.fronts@[i].1 as int;
                &&& 0 <= t < self.listeners@.len()
                &&& self.listeners@[t] is Some
                &&& self.listeners@[t]->0.app_id@ == self.fronts@[i].0@
            } by {
                if i < pre.fronts@.len() {
                    assert(self.fronts@[i] == pre.fronts@[i]);
                }
            }
        }
        Some(tok)
    }

    /// Tear the front for `app_id` down.  The route and the listener
    /// disappear; the caller deregisters and closes the listening
    /// socket behind the returned token.  Sessions already accepted
    /// keep running.  A second call for the same application finds no
    /// front and changes nothing.
    pub fn remove_tcp_front(&mut self, app_id: String) -> (r: Option<usize>)
        requires
            old(self).wf(),
        ensures
            final(self).wf(),
            remove_front_post(*old(self), *final(self), app_id@, r),
    {
        match find_key_front(&self.fronts, &app_id) {
            Some(i) => {
                let ghost pre = *self;
                proof {
                    lemma_key_index(pre.fronts@, app_id@);
                }
                let tok = self.fronts[i].1;
                self.fronts.remove(i);
                self.listeners.remove(tok);
                proof {
                    assert forall|j: int| 0 <= j < self.fronts@.len() implies self.fronts@[j].0@
                        != app_id@ by {
                        if j < i {
                            assert(self.fronts@[j] == pre.fronts@[j]);
                        } else {
                            assert(self.fronts@[j] == pre.fronts@[j + 1]);
                        }
                    }
                    lemma_key_index(self.fronts@, app_id@);
                    assert forall|j: int| 0 <= j < self.fronts@.len() implies {
                        let t = #[trigger] self.fronts@[j].1 as int;
                        &&& 0 <= t < self.listeners@.len()
                        &&& self.listeners@[t] is Some
                        &&& self.listeners@[t]->0.app_id@ == self.fronts@[j].0@
                    } by {
                        let p = if j < i {
                            pre.fronts@[j]
                        } else {
                            pre.fronts@[j + 1]
                        };
                        assert(self.fronts@[j] == p);
                        if p.1 == tok {
                            assert(pre.listeners@[tok as int]->0.app_id@ == p.0@);
                            assert(pre.listeners@[tok as int]->0.app_id@ == app_id@);
                        }
                    }
                }
                Some(tok)
            },
            None => {
                proof {
                    lemma_key_index(self.fronts@, app_id@);
                }
                None
            },
        }
    }

    /// Append a back-end address to the application's pool, creating
    /// the pool on first use; duplicates are kept.  When a listener is
    /// routed for the application its own pool is extended too, and its
    /// token returned.
    pub fn add_instance(&mut self, app_id: &str, instance_address: &Addr) -> (r: Option<usize>)
        requires
            old(self).wf(),
        ensures
            final(self).wf(),
            add_instance_post(*old(self), *final(self), app_id@, *instance_address, r),
    {
        let app = String::from_str(app_id);
        let ghost pre = *self;
        match find_key_instance(&self.instances, &app) {
            Some(i) => {
                proof {
                    lemma_key_index(pre.instances@, app_id@);
                }
                let entry = vstd::std_specs::vec::vec_index_mut(&mut self.instances, i);
                entry.1.push(copy_addr(instance_address));
            },
            None => {
                let mut pool: Vec<Addr> = Vec::new();
                pool.push(copy_addr(instance_address));
                self.instances.push((app, pool));
                proof {
                    lemma_key_index(pre.instances@, app_id@);
                    assert(self.instances@.take(pre.instances@.len() as int) =~= pre.instances@);
                    assert(self.instances@.last().1@ =~= seq![*instance_address]);
                }
            },
        }
        let app = String::from_str(app_id);
        match find_key_front(&self.fronts, &app) {
            Some(i) => {
                proof {
                    lemma_key_index(self.fronts@, app_id@);
                }
                let tok = self.fronts[i].1;
                let mut l = self.listeners.take_at(tok);
                l.back_addresses.push(copy_addr(instance_address));
                self.listeners.set_at(tok, l);
                Some(tok)
            },
            None => None,
        }
    }

    /// Remove the first matching back-end address from the
    /// application's pool and from its routed listener's pool, where
    /// present.  Sessions already bound to that address are unaffected.
    pub fn remove_instance(&mut self, app_id: &str, instance_address: &Addr) -> (r: Option<usize>)
        requires
            old(self).wf(),
        ensures
            final(self).wf(),
            remove_instance_post(*old(self), *final(self), app_id@, *instance_address, r),
    {
        let app = String::from_str(app_id);
        match find_key_instance(&self.instances, &app) {
            Some(i) => {
                proof {
                    lemma_key_index(self.instances@, app_id@);
                }
                let entry = vstd::std_specs::vec::vec_index_mut(&mut self.instances, i);
                remove_first_addr(&mut entry.1, instance_address);
            },
            None => {},
        }
        match find_key_front(&self.fronts, &app) {
            Some(i) => {
                proof {
                    lemma_key_index(self.fronts@, app_id@);
                }
                let tok = self.fronts[i].1;
                let mut l = self.listeners.take_at(tok);
                remove_first_addr(&mut l.back_addresses, instance_address);
                self.listeners.set_at(tok, l);
                Some(tok)
            },
            None => None,
        }
    }
}

/// Relies on rand::random: an arbitrary machine word from the
/// thread-local generator.  Nothing is promised of its value.
#[verifier::external_body]
fn random_usize() -> usize {
    rand::random::<usize>()
}

/// Reduce a random draw to a choice from the pool: the entry at the
/// draw taken modulo the pool size, or nothing from an empty pool.
pub fn pick_backend(pool: &Vec<Addr>, rnd: usize) -> (r: Option<Addr>)
    ensures
        pool@.len() == 0 ==> r is None,
        pool@.len() > 0 ==> r == Some(pool@[(rnd as int) % (pool@.len() as int)]),
{
    let n = pool.len();
    if n == 0 {
        None
    } else {
        Some(copy_addr(&pool[rnd % n]))
    }
}

/// Effect of one control command on the routing table, together with
/// the acknowledgement owed for it: one reply exactly when the command
/// was applied, and the stop order merely latched.
pub open spec fn notify_relates(
    pre: ServerConfiguration,
    post: ServerConfiguration,
    message: TcpProxyOrder,
    bound: bool,
    r: NotifyResult,
) -> bool {
    &&& (message matches TcpProxyOrder::Command(Command::AddTcpFront(f)) ==> {
        &&& add_front_post(pre, post, f.port, f.app_id@, bound, r.token)
        &&& r.reply == (if r.token is Some {
            Some(ServerMessage::AddedFront)
        } else {
            None::<ServerMessage>
        })
        &&& !r.stop
    })
    &&& (message matches TcpProxyOrder::Command(Command::RemoveTcpFront(f)) ==> {
        &&& remove_front_post(pre, post, f.app_id@, r.token)
        &&& r.reply == (if r.token is Some {
            Some(ServerMessage::RemovedFront)
        } else {
            None::<ServerMessage>
        })
        &&& !r.stop
    })
    &&& (message matches TcpProxyOrder::Command(Command::AddInstance(inst)) ==> {
        &&& add_instance_post(
            pre,
            post,
            inst.app_id@,
            (Addr { ip: inst.ip_address, port: inst.port }),
            r.token,
        )
        &&& r.reply == (if r.token is Some {
            Some(ServerMessage::AddedInstance)
        } else {
            None::<ServerMessage>
        })
        &&& !r.stop
    })
    &&& (message matches TcpProxyOrder::Command(Command::RemoveInstance(inst)) ==> {
        &&& remove_instance_post(
            pre,
            post,
            inst.app_id@,
            (Addr { ip: inst.ip_address, port: inst.port }),
            r.token,
        )
        &&& r.reply == (if r.token is Some {
            Some(ServerMessage::RemovedInstance)
        } else {
            None::<ServerMessage>
        })
        &&& !r.stop
    })
    &&& (message matches TcpProxyOrder::Stop ==> {
        &&& post == pre
        &&& r.stop
        &&& r.reply is None
        &&& r.token is None
    })
}

impl ServerConfiguration {
    /// Select a back end for a freshly accepted session: one entry of
    /// the accepting listener's pool, uniformly at random.  Fails
    /// exactly when that listener is gone or its pool is empty; the
    /// caller then drops the accepted socket, as no retry is owed.
    pub fn connect_to_backend(&self, client: &Client) -> (r: Option<Addr>)
        requires
            self.wf(),
        ensures
            (r is Some <==> (self.listeners.occupied(client.accept_token as int)
                && self.listeners@[client.accept_token as int]->0.back_addresses@.len() > 0)),
            r matches Some(a) ==> exists|k: int|
                0 <= k < self.listeners@[client.accept_token as int]->0.back_addresses@.len()
                    && a == self.listeners@[client.accept_token as int]->0.back_addresses@[k],
    {
        match self.listeners.get(client.accept_token) {
            Some(l) => {
                let rnd = random_usize();
                pick_backend(&l.back_addresses, rnd)
            },
            None => None,
        }
    }

    /// On listener readiness: a session for a connection just accepted
    /// on the listener behind `token`, or nothing when that listener is
    /// gone.  The caller goes on to select a back end, connect to it,
    /// and hand the session to the reactor.
    pub fn accept(&self, token: usize) -> (r: Option<Client>)
        requires
            self.wf(),
        ensures
            (r is Some <==> self.listeners.occupied(token as int)),
            r matches Some(c) ==> {
                &&& c.inv()
                &&& c.status == ConnectionStatus::Initial
                &&& c.token is None
                &&& c.backend_token is None
                &&& c.accept_token == token
                &&& c.front_buf@ == Seq::<u8>::empty()
                &&& c.back_buf@ == Seq::<u8>::empty()
                &&& c.front_read@ == Seq::<u8>::empty()
                &&& c.back_read@ == Seq::<u8>::empty()
                &&& c.back_written@ == Seq::<u8>::empty()
                &&& c.front_written@ == Seq::<u8>::empty()
                &&& c.rx_count == 0
                &&& c.tx_count == 0
                &&& c.back_connecting
            },
    {
        if self.listeners.contains(token) {
            Some(Client::new(token))
        } else {
            None
        }
    }

    /// Apply one control command.  The caller attempted the bind first
    /// when the command asks for a new front (reporting it in `bound`),
    /// performs the registrations behind the returned token, sends the
    /// acknowledgement — exactly one per applied command — and shuts
    /// the reactor down when `stop` is set.
    pub fn notify(&mut self, message: TcpProxyOrder, bound: bool) -> (r: NotifyResult)
        requires
            old(self).wf(),
        ensures
            final(self).wf(),
            notify_relates(*old(self), *final(self), message, bound, r),
    {
        match message {
            TcpProxyOrder::Command(Command::AddTcpFront(front)) => {
                match self.add_tcp_front(front.port, front.app_id.as_str(), bound) {
                    Some(t) => NotifyResult {
                        reply: Some(ServerMessage::AddedFront),
                        token: Some(t),
                        stop: false,
                    },
                    None => NotifyResult { reply: None, token: None, stop: false },
                }
            },
            TcpProxyOrder::Command(Command::RemoveTcpFront(front)) => {
                match self.remove_tcp_front(front.app_id) {
                    Some(t) => NotifyResult {
                        reply: Some(ServerMessage::RemovedFront),
                        token: Some(t),
                        stop: false,
                    },
                    None => NotifyResult { reply: None, token: None, stop: false },
                }
            },
            TcpProxyOrder::Command(Command::AddInstance(instance)) => {
                let addr = Addr { ip: instance.ip_address, port: instance.port };
                match self.add_instance(instance.app_id.as_str(), &addr) {
                    Some(t) => NotifyResult {
                        reply: Some(ServerMessage::AddedInstance),
                        token: Some(t),
                        stop: false,
                    },
                    None => NotifyResult { reply: None, token: None, stop: false },
                }
            },
            TcpProxyOrder::Command(Command::RemoveInstance(instance)) => {
                let addr = Addr { ip: instance.ip_address, port: instance.port };
                match self.remove_instance(instance.app_id.as_str(), &addr) {
                    Some(t) => NotifyResult {
                        reply: Some(ServerMessage::RemovedInstance),
                        token: Some(t),
                        stop: false,
                    },
                    None => NotifyResult { reply: None, token: None, stop: false },
                }
            },
            TcpProxyOrder::Stop => NotifyResult { reply: None, token: None, stop: true },
        }
    }
}

/// Listener idempotence for removal: once a front has been removed —
/// or was never there — removing it again finds nothing, changes
/// nothing, and so earns no second acknowledgement.
pub proof fn lemma_remove_front_idempotent(
    c0: ServerConfiguration,
    c1: ServerConfiguration,
    c2: ServerConfiguration,
    app: Seq<char>,
    r1: Option<usize>,
    r2: Option<usize>,
)
    requires
        remove_front_post(c0, c1, app, r1),
        remove_front_post(c1, c2, app, r2),
    ensures
        r2 is None,
        c2 == c1,
{
}

} // verus!
