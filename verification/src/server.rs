//! Listener-side state and administrative actions.
//!
//! The server accepts connections up to a configured maximum, keeps the count
//! of live ones, and turns administrative requests into bus publications and
//! registry reads. Binding, accepting and task spawning are I/O and happen
//! outside the library; they call in here for every decision.

use crate::bus::Bus;
use crate::input::IpAddress;
use crate::registry::UserRegistry;
use vstd::prelude::*;

verus! {

/// A moderation directive delivered to every connection over the admin bus;
/// a connection acts on it only when it names that connection's own display
/// name.
#[derive(Debug, Clone)]
pub enum ServerCommand {
    Kick(String),
}

/// A listing record pairing a remote address, as text, with a display name.
pub struct ConnectedClient {
    pub addr: String,
    pub name: String,
}

/// How many entries a subscriber of the broadcast hub may fall behind: the
/// hub is sized in proportion to the configured connection maximum, so that a
/// simultaneous fan-out does not immediately lag slow subscribers, and never
/// below one.
pub fn hub_capacity(max_clients: usize) -> (r: usize)
    ensures
        r == (if max_clients == 0 {
            1int
        } else if max_clients > usize::MAX as int / 16 {
            usize::MAX as int
        } else {
            max_clients * 16
        }),
        r >= 1,
{
    if max_clients == 0 {
        1
    } else if max_clients > usize::MAX / 16 {
        usize::MAX
    } else {
        max_clients * 16
    }
}

/// How many entries a subscriber of the admin command bus may fall behind;
/// administrative directives are rare, so a small fixed bound is enough.
pub const ADMIN_BUS_CAPACITY: usize = 100;

/// The listener's connection budget: the configured maximum and the count of
/// connections currently alive.
pub struct ChatServer {
    max_clients: usize,
    active_connections: usize,
}

impl ChatServer {
    /// How many connections may be alive at once.
    pub closed spec fn max_clients(self) -> int {
        self.max_clients as int
    }

    /// How many connections are alive now.
    pub closed spec fn active_connections(self) -> int {
        self.active_connections as int
    }

    /// A listener that will admit up to `max_clients` concurrent connections.
    pub fn new(max_clients: usize) -> (r: Self)
        ensures
            r.max_clients() == max_clients,
            r.active_connections() == 0,
    {
        ChatServer { max_clients, active_connections: 0 }
    }

    /// Decides one accepted connection: admitted exactly when the live count
    /// is below the maximum, and then counted at once; a rejected connection
    /// is closed by the caller and nothing changes.
    pub fn try_accept(&mut self) -> (admitted: bool)
        ensures
            admitted == (old(self).active_connections() < old(self).max_clients()),
            final(self).max_clients() == old(self).max_clients(),
            final(self).active_connections() == if admitted {
                old(self).active_connections() + 1
            } else {
                old(self).active_connections()
            },
    {
        if self.active_connections < self.max_clients {
            self.active_connections = self.active_connections + 1;
            true
        } else {
            false
        }
    }

    /// Uncounts one connection whose engine has closed.
    pub fn connection_closed(&mut self)
        ensures
            final(self).max_clients() == old(self).max_clients(),
            final(self).active_connections() == if old(self).active_connections() > 0 {
                old(self).active_connections() - 1
            } else {
                0int
            },
    {
        if self.active_connections > 0 {
            self.active_connections = self.active_connections - 1;
        }
    }
}

/// Executes a kick request: exactly when `username` is currently registered,
/// a `Kick` naming it is published to the admin command bus for every
/// connection to see; an unknown name publishes nothing and the caller
/// reports it.
pub fn handle_kick(registry: &UserRegistry, commands: &mut Bus<ServerCommand>, username: String) -> (sent:
    bool)
    ensures
        sent == registry@.contains(username@),
        sent ==> final(commands).entries() == old(commands).entries().push(
            ServerCommand::Kick(username),
        ),
        !sent ==> final(commands).entries() == old(commands).entries(),
        final(commands).cap() == old(commands).cap(),
{
    if registry.contains(&username) {
        commands.publish(ServerCommand::Kick(username));
        true
    } else {
        false
    }
}

/// The set of banned remote addresses, maintained by the console's ban
/// commands and consulted when a connection is accepted: a banned address is
/// rejected at accept time; connections already established are unaffected
/// unless also kicked.
pub struct BanSet {
    banned: Vec<IpAddress>,
}

impl View for BanSet {
    type V = Set<IpAddress>;

    closed spec fn view(&self) -> Set<IpAddress> {
        self.banned@.to_set()
    }
}

impl BanSet {
    /// No address is held twice.
    pub closed spec fn wf(self) -> bool {
        self.banned@.no_duplicates()
    }

    /// An empty ban set.
    pub fn new() -> (r: Self)
        ensures
            r@ == Set::<IpAddress>::empty(),
            r.wf(),
    {
        let r = BanSet { banned: Vec::new() };
        proof {
            assert(r@ =~= Set::<IpAddress>::empty());
        }
        r
    }

    /// Whether `ip` is banned.
    pub fn is_banned(&self, ip: IpAddress) -> (r: bool)
        ensures
            r == self@.contains(ip),
    {
        let n = self.banned.len();
        let mut i: usize = 0;
        while i < n
            invariant
                n == self.banned@.len(),
                i <= n,
                forall|k: int| 0 <= k < i ==> self.banned@[k] != ip,
            decreases n - i,
        {
            if self.banned[i] == ip {
                assert(self.banned@.contains(ip));
                return true;
            }
            i += 1;
        }
        assert(!self.banned@.contains(ip));
        false
    }

    /// Bans `ip`: the banned set grows by exactly that address.
    pub fn ban(&mut self, ip: IpAddress)
        requires
            old(self).wf(),
        ensures
            final(self).wf(),
            final(self)@ == old(self)@.insert(ip),
    {
        if self.is_banned(ip) {
            proof {
                assert(self@ =~= old(self)@.insert(ip));
            }
            return;
        }
        let ghost before = self.banned@;
        self.banned.push(ip);
        proof {
            assert forall|x: IpAddress| self.banned@.contains(x) <==> old(self)@.insert(
                ip,
            ).contains(x) by {
                if before.contains(x) {
                    let w = choose|w: int| 0 <= w < before.len() && before[w] == x;
                    assert(self.banned@[w] == x);
                }
                if self.banned@.contains(x) {
                    let w = choose|w: int| 0 <= w < self.banned@.len() && self.banned@[w] == x;
                    if w < before.len() {
                        assert(before[w] == x);
                    }
                }
                if x == ip {
                    assert(self.banned@[before.len() as int] == x);
                }
            }
            assert(self@ =~= old(self)@.insert(ip));
            assert forall|i: int, j: int|
                0 <= i < j < self.banned@.len() implies self.banned@[i] != self.banned@[j] by {
                if j < before.len() {
                    assert(before[i] != before[j]);
                } else {
                    assert(!before.contains(ip));
                    assert(before[i] == self.banned@[i]);
                }
            }
        }
    }

    /// Unbans `ip`: the banned set shrinks by exactly that address; says
    /// whether it was banned.
    pub fn unban(&mut self, ip: IpAddress) -> (r: bool)
        requires
            old(self).wf(),
        ensures
            final(self).wf(),
            r == old(self)@.contains(ip),
            final(self)@ == old(self)@.remove(ip),
    {
        let n = self.banned.len();
        let mut i: usize = 0;
        while i < n
            invariant
                n == self.banned@.len(),
                i <= n,
                *self == *old(self),
                old(self).wf(),
                forall|k: int| 0 <= k < i ==> self.banned@[k] != ip,
            decreases n - i,
        {
            if self.banned[i] == ip {
                let ghost before = self.banned@;
                self.banned.remove(i);
                proof {
                    assert(before.contains(ip));
                    assert forall|x: IpAddress| self.banned@.contains(x) <==> (before.contains(x)
                        && x != ip) by {
                        if self.banned@.contains(x) {
                            let w = choose|w: int|
                                0 <= w < self.banned@.len() && self.banned@[w] == x;
                            if w < i {
                                assert(before[w] == x);
                                assert(before[w] != before[i as int]);
                            } else {
                                assert(before[w + 1] == x);
                                assert(before[i as int] != before[w + 1]);
                            }
                        }
                        if before.contains(x) && x != ip {
                            let w = choose|w: int| 0 <= w < before.len() && before[w] == x;
                            if w < i {
                                assert(self.banned@[w] == x);
                            } else {
                                assert(w != i);
                                assert(self.banned@[w - 1] == x);
                            }
                        }
                    }
                    assert(self@ =~= old(self)@.remove(ip));
                    assert forall|a: int, b: int|
                        0 <= a < b < self.banned@.len() implies self.banned@[a] != self.banned@[b] by {
                        let a0 = if a < i { a } else { a + 1 };
                        let b0 = if b < i { b } else { b + 1 };
                        assert(before[a0] != before[b0]);
                    }
                }
                return true;
            }
            i += 1;
        }
        proof {
            assert(!old(self)@.contains(ip));
            assert(self@ =~= old(self)@.remove(ip));
        }
        false
    }

    /// A snapshot of the banned addresses: each exactly once, in no promised
    /// order.
    pub fn banned_list(&self) -> (r: Vec<IpAddress>)
        requires
            self.wf(),
        ensures
            forall|i: int| 0 <= i < r@.len() ==> self@.contains(#[trigger] r@[i]),
            forall|ip: IpAddress| self@.contains(ip) ==> r@.contains(ip),
            r@.no_duplicates(),
    {
        let n = self.banned.len();
        let mut r: Vec<IpAddress> = Vec::new();
        let mut i: usize = 0;
        while i < n
            invariant
                n == self.banned@.len(),
                i <= n,
                r@ == self.banned@.subrange(0, i as int),
            decreases n - i,
        {
            r.push(self.banned[i]);
            proof {
                assert(r@ =~= self.banned@.subrange(0, i + 1));
            }
            i += 1;
        }
        proof {
            assert(r@ =~= self.banned@);
        }
        r
    }
}

} // verus!
