//! The broker of a live replay stream: uploaders publish the packets of the
//! game they are playing under their username, and subscribers to that
//! username receive them. A subscriber that arrives late is first sent all
//! that the publisher has uploaded so far.
//!
//! Subscribers and publishers are named by the numbers that
//! [`Broker::subscribe`] and [`Broker::publish`] hand out; the connections
//! behind them are the caller's. When a connection ends, the caller tells
//! the broker, which from then on sends it nothing.
use vstd::prelude::*;

use crate::rpc::typedefs::copy_bytes;
use crate::text::str_eq;

verus! {

/// What a publisher holds: everything it has uploaded, the subscribers it
/// sends to, and whether its connection is still open.
pub struct Publisher {
    history: Vec<Vec<u8>>,
    senders: Vec<u64>,
    live: bool,
}

/// The mathematical value of a [`Publisher`].
pub struct PublisherV {
    pub history: Seq<Seq<u8>>,
    pub senders: Seq<u64>,
    pub live: bool,
}

/// Byte strings as sequences.
pub open spec fn blobs_view(v: Seq<Vec<u8>>) -> Seq<Seq<u8>> {
    Seq::new(v.len(), |i: int| v[i]@)
}

impl View for Publisher {
    type V = PublisherV;

    closed spec fn view(&self) -> PublisherV {
        PublisherV { history: blobs_view(self.history@), senders: self.senders@, live: self.live }
    }
}

/// The broker: the subscribers (their usernames, and whether each is still
/// connected), the publisher registered last for each username, and the
/// publishers.
pub struct Broker {
    subscriber_users: Vec<String>,
    subscriber_live: Vec<bool>,
    registered: Vec<(String, u64)>,
    publishers: Vec<Publisher>,
}

/// The mathematical value of a [`Broker`].
pub struct BrokerV {
    /// The username each subscriber subscribed to, by subscriber number.
    pub subscriber_users: Seq<Seq<char>>,
    /// Whether each subscriber is still connected, by subscriber number.
    pub subscriber_live: Seq<bool>,
    /// Each registration of a publisher under a username, in order; the
    /// last one for a username is the one that counts.
    pub registered: Seq<(Seq<char>, u64)>,
    /// The publishers, by publisher number.
    pub publishers: Seq<PublisherV>,
}

pub open spec fn users_view(v: Seq<String>) -> Seq<Seq<char>> {
    Seq::new(v.len(), |i: int| v[i]@)
}

pub open spec fn registered_view(v: Seq<(String, u64)>) -> Seq<(Seq<char>, u64)> {
    Seq::new(v.len(), |i: int| (v[i].0@, v[i].1))
}

pub open spec fn publishers_view(v: Seq<Publisher>) -> Seq<PublisherV> {
    Seq::new(v.len(), |i: int| v[i]@)
}

impl View for Broker {
    type V = BrokerV;

    closed spec fn view(&self) -> BrokerV {
        BrokerV {
            subscriber_users: users_view(self.subscriber_users@),
            subscriber_live: self.subscriber_live@,
            registered: registered_view(self.registered@),
            publishers: publishers_view(self.publishers@),
        }
    }
}

/// The publisher registered last under username `u`, if any.
pub open spec fn registered_publisher(reg: Seq<(Seq<char>, u64)>, u: Seq<char>) -> Option<u64>
    decreases reg.len(),
{
    if reg.len() == 0 {
        None
    } else if reg.last().0 == u {
        Some(reg.last().1)
    } else {
        registered_publisher(reg.drop_last(), u)
    }
}

/// The publisher registered under username `u`, if it is still connected.
pub open spec fn live_publisher(b: BrokerV, u: Seq<char>) -> Option<u64> {
    match registered_publisher(b.registered, u) {
        Some(p) => if p < b.publishers.len() && b.publishers[p as int].live {
            Some(p)
        } else {
            None
        },
        None => None,
    }
}

/// The subscribers to username `u`, in the order they subscribed.
pub open spec fn subscribers_of(users: Seq<Seq<char>>, u: Seq<char>) -> Seq<u64>
    decreases users.len(),
{
    if users.len() == 0 {
        Seq::empty()
    } else if users.last() == u {
        subscribers_of(users.drop_last(), u).push((users.len() - 1) as u64)
    } else {
        subscribers_of(users.drop_last(), u)
    }
}

/// The subscribers among `senders` that are still connected, in order.
pub open spec fn connected(senders: Seq<u64>, live: Seq<bool>) -> Seq<u64>
    decreases senders.len(),
{
    if senders.len() == 0 {
        Seq::empty()
    } else if senders.last() < live.len() && live[senders.last() as int] {
        connected(senders.drop_last(), live).push(senders.last())
    } else {
        connected(senders.drop_last(), live)
    }
}

/// The numbers the broker hands out refer to subscribers and publishers
/// that exist, and each subscriber's username and connection are known.
pub open spec fn broker_wf(b: BrokerV) -> bool {
    &&& b.subscriber_users.len() == b.subscriber_live.len()
    &&& b.subscriber_users.len() < u64::MAX
    &&& b.publishers.len() < u64::MAX
    &&& forall|i: int| 0 <= i < b.registered.len() ==> (#[trigger] b.registered[i]).1 < b.publishers.len()
    &&& forall|p: int, k: int|
        0 <= p < b.publishers.len() && 0 <= k < b.publishers[p].senders.len() ==> #[trigger] b.publishers[p].senders[k]
            < b.subscriber_users.len()
}

/// The broker after a subscription to username `u`, and what the new
/// subscriber is sent at once: the subscriber gets the next number; when a
/// connected publisher is registered under `u`, the subscriber is added to
/// its senders and is sent all that it has uploaded so far.
pub open spec fn after_subscribe(b: BrokerV, u: Seq<char>) -> (BrokerV, Seq<Seq<u8>>) {
    let sid = b.subscriber_users.len() as u64;
    let b1 = BrokerV {
        subscriber_users: b.subscriber_users.push(u),
        subscriber_live: b.subscriber_live.push(true),
        ..b
    };
    match live_publisher(b, u) {
        Some(p) => (
            BrokerV {
                publishers: b.publishers.update(
                    p as int,
                    PublisherV { senders: b.publishers[p as int].senders.push(sid), ..b.publishers[p as int] },
                ),
                ..b1
            },
            b.publishers[p as int].history,
        ),
        None => (b1, Seq::empty()),
    }
}

/// The broker with one more publisher: connected, with nothing uploaded
/// and no one to send to.
pub open spec fn after_publish(b: BrokerV) -> BrokerV {
    BrokerV {
        publishers: b.publishers.push(PublisherV { history: Seq::empty(), senders: Seq::empty(), live: true }),
        ..b
    }
}

/// The broker after publisher `p` names the username `u` it uploads for:
/// refused while another (or the same) connected publisher is registered
/// under `u`; otherwise `p` becomes the publisher of `u` and sends to every
/// subscriber of `u` so far.
pub open spec fn after_set_username(b: BrokerV, p: u64, u: Seq<char>) -> Option<BrokerV> {
    if live_publisher(b, u) is Some {
        None
    } else {
        Some(
            BrokerV {
                registered: b.registered.push((u, p)),
                publishers: b.publishers.update(
                    p as int,
                    PublisherV { senders: subscribers_of(b.subscriber_users, u), ..b.publishers[p as int] },
                ),
                ..b
            },
        )
    }
}

/// The broker after publisher `p` uploads `data`, and the subscribers it is
/// sent to: the connected ones among the publisher's senders, in order. The
/// publisher keeps `data` for those who subscribe later.
pub open spec fn after_upload(b: BrokerV, p: u64, data: Seq<u8>) -> (BrokerV, Seq<u64>) {
    (
        BrokerV {
            publishers: b.publishers.update(
                p as int,
                PublisherV { history: b.publishers[p as int].history.push(data), ..b.publishers[p as int] },
            ),
            ..b
        },
        connected(b.publishers[p as int].senders, b.subscriber_live),
    )
}

/// Why the broker refused a request.
#[derive(Debug)]
pub enum BrokerError {
    /// A connected publisher is already registered under the username.
    UsernameTaken,
}

proof fn lemma_remove_insert<T>(s: Seq<T>, i: int, x: T)
    requires
        0 <= i < s.len(),
    ensures
        s.remove(i).insert(i, x) == s.update(i, x),
{
    s.remove_ensures(i);
    s.remove(i).insert_ensures(i, x);
    assert(s.remove(i).insert(i, x) =~= s.update(i, x));
}

proof fn lemma_registered_in_range(reg: Seq<(Seq<char>, u64)>, u: Seq<char>, n: int)
    requires
        forall|i: int| 0 <= i < reg.len() ==> (#[trigger] reg[i]).1 < n,
    ensures
        registered_publisher(reg, u) matches Some(p) ==> p < n,
    decreases reg.len(),
{
    if reg.len() > 0 && reg.last().0 != u {
        lemma_registered_in_range(reg.drop_last(), u, n);
    }
}

proof fn lemma_subscribers_in_range(users: Seq<Seq<char>>, u: Seq<char>)
    requires
        users.len() <= u64::MAX,
    ensures
        forall|k: int| 0 <= k < subscribers_of(users, u).len() ==> #[trigger] subscribers_of(users, u)[k] < users.len(),
    decreases users.len(),
{
    if users.len() > 0 {
        let rest = subscribers_of(users.drop_last(), u);
        lemma_subscribers_in_range(users.drop_last(), u);
        assert forall|k: int| 0 <= k < subscribers_of(users, u).len() implies #[trigger] subscribers_of(users, u)[k]
            < users.len() by {
            if users.last() == u && k == rest.len() {
                assert(subscribers_of(users, u)[k] == (users.len() - 1) as u64);
            } else {
                assert(subscribers_of(users, u)[k] == rest[k]);
            }
        }
    }
}

impl Broker {
    /// A broker with no subscribers and no publishers.
    pub fn new() -> (r: Broker)
        ensures
            broker_wf(r@),
            senders_cover(r@),
            r@.subscriber_users.len() == 0,
            r@.subscriber_live.len() == 0,
            r@.registered.len() == 0,
            r@.publishers.len() == 0,
    {
        let r = Broker {
            subscriber_users: Vec::new(),
            subscriber_live: Vec::new(),
            registered: Vec::new(),
            publishers: Vec::new(),
        };
        proof {
            lemma_cover_new(r@);
        }
        r
    }

    /// The publisher registered last under `u`, as [`registered_publisher`] says.
    fn find_registered(&self, u: &str) -> (r: Option<u64>)
        ensures
            r == registered_publisher(self@.registered, u@),
    {
        let ghost reg = self@.registered;
        let mut j: usize = self.registered.len();
        proof {
            assert(reg.subrange(0, j as int) =~= reg);
        }
        while j > 0
            invariant
                j <= self.registered@.len(),
                reg == registered_view(self.registered@),
                registered_publisher(reg, u@) == registered_publisher(reg.subrange(0, j as int), u@),
            decreases j,
        {
            proof {
                let sub = reg.subrange(0, j as int);
                assert(sub.drop_last() =~= reg.subrange(0, j - 1));
                assert(sub.last() == reg[j - 1]);
            }
            if str_eq(self.registered[j - 1].0.as_str(), u) {
                return Some(self.registered[j - 1].1);
            }
            j = j - 1;
        }
        None
    }

    /// The publisher registered under `u` while it is connected, as
    /// [`live_publisher`] says.
    fn find_live(&self, u: &str) -> (r: Option<u64>)
        requires
            broker_wf(self@),
        ensures
            r == live_publisher(self@, u@),
            r matches Some(p) ==> p < self.publishers@.len(),
    {
        match self.find_registered(u) {
            Some(p) => {
                proof {
                    lemma_registered_in_range(self@.registered, u@, self@.publishers.len() as int);
                    assert(self@.publishers[p as int] == self.publishers@[p as int]@);
                }
                let n = self.publishers.len();
                let i = p as usize;
                proof {
                    assert(i < n);
                }
                if self.publishers[i].live {
                    Some(p)
                } else {
                    None
                }
            },
            None => None,
        }
    }

    /// The subscribers to `u`, in the order they subscribed.
    pub fn clone_subscribers(&self, u: &str) -> (r: Vec<u64>)
        requires
            broker_wf(self@),
        ensures
            r@ == subscribers_of(self@.subscriber_users, u@),
    {
        let ghost users = self@.subscriber_users;
        let mut r: Vec<u64> = Vec::new();
        let mut k: usize = 0;
        while k < self.subscriber_users.len()
            invariant
                k <= self.subscriber_users@.len(),
                users == users_view(self.subscriber_users@),
                users.len() < u64::MAX,
                r@ == subscribers_of(users.subrange(0, k as int), u@),
            decreases self.subscriber_users@.len() - k,
        {
            proof {
                let sub = users.subrange(0, k + 1);
                assert(sub.drop_last() =~= users.subrange(0, k as int));
                assert(sub.last() == users[k as int]);
            }
            if str_eq(self.subscriber_users[k].as_str(), u) {
                r.push(k as u64);
            }
            k = k + 1;
        }
        proof {
            assert(users.subrange(0, users.len() as int) =~= users);
        }
        r
    }

    fn take_publisher(&mut self, i: usize) -> (p: Publisher)
        requires
            i < old(self).publishers@.len(),
        ensures
            p == old(self).publishers@[i as int],
            final(self).publishers@ == old(self).publishers@.remove(i as int),
            final(self).subscriber_users == old(self).subscriber_users,
            final(self).subscriber_live == old(self).subscriber_live,
            final(self).registered == old(self).registered,
    {
        self.publishers.remove(i)
    }

    fn put_publisher(&mut self, i: usize, p: Publisher)
        requires
            i <= old(self).publishers@.len(),
        ensures
            final(self).publishers@ == old(self).publishers@.insert(i as int, p),
            final(self).subscriber_users == old(self).subscriber_users,
            final(self).subscriber_live == old(self).subscriber_live,
            final(self).registered == old(self).registered,
    {
        self.publishers.insert(i, p)
    }
}

impl Publisher {
    /// A copy of everything this publisher has uploaded.
    fn history_copy(&self) -> (r: Vec<Vec<u8>>)
        ensures
            blobs_view(r@) == self@.history,
    {
        let mut r: Vec<Vec<u8>> = Vec::new();
        let mut k: usize = 0;
        while k < self.history.len()
            invariant
                k <= self.history@.len(),
                r@.len() == k,
                forall|j: int| 0 <= j < k ==> (#[trigger] r@[j])@ == self.history@[j]@,
            decreases self.history@.len() - k,
        {
            r.push(copy_bytes(&self.history[k]));
            k = k + 1;
        }
        proof {
            assert(blobs_view(r@) =~= blobs_view(self.history@));
        }
        r
    }
}

/// The connected subscribers among `senders`, as [`connected`] says.
fn connected_of(senders: &Vec<u64>, live: &Vec<bool>) -> (r: Vec<u64>)
    ensures
        r@ == connected(senders@, live@),
{
    let mut r: Vec<u64> = Vec::new();
    let mut k: usize = 0;
    while k < senders.len()
        invariant
            k <= senders@.len(),
            r@ == connected(senders@.subrange(0, k as int), live@),
        decreases senders@.len() - k,
    {
        proof {
            let sub = senders@.subrange(0, k + 1);
            assert(sub.drop_last() =~= senders@.subrange(0, k as int));
            assert(sub.last() == senders@[k as int]);
        }
        let s = senders[k];
        if s < live.len() as u64 && live[s as usize] {
            r.push(s);
        }
        k = k + 1;
    }
    proof {
        assert(senders@.subrange(0, senders@.len() as int) =~= senders@);
    }
    r
}

impl Broker {
    /// Subscribes to the packets uploaded under `username`: the new
    /// subscriber's number, and what it is sent at once, as
    /// [`after_subscribe`] says.
    pub fn subscribe(&mut self, username: &str) -> (r: (u64, Vec<Vec<u8>>))
        requires
            broker_wf(old(self)@),
            old(self)@.subscriber_users.len() + 1 < u64::MAX,
        ensures
            broker_wf(final(self)@),
            r.0 == old(self)@.subscriber_users.len(),
            (final(self)@, blobs_view(r.1@)) == after_subscribe(old(self)@, username@),
            senders_cover(old(self)@) ==> senders_cover(final(self)@),
    {
        let ghost b = self@;
        let sid = self.subscriber_users.len() as u64;
        let live = self.find_live(username);
        self.subscriber_users.push(username.to_owned());
        self.subscriber_live.push(true);
        proof {
            assert(users_view(self.subscriber_users@) =~= b.subscriber_users.push(username@));
        }
        match live {
            Some(p) => {
                let n = self.publishers.len();
                let i = p as usize;
                proof {
                    assert(i < n && i as int == p as int);
                    assert(b.publishers[p as int] == old(self).publishers@[i as int]@);
                }
                let mut publ = self.take_publisher(i);
                let backfill = publ.history_copy();
                publ.senders.push(sid);
                let ghost np = publ@;
                self.put_publisher(i, publ);
                proof {
                    lemma_remove_insert(old(self).publishers@, i as int, publ);
                    assert(publishers_view(self.publishers@) =~= b.publishers.update(i as int, np));
                    assert(np == PublisherV { senders: b.publishers[p as int].senders.push(sid), ..b.publishers[p as int] });
                    if senders_cover(b) {
                        lemma_cover_subscribe(b, username@);
                    }
                }
                (sid, backfill)
            },
            None => {
                proof {
                    assert(blobs_view(Seq::<Vec<u8>>::empty()) =~= Seq::<Seq<u8>>::empty());
                    if senders_cover(b) {
                        lemma_cover_subscribe(b, username@);
                    }
                }
                (sid, Vec::new())
            },
        }
    }

    /// Adds a publisher, connected, with nothing uploaded and no one to send
    /// to; its number.
    pub fn publish(&mut self) -> (r: u64)
        requires
            broker_wf(old(self)@),
            old(self)@.publishers.len() + 1 < u64::MAX,
        ensures
            broker_wf(final(self)@),
            r == old(self)@.publishers.len(),
            final(self)@ == after_publish(old(self)@),
            senders_cover(old(self)@) ==> senders_cover(final(self)@),
    {
        let pid = self.publishers.len() as u64;
        let p = Publisher { history: Vec::new(), senders: Vec::new(), live: true };
        proof {
            assert(p@.history =~= Seq::<Seq<u8>>::empty());
        }
        self.publishers.push(p);
        proof {
            assert(publishers_view(self.publishers@) =~= old(self)@.publishers.push(p@));
            let nb = self@;
            assert forall|q: int, k: int|
                0 <= q < nb.publishers.len() && 0 <= k < nb.publishers[q].senders.len() implies #[trigger] nb.publishers[q].senders[k]
                    < nb.subscriber_users.len() by {
                assert(q < old(self)@.publishers.len());
                assert(nb.publishers[q] == old(self)@.publishers[q]);
            }
            assert(nb.registered == old(self)@.registered);
            assert(nb.subscriber_users == old(self)@.subscriber_users);
            assert(nb.subscriber_live == old(self)@.subscriber_live);
            assert(nb.publishers.len() == old(self)@.publishers.len() + 1);
            if senders_cover(old(self)@) {
                lemma_cover_publish(old(self)@);
            }
        }
        pid
    }
}

impl Broker {
    /// Registers publisher `publisher` as the one that uploads for
    /// `username`, as [`after_set_username`] says: refused while a connected
    /// publisher is registered under `username`.
    pub fn set_username(&mut self, publisher: u64, username: &str) -> (r: Result<(), BrokerError>)
        requires
            broker_wf(old(self)@),
            publisher < old(self)@.publishers.len(),
        ensures
            broker_wf(final(self)@),
            match after_set_username(old(self)@, publisher, username@) {
                Some(b) => r is Ok && final(self)@ == b,
                None => r is Err && final(self)@ == old(self)@,
            },
            senders_cover(old(self)@) ==> senders_cover(final(self)@),
    {
        let ghost b = self@;
        if self.find_live(username).is_some() {
            return Err(BrokerError::UsernameTaken);
        }
        let senders = self.clone_subscribers(username);
        self.registered.push((username.to_owned(), publisher));
        proof {
            assert(registered_view(self.registered@) =~= b.registered.push((username@, publisher)));
        }
        let n = self.publishers.len();
        let i = publisher as usize;
        proof {
            assert(i < n && i as int == publisher as int);
        }
        let mut publ = self.take_publisher(i);
        publ.senders = senders;
        let ghost np = publ@;
        self.put_publisher(i, publ);
        proof {
            lemma_remove_insert(old(self).publishers@, i as int, publ);
            assert(publishers_view(self.publishers@) =~= b.publishers.update(i as int, np));
            assert(np == PublisherV { senders: subscribers_of(b.subscriber_users, username@), ..b.publishers[i as int] });
            lemma_subscribers_in_range(b.subscriber_users, username@);
            let nb = self@;
            assert forall|q: int, k: int|
                0 <= q < nb.publishers.len() && 0 <= k < nb.publishers[q].senders.len() implies #[trigger] nb.publishers[q].senders[k]
                    < nb.subscriber_users.len() by {
                if q != i {
                    assert(nb.publishers[q] == b.publishers[q]);
                }
            }
            assert forall|j: int| 0 <= j < nb.registered.len() implies (#[trigger] nb.registered[j]).1 < nb.publishers.len() by {
                if j < b.registered.len() {
                    assert(nb.registered[j] == b.registered[j]);
                }
            }
            if senders_cover(b) {
                lemma_cover_set_username(b, publisher, username@);
            }
        }
        Ok(())
    }

    /// Publisher `publisher` uploads `data`, as [`after_upload`] says: the
    /// subscribers to send it to, in order.
    pub fn upload(&mut self, publisher: u64, data: Vec<u8>) -> (r: Vec<u64>)
        requires
            broker_wf(old(self)@),
            publisher < old(self)@.publishers.len(),
        ensures
            broker_wf(final(self)@),
            (final(self)@, r@) == after_upload(old(self)@, publisher, data@),
            senders_cover(old(self)@) ==> senders_cover(final(self)@),
    {
        let ghost b = self@;
        let n = self.publishers.len();
        let i = publisher as usize;
        proof {
            assert(i < n && i as int == publisher as int);
            assert(b.publishers[i as int] == self.publishers@[i as int]@);
        }
        let recipients = connected_of(&self.publishers[i].senders, &self.subscriber_live);
        let mut publ = self.take_publisher(i);
        publ.history.push(data);
        let ghost np = publ@;
        self.put_publisher(i, publ);
        proof {
            lemma_remove_insert(old(self).publishers@, i as int, publ);
            assert(publishers_view(self.publishers@) =~= b.publishers.update(i as int, np));
            assert(np.history =~= b.publishers[i as int].history.push(data@));
            assert(np.senders == b.publishers[i as int].senders);
            let nb = self@;
            assert(nb.subscriber_users == b.subscriber_users);
            assert(nb.subscriber_live == b.subscriber_live);
            assert(nb.registered == b.registered);
            assert(nb.publishers.len() == b.publishers.len());
            if senders_cover(b) {
                lemma_cover_upload(b, publisher, data@);
            }
            assert forall|q: int, k: int|
                0 <= q < nb.publishers.len() && 0 <= k < nb.publishers[q].senders.len() implies #[trigger] nb.publishers[q].senders[k]
                    < nb.subscriber_users.len() by {
                if q != i {
                    assert(nb.publishers[q] == b.publishers[q]);
                }
            }
        }
        recipients
    }

    /// The connection of subscriber `subscriber` has ended: it is sent
    /// nothing more.
    pub fn drop_subscriber(&mut self, subscriber: u64)
        requires
            broker_wf(old(self)@),
            subscriber < old(self)@.subscriber_users.len(),
        ensures
            broker_wf(final(self)@),
            final(self)@ == (BrokerV {
                subscriber_live: old(self)@.subscriber_live.update(subscriber as int, false),
                ..old(self)@
            }),
            senders_cover(old(self)@) ==> senders_cover(final(self)@),
    {
        let n = self.subscriber_live.len();
        let i = subscriber as usize;
        proof {
            assert(i < n && i as int == subscriber as int);
        }
        self.subscriber_live.set(i, false);
        proof {
            if senders_cover(old(self)@) {
                lemma_cover_drop_subscriber(old(self)@, subscriber);
            }
        }
    }

    /// The connection of publisher `publisher` has ended: its username is
    /// free for another publisher, and subscribers no longer get its
    /// history.
    pub fn drop_publisher(&mut self, publisher: u64)
        requires
            broker_wf(old(self)@),
            publisher < old(self)@.publishers.len(),
        ensures
            broker_wf(final(self)@),
            final(self)@ == (BrokerV {
                publishers: old(self)@.publishers.update(
                    publisher as int,
                    PublisherV { live: false, ..old(self)@.publishers[publisher as int] },
                ),
                ..old(self)@
            }),
            senders_cover(old(self)@) ==> senders_cover(final(self)@),
    {
        let ghost b = self@;
        let n = self.publishers.len();
        let i = publisher as usize;
        proof {
            assert(i < n && i as int == publisher as int);
            assert(b.publishers[i as int] == self.publishers@[i as int]@);
        }
        let mut publ = self.take_publisher(i);
        publ.live = false;
        let ghost np = publ@;
        self.put_publisher(i, publ);
        proof {
            lemma_remove_insert(old(self).publishers@, i as int, publ);
            assert(publishers_view(self.publishers@) =~= b.publishers.update(i as int, np));
            let nb = self@;
            assert forall|q: int, k: int|
                0 <= q < nb.publishers.len() && 0 <= k < nb.publishers[q].senders.len() implies #[trigger] nb.publishers[q].senders[k]
                    < nb.subscriber_users.len() by {
                if q != i {
                    assert(nb.publishers[q] == b.publishers[q]);
                }
            }
            if senders_cover(b) {
                lemma_cover_drop_publisher(b, publisher);
            }
        }
    }
}

/// The username publisher `p` registered under last, if any.
pub open spec fn last_name(reg: Seq<(Seq<char>, u64)>, p: u64) -> Option<Seq<char>>
    decreases reg.len(),
{
    if reg.len() == 0 {
        None
    } else if reg.last().1 == p {
        Some(reg.last().0)
    } else {
        last_name(reg.drop_last(), p)
    }
}

/// Every subscriber to a username is among the senders of the connected
/// publisher registered under it, while that publisher has not registered
/// under another name since.
pub open spec fn senders_cover(b: BrokerV) -> bool {
    forall|u: Seq<char>, p: u64, s: u64|
        #![trigger live_publisher(b, u), last_name(b.registered, p), subscribers_of(b.subscriber_users, u).contains(s)]
        live_publisher(b, u) == Some(p) && last_name(b.registered, p) == Some(u) && subscribers_of(
            b.subscriber_users,
            u,
        ).contains(s) ==> b.publishers[p as int].senders.contains(s)
}

proof fn lemma_subscribers_push(users: Seq<Seq<char>>, v: Seq<char>, u: Seq<char>)
    ensures
        subscribers_of(users.push(v), u) == if v == u {
            subscribers_of(users, u).push(users.len() as u64)
        } else {
            subscribers_of(users, u)
        },
{
    assert(users.push(v).drop_last() =~= users);
}

proof fn lemma_subscribers_member(users: Seq<Seq<char>>, u: Seq<char>, s: u64)
    requires
        users.len() <= u64::MAX,
    ensures
        subscribers_of(users, u).contains(s) <==> (s < users.len() && users[s as int] == u),
    decreases users.len(),
{
    if users.len() > 0 {
        let rest = users.drop_last();
        lemma_subscribers_member(rest, u, s);
        if users.last() == u {
            let r = subscribers_of(rest, u);
            let last = (users.len() - 1) as u64;
            let rp = r.push(last);
            if rp.contains(s) && s != last {
                let k = choose|k: int| 0 <= k < rp.len() && #[trigger] rp[k] == s;
                assert(k < r.len());
                assert(r[k] == s);
            }
            if s == last {
                assert(rp[r.len() as int] == s);
            }
            if r.contains(s) {
                lemma_push_contains(r, last, s);
            }
        }
    }
}

proof fn lemma_connected_member(senders: Seq<u64>, live: Seq<bool>, s: u64)
    requires
        senders.contains(s),
        s < live.len(),
        live[s as int],
    ensures
        connected(senders, live).contains(s),
    decreases senders.len(),
{
    let rest = senders.drop_last();
    if senders.last() == s {
        assert(connected(senders, live) == connected(rest, live).push(s));
        assert(connected(senders, live)[connected(rest, live).len() as int] == s);
    } else {
        let k = choose|k: int| 0 <= k < senders.len() && senders[k] == s;
        assert(rest[k] == s);
        lemma_connected_member(rest, live, s);
        let c = connected(rest, live);
        let j = choose|j: int| 0 <= j < c.len() && c[j] == s;
        if senders.last() < live.len() && live[senders.last() as int] {
            assert(c.push(senders.last())[j] == s);
        }
    }
}

proof fn lemma_push_contains<A>(s: Seq<A>, x: A, y: A)
    requires
        s.contains(y),
    ensures
        s.push(x).contains(y),
{
    let k = choose|k: int| 0 <= k < s.len() && s[k] == y;
    assert(s.push(x)[k] == y);
}

/// An empty broker keeps every subscriber among the senders of its
/// username's publisher: it has neither.
pub proof fn lemma_cover_new(b: BrokerV)
    requires
        b.subscriber_users.len() == 0,
        b.registered.len() == 0,
    ensures
        senders_cover(b),
{
    assert forall|u: Seq<char>, p: u64, s: u64|
        #![trigger live_publisher(b, u), last_name(b.registered, p), subscribers_of(b.subscriber_users, u).contains(s)]
        live_publisher(b, u) == Some(p) && last_name(b.registered, p) == Some(u) && subscribers_of(
            b.subscriber_users,
            u,
        ).contains(s) implies b.publishers[p as int].senders.contains(s) by {
        assert(registered_publisher(b.registered, u) is None);
    }
}

/// Delivery: while every subscriber is among the senders of its
/// username's publisher, an upload by the connected publisher registered
/// (last) under a username reaches every connected subscriber to it.
pub proof fn lemma_upload_reaches_subscribers(b: BrokerV, u: Seq<char>, p: u64, s: u64, data: Seq<u8>)
    requires
        broker_wf(b),
        senders_cover(b),
        live_publisher(b, u) == Some(p),
        last_name(b.registered, p) == Some(u),
        s < b.subscriber_users.len(),
        b.subscriber_users[s as int] == u,
        b.subscriber_live[s as int],
    ensures
        after_upload(b, p, data).1.contains(s),
{
    lemma_subscribers_member(b.subscriber_users, u, s);
    assert(b.publishers[p as int].senders.contains(s));
    lemma_connected_member(b.publishers[p as int].senders, b.subscriber_live, s);
}

proof fn lemma_push_contains_rev<A>(s: Seq<A>, x: A, y: A)
    requires
        s.push(x).contains(y),
        y != x,
    ensures
        s.contains(y),
{
    let k = choose|k: int| 0 <= k < s.push(x).len() && #[trigger] s.push(x)[k] == y;
    assert(k < s.len());
    assert(s[k] == y);
}

/// A subscription keeps every subscriber among the senders of its
/// username's publisher.
pub proof fn lemma_cover_subscribe(b: BrokerV, u: Seq<char>)
    requires
        broker_wf(b),
        senders_cover(b),
    ensures
        senders_cover(after_subscribe(b, u).0),
{
    let b2 = after_subscribe(b, u).0;
    let sid = b.subscriber_users.len() as u64;
    assert forall|w: Seq<char>, p: u64, s: u64|
        #![trigger live_publisher(b2, w), last_name(b2.registered, p), subscribers_of(b2.subscriber_users, w).contains(s)]
        live_publisher(b2, w) == Some(p) && last_name(b2.registered, p) == Some(w) && subscribers_of(
            b2.subscriber_users,
            w,
        ).contains(s) implies b2.publishers[p as int].senders.contains(s) by {
        assert(b2.registered == b.registered);
        assert(b2.publishers.len() == b.publishers.len());
        assert(forall|q: int| 0 <= q < b.publishers.len() ==> #[trigger] b2.publishers[q].live == b.publishers[q].live);
        assert(live_publisher(b2, w) == live_publisher(b, w));
        lemma_subscribers_push(b.subscriber_users, u, w);
        assert(b2.subscriber_users == b.subscriber_users.push(u));
        if w == u && s == sid {
            assert(live_publisher(b, u) == Some(p));
            assert(b2.publishers[p as int].senders == b.publishers[p as int].senders.push(sid));
            assert(b2.publishers[p as int].senders[b.publishers[p as int].senders.len() as int] == s);
        } else {
            if w == u {
                lemma_push_contains_rev(subscribers_of(b.subscriber_users, u), sid, s);
            }
            assert(subscribers_of(b.subscriber_users, w).contains(s));
            assert(live_publisher(b, w) == Some(p));
            assert(last_name(b.registered, p) == Some(w));
            assert(b.publishers[p as int].senders.contains(s));
            if live_publisher(b, u) == Some(p) {
                lemma_push_contains(b.publishers[p as int].senders, sid, s);
            }
        }
    }
}

proof fn lemma_registered_push(reg: Seq<(Seq<char>, u64)>, u: Seq<char>, p: u64, w: Seq<char>, q: u64)
    ensures
        registered_publisher(reg.push((u, p)), w) == if w == u {
            Some(p)
        } else {
            registered_publisher(reg, w)
        },
        last_name(reg.push((u, p)), q) == if q == p {
            Some(u)
        } else {
            last_name(reg, q)
        },
{
    assert(reg.push((u, p)).drop_last() =~= reg);
}

/// A new publisher keeps every subscriber among the senders of its
/// username's publisher.
pub proof fn lemma_cover_publish(b: BrokerV)
    requires
        broker_wf(b),
        senders_cover(b),
    ensures
        senders_cover(after_publish(b)),
{
    let b2 = after_publish(b);
    assert forall|w: Seq<char>, p: u64, s: u64|
        #![trigger live_publisher(b2, w), last_name(b2.registered, p), subscribers_of(b2.subscriber_users, w).contains(s)]
        live_publisher(b2, w) == Some(p) && last_name(b2.registered, p) == Some(w) && subscribers_of(
            b2.subscriber_users,
            w,
        ).contains(s) implies b2.publishers[p as int].senders.contains(s) by {
        lemma_registered_in_range(b.registered, w, b.publishers.len() as int);
        assert(p < b.publishers.len());
        assert(b2.publishers[p as int] == b.publishers[p as int]);
        assert(live_publisher(b, w) == Some(p));
    }
}

/// Registering a publisher under a username keeps every subscriber among
/// the senders of its username's publisher: the registered publisher sends
/// to all subscribers of its new name.
pub proof fn lemma_cover_set_username(b: BrokerV, p0: u64, u: Seq<char>)
    requires
        broker_wf(b),
        senders_cover(b),
        p0 < b.publishers.len(),
        after_set_username(b, p0, u) is Some,
    ensures
        senders_cover(after_set_username(b, p0, u)->0),
{
    let b2 = after_set_username(b, p0, u)->0;
    assert forall|w: Seq<char>, p: u64, s: u64|
        #![trigger live_publisher(b2, w), last_name(b2.registered, p), subscribers_of(b2.subscriber_users, w).contains(s)]
        live_publisher(b2, w) == Some(p) && last_name(b2.registered, p) == Some(w) && subscribers_of(
            b2.subscriber_users,
            w,
        ).contains(s) implies b2.publishers[p as int].senders.contains(s) by {
        lemma_registered_push(b.registered, u, p0, w, p);
        assert(b2.registered == b.registered.push((u, p0)));
        assert(b2.subscriber_users == b.subscriber_users);
        if p == p0 {
            assert(w == u);
            assert(b2.publishers[p as int].senders == subscribers_of(b.subscriber_users, u));
        } else {
            assert(last_name(b.registered, p) == Some(w));
            if w == u {
                assert(registered_publisher(b2.registered, w) == Some(p0));
                assert(false);
            }
            assert(registered_publisher(b2.registered, w) == registered_publisher(b.registered, w));
            assert(b2.publishers[p as int] == b.publishers[p as int]);
            assert(live_publisher(b, w) == Some(p));
        }
    }
}

/// An upload keeps every subscriber among the senders of its username's
/// publisher.
pub proof fn lemma_cover_upload(b: BrokerV, p0: u64, data: Seq<u8>)
    requires
        broker_wf(b),
        senders_cover(b),
        p0 < b.publishers.len(),
    ensures
        senders_cover(after_upload(b, p0, data).0),
{
    let b2 = after_upload(b, p0, data).0;
    assert forall|w: Seq<char>, p: u64, s: u64|
        #![trigger live_publisher(b2, w), last_name(b2.registered, p), subscribers_of(b2.subscriber_users, w).contains(s)]
        live_publisher(b2, w) == Some(p) && last_name(b2.registered, p) == Some(w) && subscribers_of(
            b2.subscriber_users,
            w,
        ).contains(s) implies b2.publishers[p as int].senders.contains(s) by {
        lemma_registered_in_range(b.registered, w, b.publishers.len() as int);
        assert(b2.publishers[p as int].senders == b.publishers[p as int].senders);
        assert(b2.publishers[p as int].live == b.publishers[p as int].live);
        assert(live_publisher(b, w) == Some(p));
    }
}

/// The end of a subscriber's connection keeps every subscriber among the
/// senders of its username's publisher.
pub proof fn lemma_cover_drop_subscriber(b: BrokerV, sub: u64)
    requires
        broker_wf(b),
        senders_cover(b),
        sub < b.subscriber_users.len(),
    ensures
        senders_cover(BrokerV { subscriber_live: b.subscriber_live.update(sub as int, false), ..b }),
{
    let b2 = BrokerV { subscriber_live: b.subscriber_live.update(sub as int, false), ..b };
    assert forall|w: Seq<char>, p: u64, s: u64|
        #![trigger live_publisher(b2, w), last_name(b2.registered, p), subscribers_of(b2.subscriber_users, w).contains(s)]
        live_publisher(b2, w) == Some(p) && last_name(b2.registered, p) == Some(w) && subscribers_of(
            b2.subscriber_users,
            w,
        ).contains(s) implies b2.publishers[p as int].senders.contains(s) by {
        assert(live_publisher(b, w) == Some(p));
    }
}

/// The end of a publisher's connection keeps every subscriber among the
/// senders of its username's publisher.
pub proof fn lemma_cover_drop_publisher(b: BrokerV, p0: u64)
    requires
        broker_wf(b),
        senders_cover(b),
        p0 < b.publishers.len(),
    ensures
        senders_cover(
            BrokerV {
                publishers: b.publishers.update(p0 as int, PublisherV { live: false, ..b.publishers[p0 as int] }),
                ..b
            },
        ),
{
    let b2 = BrokerV {
        publishers: b.publishers.update(p0 as int, PublisherV { live: false, ..b.publishers[p0 as int] }),
        ..b
    };
    assert forall|w: Seq<char>, p: u64, s: u64|
        #![trigger live_publisher(b2, w), last_name(b2.registered, p), subscribers_of(b2.subscriber_users, w).contains(s)]
        live_publisher(b2, w) == Some(p) && last_name(b2.registered, p) == Some(w) && subscribers_of(
            b2.subscriber_users,
            w,
        ).contains(s) implies b2.publishers[p as int].senders.contains(s) by {
        lemma_registered_in_range(b.registered, w, b.publishers.len() as int);
        assert(p != p0);
        assert(b2.publishers[p as int] == b.publishers[p as int]);
        assert(live_publisher(b, w) == Some(p));
    }
}

/// Once the publisher registered under a username has disconnected, another
/// publisher may register under that username.
pub proof fn lemma_username_free_after_drop(b: BrokerV, u: Seq<char>, p: u64, q: u64)
    requires
        broker_wf(b),
        live_publisher(b, u) == Some(p),
    ensures
        after_set_username(
            BrokerV {
                publishers: b.publishers.update(p as int, PublisherV { live: false, ..b.publishers[p as int] }),
                ..b
            },
            q,
            u,
        ) is Some,
{
}

} // verus!
