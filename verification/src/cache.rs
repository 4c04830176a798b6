//! A bounded read-through cache for channel objects, in front of a store that
//! the caller queries on a miss.
//!
//! The cache never talks to the store. A lookup that misses says which ids to
//! ask the store for; the caller asks, outside any lock that guards the cache,
//! and hands the documents back to be kept. A channel that the store does not
//! know is not remembered as absent, so one created later is seen at once.

use lru::LruCache;
use vstd::prelude::*;
use crate::cascade::Request;
use crate::channel::{Channel, ChannelView, GUILD_CHANNEL, consistent};

verus! {

/// The largest capacity a cache is made with, and the one the service uses.
pub const MAX_CAPACITY: usize = 4_000_000;

/// A cached channel under its id.
pub type Entry = (Seq<char>, ChannelView);

/// `lru::LruCache`, whose fields nothing here reads.
#[verifier::external_type_specification]
#[verifier::external_body]
#[verifier::reject_recursive_types(K)]
#[verifier::reject_recursive_types(V)]
#[verifier::reject_recursive_types(S)]
pub struct ExLruCache<K, V, S>(LruCache<K, V, S>);

/// `lru::DefaultHasher`, the state with which an `LruCache` hashes its keys.
#[verifier::external_type_specification]
#[verifier::external_body]
pub struct ExDefaultHasher(lru::DefaultHasher);

/// The entries that an `LruCache` holds, the most recently used first.
pub uninterp spec fn lru_entries(cache: LruCache<String, Channel>) -> Seq<Entry>;

/// The number of entries that an `LruCache` was made to hold.
pub uninterp spec fn lru_limit(cache: LruCache<String, Channel>) -> nat;

/// The first position of `key` in `entries`, or their number where it is absent.
pub open spec fn position(entries: Seq<Entry>, key: Seq<char>) -> int
    decreases entries.len(),
{
    if entries.len() == 0 {
        0
    } else if entries[0].0 == key {
        0
    } else {
        1 + position(entries.drop_first(), key)
    }
}

/// Whether an entry is held under `key`.
pub open spec fn holds(entries: Seq<Entry>, key: Seq<char>) -> bool {
    position(entries, key) < entries.len()
}

/// The entries after a read of `key`: its entry, if there is one, becomes the
/// most recently used.
pub open spec fn touched(entries: Seq<Entry>, key: Seq<char>) -> Seq<Entry> {
    let at = position(entries, key);
    if at < entries.len() {
        seq![entries[at]] + entries.remove(at)
    } else {
        entries
    }
}

/// The entries after `value` is stored under `key` in a cache of `limit`
/// entries: a present key has its value replaced; a new one displaces the
/// least recently used entry where the cache is full. Either way the stored
/// entry becomes the most recently used.
pub open spec fn stored(entries: Seq<Entry>, limit: nat, key: Seq<char>, value: ChannelView) -> Seq<
    Entry,
> {
    let at = position(entries, key);
    if at < entries.len() {
        seq![(key, value)] + entries.remove(at)
    } else if entries.len() == limit {
        seq![(key, value)] + entries.drop_last()
    } else {
        seq![(key, value)] + entries
    }
}

/// The entries after `key` is dropped.
pub open spec fn dropped(entries: Seq<Entry>, key: Seq<char>) -> Seq<Entry> {
    let at = position(entries, key);
    if at < entries.len() {
        entries.remove(at)
    } else {
        entries
    }
}

/// Calls `LruCache::new`, which returns an empty cache that holds at most
/// `capacity` entries. It reserves room for all of them at once, so the
/// capacity is bounded here.
#[verifier::external_body]
fn lru_new(capacity: usize) -> (cache: LruCache<String, Channel>)
    requires
        0 < capacity <= MAX_CAPACITY,
    ensures
        lru_entries(cache) == Seq::<Entry>::empty(),
        lru_limit(cache) == capacity,
{
    LruCache::new(std::num::NonZeroUsize::new(capacity).unwrap())
}

/// Calls `LruCache::get`, which returns the value held under `key`, if any, and
/// moves that entry to the front of the recency order.
#[verifier::external_body]
fn lru_get<'a>(cache: &'a mut LruCache<String, Channel>, key: &String) -> (found: Option<
    &'a Channel,
>)
    ensures
        lru_entries(*final(cache)) == touched(lru_entries(*old(cache)), key@),
        lru_limit(*final(cache)) == lru_limit(*old(cache)),
        found.is_some() == holds(lru_entries(*old(cache)), key@),
        found matches Some(channel) ==> channel@ == lru_entries(*old(cache))[position(
            lru_entries(*old(cache)),
            key@,
        )].1,
{
    cache.get(key)
}

/// Calls `LruCache::put`, which stores `value` under `key` as the most
/// recently used entry: in place of the old value where the key is present, and
/// else in place of the least recently used entry where the cache is full.
#[verifier::external_body]
fn lru_put(cache: &mut LruCache<String, Channel>, key: String, value: Channel)
    ensures
        lru_entries(*final(cache)) == stored(
            lru_entries(*old(cache)),
            lru_limit(*old(cache)),
            key@,
            value@,
        ),
        lru_limit(*final(cache)) == lru_limit(*old(cache)),
{
    cache.put(key, value);
}

/// Calls `LruCache::pop`, which removes the entry held under `key`, if any, and
/// leaves the order of the others as it was.
#[verifier::external_body]
fn lru_pop(cache: &mut LruCache<String, Channel>, key: &String) -> (was_held: bool)
    ensures
        lru_entries(*final(cache)) == dropped(lru_entries(*old(cache)), key@),
        lru_limit(*final(cache)) == lru_limit(*old(cache)),
        was_held == holds(lru_entries(*old(cache)), key@),
{
    cache.pop(key).is_some()
}

/// Calls `LruCache::iter`, which visits the entries from the most recently
/// used to the least, and copies the key of each.
#[verifier::external_body]
fn lru_keys(cache: &LruCache<String, Channel>) -> (keys: Vec<String>)
    ensures
        keys.deep_view() == keys_of(lru_entries(*cache)),
{
    cache.iter().map(|(key, _)| key.clone()).collect()
}

/// Calls `LruCache::peek`, which returns the value held under `key`, if any,
/// and leaves the recency order as it is.
#[verifier::external_body]
fn lru_peek<'a>(cache: &'a LruCache<String, Channel>, key: &String) -> (found: Option<&'a Channel>)
    ensures
        found.is_some() == holds(lru_entries(*cache), key@),
        found matches Some(channel) ==> channel@ == value_at(lru_entries(*cache), key@),
{
    cache.peek(key)
}

/// Calls `LruCache::len`, the number of entries held.
#[verifier::external_body]
fn lru_len(cache: &LruCache<String, Channel>) -> (n: usize)
    ensures
        n == lru_entries(*cache).len(),
{
    cache.len()
}

/// The keys of the entries, in their order.
pub open spec fn keys_of(entries: Seq<Entry>) -> Seq<Seq<char>> {
    Seq::new(entries.len(), |i: int| entries[i].0)
}

/// Those of the first `n` entries that are no channels of `guild`, in their
/// order.
pub open spec fn outside_guild(entries: Seq<Entry>, guild: Seq<char>, n: int) -> Seq<Entry>
    decreases n,
{
    if n <= 0 {
        Seq::empty()
    } else if entries[n - 1].1.guild == Some(guild) {
        outside_guild(entries, guild, n - 1)
    } else {
        outside_guild(entries, guild, n - 1).push(entries[n - 1])
    }
}

/// What is left of the first `n` entries is made of entries among them.
pub proof fn lemma_outside_guild(entries: Seq<Entry>, guild: Seq<char>, n: int)
    requires
        0 <= n <= entries.len(),
    ensures
        outside_guild(entries, guild, n).len() <= n,
        forall|k: int|
            0 <= k < outside_guild(entries, guild, n).len() ==> exists|j: int|
                0 <= j < n && entries[j] == #[trigger] outside_guild(entries, guild, n)[k],
    decreases n,
{
    if n > 0 {
        lemma_outside_guild(entries, guild, n - 1);
        let before = outside_guild(entries, guild, n - 1);
        let now = outside_guild(entries, guild, n);
        assert forall|k: int| 0 <= k < now.len() implies exists|j: int|
            0 <= j < n && entries[j] == #[trigger] now[k] by {
            if k < before.len() {
                let j = choose|j: int| 0 <= j < n - 1 && entries[j] == before[k];
                assert(entries[j] == now[k]);
            } else {
                assert(entries[n - 1] == now[k]);
            }
        }
    }
}

/// The value held under `key`, where one is held.
pub open spec fn value_at(entries: Seq<Entry>, key: Seq<char>) -> ChannelView
    recommends
        holds(entries, key),
{
    entries[position(entries, key)].1
}

/// Whether no key occurs twice.
pub open spec fn distinct(entries: Seq<Entry>) -> bool {
    forall|i: int, j: int| 0 <= i < j < entries.len() ==> entries[i].0 != entries[j].0
}

/// `position` gives the first place at which the key stands.
pub proof fn lemma_position(entries: Seq<Entry>, key: Seq<char>)
    ensures
        0 <= position(entries, key) <= entries.len(),
        holds(entries, key) ==> entries[position(entries, key)].0 == key,
        forall|j: int| 0 <= j < position(entries, key) ==> entries[j].0 != key,
    decreases entries.len(),
{
    if entries.len() > 0 && entries[0].0 != key {
        let rest = entries.drop_first();
        lemma_position(rest, key);
        assert forall|j: int| 0 <= j < position(entries, key) implies entries[j].0 != key by {
            if j > 0 {
                assert(rest[j - 1] == entries[j]);
            }
        }
        if holds(entries, key) {
            assert(rest[position(rest, key)] == entries[position(rest, key) + 1]);
        }
    }
}

/// A place before which the key does not stand, and at which it stands unless
/// the place is the end, is the key's position.
pub proof fn lemma_position_is(entries: Seq<Entry>, key: Seq<char>, at: int)
    requires
        0 <= at <= entries.len(),
        at < entries.len() ==> entries[at].0 == key,
        forall|j: int| 0 <= j < at ==> entries[j].0 != key,
    ensures
        position(entries, key) == at,
{
    lemma_position(entries, key);
    let p = position(entries, key);
    if p < at {
        assert(entries[p].0 == key);
    }
}

/// A read of one key leaves every key held or not as it was, under the value
/// it had, and keeps the keys distinct.
pub proof fn lemma_touched(entries: Seq<Entry>, key: Seq<char>, other: Seq<char>)
    ensures
        touched(entries, key).len() == entries.len(),
        holds(touched(entries, key), other) == holds(entries, other),
        holds(entries, other) ==> value_at(touched(entries, key), other) == value_at(
            entries,
            other,
        ),
        holds(entries, key) ==> position(touched(entries, key), key) == 0,
        distinct(entries) ==> distinct(touched(entries, key)),
{
    lemma_position(entries, key);
    lemma_position(entries, other);
    let at = position(entries, key);
    let t = touched(entries, key);
    if at < entries.len() {
        let p = position(entries, other);
        assert forall|j: int| 0 < j < t.len() implies t[j] == (if j <= at {
            entries[j - 1]
        } else {
            entries[j]
        }) by {}
        assert(t[0] == entries[at]);
        if other == key {
            lemma_position_is(t, other, 0);
        } else if p < at {
            lemma_position_is(t, other, p + 1);
        } else {
            lemma_position_is(t, other, p);
        }
        lemma_position_is(t, key, 0);
        if distinct(entries) {
            assert forall|i: int, j: int| 0 <= i < j < t.len() implies t[i].0 != t[j].0 by {
                let a = if i == 0 { at } else if i <= at { i - 1 } else { i };
                let b = if j <= at { j - 1 } else { j };
                assert(t[i] == entries[a] && t[j] == entries[b]);
                assert(a != b);
            }
        }
    }
}

/// After a store the key is held under the stored value, every other key that
/// stays is held under the value it had, no key that was absent is held, and
/// the keys stay distinct and within the limit.
pub proof fn lemma_stored(
    entries: Seq<Entry>,
    limit: nat,
    key: Seq<char>,
    value: ChannelView,
    other: Seq<char>,
)
    requires
        distinct(entries),
        entries.len() <= limit,
        limit > 0,
    ensures
        distinct(stored(entries, limit, key, value)),
        stored(entries, limit, key, value).len() <= limit,
        stored(entries, limit, key, value).len() >= entries.len(),
        position(stored(entries, limit, key, value), key) == 0,
        holds(stored(entries, limit, key, value), key),
        value_at(stored(entries, limit, key, value), key) == value,
        other != key && holds(stored(entries, limit, key, value), other) ==> holds(entries, other)
            && value_at(stored(entries, limit, key, value), other) == value_at(entries, other),
        other != key && holds(entries, other) && (holds(entries, key) || entries.len() < limit
            || position(entries, other) < entries.len() - 1) ==> holds(
            stored(entries, limit, key, value),
            other,
        ),
{
    lemma_position(entries, key);
    lemma_position(entries, other);
    let at = position(entries, key);
    let p = position(entries, other);
    let s = stored(entries, limit, key, value);
    lemma_position_is(s, key, 0);
    if at < entries.len() {
        assert forall|j: int| 0 < j < s.len() implies s[j] == (if j <= at {
            entries[j - 1]
        } else {
            entries[j]
        }) by {}
        assert forall|i: int, j: int| 0 <= i < j < s.len() implies s[i].0 != s[j].0 by {
            let b = if j <= at { j - 1 } else { j };
            assert(s[j] == entries[b]);
            if i > 0 {
                let a = if i <= at { i - 1 } else { i };
                assert(s[i] == entries[a]);
            } else {
                assert(b != at);
            }
        }
        if other != key {
            if p < at {
                lemma_position_is(s, other, p + 1);
            } else {
                lemma_position_is(s, other, p);
            }
        }
    } else {
        let kept = if entries.len() == limit { entries.drop_last() } else { entries };
        assert(s =~= seq![(key, value)] + kept);
        assert forall|j: int| 0 < j < s.len() implies s[j] == entries[j - 1] by {}
        assert forall|i: int, j: int| 0 <= i < j < s.len() implies s[i].0 != s[j].0 by {
            assert(s[j] == entries[j - 1]);
            if i > 0 {
                assert(s[i] == entries[i - 1]);
            }
        }
        if other != key {
            if p < kept.len() {
                lemma_position_is(s, other, p + 1);
            } else {
                lemma_position_is(s, other, s.len() as int);
            }
        }
    }
}

/// After a drop the key is not held, every other key is held or not as it was,
/// under the value it had, and the keys stay distinct.
pub proof fn lemma_dropped(entries: Seq<Entry>, key: Seq<char>, other: Seq<char>)
    requires
        distinct(entries),
    ensures
        distinct(dropped(entries, key)),
        dropped(entries, key).len() <= entries.len(),
        !holds(dropped(entries, key), key),
        other != key ==> holds(dropped(entries, key), other) == holds(entries, other),
        other != key && holds(entries, other) ==> value_at(dropped(entries, key), other)
            == value_at(entries, other),
{
    lemma_position(entries, key);
    lemma_position(entries, other);
    let at = position(entries, key);
    let p = position(entries, other);
    let d = dropped(entries, key);
    if at < entries.len() {
        assert forall|j: int| 0 <= j < d.len() implies d[j] == (if j < at {
            entries[j]
        } else {
            entries[j + 1]
        }) by {}
        assert forall|i: int, j: int| 0 <= i < j < d.len() implies d[i].0 != d[j].0 by {
            let a = if i < at { i } else { i + 1 };
            let b = if j < at { j } else { j + 1 };
            assert(d[i] == entries[a] && d[j] == entries[b]);
        }
        assert forall|j: int| 0 <= j < d.len() implies d[j].0 != key by {
            let b = if j < at { j } else { j + 1 };
            assert(d[j] == entries[b]);
            assert(b != at);
        }
        lemma_position_is(d, key, d.len() as int);
        if other != key {
            if p < at {
                lemma_position_is(d, other, p);
            } else {
                lemma_position_is(d, other, p - 1);
            }
        }
    }
}

/// The guild channel that an insert writes.
pub open spec fn guild_channel(
    id: Seq<char>,
    guild: Seq<char>,
    name: Seq<char>,
    description: Seq<char>,
) -> ChannelView {
    ChannelView {
        id,
        channel_type: GUILD_CHANNEL,
        active: None,
        last_message: None,
        recipients: None,
        owner: None,
        guild: Some(guild),
        name: Some(name),
        description: Some(description),
    }
}

/// The guild channel that an insert writes has the fields of its kind, and no
/// others.
pub proof fn law_settled_channel_is_consistent(
    id: Seq<char>,
    guild: Seq<char>,
    name: Seq<char>,
    description: Seq<char>,
)
    ensures
        consistent(guild_channel(id, guild, name, description)),
{
}

/// The entries after the cache was brought in line with a write that the
/// store has made.
pub open spec fn settled(entries: Seq<Entry>, limit: nat, made: Request<Seq<char>>) -> Seq<Entry> {
    match made {
        Request::InsertChannel { id, nonce, guild, name, description } => stored(
            entries,
            limit,
            id,
            guild_channel(id, guild, name, description),
        ),
        Request::DeleteChannel { id } => dropped(entries, id),
        Request::DeleteChannels { guild } => outside_guild(entries, guild, entries.len() as int),
        _ => entries,
    }
}

/// The channel cache: at most `capacity` channels, each under its id, of which
/// the least recently used one leaves when room is needed.
pub struct ChannelCache {
    table: LruCache<String, Channel>,
}

impl ChannelCache {
    /// The cached channels, each under its id, the most recently used first.
    pub closed spec fn entries(&self) -> Seq<Entry> {
        lru_entries(self.table)
    }

    /// The number of channels the cache was made to hold.
    pub closed spec fn limit(&self) -> nat {
        lru_limit(self.table)
    }

    /// No id is cached twice, and the cache holds no more than it was made for.
    pub open spec fn well_formed(&self) -> bool {
        &&& distinct(self.entries())
        &&& self.entries().len() <= self.limit()
        &&& 0 < self.limit() <= MAX_CAPACITY
    }

    /// An empty cache for `capacity` channels; `None` where the capacity is
    /// zero or above `MAX_CAPACITY`.
    pub fn new(capacity: usize) -> (cache: Option<ChannelCache>)
        ensures
            cache.is_some() == (0 < capacity <= MAX_CAPACITY),
            cache matches Some(c) ==> c.well_formed() && c.entries() == Seq::<Entry>::empty()
                && c.limit() == capacity,
    {
        if capacity == 0 || capacity > MAX_CAPACITY {
            None
        } else {
            Some(ChannelCache { table: lru_new(capacity) })
        }
    }

    /// The number of cached channels.
    pub fn len(&self) -> (n: usize)
        ensures
            n == self.entries().len(),
    {
        lru_len(&self.table)
    }

    /// A copy of the channel cached under `id`, which becomes the most
    /// recently used; `None`, and nothing changed, where none is cached.
    pub fn get_one(&mut self, id: &String) -> (found: Option<Channel>)
        requires
            old(self).well_formed(),
        ensures
            final(self).well_formed(),
            final(self).limit() == old(self).limit(),
            final(self).entries() == touched(old(self).entries(), id@),
            found.is_some() == holds(old(self).entries(), id@),
            found matches Some(channel) ==> channel@ == value_at(old(self).entries(), id@),
    {
        proof {
            lemma_touched(self.entries(), id@, id@);
        }
        match lru_get(&mut self.table, id) {
            Some(channel) => Some(channel.duplicate()),
            None => None,
        }
    }

    /// Caches `channel` under its id as the most recently used entry, in place
    /// of what was cached under that id; where the id is new and the cache is
    /// full, the least recently used entry leaves.
    pub fn put(&mut self, channel: Channel)
        requires
            old(self).well_formed(),
        ensures
            final(self).well_formed(),
            final(self).limit() == old(self).limit(),
            final(self).entries() == stored(
                old(self).entries(),
                old(self).limit(),
                channel.id@,
                channel@,
            ),
    {
        proof {
            lemma_stored(self.entries(), self.limit(), channel.id@, channel@, channel.id@);
        }
        let key = channel.id.clone();
        lru_put(&mut self.table, key, channel);
    }

    /// Caches `channel` under `key`, as `put` does under the channel's own id.
    fn put_under(&mut self, key: String, channel: Channel)
        requires
            old(self).well_formed(),
        ensures
            final(self).well_formed(),
            final(self).limit() == old(self).limit(),
            final(self).entries() == stored(
                old(self).entries(),
                old(self).limit(),
                key@,
                channel@,
            ),
    {
        proof {
            lemma_stored(self.entries(), self.limit(), key@, channel@, key@);
        }
        lru_put(&mut self.table, key, channel);
    }

    /// Forgets the cached channels of one guild. The others stay, in the
    /// order they had.
    pub fn forget_guild(&mut self, guild: &String)
        requires
            old(self).well_formed(),
        ensures
            final(self).well_formed(),
            final(self).limit() == old(self).limit(),
            final(self).entries() == outside_guild(
                old(self).entries(),
                guild@,
                old(self).entries().len() as int,
            ),
    {
        let keys = lru_keys(&self.table);
        let ghost start = self.entries();
        let mut i: usize = 0;
        assert(Seq::<Entry>::empty() + start.subrange(0, start.len() as int) =~= start);
        assert(keys.deep_view().len() == keys.len() && keys_of(start).len() == start.len());
        while i < keys.len()
            invariant
                start == old(self).entries(),
                distinct(start),
                keys.deep_view() == keys_of(start),
                i <= keys.len() == start.len(),
                self.well_formed(),
                self.limit() == old(self).limit(),
                self.entries() == outside_guild(start, guild@, i as int) + start.subrange(
                    i as int,
                    start.len() as int,
                ),
            decreases keys.len() - i,
        {
            let key = &keys[i];
            let ghost kept = outside_guild(start, guild@, i as int);
            let ghost rest = start.subrange(i as int, start.len() as int);
            let ghost current = self.entries();
            proof {
                assert(key@ == keys.deep_view()[i as int]);
                assert(key@ == start[i as int].0);
                lemma_outside_guild(start, guild@, i as int);
                assert(current[kept.len() as int] == rest[0]);
                assert forall|k: int| 0 <= k < kept.len() implies current[k].0 != key@ by {
                    let j = choose|j: int| 0 <= j < i && start[j] == kept[k];
                    assert(current[k] == start[j]);
                }
                lemma_position_is(current, key@, kept.len() as int);
                lemma_dropped(current, key@, key@);
                assert(current.remove(kept.len() as int) =~= kept + start.subrange(
                    i as int + 1,
                    start.len() as int,
                ));
                assert(current =~= kept.push(start[i as int]) + start.subrange(
                    i as int + 1,
                    start.len() as int,
                ));
            }
            let belongs = match lru_peek(&self.table, key) {
                Some(channel) => match &channel.guild {
                    Some(g) => *g == *guild,
                    None => false,
                },
                None => false,
            };
            if belongs {
                lru_pop(&mut self.table, key);
            }
            i += 1;
        }
        assert(start.subrange(start.len() as int, start.len() as int) =~= Seq::<Entry>::empty());
        assert(self.entries() =~= outside_guild(start, guild@, start.len() as int));
    }

    /// Brings the cache in line with a write that the store has made. A
    /// channel that was inserted is cached, one that was deleted is
    /// forgotten, and when the channels of a guild were deleted, the cached
    /// ones among them are forgotten. No other request changes a channel.
    pub fn settle(&mut self, made: &Request<String>)
        requires
            old(self).well_formed(),
        ensures
            final(self).well_formed(),
            final(self).limit() == old(self).limit(),
            final(self).entries() == settled(old(self).entries(), old(self).limit(), made@),
    {
        match made {
            Request::InsertChannel { id, nonce: _, guild, name, description } => {
                self.put(
                    Channel {
                        id: id.clone(),
                        channel_type: GUILD_CHANNEL,
                        active: None,
                        last_message: None,
                        recipients: None,
                        owner: None,
                        guild: Some(guild.clone()),
                        name: Some(name.clone()),
                        description: Some(description.clone()),
                    },
                );
            },
            Request::DeleteChannel { id } => {
                self.invalidate(id);
            },
            Request::DeleteChannels { guild } => {
                self.forget_guild(guild);
            },
            _ => {},
        }
    }

    /// Forgets the channel cached under `id`, and says whether there was one.
    pub fn invalidate(&mut self, id: &String) -> (was_cached: bool)
        requires
            old(self).well_formed(),
        ensures
            final(self).well_formed(),
            final(self).limit() == old(self).limit(),
            final(self).entries() == dropped(old(self).entries(), id@),
            was_cached == holds(old(self).entries(), id@),
            !holds(final(self).entries(), id@),
    {
        proof {
            lemma_dropped(self.entries(), id@, id@);
        }
        lru_pop(&mut self.table, id)
    }
}

/// Why a fetch gave no channels.
#[derive(Debug, Clone, Copy, PartialEq, Eq, Structural)]
pub enum FetchError {
    /// The store did not answer the query.
    Store,
    /// The store answered, and one of the documents could not be read from it.
    Item,
    /// A document that the store gave is no channel.
    Decode,
}

impl FetchError {
    /// The error in words.
    pub fn message(&self) -> (text: String)
        ensures
            text@ == match *self {
                FetchError::Store => "Failed to fetch channel from database."@,
                FetchError::Item => "Failed to fetch channel."@,
                FetchError::Decode => "Failed to deserialize channel!"@,
            },
    {
        match self {
            FetchError::Store => "Failed to fetch channel from database.".to_owned(),
            FetchError::Item => "Failed to fetch channel.".to_owned(),
            FetchError::Decode => "Failed to deserialize channel!".to_owned(),
        }
    }
}

/// What a read of one channel leads to.
#[derive(Debug, Clone, PartialEq, Eq)]
pub enum Fetch {
    /// The channel was cached; the store is not asked.
    Cached(Channel),
    /// The channel is not cached: the store is to be asked, once, for the
    /// document with exactly this id.
    Query(String),
}

/// The store's answer to a query for one channel.
#[derive(Debug, Clone, PartialEq, Eq)]
pub enum FindOne {
    Found(Channel),
    /// The store holds no such document.
    Absent,
    /// The store holds a document that is no channel.
    Undecodable,
    /// The store did not answer.
    Failed,
}

/// One document of the store's answer to a query for several channels.
#[derive(Debug, Clone, PartialEq, Eq)]
pub enum Document {
    Channel(Channel),
    /// A document that is no channel.
    Undecodable,
    /// A document that could not be read from the store.
    Unreadable,
}

/// What a read of several channels leads to.
#[derive(Debug, Clone, PartialEq, Eq)]
pub enum BulkFetch {
    /// Every id was cached; the store is not asked.
    Complete(Vec<Channel>),
    /// The store is to be asked, once, for the documents whose id is one of
    /// `missing`; `hits` are the channels that were cached.
    Query { hits: Vec<Channel>, missing: Vec<String> },
}

/// The views of a list of channels.
pub open spec fn views(channels: Seq<Channel>) -> Seq<ChannelView> {
    Seq::new(channels.len(), |i: int| channels[i]@)
}

/// The entries after the first `n` of `ids` were read, one after the other.
pub open spec fn scanned(entries: Seq<Entry>, ids: Seq<Seq<char>>, n: int) -> Seq<Entry>
    decreases n,
{
    if n <= 0 {
        entries
    } else {
        touched(scanned(entries, ids, n - 1), ids[n - 1])
    }
}

/// The channels held under the first `n` of `ids`, in the order of the ids; an
/// id that occurs twice gives its channel twice.
pub open spec fn cached_among(entries: Seq<Entry>, ids: Seq<Seq<char>>, n: int) -> Seq<ChannelView>
    decreases n,
{
    if n <= 0 {
        Seq::empty()
    } else if holds(entries, ids[n - 1]) {
        cached_among(entries, ids, n - 1).push(value_at(entries, ids[n - 1]))
    } else {
        cached_among(entries, ids, n - 1)
    }
}

/// Those of the first `n` of `ids` under which nothing is held, in their order.
pub open spec fn missing_among(entries: Seq<Entry>, ids: Seq<Seq<char>>, n: int) -> Seq<Seq<char>>
    decreases n,
{
    if n <= 0 {
        Seq::empty()
    } else if holds(entries, ids[n - 1]) {
        missing_among(entries, ids, n - 1)
    } else {
        missing_among(entries, ids, n - 1).push(ids[n - 1])
    }
}

/// The number of documents in front of the first that is no channel.
pub open spec fn readable(documents: Seq<Document>) -> int
    decreases documents.len(),
{
    if documents.len() > 0 && documents[0] is Channel {
        1 + readable(documents.drop_first())
    } else {
        0
    }
}

/// The entries after the channels among the first `n` documents were cached,
/// each under its own id, one after the other.
pub open spec fn absorbed(entries: Seq<Entry>, limit: nat, documents: Seq<Document>, n: int) -> Seq<
    Entry,
>
    decreases n,
{
    if n <= 0 {
        entries
    } else {
        let before = absorbed(entries, limit, documents, n - 1);
        match documents[n - 1] {
            Document::Channel(c) => stored(before, limit, c.id@, c@),
            _ => before,
        }
    }
}

/// The channels among the first `n` documents, in their order.
pub open spec fn channels_of(documents: Seq<Document>, n: int) -> Seq<ChannelView>
    decreases n,
{
    if n <= 0 {
        Seq::empty()
    } else {
        match documents[n - 1] {
            Document::Channel(c) => channels_of(documents, n - 1).push(c@),
            _ => channels_of(documents, n - 1),
        }
    }
}

/// `readable` gives the first place at which a document is no channel.
pub proof fn lemma_readable(documents: Seq<Document>)
    ensures
        0 <= readable(documents) <= documents.len(),
        forall|j: int| 0 <= j < readable(documents) ==> documents[j] is Channel,
        readable(documents) < documents.len() ==> !(documents[readable(documents)] is Channel),
    decreases documents.len(),
{
    if documents.len() > 0 && documents[0] is Channel {
        let rest = documents.drop_first();
        lemma_readable(rest);
        assert forall|j: int| 0 <= j < readable(documents) implies documents[j] is Channel by {
            if j > 0 {
                assert(rest[j - 1] == documents[j]);
            }
        }
        if readable(documents) < documents.len() {
            assert(rest[readable(rest)] == documents[readable(rest) + 1]);
        }
    }
}

/// A place before which every document is a channel, and at which one is not
/// unless the place is the end, is what `readable` gives.
pub proof fn lemma_readable_is(documents: Seq<Document>, at: int)
    requires
        0 <= at <= documents.len(),
        forall|j: int| 0 <= j < at ==> documents[j] is Channel,
        at < documents.len() ==> !(documents[at] is Channel),
    ensures
        readable(documents) == at,
{
    lemma_readable(documents);
}

/// Reads one channel through the cache. A cached channel is handed out as a
/// copy and becomes the most recently used. For one that is not cached the
/// cache stays as it is, and the store is to be asked for exactly that id; its
/// answer goes to `channel_fetched`.
pub fn fetch_channel(cache: &mut ChannelCache, id: &String) -> (step: Fetch)
    requires
        old(cache).well_formed(),
    ensures
        final(cache).well_formed(),
        final(cache).limit() == old(cache).limit(),
        final(cache).entries() == touched(old(cache).entries(), id@),
        holds(old(cache).entries(), id@) ==> (step matches Fetch::Cached(channel) && channel@
            == value_at(old(cache).entries(), id@)),
        !holds(old(cache).entries(), id@) ==> (step matches Fetch::Query(asked) && asked@ == id@)
            && final(cache).entries() == old(cache).entries(),
{
    match cache.get_one(id) {
        Some(channel) => Fetch::Cached(channel),
        None => Fetch::Query(id.clone()),
    }
}

/// Takes the store's answer to the query for `id`. A channel that was found is
/// cached under `id` and handed out; a channel that the store does not hold
/// is reported as `None` and not remembered; a failure leaves the cache as it
/// was.
pub fn channel_fetched(cache: &mut ChannelCache, id: &String, reply: FindOne) -> (outcome: Result<
    Option<Channel>,
    FetchError,
>)
    requires
        old(cache).well_formed(),
    ensures
        final(cache).well_formed(),
        final(cache).limit() == old(cache).limit(),
        match reply {
            FindOne::Found(channel) => final(cache).entries() == stored(
                old(cache).entries(),
                old(cache).limit(),
                id@,
                channel@,
            ) && (outcome matches Ok(Some(given)) && given@ == channel@),
            FindOne::Absent => final(cache).entries() == old(cache).entries() && outcome == Ok::<
                Option<Channel>,
                FetchError,
            >(None),
            FindOne::Undecodable => final(cache).entries() == old(cache).entries() && outcome
                == Err::<Option<Channel>, FetchError>(FetchError::Decode),
            FindOne::Failed => final(cache).entries() == old(cache).entries() && outcome == Err::<
                Option<Channel>,
                FetchError,
            >(FetchError::Store),
        },
{
    match reply {
        FindOne::Found(channel) => {
            cache.put_under(id.clone(), channel.duplicate());
            Ok(Some(channel))
        },
        FindOne::Absent => Ok(None),
        FindOne::Undecodable => Err(FetchError::Decode),
        FindOne::Failed => Err(FetchError::Store),
    }
}

/// Reads several channels through the cache, in the order of `ids`. Each
/// cached channel is handed out as a copy of what the cache held when the
/// call began, and becomes the most recently used. Where every id was cached
/// the read is complete. Else the store is to be asked once, for exactly the
/// ids that were not cached; its answer goes to `channels_fetched`.
pub fn fetch_channels(cache: &mut ChannelCache, ids: &Vec<String>) -> (step: BulkFetch)
    requires
        old(cache).well_formed(),
    ensures
        final(cache).well_formed(),
        final(cache).limit() == old(cache).limit(),
        final(cache).entries() == scanned(
            old(cache).entries(),
            ids.deep_view(),
            ids.len() as int,
        ),
        forall|key: Seq<char>|
            holds(final(cache).entries(), key) == holds(old(cache).entries(), key),
        missing_among(old(cache).entries(), ids.deep_view(), ids.len() as int).len() == 0
            ==> (step matches BulkFetch::Complete(hits) && views(hits@) == cached_among(
            old(cache).entries(),
            ids.deep_view(),
            ids.len() as int,
        )),
        missing_among(old(cache).entries(), ids.deep_view(), ids.len() as int).len() > 0 ==> (
        step matches BulkFetch::Query { hits, missing } && views(hits@) == cached_among(
            old(cache).entries(),
            ids.deep_view(),
            ids.len() as int,
        ) && missing.deep_view() == missing_among(
            old(cache).entries(),
            ids.deep_view(),
            ids.len() as int,
        )),
{
    let mut hits: Vec<Channel> = Vec::new();
    let mut missing: Vec<String> = Vec::new();
    let ghost before = cache.entries();
    let ghost keys = ids.deep_view();
    let mut i: usize = 0;
    while i < ids.len()
        invariant
            i <= ids.len(),
            keys == ids.deep_view(),
            before == old(cache).entries(),
            cache.well_formed(),
            cache.limit() == old(cache).limit(),
            cache.entries() == scanned(before, keys, i as int),
            forall|key: Seq<char>| holds(cache.entries(), key) == holds(before, key),
            forall|key: Seq<char>|
                holds(before, key) ==> value_at(cache.entries(), key) == value_at(before, key),
            views(hits@) == cached_among(before, keys, i as int),
            missing.deep_view() == missing_among(before, keys, i as int),
        decreases ids.len() - i,
    {
        let id = &ids[i];
        let ghost current = cache.entries();
        let ghost hits_before = hits@;
        let ghost missing_before = missing.deep_view();
        assert(keys[i as int] == id@);
        proof {
            assert forall|key: Seq<char>| holds(touched(current, id@), key) == holds(before, key)
                && (holds(before, key) ==> value_at(touched(current, id@), key) == value_at(
                before,
                key,
            )) by {
                lemma_touched(current, id@, key);
            }
        }
        match cache.get_one(id) {
            Some(channel) => {
                hits.push(channel);
                assert(views(hits@) =~= views(hits_before).push(value_at(before, id@)));
            },
            None => {
                missing.push(id.clone());
                assert(missing.deep_view() =~= missing_before.push(id@));
            },
        }
        i += 1;
    }
    if missing.len() == 0 {
        BulkFetch::Complete(hits)
    } else {
        BulkFetch::Query { hits, missing }
    }
}

/// Takes the store's answer to the query that `fetch_channels` asked for:
/// `None` where the store did not answer, else the documents in the order in
/// which the store gave them. Each channel is cached under its own id, up to
/// the first document that is no channel or could not be read; that document
/// fails the read, and what was cached before it stays cached. Where all are
/// channels, the result is `hits` followed by them: in the order in which the
/// store gave them, which need not be that of the ids asked for.
pub fn channels_fetched(
    cache: &mut ChannelCache,
    hits: Vec<Channel>,
    found: Option<Vec<Document>>,
) -> (outcome: Result<Vec<Channel>, FetchError>)
    requires
        old(cache).well_formed(),
    ensures
        final(cache).well_formed(),
        final(cache).limit() == old(cache).limit(),
        match found {
            None => final(cache).entries() == old(cache).entries() && outcome == Err::<
                Vec<Channel>,
                FetchError,
            >(FetchError::Store),
            Some(documents) => {
                let n = readable(documents@);
                &&& final(cache).entries() == absorbed(
                    old(cache).entries(),
                    old(cache).limit(),
                    documents@,
                    n,
                )
                &&& n == documents.len() ==> (outcome matches Ok(channels) && views(channels@)
                    == views(hits@) + channels_of(documents@, n))
                &&& n < documents.len() ==> outcome == Err::<Vec<Channel>, FetchError>(
                    if documents[n] is Undecodable {
                        FetchError::Decode
                    } else {
                        FetchError::Item
                    },
                )
            },
        },
{
    let documents = match found {
        None => {
            return Err(FetchError::Store);
        },
        Some(documents) => documents,
    };
    let mut channels = hits;
    let mut i: usize = 0;
    while i < documents.len()
        invariant
            i <= documents.len(),
            found == Some(documents),
            cache.well_formed(),
            cache.limit() == old(cache).limit(),
            forall|j: int| 0 <= j < i ==> documents[j] is Channel,
            cache.entries() == absorbed(
                old(cache).entries(),
                old(cache).limit(),
                documents@,
                i as int,
            ),
            views(channels@) == views(hits@) + channels_of(documents@, i as int),
        decreases documents.len() - i,
    {
        let ghost channels_before = channels@;
        match &documents[i] {
            Document::Channel(channel) => {
                cache.put(channel.duplicate());
                channels.push(channel.duplicate());
                assert(views(channels@) =~= views(channels_before).push(channel@));
                assert(views(channels@) =~= views(hits@) + channels_of(
                    documents@,
                    i as int + 1,
                ));
            },
            Document::Undecodable => {
                proof {
                    lemma_readable_is(documents@, i as int);
                }
                return Err(FetchError::Decode);
            },
            Document::Unreadable => {
                proof {
                    lemma_readable_is(documents@, i as int);
                }
                return Err(FetchError::Item);
            },
        }
        i += 1;
    }
    proof {
        lemma_readable_is(documents@, documents.len() as int);
    }
    Ok(channels)
}

/// A channel that was taken in from the store under an id is cached under
/// it: the next read of that id is served from the cache, with that channel,
/// and asks the store nothing. A read of an id that is not cached leaves the
/// cache as it was, so an id that the store did not know is asked for again.
pub proof fn law_second_read_is_served(
    entries: Seq<Entry>,
    limit: nat,
    id: Seq<char>,
    channel: ChannelView,
)
    requires
        distinct(entries),
        entries.len() <= limit,
        limit > 0,
    ensures
        holds(stored(entries, limit, id, channel), id),
        value_at(stored(entries, limit, id, channel), id) == channel,
        !holds(entries, id) ==> touched(entries, id) == entries,
{
    lemma_stored(entries, limit, id, channel, id);
    lemma_position(entries, id);
}

/// Whether `id` is one of the first `n` of `ids`.
pub open spec fn among(ids: Seq<Seq<char>>, n: int, id: Seq<char>) -> bool {
    exists|i: int| 0 <= i < n && #[trigger] ids[i] == id
}

/// A read of several ids parts them into those that are cached and those that
/// are not: each id is in one of the two, the ids to ask the store for are
/// exactly those of the ids that are not cached, and none of them is cached.
pub proof fn law_partition(entries: Seq<Entry>, ids: Seq<Seq<char>>, n: int)
    requires
        0 <= n <= ids.len(),
    ensures
        cached_among(entries, ids, n).len() + missing_among(entries, ids, n).len() == n,
        forall|j: int|
            0 <= j < missing_among(entries, ids, n).len() ==> !holds(
                entries,
                #[trigger] missing_among(entries, ids, n)[j],
            ) && among(ids, n, missing_among(entries, ids, n)[j]),
        forall|i: int|
            0 <= i < n && !holds(entries, #[trigger] ids[i]) ==> missing_among(
                entries,
                ids,
                n,
            ).contains(ids[i]),
    decreases n,
{
    if n > 0 {
        law_partition(entries, ids, n - 1);
        let before = missing_among(entries, ids, n - 1);
        let now = missing_among(entries, ids, n);
        let last = ids[n - 1];
        assert forall|j: int| 0 <= j < now.len() implies !holds(entries, #[trigger] now[j])
            && among(ids, n, now[j]) by {
            if j < before.len() {
                assert(now[j] == before[j]);
                let w = choose|w: int| 0 <= w < n - 1 && #[trigger] ids[w] == before[j];
                assert(ids[w] == now[j]);
            } else {
                assert(ids[n - 1] == now[j]);
            }
        }
        assert forall|i: int| 0 <= i < n && !holds(entries, #[trigger] ids[i]) implies now.contains(
            ids[i],
        ) by {
            if i < n - 1 {
                let w = choose|w: int| 0 <= w < before.len() && #[trigger] before[w] == ids[i];
                assert(now[w] == ids[i]);
            } else {
                assert(now[now.len() - 1] == ids[i]);
            }
        }
    }
}

/// Where every document that the store gave is a channel, the read gives one
/// channel for each of them, after those that were cached.
pub proof fn law_one_channel_for_each_document(documents: Seq<Document>, n: int)
    requires
        0 <= n <= documents.len(),
        forall|j: int| 0 <= j < n ==> documents[j] is Channel,
    ensures
        channels_of(documents, n).len() == n,
    decreases n,
{
    if n > 0 {
        law_one_channel_for_each_document(documents, n - 1);
    }
}

/// When a new id is stored in a full cache, the entry that was used least
/// recently leaves, and every other entry stays, in the order it had.
pub proof fn law_least_recent_leaves(
    entries: Seq<Entry>,
    limit: nat,
    id: Seq<char>,
    channel: ChannelView,
)
    requires
        distinct(entries),
        entries.len() == limit,
        limit > 0,
        !holds(entries, id),
    ensures
        stored(entries, limit, id, channel) == seq![(id, channel)] + entries.drop_last(),
        !holds(stored(entries, limit, id, channel), entries.last().0),
        forall|i: int|
            0 <= i < entries.len() - 1 ==> holds(
                stored(entries, limit, id, channel),
                (#[trigger] entries[i]).0,
            ),
{
    let s = stored(entries, limit, id, channel);
    let gone = entries.last().0;
    lemma_position(entries, id);
    assert forall|j: int| 0 <= j < s.len() implies s[j].0 != gone by {
        if j > 0 {
            assert(s[j] == entries[j - 1]);
        } else {
            lemma_position(entries, gone);
            if id == gone {
                assert(entries[entries.len() - 1].0 == id);
            }
        }
    }
    lemma_position_is(s, gone, s.len() as int);
    assert forall|i: int| 0 <= i < entries.len() - 1 implies holds(
        s,
        (#[trigger] entries[i]).0,
    ) by {
        lemma_position(s, entries[i].0);
        assert(s[i + 1] == entries[i]);
    }
}

/// An entry that was read just before a new id is stored does not leave for
/// it, in a cache made for two entries or more: what leaves, if anything, is
/// an entry that was not read.
pub proof fn law_read_entry_stays(
    entries: Seq<Entry>,
    limit: nat,
    read: Seq<char>,
    id: Seq<char>,
    channel: ChannelView,
)
    requires
        distinct(entries),
        entries.len() <= limit,
        limit >= 2,
        holds(entries, read),
        id != read,
    ensures
        holds(stored(touched(entries, read), limit, id, channel), read),
        value_at(stored(touched(entries, read), limit, id, channel), read) == value_at(
            entries,
            read,
        ),
{
    lemma_touched(entries, read, read);
    let t = touched(entries, read);
    lemma_stored(t, limit, id, channel, read);
}

/// None of the first `n` entries that are left after the channels of a guild
/// were taken out is a channel of that guild.
pub proof fn lemma_outside_guild_holds_none(entries: Seq<Entry>, guild: Seq<char>, n: int)
    requires
        0 <= n <= entries.len(),
    ensures
        forall|k: int|
            0 <= k < outside_guild(entries, guild, n).len() ==> (#[trigger] outside_guild(
                entries,
                guild,
                n,
            )[k]).1.guild != Some(guild),
    decreases n,
{
    if n > 0 {
        lemma_outside_guild_holds_none(entries, guild, n - 1);
    }
}

/// A cache that was brought in line with a deletion serves nothing that was
/// deleted: after the deletion of a channel no entry is held under its id,
/// and after the deletion of a guild's channels no entry is a channel of that
/// guild.
pub proof fn law_settled_cache_forgets_the_deleted(
    entries: Seq<Entry>,
    limit: nat,
    id: Seq<char>,
    guild: Seq<char>,
)
    requires
        distinct(entries),
    ensures
        !holds(settled(entries, limit, Request::DeleteChannel { id }), id),
        forall|k: int|
            0 <= k < settled(entries, limit, Request::DeleteChannels { guild }).len() ==> (
            #[trigger] settled(entries, limit, Request::DeleteChannels { guild })[k]).1.guild
                != Some(guild),
{
    lemma_dropped(entries, id, id);
    lemma_outside_guild_holds_none(entries, guild, entries.len() as int);
}

} // verus!
