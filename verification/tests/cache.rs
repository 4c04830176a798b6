use guildkeeper::cache::{
    channel_fetched, channels_fetched, fetch_channel, fetch_channels, BulkFetch, ChannelCache,
    Document, Fetch, FetchError, FindOne, MAX_CAPACITY,
};
use guildkeeper::cascade::Request;
use guildkeeper::channel::Channel;

fn text(s: &str) -> String {
    s.to_string()
}

fn channel(id: &str, name: &str) -> Channel {
    Channel {
        id: text(id),
        channel_type: 2,
        active: None,
        last_message: None,
        recipients: None,
        owner: None,
        guild: Some(text("g1")),
        name: Some(text(name)),
        description: Some(text("")),
    }
}

fn cache_of(capacity: usize, ids: &[&str]) -> ChannelCache {
    let mut cache = ChannelCache::new(capacity).unwrap();
    for id in ids {
        cache.put(channel(id, id));
    }
    cache
}

#[test]
fn new_cache_is_empty() {
    let cache = ChannelCache::new(2).unwrap();
    assert_eq!(cache.len(), 0);
}

#[test]
fn capacity_must_be_positive_and_bounded() {
    assert!(ChannelCache::new(0).is_none());
    assert!(ChannelCache::new(MAX_CAPACITY + 1).is_none());
    assert!(ChannelCache::new(1).is_some());
    assert_eq!(MAX_CAPACITY, 4_000_000);
}

#[test]
fn first_read_asks_the_store_and_second_is_served() {
    let mut cache = ChannelCache::new(4).unwrap();
    let id = text("c1");
    assert_eq!(fetch_channel(&mut cache, &id), Fetch::Query(text("c1")));
    assert_eq!(cache.len(), 0);
    let found = channel_fetched(&mut cache, &id, FindOne::Found(channel("c1", "general")));
    assert_eq!(found, Ok(Some(channel("c1", "general"))));
    assert_eq!(cache.len(), 1);
    assert_eq!(fetch_channel(&mut cache, &id), Fetch::Cached(channel("c1", "general")));
}

#[test]
fn absent_channel_is_not_remembered() {
    let mut cache = ChannelCache::new(4).unwrap();
    let id = text("c1");
    assert_eq!(fetch_channel(&mut cache, &id), Fetch::Query(text("c1")));
    assert_eq!(channel_fetched(&mut cache, &id, FindOne::Absent), Ok(None));
    assert_eq!(cache.len(), 0);
    assert_eq!(fetch_channel(&mut cache, &id), Fetch::Query(text("c1")));
    let found = channel_fetched(&mut cache, &id, FindOne::Found(channel("c1", "late")));
    assert_eq!(found, Ok(Some(channel("c1", "late"))));
    assert_eq!(fetch_channel(&mut cache, &id), Fetch::Cached(channel("c1", "late")));
}

#[test]
fn store_failure_leaves_the_cache_alone() {
    let mut cache = cache_of(4, &["a"]);
    let id = text("c1");
    assert_eq!(channel_fetched(&mut cache, &id, FindOne::Failed), Err(FetchError::Store));
    assert_eq!(channel_fetched(&mut cache, &id, FindOne::Undecodable), Err(FetchError::Decode));
    assert_eq!(cache.len(), 1);
    assert_eq!(cache.get_one(&id), None);
    assert_eq!(cache.get_one(&text("a")), Some(channel("a", "a")));
}

#[test]
fn fetch_errors_in_words() {
    assert_eq!(FetchError::Store.message(), "Failed to fetch channel from database.");
    assert_eq!(FetchError::Item.message(), "Failed to fetch channel.");
    assert_eq!(FetchError::Decode.message(), "Failed to deserialize channel!");
}

#[test]
fn get_one_gives_what_was_put() {
    let mut cache = ChannelCache::new(3).unwrap();
    cache.put(channel("a", "first"));
    cache.put(channel("b", "second"));
    assert_eq!(cache.get_one(&text("a")), Some(channel("a", "first")));
    assert_eq!(cache.get_one(&text("b")), Some(channel("b", "second")));
    assert_eq!(cache.get_one(&text("c")), None);
    cache.put(channel("a", "renamed"));
    assert_eq!(cache.len(), 2);
    assert_eq!(cache.get_one(&text("a")), Some(channel("a", "renamed")));
}

#[test]
fn least_recently_used_leaves_first() {
    let mut cache = cache_of(2, &["a", "b"]);
    cache.put(channel("c", "c"));
    assert_eq!(cache.len(), 2);
    assert_eq!(cache.get_one(&text("a")), None);
    assert!(cache.get_one(&text("b")).is_some());
    assert!(cache.get_one(&text("c")).is_some());
}

#[test]
fn entry_read_before_eviction_stays() {
    let mut cache = cache_of(2, &["a", "b"]);
    assert!(cache.get_one(&text("a")).is_some());
    cache.put(channel("c", "c"));
    assert_eq!(cache.len(), 2);
    assert!(cache.get_one(&text("a")).is_some());
    assert_eq!(cache.get_one(&text("b")), None);
}

#[test]
fn more_ids_than_capacity_keeps_the_latest() {
    let mut cache = cache_of(3, &["a", "b", "c", "d", "e"]);
    assert_eq!(cache.len(), 3);
    assert_eq!(cache.get_one(&text("a")), None);
    assert_eq!(cache.get_one(&text("b")), None);
    assert!(cache.get_one(&text("c")).is_some());
    assert!(cache.get_one(&text("d")).is_some());
    assert!(cache.get_one(&text("e")).is_some());
}

#[test]
fn capacity_one_holds_the_last_put() {
    let mut cache = cache_of(1, &["a"]);
    assert!(cache.get_one(&text("a")).is_some());
    cache.put(channel("b", "b"));
    assert_eq!(cache.len(), 1);
    assert_eq!(cache.get_one(&text("a")), None);
    assert!(cache.get_one(&text("b")).is_some());
}

#[test]
fn invalidate_forgets_one_channel() {
    let mut cache = cache_of(3, &["a", "b"]);
    assert!(cache.invalidate(&text("a")));
    assert!(!cache.invalidate(&text("a")));
    assert_eq!(cache.len(), 1);
    assert_eq!(cache.get_one(&text("a")), None);
    assert!(cache.get_one(&text("b")).is_some());
}

#[test]
fn forget_guild_keeps_the_channels_of_other_guilds() {
    let mut cache = cache_of(8, &["a", "b"]);
    let mut other = channel("x", "x");
    other.guild = Some(text("g2"));
    cache.put(other.clone());
    let mut direct = channel("d", "d");
    direct.channel_type = 0;
    direct.guild = None;
    cache.put(direct.clone());
    cache.put(channel("c", "c"));
    cache.forget_guild(&text("g1"));
    assert_eq!(cache.len(), 2);
    assert_eq!(cache.get_one(&text("a")), None);
    assert_eq!(cache.get_one(&text("b")), None);
    assert_eq!(cache.get_one(&text("c")), None);
    assert_eq!(cache.get_one(&text("x")), Some(other));
    assert_eq!(cache.get_one(&text("d")), Some(direct));
    cache.forget_guild(&text("g1"));
    assert_eq!(cache.len(), 2);
}

#[test]
fn forget_guild_keeps_the_order_of_the_rest() {
    let mut cache = ChannelCache::new(3).unwrap();
    for id in ["p", "q", "r"] {
        let mut kept = channel(id, id);
        kept.guild = Some(text("g2"));
        cache.put(kept);
    }
    cache.forget_guild(&text("g1"));
    assert_eq!(cache.len(), 3);
    cache.put(channel("n", "n"));
    assert_eq!(cache.get_one(&text("p")), None);
    assert!(cache.get_one(&text("q")).is_some());
    assert!(cache.get_one(&text("r")).is_some());
}

#[test]
fn bulk_read_of_cached_ids_asks_nothing() {
    let mut cache = cache_of(4, &["a", "b", "c"]);
    let step = fetch_channels(&mut cache, &vec![text("c"), text("a")]);
    assert_eq!(step, BulkFetch::Complete(vec![channel("c", "c"), channel("a", "a")]));
}

#[test]
fn bulk_read_of_nothing_is_complete() {
    let mut cache = cache_of(4, &["a"]);
    assert_eq!(fetch_channels(&mut cache, &vec![]), BulkFetch::Complete(vec![]));
}

#[test]
fn bulk_read_asks_for_exactly_the_uncached_ids() {
    let mut cache = cache_of(8, &["a", "b"]);
    let ids = vec![text("x"), text("b"), text("y"), text("a"), text("z")];
    let step = fetch_channels(&mut cache, &ids);
    assert_eq!(
        step,
        BulkFetch::Query {
            hits: vec![channel("b", "b"), channel("a", "a")],
            missing: vec![text("x"), text("y"), text("z")],
        }
    );
    assert_eq!(cache.len(), 2);
}

#[test]
fn bulk_read_gives_a_repeated_id_twice() {
    let mut cache = cache_of(8, &["a"]);
    let step = fetch_channels(&mut cache, &vec![text("a"), text("q"), text("a"), text("q")]);
    assert_eq!(
        step,
        BulkFetch::Query {
            hits: vec![channel("a", "a"), channel("a", "a")],
            missing: vec![text("q"), text("q")],
        }
    );
}

#[test]
fn bulk_read_refreshes_what_it_hits() {
    let mut cache = cache_of(2, &["a", "b"]);
    let step = fetch_channels(&mut cache, &vec![text("a")]);
    assert_eq!(step, BulkFetch::Complete(vec![channel("a", "a")]));
    cache.put(channel("c", "c"));
    assert!(cache.get_one(&text("a")).is_some());
    assert_eq!(cache.get_one(&text("b")), None);
}

#[test]
fn bulk_answer_is_cached_and_appended_in_store_order() {
    let mut cache = cache_of(8, &["a"]);
    let hits = vec![channel("a", "a")];
    let found = Some(vec![
        Document::Channel(channel("z", "z")),
        Document::Channel(channel("x", "x")),
    ]);
    let outcome = channels_fetched(&mut cache, hits, found);
    assert_eq!(outcome, Ok(vec![channel("a", "a"), channel("z", "z"), channel("x", "x")]));
    assert_eq!(cache.len(), 3);
    let again = fetch_channels(&mut cache, &vec![text("x"), text("z"), text("a")]);
    assert_eq!(
        again,
        BulkFetch::Complete(vec![channel("x", "x"), channel("z", "z"), channel("a", "a")])
    );
}

#[test]
fn bulk_answer_may_hold_fewer_than_asked() {
    let mut cache = cache_of(8, &["a"]);
    let outcome = channels_fetched(&mut cache, vec![channel("a", "a")], Some(vec![]));
    assert_eq!(outcome, Ok(vec![channel("a", "a")]));
    assert_eq!(cache.len(), 1);
}

#[test]
fn bulk_answer_fails_at_the_first_bad_document() {
    let mut cache = ChannelCache::new(8).unwrap();
    let found = Some(vec![
        Document::Channel(channel("x", "x")),
        Document::Undecodable,
        Document::Channel(channel("y", "y")),
    ]);
    assert_eq!(channels_fetched(&mut cache, vec![], found), Err(FetchError::Decode));
    assert_eq!(cache.len(), 1);
    assert!(cache.get_one(&text("x")).is_some());
    assert_eq!(cache.get_one(&text("y")), None);

    let unreadable = Some(vec![Document::Unreadable, Document::Undecodable]);
    assert_eq!(channels_fetched(&mut cache, vec![], unreadable), Err(FetchError::Item));
    assert_eq!(cache.len(), 1);
}

#[test]
fn bulk_query_failure_leaves_the_cache_alone() {
    let mut cache = cache_of(8, &["a"]);
    assert_eq!(
        channels_fetched(&mut cache, vec![channel("a", "a")], None),
        Err(FetchError::Store)
    );
    assert_eq!(cache.len(), 1);
}

#[test]
fn settle_follows_channel_writes() {
    let mut cache = cache_of(8, &["a", "b"]);
    cache.settle(&Request::InsertChannel {
        id: text("n"),
        nonce: Some(text("n1")),
        guild: text("g1"),
        name: text("news"),
        description: text(""),
    });
    assert_eq!(cache.get_one(&text("n")), Some(channel("n", "news")));
    cache.settle(&Request::DeleteChannel { id: text("a") });
    assert_eq!(cache.get_one(&text("a")), None);
    assert_eq!(cache.len(), 2);
    cache.settle(&Request::DeleteMember { guild: text("g1"), user: text("u1") });
    assert_eq!(cache.len(), 2);
    let mut other = channel("x", "x");
    other.guild = Some(text("g2"));
    cache.put(other);
    cache.settle(&Request::DeleteChannels { guild: text("g1") });
    assert_eq!(cache.len(), 1);
    assert!(cache.get_one(&text("x")).is_some());
}
