//! The item model and the fetch-merge step: raw channel entries are
//! normalized into uniform `FeedItem`s, and the per-source batches of one
//! run are merged into a single list, tolerating per-source failure.

use vstd::prelude::*;
use crate::rank;

verus! {

/// The normalized representation of one feed entry. `pub_date` is the
/// publication instant in milliseconds since the Unix epoch, UTC.
#[derive(Debug)]
pub struct FeedItem {
    pub title: String,
    pub description: String,
    pub link: String,
    pub pub_date: i64,
}

/// One raw entry of a parsed channel, before normalization: each field is
/// present only where the feed document carried it.
#[derive(Debug)]
pub struct Entry {
    pub title: Option<String>,
    pub description: Option<String>,
    pub link: Option<String>,
    pub pub_date: Option<String>,
}

/// The mathematical value of an `Entry`.
pub ghost struct EntryView {
    pub title: Option<Seq<char>>,
    pub description: Option<Seq<char>>,
    pub link: Option<Seq<char>>,
    pub pub_date: Option<Seq<char>>,
}

impl View for Entry {
    type V = EntryView;

    open spec fn view(&self) -> EntryView {
        EntryView {
            title: match self.title {
                Some(s) => Some(s@),
                None => None,
            },
            description: match self.description {
                Some(s) => Some(s@),
                None => None,
            },
            link: match self.link {
                Some(s) => Some(s@),
                None => None,
            },
            pub_date: match self.pub_date {
                Some(s) => Some(s@),
                None => None,
            },
        }
    }
}

/// A parsed channel: its title and its raw entries in document order.
#[derive(Debug)]
pub struct ChannelData {
    pub title: String,
    pub entries: Vec<Entry>,
}

/// The mathematical value of a `ChannelData`.
pub ghost struct ChannelView {
    pub title: Seq<char>,
    pub entries: Seq<EntryView>,
}

impl View for ChannelData {
    type V = ChannelView;

    open spec fn view(&self) -> ChannelView {
        ChannelView {
            title: self.title@,
            entries: self.entries@.map_values(|e: Entry| e@),
        }
    }
}

/// Why one source contributed no items. Both kinds are swallowed at the
/// source boundary: neither propagates past the merge.
#[derive(Debug, Clone, Copy, PartialEq, Eq, Structural)]
pub enum FeedError {
    /// The HTTP retrieval did not complete.
    Transport,
    /// The body was not a well-formed RSS channel document.
    Decode,
}

/// What chrono's RFC-2822 parser yields on a date string: the instant in
/// milliseconds since the Unix epoch where the string parses, and nothing
/// otherwise. The result depends on the string alone.
pub uninterp spec fn rfc2822_millis_of(s: Seq<char>) -> Option<i64>;

/// Relies on chrono's DateTime::parse_from_rfc2822, which turns a
/// well-formed RFC-2822 date string into the instant it names and fails on
/// any other string, and on timestamp_millis, which renders that instant in
/// milliseconds since the Unix epoch (timezone-independent).
#[verifier::external_body]
fn parse_rfc2822_millis(s: &str) -> (r: Option<i64>)
    ensures
        r == rfc2822_millis_of(s@),
{
    match chrono::DateTime::parse_from_rfc2822(s) {
        Ok(dt) => Some(dt.timestamp_millis()),
        Err(_) => None,
    }
}

/// Relies on chrono's Utc::now for the current wall-clock instant, in
/// milliseconds since the Unix epoch. Nothing is promised of the value.
#[verifier::external_body]
fn now_millis() -> i64 {
    chrono::Utc::now().timestamp_millis()
}

/// What rss's channel parser yields on a document: the channel's title and
/// its entries' fields where the text parses as an RSS channel, and nothing
/// otherwise. The result depends on the text alone.
pub uninterp spec fn rss_channel_of(body: Seq<char>) -> Option<ChannelView>;

/// Relies on rss's Channel::read_from, which parses text as an RSS channel
/// document or fails, and on the accessors Channel::title, Item::title,
/// Item::description, Item::link and Item::pub_date, which hand out the
/// parsed fields.
#[verifier::external_body]
fn read_channel(body: &str) -> (r: Result<ChannelData, FeedError>)
    ensures
        match r {
            Ok(c) => rss_channel_of(body@) == Some(c@),
            Err(e) => rss_channel_of(body@) is None && e == FeedError::Decode,
        },
{
    match rss::Channel::read_from(body.as_bytes()) {
        Ok(ch) => Ok(ChannelData {
            title: ch.title().to_string(),
            entries: ch.items().iter().map(|it| Entry {
                title: it.title().map(|s| s.to_string()),
                description: it.description().map(|s| s.to_string()),
                link: it.link().map(|s| s.to_string()),
                pub_date: it.pub_date().map(|s| s.to_string()),
            }).collect(),
        }),
        Err(_) => Err(FeedError::Decode),
    }
}

/// The displayed text of an optional field: the value where the entry has
/// one, the given placeholder otherwise.
pub open spec fn text_or(t: Option<Seq<char>>, fallback: Seq<char>) -> Seq<char> {
    match t {
        Some(s) => s,
        None => fallback,
    }
}

/// The publication instant of an entry: its date string read as RFC-2822
/// where that succeeds, the given current instant otherwise.
pub open spec fn date_or_now(d: Option<Seq<char>>, now: i64) -> i64 {
    match d {
        Some(s) => match rfc2822_millis_of(s) {
            Some(t) => t,
            None => now,
        },
        None => now,
    }
}

/// How a normalized item relates to the raw entry it came from: an absent
/// title, description or link becomes its placeholder, and an absent or
/// unparseable date becomes the current instant `now`.
pub open spec fn item_matches(it: FeedItem, e: EntryView, now: i64) -> bool {
    &&& it.title@ == text_or(e.title, "No title"@)
    &&& it.description@ == text_or(e.description, "No description"@)
    &&& it.link@ == text_or(e.link, "No link"@)
    &&& it.pub_date == date_or_now(e.pub_date, now)
}

/// Whether `items` is exactly the normalization of `entries` against the
/// current instant `now`, entry by entry and in order.
pub open spec fn items_match(items: Seq<FeedItem>, entries: Seq<EntryView>, now: i64) -> bool {
    &&& items.len() == entries.len()
    &&& forall|i: int|
        0 <= i < items.len() ==> item_matches(#[trigger] items[i], entries[i], now)
}

/// Normalizes one raw entry against the current instant `now`: every
/// absent field gets its documented placeholder, never an empty value.
pub fn feed_item_of(e: &Entry, now: i64) -> (r: FeedItem)
    ensures
        item_matches(r, e@, now),
{
    let title = match &e.title {
        Some(t) => t.clone(),
        None => "No title".to_owned(),
    };
    let description = match &e.description {
        Some(t) => t.clone(),
        None => "No description".to_owned(),
    };
    let link = match &e.link {
        Some(t) => t.clone(),
        None => "No link".to_owned(),
    };
    let pub_date = match &e.pub_date {
        Some(d) => match parse_rfc2822_millis(d.as_str()) {
            Some(t) => t,
            None => now,
        },
        None => now,
    };
    FeedItem { title, description, link, pub_date }
}

/// Normalizes every entry of a parsed channel against the instant `now`,
/// keeping document order.
pub fn parse_feed(channel: &ChannelData, now: i64) -> (items: Vec<FeedItem>)
    ensures
        items_match(items@, channel@.entries, now),
{
    let mut items: Vec<FeedItem> = Vec::new();
    let mut i: usize = 0;
    while i < channel.entries.len()
        invariant
            i <= channel.entries@.len(),
            items@.len() == i,
            forall|j: int|
                0 <= j < i ==> item_matches(#[trigger] items@[j], channel@.entries[j], now),
        decreases channel.entries@.len() - i,
    {
        let it = feed_item_of(&channel.entries[i], now);
        items.push(it);
        i = i + 1;
    }
    items
}

/// Parses one fetched body as an RSS channel and normalizes its entries
/// against the instant `now`, handing back the channel's title beside the
/// items. Fails with `FeedError::Decode` exactly where the text is not a
/// well-formed channel document.
pub fn fetch_parse(body: &str, now: i64) -> (r: Result<(String, Vec<FeedItem>), FeedError>)
    ensures
        match r {
            Ok(p) => {
                &&& rss_channel_of(body@) matches Some(c)
                &&& p.0@ == c.title
                &&& items_match(p.1@, c.entries, now)
            },
            Err(e) => rss_channel_of(body@) is None && e == FeedError::Decode,
        },
{
    match read_channel(body) {
        Ok(channel) => {
            let items = parse_feed(&channel, now);
            Ok((channel.title, items))
        },
        Err(e) => Err(e),
    }
}

/// `fetch_parse` against the wall clock: one current instant serves as the
/// fallback date for every entry of the channel.
pub fn fetch_parse_now(body: &str) -> (r: Result<(String, Vec<FeedItem>), FeedError>)
    ensures
        match r {
            Ok(p) => {
                &&& rss_channel_of(body@) matches Some(c)
                &&& p.0@ == c.title
                &&& exists|now: i64| items_match(p.1@, c.entries, now)
            },
            Err(e) => rss_channel_of(body@) is None && e == FeedError::Decode,
        },
{
    let now = now_millis();
    fetch_parse(body, now)
}

/// The items that the successful batches contribute, in batch order: a
/// failed source contributes nothing.
pub open spec fn flatten_ok(batches: Seq<Result<Vec<FeedItem>, FeedError>>) -> Seq<FeedItem>
    decreases batches.len(),
{
    if batches.len() == 0 {
        Seq::empty()
    } else {
        (match batches[0] {
            Ok(v) => v@,
            Err(_) => Seq::empty(),
        }) + flatten_ok(batches.drop_first())
    }
}

/// Failure isolation: with one failing source standing between two
/// successful ones, the merged items are exactly the first batch's items
/// followed by the second's; the failure contributes nothing and no error
/// escapes the merge.
pub proof fn lemma_failure_isolation(a: Vec<FeedItem>, e: FeedError, c: Vec<FeedItem>)
    ensures
        flatten_ok(seq![Ok(a), Err(e), Ok(c)]) == a@ + c@,
{
    let s = seq![Ok::<Vec<FeedItem>, FeedError>(a), Err::<Vec<FeedItem>, FeedError>(e), Ok::<
        Vec<FeedItem>,
        FeedError,
    >(c)];
    let s1 = s.drop_first();
    let s2 = s1.drop_first();
    let s3 = s2.drop_first();
    assert(s1 =~= seq![Err::<Vec<FeedItem>, FeedError>(e), Ok::<Vec<FeedItem>, FeedError>(c)]);
    assert(s2 =~= seq![Ok::<Vec<FeedItem>, FeedError>(c)]);
    assert(s3 =~= Seq::<Result<Vec<FeedItem>, FeedError>>::empty());
    assert(flatten_ok(s3) == Seq::<FeedItem>::empty());
    assert(flatten_ok(s2) =~= c@);
    assert(flatten_ok(s1) =~= c@);
    assert(flatten_ok(s) =~= a@ + c@);
}

/// Merges per-source batches: every item of every successful batch, in
/// batch order; failed sources are dropped and no failure escapes.
pub fn collect_items(batches: Vec<Result<Vec<FeedItem>, FeedError>>) -> (items: Vec<FeedItem>)
    ensures
        items@ == flatten_ok(batches@),
{
    let ghost orig = batches@;
    let mut rest = batches;
    let mut items: Vec<FeedItem> = Vec::new();
    proof {
        assert(items@ + flatten_ok(rest@) =~= flatten_ok(orig));
    }
    while rest.len() > 0
        invariant
            items@ + flatten_ok(rest@) == flatten_ok(orig),
        decreases rest@.len(),
    {
        let ghost prev_items = items@;
        let ghost prev_rest = rest@;
        let b = rest.remove(0);
        proof {
            assert(prev_rest.remove(0) =~= prev_rest.drop_first());
        }
        match b {
            Ok(mut v) => {
                let ghost vv = v@;
                items.append(&mut v);
                proof {
                    assert(prev_items + (vv + flatten_ok(rest@)) =~= (prev_items + vv)
                        + flatten_ok(rest@));
                }
            },
            Err(_) => {
                proof {
                    assert(prev_items + (Seq::<FeedItem>::empty() + flatten_ok(rest@))
                        =~= prev_items + flatten_ok(rest@));
                }
            },
        }
    }
    proof {
        assert(items@ + flatten_ok(rest@) =~= items@);
    }
    items
}

/// The whole merge-rank step over one run's per-source outcomes: the
/// successful batches are flattened, sorted by recency (most recent first,
/// stably), and the window of `count` items after the `skip` most recent
/// is returned.
pub fn run_tasks(
    batches: Vec<Result<Vec<FeedItem>, FeedError>>,
    count: u32,
    skip: u32,
) -> (r: Vec<FeedItem>)
    ensures
        r@ == rank::page(rank::sort_desc(flatten_ok(batches@)), count as int, skip as int),
{
    let items = collect_items(batches);
    let sorted = rank::sort_by_date_desc(items);
    rank::paginate(sorted, count, skip)
}

} // verus!
