//! The Twitter-like adapter: a GraphQL "likes" API paged by an opaque
//! cursor, whose tweets expand into downloadable media items.

use vstd::prelude::*;
use vstd::string::StringExecFns;

use crate::adapters::json_escape;
use crate::adapters::spec_json_escape;
use crate::adapters::ApiError;
use crate::text::dec_str;
use crate::text::i32_to_dec;
use crate::text::last_idx;
use crate::text::last_index_of;
use crate::text::lemma_last_idx_props;
use crate::text::spec_int_dec;
use crate::text::str_eq;
use crate::text::suffix_from;
use crate::text::u64_to_dec;

verus! {

/// One downloadable media unit derived from a liked tweet: the post
/// permalink, the media URL to fetch, the target filename, and whether it
/// is the last media item of its tweet (display accounting only).
pub struct TwitterItem {
    pub url: String,
    pub media_url: String,
    pub filename: String,
    pub is_last: bool,
}

impl TwitterItem {
    /// The target filename.
    pub fn filename(&self) -> (r: &str)
        ensures
            r@ == self.filename@,
    {
        self.filename.as_str()
    }

    /// The post permalink.
    pub fn url(&self) -> (r: &str)
        ensures
            r@ == self.url@,
    {
        self.url.as_str()
    }

    /// The URL of the media file itself.
    pub fn media_url(&self) -> (r: &str)
        ensures
            r@ == self.media_url@,
    {
        self.media_url.as_str()
    }

    /// Whether this is the last media item of its tweet.
    pub fn is_last(&self) -> (r: bool)
        ensures
            r == self.is_last,
    {
        self.is_last
    }
}

/// The filename an item resolves to: author, post id, media index and
/// extension, joined as "author id index.ext".
pub open spec fn spec_filename(author: Seq<char>, id: u64, index: int, ext: Seq<char>) -> Seq<
    char,
> {
    author + " "@ + dec_str(id as nat) + " "@ + dec_str(index as nat) + "."@ + ext
}

/// The filename is a function of author, post id, media index and
/// extension alone: equal inputs always give the equal filename.
pub proof fn lemma_filename_functional(
    a1: Seq<char>,
    id1: u64,
    x1: int,
    e1: Seq<char>,
    a2: Seq<char>,
    id2: u64,
    x2: int,
    e2: Seq<char>,
)
    requires
        a1 == a2,
        id1 == id2,
        x1 == x2,
        e1 == e2,
    ensures
        spec_filename(a1, id1, x1, e1) == spec_filename(a2, id2, x2, e2),
{
}

/// The permalink of the media item within its tweet.
pub open spec fn spec_tweet_url(author: Seq<char>, id: u64, index: int) -> Seq<char> {
    "http://x.com/"@ + author + "/status/"@ + dec_str(id as nat) + "/photo/"@ + dec_str(
        index as nat,
    )
}

/// Build the filename "author id index.ext".
pub fn build_filename(author: &str, id: u64, index: usize, ext: &str) -> (r: String)
    ensures
        r@ == spec_filename(author@, id, index as int, ext@),
{
    let mut s = author.to_owned();
    s.append(" ");
    let idd = u64_to_dec(id);
    s.append(idd.as_str());
    s.append(" ");
    let ixd = u64_to_dec(index as u64);
    s.append(ixd.as_str());
    s.append(".");
    s.append(ext);
    proof {
        assert(s@ =~= spec_filename(author@, id, index as int, ext@));
    }
    s
}

/// Build the permalink of one media item.
pub fn build_tweet_url(author: &str, id: u64, index: usize) -> (r: String)
    ensures
        r@ == spec_tweet_url(author@, id, index as int),
{
    let mut s = String::new();
    s.append("http://x.com/");
    s.append(author);
    s.append("/status/");
    let idd = u64_to_dec(id);
    s.append(idd.as_str());
    s.append("/photo/");
    let ixd = u64_to_dec(index as u64);
    s.append(ixd.as_str());
    proof {
        assert(s@ =~= spec_tweet_url(author@, id, index as int));
    }
    s
}

/// The extension of the final path segment: the characters after the last
/// dot, provided that dot stands after the last slash and is not the
/// segment's first character.
pub open spec fn spec_extension(s: Seq<char>) -> Option<Seq<char>> {
    let base = match last_idx(s, '/') {
        Some(i) => i + 1,
        None => 0,
    };
    match last_idx(s, '.') {
        None => None,
        Some(d) => if d > base {
            Some(s.skip(d + 1))
        } else {
            None
        },
    }
}

/// The extension of the final path segment of `s`, if it has one.
pub fn extension_of(s: &str) -> (r: Option<String>)
    ensures
        match r {
            Some(e) => spec_extension(s@) == Some(e@),
            None => spec_extension(s@) is None,
        },
{
    let slen = vstd::string::StrSliceExecFns::unicode_len(s);
    proof {
        assert(slen == s@.len());
        lemma_last_idx_props(s@, '.');
        lemma_last_idx_props(s@, '/');
    }
    match last_index_of(s, '.') {
        None => None,
        Some(d) => {
            let base: usize = match last_index_of(s, '/') {
                Some(i) => i + 1,
                None => 0,
            };
            if d > base {
                Some(suffix_from(s, d + 1))
            } else {
                None
            }
        },
    }
}

/// One media entry of a tweet, as the response shape names it.
pub enum TwitterMedia {
    Photo { media_url_https: String },
    Video { variant_urls: Vec<String> },
    AnimatedGif { variant_urls: Vec<String> },
    Unknown { media_type: String },
}

/// Whether a media entry can expand into an item: a photo must carry an
/// extension in its URL, a video or animated gif must offer at least one
/// variant, and an unrecognized type never expands.
pub open spec fn media_ok(m: TwitterMedia) -> bool {
    match m {
        TwitterMedia::Photo { media_url_https } => spec_extension(media_url_https@) is Some,
        TwitterMedia::Video { variant_urls } => variant_urls@.len() > 0,
        TwitterMedia::AnimatedGif { variant_urls } => variant_urls@.len() > 0,
        TwitterMedia::Unknown { .. } => false,
    }
}

/// The media URL an entry expands to: a photo asks for the original
/// quality by suffixing the source URL, a video or animated gif takes the
/// last (highest quality) variant.
pub open spec fn spec_media_url(m: TwitterMedia) -> Seq<char> {
    match m {
        TwitterMedia::Photo { media_url_https } => media_url_https@ + "?name=orig"@,
        TwitterMedia::Video { variant_urls } => variant_urls@.last()@,
        TwitterMedia::AnimatedGif { variant_urls } => variant_urls@.last()@,
        TwitterMedia::Unknown { .. } => Seq::empty(),
    }
}

/// The filename extension an entry expands to: a photo keeps the source
/// URL's own extension, a video or animated gif is fixed to "mp4".
pub open spec fn spec_media_ext(m: TwitterMedia) -> Seq<char> {
    match m {
        TwitterMedia::Photo { media_url_https } => match spec_extension(media_url_https@) {
            Some(e) => e,
            None => Seq::empty(),
        },
        TwitterMedia::Video { .. } => "mp4"@,
        TwitterMedia::AnimatedGif { .. } => "mp4"@,
        TwitterMedia::Unknown { .. } => Seq::empty(),
    }
}

/// One liked tweet: its author's screen name, its id, and its media
/// entries (absent when the tweet carries none).
pub struct Tweet {
    pub screen_name: String,
    pub snowflake: u64,
    pub media: Option<Vec<TwitterMedia>>,
}

/// Whether every media entry of the tweet can expand.
pub open spec fn tweet_ok(t: Tweet) -> bool {
    match t.media {
        None => true,
        Some(ms) => forall|i: int| 0 <= i < ms@.len() ==> media_ok(ms@[i]),
    }
}

/// What an item holds, as plain values.
pub open spec fn item_view(it: TwitterItem) -> (Seq<char>, Seq<char>, Seq<char>, bool) {
    (it.url@, it.media_url@, it.filename@, it.is_last)
}

/// The items a tweet expands to, media index starting at one; the last
/// media item of the tweet is marked.
pub open spec fn tweet_item_views(t: Tweet) -> Seq<(Seq<char>, Seq<char>, Seq<char>, bool)> {
    match t.media {
        None => Seq::empty(),
        Some(ms) => Seq::new(
            ms@.len(),
            |i: int|
                (
                    spec_tweet_url(t.screen_name@, t.snowflake, i + 1),
                    spec_media_url(ms@[i]),
                    spec_filename(t.screen_name@, t.snowflake, i + 1, spec_media_ext(ms@[i])),
                    i == ms@.len() - 1,
                ),
        ),
    }
}

/// Expand one tweet into its items. Succeeds exactly when every media
/// entry is well formed; an unrecognized media type is the fatal
/// `UnknownMediaType`, a photo without an extension or a video without
/// variants the fatal `MalformedResponse`.
pub fn expand_tweet(t: &Tweet) -> (r: Result<Vec<TwitterItem>, ApiError>)
    ensures
        (r is Ok) == tweet_ok(*t),
        r matches Ok(items) ==> items@.map_values(|it: TwitterItem| item_view(it))
            == tweet_item_views(*t),
        r matches Err(ApiError::UnknownMediaType(mt)) ==> (match t.media {
            None => false,
            Some(ms) => exists|i: int|
                0 <= i < ms@.len() && (#[trigger] ms@[i] matches TwitterMedia::Unknown {
                    media_type,
                } && media_type@ == mt@),
        }),
        r matches Err(ApiError::MalformedResponse(_)) ==> (match t.media {
            None => false,
            Some(ms) => exists|i: int|
                0 <= i < ms@.len() && !media_ok(#[trigger] ms@[i]) && !(ms@[i] is Unknown),
        }),
{
    let ms = match &t.media {
        None => {
            let items: Vec<TwitterItem> = Vec::new();
            proof {
                assert(items@.map_values(|it: TwitterItem| item_view(it)) =~= tweet_item_views(
                    *t,
                ));
            }
            return Ok(items);
        },
        Some(ms) => ms,
    };
    let n = ms.len();
    let mut items: Vec<TwitterItem> = Vec::new();
    let mut i: usize = 0;
    #[verifier::loop_isolation(false)]
    while i < n
        invariant
            i <= n,
            items@.len() == i,
            forall|j: int| 0 <= j < i ==> media_ok(ms@[j]),
            forall|j: int|
                0 <= j < i ==> item_view(#[trigger] items@[j]) == tweet_item_views(*t)[j],
        decreases n - i,
    {
        let index = i + 1;
        let (media_url, ext): (String, String) = match &ms[i] {
            TwitterMedia::Photo { media_url_https } => {
                match extension_of(media_url_https.as_str()) {
                    None => {
                        return Err(
                            ApiError::MalformedResponse(
                                "photo media url carries no extension".to_owned(),
                            ),
                        );
                    },
                    Some(e) => {
                        let u = media_url_https.clone().concat("?name=orig");
                        (u, e)
                    },
                }
            },
            TwitterMedia::Video { variant_urls } => {
                if variant_urls.len() == 0 {
                    return Err(
                        ApiError::MalformedResponse("video media offers no variants".to_owned()),
                    );
                }
                (variant_urls[variant_urls.len() - 1].clone(), "mp4".to_owned())
            },
            TwitterMedia::AnimatedGif { variant_urls } => {
                if variant_urls.len() == 0 {
                    return Err(
                        ApiError::MalformedResponse("video media offers no variants".to_owned()),
                    );
                }
                (variant_urls[variant_urls.len() - 1].clone(), "mp4".to_owned())
            },
            TwitterMedia::Unknown { media_type } => {
                return Err(ApiError::UnknownMediaType(media_type.clone()));
            },
        };
        let item = TwitterItem {
            url: build_tweet_url(t.screen_name.as_str(), t.snowflake, index),
            media_url,
            filename: build_filename(t.screen_name.as_str(), t.snowflake, index, ext.as_str()),
            is_last: i == n - 1,
        };
        items.push(item);
        i = i + 1;
    }
    proof {
        assert(items@.map_values(|it: TwitterItem| item_view(it)) =~= tweet_item_views(*t));
    }
    Ok(items)
}

/// One entry of a likes page: a tweet, a deleted or otherwise empty
/// result, or a cursor entry.
pub enum TwitterEntry {
    Tweet(Tweet),
    Deleted,
    Cursor(String),
}

/// A fetched likes page, entries in timeline order; the platform puts the
/// continuation cursor in the last entry.
pub struct TwitterPage {
    pub entries: Vec<TwitterEntry>,
}

/// Whether every tweet entry of the page expands.
pub open spec fn page_ok(es: Seq<TwitterEntry>) -> bool {
    forall|i: int|
        0 <= i < es.len() ==> (#[trigger] es[i] matches TwitterEntry::Tweet(t) ==> tweet_ok(t))
}

/// The cursor the page hands back, taken from its last entry.
pub open spec fn page_cursor(es: Seq<TwitterEntry>) -> Seq<char> {
    match es.last() {
        TwitterEntry::Cursor(c) => c@,
        _ => Seq::empty(),
    }
}

/// The items of one entry: a tweet's expansion, nothing otherwise.
pub open spec fn entry_item_views(e: TwitterEntry) -> Seq<(Seq<char>, Seq<char>, Seq<char>, bool)> {
    match e {
        TwitterEntry::Tweet(t) => tweet_item_views(t),
        _ => Seq::empty(),
    }
}

/// The items of a whole page, entry by entry in order.
pub open spec fn page_item_views(es: Seq<TwitterEntry>) -> Seq<
    (Seq<char>, Seq<char>, Seq<char>, bool),
>
    decreases es.len(),
{
    if es.len() == 0 {
        Seq::empty()
    } else {
        page_item_views(es.drop_last()) + entry_item_views(es.last())
    }
}

/// The Twitter-like adapter: one configured account's credentials, its
/// memoized numeric user id, the pagination cursor, the per-page item
/// buffer, and the account's settings.
pub struct TwitterAdapter {
    pub username: String,
    pub authorization: String,
    pub csrf_token: String,
    pub cookies: String,
    pub userid: Option<String>,
    pub cursor: Option<String>,
    pub cache: Vec<TwitterItem>,
    pub page_size: i32,
    pub concurrency: usize,
    pub path: String,
    pub exhausted: bool,
}

impl TwitterAdapter {
    /// A fresh adapter for one account: no user id yet, no cursor, an
    /// empty buffer, and the platform defaults where the configuration
    /// stays silent (page size 100, concurrency 50).
    pub fn new(
        username: String,
        authorization: String,
        csrf_token: String,
        cookies: String,
        page_size: Option<i32>,
        concurrency: Option<usize>,
        path: String,
    ) -> (r: TwitterAdapter)
        ensures
            r.username == username,
            r.authorization == authorization,
            r.csrf_token == csrf_token,
            r.cookies == cookies,
            r.userid is None,
            r.cursor is None,
            r.cache@.len() == 0,
            r.page_size == (match page_size {
                Some(p) => p,
                None => 100,
            }),
            r.concurrency == (match concurrency {
                Some(c) => c,
                None => 50,
            }),
            r.path == path,
            !r.exhausted,
    {
        TwitterAdapter {
            username,
            authorization,
            csrf_token,
            cookies,
            userid: None,
            cursor: None,
            cache: Vec::new(),
            page_size: match page_size {
                Some(p) => p,
                None => 100,
            },
            concurrency: match concurrency {
                Some(c) => c,
                None => 50,
            },
            path,
            exhausted: false,
        }
    }

    /// The platform tag.
    pub fn platform(&self) -> (r: &'static str)
        ensures
            r@ == "twitter"@,
    {
        "twitter"
    }

    /// The display identity of the account.
    pub fn name(&self) -> (r: &str)
        ensures
            r@ == self.username@,
    {
        self.username.as_str()
    }

    /// The output directory of the account.
    pub fn path(&self) -> (r: &str)
        ensures
            r@ == self.path@,
    {
        self.path.as_str()
    }

    /// Whether the first call still has to resolve the user id.
    pub fn needs_auth(&self) -> (r: bool)
        ensures
            r == (self.userid is None),
    {
        match &self.userid {
            None => true,
            Some(_) => false,
        }
    }

    /// Fix the resolved user id, once.
    pub fn set_userid(&mut self, id: String)
        requires
            old(self).userid is None,
        ensures
            final(self).userid == Some(id),
            *final(self) == (TwitterAdapter { userid: final(self).userid, ..*old(self) }),
    {
        self.userid = Some(id);
    }

    /// Hand out the first buffered item, if any.
    pub fn pop_cached(&mut self) -> (r: Option<TwitterItem>)
        ensures
            old(self).cache@.len() > 0 ==> r == Some(old(self).cache@[0]) && final(self).cache@
                == old(self).cache@.skip(1),
            old(self).cache@.len() == 0 ==> r is None && final(self).cache@ == old(
                self,
            ).cache@,
            *final(self) == (TwitterAdapter { cache: final(self).cache, ..*old(self) }),
    {
        if self.cache.len() == 0 {
            None
        } else {
            Some(self.cache.remove(0))
        }
    }

    /// Take one fetched page in: expand every tweet into the buffer, then
    /// advance the cursor, or report the source exhausted when the page
    /// hands back the cursor it was fetched with. A page without a cursor
    /// entry, or one whose tweets violate the response contract, is a
    /// fatal error and leaves the adapter as it was.
    pub fn feed_page(&mut self, page: &TwitterPage) -> (r: Result<bool, ApiError>)
        ensures
            ({
                let es = page.entries@;
                if es.len() == 0 || !(es.last() is Cursor) {
                    (r matches Err(ApiError::MalformedResponse(_))) && *final(self) == *old(self)
                } else if !page_ok(es) {
                    (r is Err) && *final(self) == *old(self)
                } else {
                    let nc = page_cursor(es);
                    let repeated = (match old(self).cursor {
                        Some(c) => c@ == nc,
                        None => false,
                    });
                    final(self).cache@.map_values(|it: TwitterItem| item_view(it)) == old(
                        self,
                    ).cache@.map_values(|it: TwitterItem| item_view(it)) + page_item_views(es)
                        && (*final(self) == (TwitterAdapter {
                        cache: final(self).cache,
                        cursor: final(self).cursor,
                        exhausted: final(self).exhausted,
                        ..*old(self)
                    })) && if repeated {
                        r == Ok::<bool, ApiError>(false) && final(self).cursor == old(self).cursor
                            && final(self).exhausted
                    } else {
                        r == Ok::<bool, ApiError>(true) && (final(self).cursor matches Some(c) && c@ == nc)
                            && final(self).exhausted == old(self).exhausted
                    }
                }
            }),
    {
        let n = page.entries.len();
        if n == 0 {
            return Err(ApiError::MalformedResponse("page holds no entries".to_owned()));
        }
        let nc: &String = match &page.entries[n - 1] {
            TwitterEntry::Cursor(c) => c,
            _ => {
                return Err(
                    ApiError::MalformedResponse("page carries no cursor entry".to_owned()),
                );
            },
        };
        let ghost es = page.entries@;
        let mut fresh: Vec<TwitterItem> = Vec::new();
        let mut i: usize = 0;
        #[verifier::loop_isolation(false)]
        while i < n
            invariant
                i <= n,
                forall|j: int|
                    0 <= j < i ==> (#[trigger] es[j] matches TwitterEntry::Tweet(t)
                        ==> tweet_ok(t)),
                fresh@.map_values(|it: TwitterItem| item_view(it)) == page_item_views(
                    es.take(i as int),
                ),
            decreases n - i,
        {
            proof {
                assert(es.take(i + 1 as int).drop_last() =~= es.take(i as int));
                assert(es.take(i + 1 as int).last() == es[i as int]);
            }
            let ghost pre = fresh@;
            match &page.entries[i] {
                TwitterEntry::Tweet(t) => {
                    match expand_tweet(t) {
                        Ok(mut its) => {
                            let ghost its_snap = its@;
                            fresh.append(&mut its);
                            proof {
                                assert(fresh@.map_values(|it: TwitterItem| item_view(it))
                                    =~= pre.map_values(|it: TwitterItem| item_view(it))
                                    + its_snap.map_values(|it: TwitterItem| item_view(it)));
                            }
                        },
                        Err(e) => {
                            return Err(e);
                        },
                    }
                },
                _ => {},
            }
            proof {
                assert(fresh@.map_values(|it: TwitterItem| item_view(it)) =~= page_item_views(
                    es.take(i + 1 as int),
                ));
            }
            i = i + 1;
        }
        proof {
            assert(es.take(n as int) =~= es);
        }
        let ghost pre_cache = self.cache@;
        self.cache.append(&mut fresh);
        proof {
            assert(self.cache@.map_values(|it: TwitterItem| item_view(it)) =~= pre_cache
                .map_values(|it: TwitterItem| item_view(it)) + page_item_views(es));
        }
        let repeated = match &self.cursor {
            Some(c) => str_eq(c.as_str(), nc.as_str()),
            None => false,
        };
        if repeated {
            self.exhausted = true;
            Ok(false)
        } else {
            self.cursor = Some(nc.clone());
            Ok(true)
        }
    }
}

/// The GraphQL variables of one likes-page request, keys in this
/// library's fixed order; the cursor is null before the first page.
pub open spec fn spec_tweet_variables(
    user_id: Seq<char>,
    cursor: Option<Seq<char>>,
    page_size: int,
) -> Seq<char> {
    "{\"userId\":\""@ + spec_json_escape(user_id) + "\",\"count\":"@ + spec_int_dec(page_size)
        + ",\"cursor\":"@ + (match cursor {
        None => "null"@,
        Some(c) => "\""@ + spec_json_escape(c) + "\""@,
    })
        + ",\"includePromotedContent\":false,\"withSuperFollowsUserFields\":false,\"withDownvotePerspective\":false,\"withReactionsMetadata\":false,\"withReactionsPerspective\":false,\"withSuperFollowsTweetFields\":false,\"withClientEventToken\":false,\"withBirdwatchNotes\":false,\"withVoice\":false,\"withV2Timeline\":false}"@
}

/// Frame the GraphQL variables of one likes-page request.
pub fn tweet_variables(user_id: &str, cursor: &Option<String>, page_size: i32) -> (r: String)
    ensures
        r@ == spec_tweet_variables(user_id@, match cursor {
            Some(c) => Some(c@),
            None => None,
        }, page_size as int),
{
    let mut s = String::new();
    s.append("{\"userId\":\"");
    let uid = json_escape(user_id);
    s.append(uid.as_str());
    s.append("\",\"count\":");
    let ps = i32_to_dec(page_size);
    s.append(ps.as_str());
    s.append(",\"cursor\":");
    match cursor {
        None => {
            s.append("null");
        },
        Some(c) => {
            s.append("\"");
            let ce = json_escape(c.as_str());
            s.append(ce.as_str());
            s.append("\"");
        },
    }
    s.append(
        ",\"includePromotedContent\":false,\"withSuperFollowsUserFields\":false,\"withDownvotePerspective\":false,\"withReactionsMetadata\":false,\"withReactionsPerspective\":false,\"withSuperFollowsTweetFields\":false,\"withClientEventToken\":false,\"withBirdwatchNotes\":false,\"withVoice\":false,\"withV2Timeline\":false}",
    );
    proof {
        assert(s@ =~= spec_tweet_variables(user_id@, match cursor {
            Some(c) => Some(c@),
            None => None,
        }, page_size as int));
    }
    s
}

/// The GraphQL variables of the user-id lookup.
pub open spec fn spec_user_variables(screen_name: Seq<char>) -> Seq<char> {
    "{\"screen_name\":\""@ + spec_json_escape(screen_name)
        + "\",\"withSafetyModeUserFields\":true}"@
}

/// Frame the GraphQL variables of the user-id lookup.
pub fn user_variables(screen_name: &str) -> (r: String)
    ensures
        r@ == spec_user_variables(screen_name@),
{
    let mut s = String::new();
    s.append("{\"screen_name\":\"");
    let sn = json_escape(screen_name);
    s.append(sn.as_str());
    s.append("\",\"withSafetyModeUserFields\":true}");
    proof {
        assert(s@ =~= spec_user_variables(screen_name@));
    }
    s
}

/// The GraphQL feature flags sent with the user-id lookup.
pub open spec fn spec_user_features() -> Seq<char> {
    "{\"hidden_profile_subscriptions_enabled\":true,\"rweb_tipjar_consumption_enabled\":true,\"responsive_web_graphql_exclude_directive_enabled\":true,\"verified_phone_label_enabled\":false,\"subscriptions_verification_info_is_identity_verified_enabled\":true,\"subscriptions_verification_info_verified_since_enabled\":true,\"highlights_tweets_tab_ui_enabled\":true,\"responsive_web_twitter_article_notes_tab_enabled\":true,\"subscriptions_feature_can_gift_premium\":true,\"creator_subscriptions_tweet_preview_api_enabled\":true,\"responsive_web_graphql_skip_user_profile_image_extensions_enabled\":false,\"responsive_web_graphql_timeline_navigation_enabled\":true}"@
}

/// The GraphQL feature flags sent with the user-id lookup.
pub fn user_features() -> (r: &'static str)
    ensures
        r@ == spec_user_features(),
{
    "{\"hidden_profile_subscriptions_enabled\":true,\"rweb_tipjar_consumption_enabled\":true,\"responsive_web_graphql_exclude_directive_enabled\":true,\"verified_phone_label_enabled\":false,\"subscriptions_verification_info_is_identity_verified_enabled\":true,\"subscriptions_verification_info_verified_since_enabled\":true,\"highlights_tweets_tab_ui_enabled\":true,\"responsive_web_twitter_article_notes_tab_enabled\":true,\"subscriptions_feature_can_gift_premium\":true,\"creator_subscriptions_tweet_preview_api_enabled\":true,\"responsive_web_graphql_skip_user_profile_image_extensions_enabled\":false,\"responsive_web_graphql_timeline_navigation_enabled\":true}"
}

/// The GraphQL feature flags sent with every likes-page request.
pub open spec fn spec_tweet_features() -> Seq<char> {
    "{\"responsive_web_twitter_blue_verified_badge_is_enabled\":true,\"verified_phone_label_enabled\":false,\"responsive_web_graphql_timeline_navigation_enabled\":true,\"view_counts_public_visibility_enabled\":true,\"view_counts_everywhere_api_enabled\":true,\"longform_notetweets_consumption_enabled\":false,\"tweetypie_unmention_optimization_enabled\":true,\"responsive_web_uc_gql_enabled\":true,\"vibe_api_enabled\":true,\"responsive_web_edit_tweet_api_enabled\":true,\"graphql_is_translatable_rweb_tweet_is_translatable_enabled\":true,\"standardized_nudges_misinfo\":true,\"tweet_with_visibility_results_prefer_gql_limited_actions_policy_enabled\":false,\"interactive_text_enabled\":true,\"responsive_web_text_conversations_enabled\":false,\"responsive_web_enhance_cards_enabled\":false}"@
}

/// The GraphQL feature flags sent with every likes-page request.
pub fn tweet_features() -> (r: &'static str)
    ensures
        r@ == spec_tweet_features(),
{
    "{\"responsive_web_twitter_blue_verified_badge_is_enabled\":true,\"verified_phone_label_enabled\":false,\"responsive_web_graphql_timeline_navigation_enabled\":true,\"view_counts_public_visibility_enabled\":true,\"view_counts_everywhere_api_enabled\":true,\"longform_notetweets_consumption_enabled\":false,\"tweetypie_unmention_optimization_enabled\":true,\"responsive_web_uc_gql_enabled\":true,\"vibe_api_enabled\":true,\"responsive_web_edit_tweet_api_enabled\":true,\"graphql_is_translatable_rweb_tweet_is_translatable_enabled\":true,\"standardized_nudges_misinfo\":true,\"tweet_with_visibility_results_prefer_gql_limited_actions_policy_enabled\":false,\"interactive_text_enabled\":true,\"responsive_web_text_conversations_enabled\":false,\"responsive_web_enhance_cards_enabled\":false}"
}

/// The URL of the user-id lookup.
pub fn user_endpoint() -> (r: &'static str)
    ensures
        r@ == "https://x.com/i/api/graphql/Yka-W8dz7RaEuQNkroPkYw/UserByScreenName"@,
{
    "https://x.com/i/api/graphql/Yka-W8dz7RaEuQNkroPkYw/UserByScreenName"
}

/// The URL of the likes page fetch.
pub fn likes_endpoint() -> (r: &'static str)
    ensures
        r@ == "https://api.twitter.com/graphql/QK8AVO3RpcnbLPKXLAiVog/Likes"@,
{
    "https://api.twitter.com/graphql/QK8AVO3RpcnbLPKXLAiVog/Likes"
}

impl TwitterAdapter {
    /// The query of the user-id lookup for this account.
    pub fn user_query(&self) -> (r: Vec<(String, String)>)
        ensures
            r.deep_view() =~~= seq![
                ("variables"@, spec_user_variables(self.username@)),
                ("features"@, spec_user_features()),
                ("fieldToggles"@, "{\"withAuxiliaryUserLabels\":false}"@),
            ],
    {
        let mut q: Vec<(String, String)> = Vec::new();
        q.push(("variables".to_owned(), user_variables(self.username.as_str())));
        q.push(("features".to_owned(), user_features().to_owned()));
        q.push(("fieldToggles".to_owned(), "{\"withAuxiliaryUserLabels\":false}".to_owned()));
        proof {
            assert(q.deep_view() =~~= seq![
                ("variables"@, spec_user_variables(self.username@)),
                ("features"@, spec_user_features()),
                ("fieldToggles"@, "{\"withAuxiliaryUserLabels\":false}"@),
            ]);
        }
        q
    }

    /// The query of one likes-page request: the variables for the resolved
    /// user id, the current cursor and the page size, and the feature
    /// flags.
    pub fn likes_query(&self) -> (r: Vec<(String, String)>)
        requires
            self.userid is Some,
        ensures
            ({
                let uid = (match self.userid {
                    Some(u) => u@,
                    None => Seq::empty(),
                });
                let cur = (match self.cursor {
                    Some(c) => Some(c@),
                    None => None,
                });
                r.deep_view() == seq![
                    ("variables"@, spec_tweet_variables(uid, cur, self.page_size as int)),
                    ("features"@, spec_tweet_features()),
                ]
            }),
    {
        let uid = match &self.userid {
            Some(u) => u.clone(),
            None => String::new(),
        };
        let mut q: Vec<(String, String)> = Vec::new();
        q.push(("variables".to_owned(), tweet_variables(uid.as_str(), &self.cursor, self.page_size)));
        q.push(("features".to_owned(), tweet_features().to_owned()));
        proof {
            assert(q.deep_view() =~~= seq![
                ("variables"@, spec_tweet_variables((match self.userid {
                    Some(u) => u@,
                    None => Seq::<char>::empty(),
                }), (match self.cursor {
                    Some(c) => Some(c@),
                    None => None,
                }), self.page_size as int)),
                ("features"@, spec_tweet_features()),
            ]);
        }
        q
    }

    /// The headers that authenticate every API request of this account.
    pub fn auth_headers(&self) -> (r: Vec<(String, String)>)
        ensures
            r.deep_view() =~~= seq![
                ("Authorization"@, self.authorization@),
                ("X-Csrf-Token"@, self.csrf_token@),
                ("Cookie"@, self.cookies@),
            ],
    {
        let mut v: Vec<(String, String)> = Vec::new();
        v.push(("Authorization".to_owned(), self.authorization.clone()));
        v.push(("X-Csrf-Token".to_owned(), self.csrf_token.clone()));
        v.push(("Cookie".to_owned(), self.cookies.clone()));
        proof {
            assert(v.deep_view() =~~= seq![
                ("Authorization"@, self.authorization@),
                ("X-Csrf-Token"@, self.csrf_token@),
                ("Cookie"@, self.cookies@),
            ]);
        }
        v
    }
}

} // verus!
