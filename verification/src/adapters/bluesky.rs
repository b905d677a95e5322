//! The Bluesky-like adapter: a REST "likes" API paged by a cursor query
//! parameter, whose posts expand into downloadable image items.

use vstd::prelude::*;
use vstd::string::StringExecFns;

use crate::adapters::json_escape;
use crate::adapters::spec_json_escape;
use crate::adapters::ApiError;
use crate::text::dec_str;
use crate::text::i32_to_dec;
use crate::text::last_idx;
use crate::text::last_index_of;
use crate::text::lemma_last_idx_props;
use crate::text::replace_all;
use crate::text::spec_int_dec;
use crate::text::spec_replace;
use crate::text::suffix_from;
use crate::text::u64_to_dec;

verus! {

/// One downloadable image derived from a liked post.
pub struct BlueSkyItem {
    pub url: String,
    pub media_url: String,
    pub filename: String,
}

impl BlueSkyItem {
    /// The target filename.
    pub fn filename(&self) -> (r: &str)
        ensures
            r@ == self.filename@,
    {
        self.filename.as_str()
    }

    /// The post permalink.
    pub fn url(&self) -> (r: &str)
        ensures
            r@ == self.url@,
    {
        self.url.as_str()
    }

    /// The URL of the image itself.
    pub fn media_url(&self) -> (r: &str)
        ensures
            r@ == self.media_url@,
    {
        self.media_url.as_str()
    }

    /// This platform does not mark the last item of a post.
    pub fn is_last(&self) -> (r: Option<bool>)
        ensures
            r is None,
    {
        None
    }
}

/// The post id: the segment of the post's URI after its last slash, or
/// the whole URI without one.
pub open spec fn spec_post_id(uri: Seq<char>) -> Seq<char> {
    match last_idx(uri, '/') {
        Some(i) => uri.skip(i + 1),
        None => uri,
    }
}

/// Extract the post id from the post's URI.
pub fn post_id(uri: &str) -> (r: String)
    ensures
        r@ == spec_post_id(uri@),
{
    let ulen = vstd::string::StrSliceExecFns::unicode_len(uri);
    proof {
        assert(ulen == uri@.len());
        lemma_last_idx_props(uri@, '/');
    }
    match last_index_of(uri, '/') {
        Some(i) => suffix_from(uri, i + 1),
        None => uri.to_owned(),
    }
}

/// The permalink of a post.
pub open spec fn spec_post_url(author: Seq<char>, id: Seq<char>) -> Seq<char> {
    "https://bsky.app/profile/"@ + author + "/post/"@ + id
}

/// The filename an image resolves to: "author id index.png".
pub open spec fn spec_image_filename(author: Seq<char>, id: Seq<char>, index: int) -> Seq<char> {
    author + " "@ + id + " "@ + dec_str(index as nat) + ".png"@
}

/// The image URL to fetch: the full-size URL, asking for PNG in place of
/// JPEG wherever the URL names the format.
pub open spec fn spec_image_url(fullsize: Seq<char>) -> Seq<char> {
    spec_replace(fullsize, "@jpeg"@, "@png"@)
}

/// Build the permalink of a post.
pub fn build_post_url(author: &str, id: &str) -> (r: String)
    ensures
        r@ == spec_post_url(author@, id@),
{
    let mut s = String::new();
    s.append("https://bsky.app/profile/");
    s.append(author);
    s.append("/post/");
    s.append(id);
    proof {
        assert(s@ =~= spec_post_url(author@, id@));
    }
    s
}

/// Build the filename "author id index.png".
pub fn build_image_filename(author: &str, id: &str, index: usize) -> (r: String)
    ensures
        r@ == spec_image_filename(author@, id@, index as int),
{
    let mut s = author.to_owned();
    s.append(" ");
    s.append(id);
    s.append(" ");
    let ixd = u64_to_dec(index as u64);
    s.append(ixd.as_str());
    s.append(".png");
    proof {
        assert(s@ =~= spec_image_filename(author@, id@, index as int));
    }
    s
}

/// What a post embeds: nothing, a list of full-size image URLs, or a
/// shape this library does not recognize (a response-contract violation).
pub enum BlueskyEmbed {
    Absent,
    Images(Vec<String>),
    Malformed,
}

/// One liked post: its author's handle, its URI, and what it embeds.
pub struct BlueskyPost {
    pub author: String,
    pub uri: String,
    pub embed: BlueskyEmbed,
}

/// Whether the post's embed has a recognized shape.
pub open spec fn post_ok(p: BlueskyPost) -> bool {
    !(p.embed is Malformed)
}

/// What an item holds, as plain values.
pub open spec fn item_view(it: BlueSkyItem) -> (Seq<char>, Seq<char>, Seq<char>) {
    (it.url@, it.media_url@, it.filename@)
}

/// The items a post expands to, image index starting at one.
pub open spec fn post_item_views(p: BlueskyPost) -> Seq<(Seq<char>, Seq<char>, Seq<char>)> {
    match p.embed {
        BlueskyEmbed::Images(imgs) => Seq::new(
            imgs@.len(),
            |i: int|
                (
                    spec_post_url(p.author@, spec_post_id(p.uri@)),
                    spec_image_url(imgs@[i]@),
                    spec_image_filename(p.author@, spec_post_id(p.uri@), i + 1),
                ),
        ),
        _ => Seq::empty(),
    }
}

/// Expand one post into its items. Succeeds exactly when the embed has a
/// recognized shape; a post without an embed yields nothing.
pub fn expand_post(p: &BlueskyPost) -> (r: Result<Vec<BlueSkyItem>, ApiError>)
    ensures
        (r is Ok) == post_ok(*p),
        r matches Ok(items) ==> items@.map_values(|it: BlueSkyItem| item_view(it))
            == post_item_views(*p),
{
    let imgs = match &p.embed {
        BlueskyEmbed::Absent => {
            let items: Vec<BlueSkyItem> = Vec::new();
            proof {
                assert(items@.map_values(|it: BlueSkyItem| item_view(it)) =~= post_item_views(
                    *p,
                ));
            }
            return Ok(items);
        },
        BlueskyEmbed::Malformed => {
            return Err(
                ApiError::MalformedResponse("embedded images are not a list".to_owned()),
            );
        },
        BlueskyEmbed::Images(imgs) => imgs,
    };
    let id = post_id(p.uri.as_str());
    let n = imgs.len();
    let mut items: Vec<BlueSkyItem> = Vec::new();
    let mut i: usize = 0;
    proof {
        reveal_strlit("@jpeg");
    }
    #[verifier::loop_isolation(false)]
    while i < n
        invariant
            i <= n,
            items@.len() == i,
            forall|j: int|
                0 <= j < i ==> item_view(#[trigger] items@[j]) == post_item_views(*p)[j],
        decreases n - i,
    {
        let item = BlueSkyItem {
            url: build_post_url(p.author.as_str(), id.as_str()),
            media_url: replace_all(imgs[i].as_str(), "@jpeg", "@png"),
            filename: build_image_filename(p.author.as_str(), id.as_str(), i + 1),
        };
        items.push(item);
        i = i + 1;
    }
    proof {
        assert(items@.map_values(|it: BlueSkyItem| item_view(it)) =~= post_item_views(*p));
    }
    Ok(items)
}

/// The items of a whole page of posts, post by post in order.
pub open spec fn page_item_views(ps: Seq<BlueskyPost>) -> Seq<(Seq<char>, Seq<char>, Seq<char>)>
    decreases ps.len(),
{
    if ps.len() == 0 {
        Seq::empty()
    } else {
        page_item_views(ps.drop_last()) + post_item_views(ps.last())
    }
}

/// Whether every post of the page expands.
pub open spec fn page_ok(ps: Seq<BlueskyPost>) -> bool {
    forall|i: int| 0 <= i < ps.len() ==> post_ok(#[trigger] ps[i])
}

/// The platform session: the access token, the resolved user id, and the
/// API service endpoint. Created once on first use and fixed thereafter.
pub struct Auth {
    pub token: String,
    pub did: String,
    pub endpoint: String,
}

/// The Bluesky-like adapter: one configured account's credentials, its
/// memoized session, the pagination cursor, the per-page item buffer, and
/// the account's settings.
pub struct BlueSkyAdapter {
    pub account: String,
    pub pass: String,
    pub auth: Option<Auth>,
    pub cache: Vec<BlueSkyItem>,
    pub cursor: Option<String>,
    pub page_size: i32,
    pub concurrency: usize,
    pub path: String,
}

impl BlueSkyAdapter {
    /// A fresh adapter for one account: no session yet, no cursor, an
    /// empty buffer, and the platform defaults where the configuration
    /// stays silent (page size 50, concurrency 50).
    pub fn new(
        account: String,
        pass: String,
        page_size: Option<i32>,
        concurrency: Option<usize>,
        path: String,
    ) -> (r: BlueSkyAdapter)
        ensures
            r.account == account,
            r.pass == pass,
            r.auth is None,
            r.cache@.len() == 0,
            r.cursor is None,
            r.page_size == (match page_size {
                Some(p) => p,
                None => 50,
            }),
            r.concurrency == (match concurrency {
                Some(c) => c,
                None => 50,
            }),
            r.path == path,
    {
        BlueSkyAdapter {
            account,
            pass,
            auth: None,
            cache: Vec::new(),
            cursor: None,
            page_size: match page_size {
                Some(p) => p,
                None => 50,
            },
            concurrency: match concurrency {
                Some(c) => c,
                None => 50,
            },
            path,
        }
    }

    /// The platform tag.
    pub fn platform(&self) -> (r: &'static str)
        ensures
            r@ == "bluesky"@,
    {
        "bluesky"
    }

    /// The display identity of the account.
    pub fn name(&self) -> (r: &str)
        ensures
            r@ == self.account@,
    {
        self.account.as_str()
    }

    /// The output directory of the account.
    pub fn path(&self) -> (r: &str)
        ensures
            r@ == self.path@,
    {
        self.path.as_str()
    }

    /// This platform offers no total item count for progress display.
    pub fn count(&self) -> (r: Option<u64>)
        ensures
            r is None,
    {
        None
    }

    /// Whether the first call still has to create the session.
    pub fn needs_auth(&self) -> (r: bool)
        ensures
            r == (self.auth is None),
    {
        match &self.auth {
            None => true,
            Some(_) => false,
        }
    }

    /// Fix the created session, once.
    pub fn set_auth(&mut self, auth: Auth)
        requires
            old(self).auth is None,
        ensures
            final(self).auth == Some(auth),
            *final(self) == (BlueSkyAdapter { auth: final(self).auth, ..*old(self) }),
    {
        self.auth = Some(auth);
    }

    /// Hand out the first buffered item, if any.
    pub fn pop_cached(&mut self) -> (r: Option<BlueSkyItem>)
        ensures
            old(self).cache@.len() > 0 ==> r == Some(old(self).cache@[0]) && final(self).cache@
                == old(self).cache@.skip(1),
            old(self).cache@.len() == 0 ==> r is None && final(self).cache@ == old(
                self,
            ).cache@,
            *final(self) == (BlueSkyAdapter { cache: final(self).cache, ..*old(self) }),
    {
        if self.cache.len() == 0 {
            None
        } else {
            Some(self.cache.remove(0))
        }
    }

    /// Take one fetched page in. An empty page queues nothing and does
    /// not move the stored cursor (the caller retries with the returned
    /// cursor up to `EMPTY_PAGE_RETRIES` times); a page of posts expands
    /// into the buffer and fixes the returned cursor as the new position.
    /// A post that violates the response contract is a fatal error and
    /// leaves the adapter as it was.
    pub fn feed_page(&mut self, cursor: &str, posts: &Vec<BlueskyPost>) -> (r: Result<
        bool,
        ApiError,
    >)
        ensures
            ({
                let ps = posts@;
                if ps.len() == 0 {
                    r == Ok::<bool, ApiError>(false) && *final(self) == *old(self)
                } else if !page_ok(ps) {
                    (r is Err) && *final(self) == *old(self)
                } else {
                    r == Ok::<bool, ApiError>(true) && final(self).cache@.map_values(
                        |it: BlueSkyItem| item_view(it),
                    ) == old(self).cache@.map_values(|it: BlueSkyItem| item_view(it))
                        + page_item_views(ps) && (final(self).cursor matches Some(c) && c@
                        == cursor@) && (*final(self) == (BlueSkyAdapter {
                        cache: final(self).cache,
                        cursor: final(self).cursor,
                        ..*old(self)
                    }))
                }
            }),
    {
        let n = posts.len();
        if n == 0 {
            return Ok(false);
        }
        let ghost ps = posts@;
        let mut fresh: Vec<BlueSkyItem> = Vec::new();
        let mut i: usize = 0;
        #[verifier::loop_isolation(false)]
        while i < n
            invariant
                i <= n,
                forall|j: int| 0 <= j < i ==> post_ok(#[trigger] ps[j]),
                fresh@.map_values(|it: BlueSkyItem| item_view(it)) == page_item_views(
                    ps.take(i as int),
                ),
            decreases n - i,
        {
            proof {
                assert(ps.take(i + 1 as int).drop_last() =~= ps.take(i as int));
                assert(ps.take(i + 1 as int).last() == ps[i as int]);
            }
            let ghost pre = fresh@;
            match expand_post(&posts[i]) {
                Ok(mut its) => {
                    let ghost its_snap = its@;
                    fresh.append(&mut its);
                    proof {
                        assert(fresh@.map_values(|it: BlueSkyItem| item_view(it)) =~= pre
                            .map_values(|it: BlueSkyItem| item_view(it)) + its_snap.map_values(
                            |it: BlueSkyItem| item_view(it),
                        ));
                    }
                },
                Err(e) => {
                    return Err(e);
                },
            }
            proof {
                assert(fresh@.map_values(|it: BlueSkyItem| item_view(it)) =~= page_item_views(
                    ps.take(i + 1 as int),
                ));
            }
            i = i + 1;
        }
        proof {
            assert(ps.take(n as int) =~= ps);
        }
        let ghost pre_cache = self.cache@;
        self.cache.append(&mut fresh);
        proof {
            assert(self.cache@.map_values(|it: BlueSkyItem| item_view(it)) =~= pre_cache
                .map_values(|it: BlueSkyItem| item_view(it)) + page_item_views(ps));
        }
        self.cursor = Some(cursor.to_owned());
        Ok(true)
    }

    /// The body of the session-creation request.
    pub fn session_body(&self) -> (r: String)
        ensures
            r@ == spec_session_body(self.account@, self.pass@),
    {
        let mut s = String::new();
        s.append("{\"identifier\":\"");
        let acc = json_escape(self.account.as_str());
        s.append(acc.as_str());
        s.append("\",\"password\":\"");
        let pw = json_escape(self.pass.as_str());
        s.append(pw.as_str());
        s.append("\"}");
        proof {
            assert(s@ =~= spec_session_body(self.account@, self.pass@));
        }
        s
    }

    /// The query of one likes-page request: the actor, the page size, and
    /// the cursor to continue from, once there is one.
    pub fn likes_query(&self, cursor: &Option<String>) -> (r: Vec<(String, String)>)
        requires
            self.auth is Some,
        ensures
            ({
                let did = (match self.auth {
                    Some(a) => a.did@,
                    None => Seq::empty(),
                });
                r.deep_view() == seq![("actor"@, did), ("limit"@, spec_int_dec(
                    self.page_size as int,
                ))] + (match cursor {
                    Some(c) => seq![("cursor"@, c@)],
                    None => Seq::<(Seq<char>, Seq<char>)>::empty(),
                })
            }),
    {
        let mut q: Vec<(String, String)> = Vec::new();
        let did = match &self.auth {
            Some(a) => a.did.clone(),
            None => String::new(),
        };
        q.push(("actor".to_owned(), did));
        q.push(("limit".to_owned(), i32_to_dec(self.page_size)));
        match cursor {
            Some(c) => {
                q.push(("cursor".to_owned(), c.clone()));
                proof {
                    assert(q.deep_view() =~~= seq![
                        ("actor"@, (match self.auth {
                            Some(a) => a.did@,
                            None => Seq::<char>::empty(),
                        })),
                        ("limit"@, spec_int_dec(self.page_size as int)),
                        ("cursor"@, c@),
                    ]);
                }
            },
            None => {
                proof {
                    assert(q.deep_view() =~~= seq![
                        ("actor"@, (match self.auth {
                            Some(a) => a.did@,
                            None => Seq::<char>::empty(),
                        })),
                        ("limit"@, spec_int_dec(self.page_size as int)),
                    ]);
                }
            },
        }
        q
    }

    /// The URL of the likes endpoint under the session's service endpoint.
    pub fn likes_url(&self) -> (r: String)
        requires
            self.auth is Some,
        ensures
            ({
                let ep = (match self.auth {
                    Some(a) => a.endpoint@,
                    None => Seq::empty(),
                });
                r@ == ep + "/xrpc/app.bsky.feed.getActorLikes"@
            }),
    {
        let mut s = match &self.auth {
            Some(a) => a.endpoint.clone(),
            None => String::new(),
        };
        s.append("/xrpc/app.bsky.feed.getActorLikes");
        s
    }

    /// The value of the authorization header: the bearer token.
    pub fn auth_header_value(&self) -> (r: String)
        requires
            self.auth is Some,
        ensures
            ({
                let tok = (match self.auth {
                    Some(a) => a.token@,
                    None => Seq::empty(),
                });
                r@ == "Bearer "@ + tok
            }),
    {
        let mut s = String::new();
        s.append("Bearer ");
        match &self.auth {
            Some(a) => {
                s.append(a.token.as_str());
            },
            None => {},
        }
        s
    }
}

/// The body of the session-creation request: the account identifier and
/// its password, as JSON.
pub open spec fn spec_session_body(account: Seq<char>, pass: Seq<char>) -> Seq<char> {
    "{\"identifier\":\""@ + spec_json_escape(account) + "\",\"password\":\""@ + spec_json_escape(
        pass,
    ) + "\"}"@
}

/// The URL where a session is created.
pub fn session_url() -> (r: &'static str)
    ensures
        r@ == "https://bsky.social/xrpc/com.atproto.server.createSession"@,
{
    "https://bsky.social/xrpc/com.atproto.server.createSession"
}

} // verus!
