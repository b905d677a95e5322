use likedl::adapters::bluesky::BlueSkyAdapter;
use likedl::adapters::bluesky::BlueskyEmbed;
use likedl::adapters::bluesky::BlueskyPost;
use likedl::adapters::bluesky::expand_post;
use likedl::adapters::bluesky::post_id;
use likedl::adapters::bluesky::Auth;
use likedl::adapters::json_escape;
use likedl::adapters::platform_of_tag;
use likedl::adapters::retry_action;
use likedl::adapters::run_retries;
use likedl::adapters::ApiError;
use likedl::adapters::FetchOutcome;
use likedl::adapters::Platform;
use likedl::adapters::RetryAction;
use likedl::adapters::twitter::build_filename;
use likedl::adapters::twitter::expand_tweet;
use likedl::adapters::twitter::extension_of;
use likedl::adapters::twitter::tweet_variables;
use likedl::adapters::twitter::user_variables;
use likedl::adapters::twitter::Tweet;
use likedl::adapters::twitter::TwitterAdapter;
use likedl::adapters::twitter::TwitterEntry;
use likedl::adapters::twitter::TwitterMedia;
use likedl::adapters::twitter::TwitterPage;

fn photo_tweet(author: &str, id: u64, source: &str) -> Tweet {
    Tweet {
        screen_name: author.to_owned(),
        snowflake: id,
        media: Some(vec![TwitterMedia::Photo { media_url_https: source.to_owned() }]),
    }
}

#[test]
fn photo_asks_for_original_quality() {
    let t = photo_tweet("alice", 123, "https://pbs.twimg.com/media/abc.jpg");
    let items = expand_tweet(&t).unwrap();
    assert_eq!(items.len(), 1);
    assert_eq!(items[0].media_url, "https://pbs.twimg.com/media/abc.jpg?name=orig");
    assert_eq!(items[0].filename, "alice 123 1.jpg");
    assert_eq!(items[0].url, "http://x.com/alice/status/123/photo/1");
    assert!(items[0].is_last);
}

#[test]
fn video_takes_last_variant_as_mp4() {
    let t = Tweet {
        screen_name: "alice".to_owned(),
        snowflake: 9,
        media: Some(vec![TwitterMedia::Video {
            variant_urls: vec![
                "https://v/low".to_owned(),
                "https://v/mid".to_owned(),
                "https://v/high".to_owned(),
            ],
        }]),
    };
    let items = expand_tweet(&t).unwrap();
    assert_eq!(items[0].media_url, "https://v/high");
    assert_eq!(items[0].filename, "alice 9 1.mp4");
}

#[test]
fn animated_gif_is_fixed_to_mp4() {
    let t = Tweet {
        screen_name: "bob".to_owned(),
        snowflake: 7,
        media: Some(vec![TwitterMedia::AnimatedGif {
            variant_urls: vec!["https://v/only".to_owned()],
        }]),
    };
    let items = expand_tweet(&t).unwrap();
    assert_eq!(items[0].media_url, "https://v/only");
    assert_eq!(items[0].filename, "bob 7 1.mp4");
}

#[test]
fn unknown_media_type_is_fatal() {
    let t = Tweet {
        screen_name: "alice".to_owned(),
        snowflake: 5,
        media: Some(vec![TwitterMedia::Unknown { media_type: "sticker".to_owned() }]),
    };
    match expand_tweet(&t) {
        Err(ApiError::UnknownMediaType(s)) => assert_eq!(s, "sticker"),
        _ => panic!("unknown media type not fatal"),
    }
}

#[test]
fn photo_without_extension_is_fatal() {
    let t = photo_tweet("alice", 5, "https://pbs.twimg.com/media/abc");
    assert!(matches!(expand_tweet(&t), Err(ApiError::MalformedResponse(_))));
}

#[test]
fn tweet_without_media_yields_nothing() {
    let t = Tweet { screen_name: "a".to_owned(), snowflake: 1, media: None };
    assert_eq!(expand_tweet(&t).unwrap().len(), 0);
}

#[test]
fn expansion_is_deterministic() {
    let t = photo_tweet("alice", 123, "https://pbs.twimg.com/media/abc.jpg");
    let once = expand_tweet(&t).unwrap();
    let twice = expand_tweet(&t).unwrap();
    assert_eq!(once[0].filename, twice[0].filename);
    assert_eq!(build_filename("bob", 42, 3, "png"), "bob 42 3.png");
    assert_eq!(build_filename("bob", 42, 3, "png"), build_filename("bob", 42, 3, "png"));
}

#[test]
fn last_media_item_is_marked() {
    let t = Tweet {
        screen_name: "a".to_owned(),
        snowflake: 2,
        media: Some(vec![
            TwitterMedia::Photo { media_url_https: "https://m/x.jpg".to_owned() },
            TwitterMedia::Photo { media_url_https: "https://m/y.png".to_owned() },
        ]),
    };
    let items = expand_tweet(&t).unwrap();
    assert_eq!(items.len(), 2);
    assert!(!items[0].is_last);
    assert!(items[1].is_last);
    assert_eq!(items[0].filename, "a 2 1.jpg");
    assert_eq!(items[1].filename, "a 2 2.png");
}

#[test]
fn extension_follows_final_segment() {
    assert_eq!(extension_of("https://a/b.jpg").as_deref(), Some("jpg"));
    assert_eq!(extension_of("https://a/b"), None);
    assert_eq!(extension_of("a/.hidden"), None);
    assert_eq!(extension_of("x.y/z"), None);
    assert_eq!(extension_of("foo.tar.gz").as_deref(), Some("gz"));
}

#[test]
fn rate_limits_delay_then_succeed() {
    let outcomes = vec![
        FetchOutcome::RateLimited,
        FetchOutcome::RateLimited,
        FetchOutcome::RateLimited,
        FetchOutcome::Success,
    ];
    let run = run_retries(&outcomes).unwrap();
    assert_eq!(run.attempts, 3);
    assert_eq!(run.delays, 3);
}

#[test]
fn other_failures_retry_without_delay() {
    let outcomes = vec![FetchOutcome::Failed, FetchOutcome::RateLimited, FetchOutcome::Success];
    let run = run_retries(&outcomes).unwrap();
    assert_eq!(run.attempts, 2);
    assert_eq!(run.delays, 1);
}

#[test]
fn no_success_never_returns() {
    let outcomes = vec![FetchOutcome::Failed, FetchOutcome::RateLimited];
    assert!(run_retries(&outcomes).is_none());
}

#[test]
fn retry_policy_classifies_attempts() {
    assert!(matches!(retry_action(&FetchOutcome::Success), RetryAction::Accept));
    assert!(matches!(retry_action(&FetchOutcome::RateLimited), RetryAction::DelayRetry));
    assert!(matches!(retry_action(&FetchOutcome::Failed), RetryAction::ImmediateRetry));
}

fn twitter_account() -> TwitterAdapter {
    TwitterAdapter::new(
        "alice".to_owned(),
        "Bearer t".to_owned(),
        "csrf".to_owned(),
        "cookie".to_owned(),
        Some(2),
        None,
        "out".to_owned(),
    )
}

fn cursor_page(tweets: Vec<Tweet>, cursor: &str) -> TwitterPage {
    let mut entries: Vec<TwitterEntry> = tweets.into_iter().map(TwitterEntry::Tweet).collect();
    entries.push(TwitterEntry::Deleted);
    entries.push(TwitterEntry::Cursor(cursor.to_owned()));
    TwitterPage { entries }
}

#[test]
fn three_likes_across_two_pages_then_termination() {
    let mut ad = twitter_account();
    assert_eq!(ad.page_size, 2);
    assert!(ad.needs_auth());
    ad.set_userid("1001".to_owned());
    assert!(!ad.needs_auth());

    let page1 = cursor_page(
        vec![
            photo_tweet("alice", 1, "https://m/a.jpg"),
            photo_tweet("alice", 2, "https://m/b.jpg"),
        ],
        "cur-1",
    );
    assert_eq!(ad.feed_page(&page1).unwrap(), true);
    let mut got = Vec::new();
    while let Some(item) = ad.pop_cached() {
        got.push(item.filename);
    }

    let page2 = cursor_page(vec![photo_tweet("alice", 3, "https://m/c.jpg")], "cur-2");
    assert_eq!(ad.feed_page(&page2).unwrap(), true);
    while let Some(item) = ad.pop_cached() {
        got.push(item.filename);
    }

    let page3 = cursor_page(Vec::new(), "cur-2");
    assert_eq!(ad.feed_page(&page3).unwrap(), false);
    assert!(ad.exhausted);

    assert_eq!(got.len(), 3);
    assert_eq!(got[0], "alice 1 1.jpg");
    assert_eq!(got[1], "alice 2 1.jpg");
    assert_eq!(got[2], "alice 3 1.jpg");
    assert!(got[0] != got[1] && got[1] != got[2] && got[0] != got[2]);
}

#[test]
fn repeated_cursor_ends_pagination() {
    let mut ad = twitter_account();
    let page = cursor_page(Vec::new(), "same");
    assert_eq!(ad.feed_page(&page).unwrap(), true);
    assert!(!ad.exhausted);
    let again = cursor_page(Vec::new(), "same");
    assert_eq!(ad.feed_page(&again).unwrap(), false);
    assert!(ad.exhausted);
}

#[test]
fn page_without_cursor_entry_is_fatal() {
    let mut ad = twitter_account();
    let page = TwitterPage {
        entries: vec![TwitterEntry::Tweet(photo_tweet("a", 1, "https://m/a.jpg"))],
    };
    assert!(matches!(ad.feed_page(&page), Err(ApiError::MalformedResponse(_))));
    let empty = TwitterPage { entries: Vec::new() };
    assert!(matches!(ad.feed_page(&empty), Err(ApiError::MalformedResponse(_))));
}

#[test]
fn tweet_variables_frame_the_request() {
    assert_eq!(
        tweet_variables("42", &None, 100),
        "{\"userId\":\"42\",\"count\":100,\"cursor\":null,\
         \"includePromotedContent\":false,\"withSuperFollowsUserFields\":false,\
         \"withDownvotePerspective\":false,\"withReactionsMetadata\":false,\
         \"withReactionsPerspective\":false,\"withSuperFollowsTweetFields\":false,\
         \"withClientEventToken\":false,\"withBirdwatchNotes\":false,\
         \"withVoice\":false,\"withV2Timeline\":false}"
    );
    assert_eq!(
        tweet_variables("7", &Some("cu\"r".to_owned()), -3),
        "{\"userId\":\"7\",\"count\":-3,\"cursor\":\"cu\\\"r\",\
         \"includePromotedContent\":false,\"withSuperFollowsUserFields\":false,\
         \"withDownvotePerspective\":false,\"withReactionsMetadata\":false,\
         \"withReactionsPerspective\":false,\"withSuperFollowsTweetFields\":false,\
         \"withClientEventToken\":false,\"withBirdwatchNotes\":false,\
         \"withVoice\":false,\"withV2Timeline\":false}"
    );
}

#[test]
fn user_variables_frame_the_lookup() {
    assert_eq!(
        user_variables("alice"),
        "{\"screen_name\":\"alice\",\"withSafetyModeUserFields\":true}"
    );
}

#[test]
fn json_escape_quotes_and_backslashes() {
    assert_eq!(json_escape("a\"b\\c"), "a\\\"b\\\\c");
    assert_eq!(json_escape("plain"), "plain");
}

#[test]
fn json_escape_control_characters() {
    assert_eq!(json_escape("a\nb\tc"), "a\\nb\\tc");
    assert_eq!(json_escape("x\ry"), "x\\ry");
    assert_eq!(json_escape("\u{0008}\u{000c}"), "\\b\\f");
    assert_eq!(json_escape("\u{0001}\u{001f}"), "\\u0001\\u001f");
}

#[test]
fn auth_headers_carry_the_credentials() {
    let ad = twitter_account();
    let hs = ad.auth_headers();
    assert_eq!(hs[0], ("Authorization".to_owned(), "Bearer t".to_owned()));
    assert_eq!(hs[1], ("X-Csrf-Token".to_owned(), "csrf".to_owned()));
    assert_eq!(hs[2], ("Cookie".to_owned(), "cookie".to_owned()));
}

#[test]
fn platform_tags_name_their_adapters() {
    assert!(matches!(platform_of_tag("twitter"), Some(Platform::Twitter)));
    assert!(matches!(platform_of_tag("x"), Some(Platform::Twitter)));
    assert!(matches!(platform_of_tag("bluesky"), Some(Platform::Bluesky)));
    assert!(matches!(platform_of_tag("bsky"), Some(Platform::Bluesky)));
    assert!(platform_of_tag("mastodon").is_none());
}

fn image_post(author: &str, uri: &str, images: Vec<&str>) -> BlueskyPost {
    BlueskyPost {
        author: author.to_owned(),
        uri: uri.to_owned(),
        embed: BlueskyEmbed::Images(images.into_iter().map(|s| s.to_owned()).collect()),
    }
}

#[test]
fn bluesky_post_expands_to_png_items() {
    let p = image_post(
        "bob.bsky.social",
        "at://did:plc:xyz/app.bsky.feed.post/3k2a",
        vec!["https://cdn/img@jpeg"],
    );
    let items = expand_post(&p).unwrap();
    assert_eq!(items.len(), 1);
    assert_eq!(items[0].url, "https://bsky.app/profile/bob.bsky.social/post/3k2a");
    assert_eq!(items[0].media_url, "https://cdn/img@png");
    assert_eq!(items[0].filename, "bob.bsky.social 3k2a 1.png");
}

#[test]
fn bluesky_replaces_every_format_marker() {
    let p = image_post("a", "x/1", vec!["u@jpegv@jpeg"]);
    let items = expand_post(&p).unwrap();
    assert_eq!(items[0].media_url, "u@pngv@png");
}

#[test]
fn bluesky_post_id_is_last_segment() {
    assert_eq!(post_id("at://did/app/3k2a"), "3k2a");
    assert_eq!(post_id("plain"), "plain");
}

#[test]
fn bluesky_malformed_embed_is_fatal() {
    let p = BlueskyPost {
        author: "a".to_owned(),
        uri: "x/1".to_owned(),
        embed: BlueskyEmbed::Malformed,
    };
    assert!(matches!(expand_post(&p), Err(ApiError::MalformedResponse(_))));
}

#[test]
fn bluesky_post_without_embed_yields_nothing() {
    let p = BlueskyPost {
        author: "a".to_owned(),
        uri: "x/1".to_owned(),
        embed: BlueskyEmbed::Absent,
    };
    assert_eq!(expand_post(&p).unwrap().len(), 0);
}

fn bluesky_account() -> BlueSkyAdapter {
    BlueSkyAdapter::new("bob".to_owned(), "pw".to_owned(), None, Some(4), "out".to_owned())
}

#[test]
fn bluesky_empty_page_does_not_advance() {
    let mut ad = bluesky_account();
    assert_eq!(ad.feed_page("c1", &Vec::new()).unwrap(), false);
    assert!(ad.cursor.is_none());
    assert!(ad.pop_cached().is_none());
}

#[test]
fn bluesky_page_queues_and_advances() {
    let mut ad = bluesky_account();
    let posts = vec![image_post("bob", "p/1", vec!["https://cdn/a@jpeg"])];
    assert_eq!(ad.feed_page("c9", &posts).unwrap(), true);
    assert_eq!(ad.cursor.as_deref(), Some("c9"));
    let item = ad.pop_cached().unwrap();
    assert_eq!(item.filename, "bob 1 1.png");
    assert!(ad.pop_cached().is_none());
}

#[test]
fn bluesky_session_body_is_exact() {
    let ad = BlueSkyAdapter::new("a".to_owned(), "p\"w".to_owned(), None, None, "o".to_owned());
    assert_eq!(ad.session_body(), "{\"identifier\":\"a\",\"password\":\"p\\\"w\"}");
}

#[test]
fn bluesky_requests_use_the_session() {
    let mut ad = bluesky_account();
    assert!(ad.needs_auth());
    ad.set_auth(Auth {
        token: "tok".to_owned(),
        did: "did:plc:xyz".to_owned(),
        endpoint: "https://pds.example".to_owned(),
    });
    assert!(!ad.needs_auth());
    assert_eq!(ad.auth_header_value(), "Bearer tok");
    assert_eq!(ad.likes_url(), "https://pds.example/xrpc/app.bsky.feed.getActorLikes");
    let q = ad.likes_query(&Some("c2".to_owned()));
    assert_eq!(q[0], ("actor".to_owned(), "did:plc:xyz".to_owned()));
    assert_eq!(q[1], ("limit".to_owned(), "50".to_owned()));
    assert_eq!(q[2], ("cursor".to_owned(), "c2".to_owned()));
    let q0 = ad.likes_query(&None);
    assert_eq!(q0.len(), 2);
}

#[test]
fn adapter_identities() {
    let t = twitter_account();
    assert_eq!(t.platform(), "twitter");
    assert_eq!(t.name(), "alice");
    assert_eq!(t.path(), "out");
    let b = bluesky_account();
    assert_eq!(b.platform(), "bluesky");
    assert_eq!(b.name(), "bob");
    assert_eq!(b.path(), "out");
    assert!(b.count().is_none());
    assert_eq!(b.page_size, 50);
    assert_eq!(b.concurrency, 4);
}

#[test]
fn twitter_queries_carry_variables_and_features() {
    let mut ad = twitter_account();
    let uq = ad.user_query();
    assert_eq!(uq[0].0, "variables");
    assert_eq!(uq[0].1, user_variables("alice"));
    assert_eq!(uq[1].0, "features");
    assert!(uq[1].1.starts_with("{\"hidden_profile_subscriptions_enabled\":true"));
    assert_eq!(uq[2], ("fieldToggles".to_owned(), "{\"withAuxiliaryUserLabels\":false}".to_owned()));

    ad.set_userid("1001".to_owned());
    let lq = ad.likes_query();
    assert_eq!(lq[0].0, "variables");
    assert_eq!(lq[0].1, tweet_variables("1001", &None, 2));
    assert_eq!(lq[1].0, "features");
    assert!(lq[1].1.contains("responsive_web_enhance_cards_enabled"));
}
