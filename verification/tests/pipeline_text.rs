use likedl::pipeline::plan_downloads;
use likedl::pipeline::write_attempts;
use likedl::pipeline::DedupIndex;
use likedl::pipeline::ProgressCounter;
use likedl::simp_h1::HttpError;
use likedl::text::bytes_eq;
use likedl::text::i32_to_dec;
use likedl::text::last_index_of;
use likedl::text::lower_bytes;
use likedl::text::parse_dec;
use likedl::text::replace_all;
use likedl::text::split_all;
use likedl::text::str_eq;
use likedl::text::u64_to_dec;

fn names(list: &[&str]) -> Vec<String> {
    list.iter().map(|s| s.to_string()).collect()
}

#[test]
fn present_files_are_not_refetched() {
    let index = DedupIndex::new(names(&["a 1 1.jpg", "b 2 1.png"]));
    let discovered = names(&["a 1 1.jpg", "c 3 1.jpg", "b 2 1.png", "d 4 1.mp4"]);
    let plan = plan_downloads(&discovered, &index);
    assert_eq!(plan, names(&["c 3 1.jpg", "d 4 1.mp4"]));
}

#[test]
fn empty_index_plans_everything_in_order() {
    let index = DedupIndex::new(Vec::new());
    let discovered = names(&["x", "y", "z"]);
    assert_eq!(plan_downloads(&discovered, &index), discovered);
}

#[test]
fn index_membership() {
    let index = DedupIndex::new(names(&["a", "b"]));
    assert!(index.contains("a"));
    assert!(index.contains("b"));
    assert!(!index.contains("c"));
}

#[test]
fn write_retry_is_bounded() {
    assert_eq!(write_attempts(&vec![false, false, true], 5), Some(2));
    assert_eq!(write_attempts(&vec![false, false, true], 2), None);
    assert_eq!(write_attempts(&vec![true], 1), Some(0));
    assert_eq!(write_attempts(&Vec::new(), 3), None);
}

#[test]
fn progress_counts_both_events() {
    let mut p = ProgressCounter::new();
    p.discover();
    p.discover();
    assert!(!p.all_done());
    p.complete();
    p.complete();
    assert!(p.all_done());
    assert_eq!(p.discovered, 2);
    assert_eq!(p.completed, 2);
}

#[test]
fn decimal_parsing_is_strict() {
    assert_eq!(parse_dec(b"123"), Some(123));
    assert_eq!(parse_dec(b"0"), Some(0));
    assert_eq!(parse_dec(b""), None);
    assert_eq!(parse_dec(b"12a"), None);
    assert_eq!(parse_dec(b" 5"), None);
    assert_eq!(parse_dec(b"99999999999999999999999999"), None);
}

#[test]
fn decimal_printing_round_trips() {
    assert_eq!(u64_to_dec(0), "0");
    assert_eq!(u64_to_dec(1234567890), "1234567890");
    assert_eq!(u64_to_dec(u64::MAX), "18446744073709551615");
    assert_eq!(i32_to_dec(-5), "-5");
    assert_eq!(i32_to_dec(i32::MIN), "-2147483648");
    assert_eq!(i32_to_dec(7), "7");
}

#[test]
fn lowercasing_touches_only_ascii_letters() {
    assert_eq!(lower_bytes(b"Content-Length: 5!"), b"content-length: 5!".to_vec());
}

#[test]
fn replace_all_matches_std() {
    for (s, pat, rep) in [
        ("aaa", "aa", "b"),
        ("u@jpegv@jpeg", "@jpeg", "@png"),
        ("none here", "@jpeg", "@png"),
        ("xyx", "x", "yy"),
    ] {
        assert_eq!(replace_all(s, pat, rep), s.replace(pat, rep));
    }
}

#[test]
fn splitting_keeps_empty_pieces() {
    let parts = split_all(b"a\r\nb\r\n", b"\r\n");
    assert_eq!(parts, vec![b"a".to_vec(), b"b".to_vec(), b"".to_vec()]);
    let one = split_all(b"abc", b"\r\n");
    assert_eq!(one, vec![b"abc".to_vec()]);
}

#[test]
fn small_text_helpers() {
    assert!(str_eq("abc", "abc"));
    assert!(!str_eq("abc", "abd"));
    assert!(bytes_eq(b"xy", b"xy"));
    assert!(!bytes_eq(b"xy", b"xz"));
    assert_eq!(last_index_of("a/b/c", '/'), Some(3));
    assert_eq!(last_index_of("abc", '/'), None);
}

#[test]
fn http_errors_describe_themselves() {
    let e = HttpError::GeneralError("boom".to_owned());
    assert_eq!(e.message(), "boom");
    let io = HttpError::IOError("broken pipe".to_owned());
    assert_eq!(io.message(), "broken pipe");
}
