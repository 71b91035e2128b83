use the_rust_programming_language::basics::{
    ch06_03_matches, ch09_01_unrecoverable_errors_with_panic,
    ch16_04_extensible_concurrency_sync_and_send, ch18_02_refutability,
};
use the_rust_programming_language::blog::{ch17_03_oo_design_patterns, Post};
use the_rust_programming_language::iterators::ch13_04_performance;
use the_rust_programming_language::restaurant::{clarinet, clarinet_trio};

#[test]
fn post_shows_text_only_when_published() {
    let mut post = Post::new();
    post.add_text("I ate a salad for lunch today");
    assert_eq!("", post.content());
    post.request_review();
    assert_eq!("", post.content());
    post.reject();
    assert_eq!("", post.content());
    post.request_review();
    assert_eq!("", post.content());
    post.approve();
    assert_eq!("", post.content());
    post.approve();
    assert_eq!("I ate a salad for lunch today", post.content());
}

#[test]
fn approving_a_draft_changes_nothing() {
    let mut post = Post::new();
    post.add_text("text");
    post.approve();
    post.approve();
    assert_eq!("", post.content());
}

#[test]
fn walkthroughs_run() {
    ch17_03_oo_design_patterns();
    ch06_03_matches();
    ch09_01_unrecoverable_errors_with_panic();
    ch16_04_extensible_concurrency_sync_and_send();
    ch18_02_refutability();
    clarinet();
    clarinet_trio();
}

#[test]
fn prediction_adds_the_weighted_sum() {
    let mut buffer = [1i32; 13];
    buffer[12] = 5;
    ch13_04_performance(&mut buffer, [1i64; 12], 0);
    assert_eq!(buffer[12], 17);

    let mut buffer = [1i32; 13];
    buffer[12] = 5;
    ch13_04_performance(&mut buffer, [1i64; 12], 2);
    assert_eq!(buffer[12], 8);
}

#[test]
fn prediction_uses_values_already_replaced() {
    let mut buffer = [1i32; 14];
    buffer[12] = 0;
    buffer[13] = 0;
    ch13_04_performance(&mut buffer, [1i64; 12], 0);
    assert_eq!(buffer[12], 12);
    assert_eq!(buffer[13], 23);
}

#[test]
fn prediction_leaves_short_buffers_alone() {
    let mut buffer = [3i32; 12];
    ch13_04_performance(&mut buffer, [1i64; 12], 0);
    assert_eq!(buffer, [3i32; 12]);
}

use the_rust_programming_language::guessing::{
    draw_secret, judge, parse_u32, respond, trim, Reply, Verdict,
};

#[test]
fn secret_is_between_one_and_a_hundred() {
    for _ in 0..200 {
        let s = draw_secret();
        assert!((1..=100).contains(&s));
    }
}

#[test]
fn guesses_are_judged() {
    assert_eq!(judge(3, 50), Verdict::TooSmall);
    assert_eq!(judge(70, 50), Verdict::TooBig);
    assert_eq!(judge(50, 50), Verdict::Win);
    assert_eq!(Verdict::TooBig.message(), "To big!");
}

#[test]
fn replies_read_the_trimmed_line() {
    assert_eq!(respond(42, "42\n"), Reply::Judged(Verdict::Win));
    assert_eq!(respond(42, "  +7 \r\n"), Reply::Judged(Verdict::TooSmall));
    assert_eq!(respond(42, "\u{3000}100\t"), Reply::Judged(Verdict::TooBig));
    assert_eq!(respond(42, "forty-two\n"), Reply::AskAgain);
    assert_eq!(respond(42, "\n"), Reply::AskAgain);
    assert_eq!(respond(42, "-3\n"), Reply::AskAgain);
    assert_eq!(respond(42, "4 2\n"), Reply::AskAgain);
}

#[test]
fn parsing_follows_u32_from_str() {
    let p = |s: &str| parse_u32(&s.chars().collect());
    assert_eq!(p("0"), Some(0));
    assert_eq!(p("007"), Some(7));
    assert_eq!(p("+15"), Some(15));
    assert_eq!(p("+"), None);
    assert_eq!(p(""), None);
    assert_eq!(p("4294967295"), Some(u32::MAX));
    assert_eq!(p("4294967296"), None);
    assert_eq!(p("99999999999x"), None);
    for s in ["12", "+3", "abc", "4294967296", "1 "] {
        assert_eq!(p(s), s.parse::<u32>().ok());
    }
}

#[test]
fn trim_drops_outer_white_space() {
    assert_eq!(trim(" \t a b \n"), vec!['a', ' ', 'b']);
    assert_eq!(trim("   "), Vec::<char>::new());
}
