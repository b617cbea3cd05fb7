use mastorelay::chunk::chunk_vec;
use mastorelay::config::{Config, ConfigError, Link as ConfigLink};
use mastorelay::ids::Id;
use mastorelay::key::derive_key;
use mastorelay::link::Link;
use mastorelay::posts::{
    eligible_oldest_first, is_eligible, Account, AttachmentType, MediaAttachment, Post,
};
use mastorelay::sched::{Scheduler, SchedulerStep};
use mastorelay::store::{load_cursor, parse_u64_chars, render_cursor, trim_chars};
use mastorelay::text::strip_tags;

fn account(name: &str) -> Account {
    Account {
        id: Id(1),
        username: String::from(name),
        display_name: format!("{} display", name),
        url: format!("https://example.social/@{}", name),
        avatar: format!("https://example.social/{}.png", name),
    }
}

fn post(id: u64, kinds: &[AttachmentType], content: &str) -> Post {
    Post {
        id: Id(id),
        url: format!("https://example.social/p/{}", id),
        created_at: format!("2024-01-0{}T00:00:00Z", id % 9 + 1),
        sensitive: false,
        content: String::from(content),
        media_attachments: kinds
            .iter()
            .enumerate()
            .map(|(i, k)| MediaAttachment {
                id: Id(id * 100 + i as u64),
                type_: *k,
                url: format!("https://files.example/{}-{}.png", id, i),
            })
            .collect(),
        account: account("alice"),
    }
}

#[test]
fn strip_tags_example() {
    assert_eq!(strip_tags("<b>Hello</b> World <i>!</i>"), "Hello World !");
}

#[test]
fn strip_tags_plain_text_unchanged() {
    assert_eq!(strip_tags("no markup here"), "no markup here");
}

#[test]
fn strip_tags_unclosed_tag_kept() {
    assert_eq!(strip_tags("a<b"), "a<b");
}

#[test]
fn strip_tags_newline_blocks_tag() {
    assert_eq!(strip_tags("<a\nb>c"), "<a\nb>c");
}

#[test]
fn strip_tags_shortest_span() {
    assert_eq!(strip_tags("<<b>x"), "x");
    assert_eq!(strip_tags("<p>a</p><p>b</p>"), "ab");
}

#[test]
fn strip_tags_empty() {
    assert_eq!(strip_tags(""), "");
}

#[test]
fn chunks_cover_all_in_order() {
    let groups = chunk_vec(vec![1, 2, 3, 4, 5], 2);
    assert_eq!(groups, vec![vec![1, 2], vec![3, 4], vec![5]]);
}

#[test]
fn chunks_exact_fit() {
    let groups = chunk_vec(vec![1, 2, 3, 4], 2);
    assert_eq!(groups, vec![vec![1, 2], vec![3, 4]]);
}

#[test]
fn chunks_count_is_ceiling() {
    for chunk_size in 1..=10usize {
        for n in 0..=25usize {
            let items: Vec<usize> = (0..n).collect();
            let groups = chunk_vec(items, chunk_size);
            assert_eq!(groups.len(), n.div_ceil(chunk_size));
            let flat: Vec<usize> = groups.iter().flatten().copied().collect();
            let expect: Vec<usize> = (0..n).collect();
            assert_eq!(flat, expect);
            for g in &groups {
                assert!(!g.is_empty() && g.len() <= chunk_size);
            }
        }
    }
}

#[test]
fn eligibility_first_attachment_decides() {
    assert!(is_eligible(&post(1, &[AttachmentType::Image], "x")));
    assert!(!is_eligible(&post(2, &[], "x")));
    assert!(!is_eligible(&post(
        3,
        &[AttachmentType::Video, AttachmentType::Image],
        "x"
    )));
    assert!(is_eligible(&post(
        4,
        &[AttachmentType::Image, AttachmentType::Video],
        "x"
    )));
    assert!(!is_eligible(&post(5, &[AttachmentType::Gifv], "x")));
    assert!(!is_eligible(&post(6, &[AttachmentType::Audio], "x")));
    assert!(!is_eligible(&post(7, &[AttachmentType::Unknown], "x")));
}

#[test]
fn filter_keeps_order_oldest_first() {
    let feed = vec![
        post(12, &[AttachmentType::Image], "newest"),
        post(11, &[], "no media"),
        post(10, &[AttachmentType::Video, AttachmentType::Image], "video first"),
        post(9, &[AttachmentType::Image], "oldest"),
    ];
    let kept = eligible_oldest_first(feed);
    let ids: Vec<u64> = kept.iter().map(|p| p.id.0).collect();
    assert_eq!(ids, vec![9, 12]);
}

#[test]
fn cursor_record_absent_means_zero() {
    assert_eq!(load_cursor(None), Some(Id(0)));
}

#[test]
fn cursor_record_parses_with_whitespace() {
    assert_eq!(load_cursor(Some(" 42\n")), Some(Id(42)));
    assert_eq!(load_cursor(Some("7")), Some(Id(7)));
    assert_eq!(load_cursor(Some("007")), Some(Id(7)));
}

#[test]
fn cursor_record_rejects_garbage() {
    assert_eq!(load_cursor(Some("")), None);
    assert_eq!(load_cursor(Some("  \n")), None);
    assert_eq!(load_cursor(Some("12a")), None);
    assert_eq!(load_cursor(Some("1 2")), None);
    assert_eq!(load_cursor(Some("-3")), None);
}

#[test]
fn cursor_record_overflow_rejected() {
    assert_eq!(
        load_cursor(Some("18446744073709551615")),
        Some(Id(u64::MAX))
    );
    assert_eq!(load_cursor(Some("18446744073709551616")), None);
}

#[test]
fn cursor_render_round_trip() {
    assert_eq!(render_cursor(Id(0)), "0");
    assert_eq!(render_cursor(Id(12)), "12");
    assert_eq!(render_cursor(Id(u64::MAX)), "18446744073709551615");
    for n in [0u64, 1, 9, 10, 99, 100, 12345678901234567890] {
        let text = render_cursor(Id(n));
        assert_eq!(load_cursor(Some(&text)), Some(Id(n)));
    }
}

#[test]
fn trim_and_parse_chars() {
    let trimmed = trim_chars("  12 \t".chars().collect());
    let s: String = trimmed.iter().collect();
    assert_eq!(s, "12");
    assert_eq!(parse_u64_chars(&"12".chars().collect()), Some(12));
    assert_eq!(parse_u64_chars(&"".chars().collect()), None);
}

#[test]
fn storage_key_stable_and_sensitive() {
    let a = derive_key("https://mastodon.example", "alice", "https://hooks.example/1");
    let b = derive_key("https://mastodon.example", "alice", "https://hooks.example/1");
    assert_eq!(a, b);
    assert_ne!(
        a,
        derive_key("https://other.example", "alice", "https://hooks.example/1")
    );
    assert_ne!(
        a,
        derive_key("https://mastodon.example", "bob", "https://hooks.example/1")
    );
    assert_ne!(
        a,
        derive_key("https://mastodon.example", "alice", "https://hooks.example/2")
    );
}

#[test]
fn config_validation_bounds() {
    let mut config = Config {
        interval: 5,
        chunk_size: 2,
        links: vec![ConfigLink {
            mastodon_server_url: String::from("https://mastodon.example"),
            mastodon_user: String::from("alice"),
            webhook_url: String::from("https://hooks.example/1"),
        }],
    };
    assert!(config.validate().is_ok());
    config.chunk_size = 0;
    assert_eq!(config.validate(), Err(ConfigError::ChunkSizeOutOfRange));
    config.chunk_size = 10;
    assert!(config.validate().is_ok());
    config.chunk_size = 11;
    assert_eq!(config.validate(), Err(ConfigError::ChunkSizeOutOfRange));
}

#[test]
fn scheduler_round_robin() {
    let mut sched = Scheduler::new(2, 5);
    assert_eq!(sched.interval, 5);
    assert_eq!(sched.next_step(), SchedulerStep::RunLink(0));
    assert_eq!(sched.next_step(), SchedulerStep::RunLink(1));
    assert_eq!(sched.next_step(), SchedulerStep::Sleep);
    assert_eq!(sched.next_step(), SchedulerStep::RunLink(0));
}

#[test]
fn scheduler_no_links_only_sleeps() {
    let mut sched = Scheduler::new(0, 1);
    assert_eq!(sched.next_step(), SchedulerStep::Sleep);
    assert_eq!(sched.next_step(), SchedulerStep::Sleep);
}

#[test]
fn bad_cursor_record_fails_link_setup() {
    let r = Link::new(
        String::from("https://mastodon.example"),
        Id(1),
        String::from("https://hooks.example/1"),
        7,
        Some("not a number"),
    );
    assert!(r.is_err());
}

#[test]
fn id_ordering_helpers() {
    assert_eq!(Id::zero(), Id(0));
    assert_eq!(Id(3).max(Id(5)), Id(5));
    assert_eq!(Id(5).max(Id(3)), Id(5));
    assert_eq!(Id(4).max(Id(4)), Id(4));
}
