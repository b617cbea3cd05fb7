use mastorelay::ids::Id;
use mastorelay::link::Link;
use mastorelay::posts::{Account, AttachmentType, MediaAttachment, Post};
use mastorelay::store::render_cursor;

fn image_post(id: u64, content: &str) -> Post {
    Post {
        id: Id(id),
        url: format!("https://example.social/p/{}", id),
        created_at: format!("2024-02-01T00:00:{:02}Z", id % 60),
        sensitive: false,
        content: String::from(content),
        media_attachments: vec![MediaAttachment {
            id: Id(id * 100),
            type_: AttachmentType::Image,
            url: format!("https://files.example/{}.png", id),
        }],
        account: Account {
            id: Id(1),
            username: String::from("alice"),
            display_name: String::from("Alice"),
            url: String::from("https://example.social/@alice"),
            avatar: String::from("https://example.social/alice.png"),
        },
    }
}

fn fresh_link() -> Link {
    Link::new(
        String::from("https://mastodon.example"),
        Id(1),
        String::from("https://hooks.example/1"),
        7,
        None,
    )
    .unwrap()
}

#[test]
fn first_cycle_delivers_in_two_groups_and_ends_at_twelve() {
    let mut link = fresh_link();
    assert_eq!(link.last_id, Id(0));

    let params = link.fetch_params();
    assert_eq!(params.min_id, Id(0));
    assert_eq!(params.limit, 20);
    assert!(params.exclude_reblogs);

    // The source hands back three new image posts, newest first.
    let feed = vec![image_post(12, "c"), image_post(11, "b"), image_post(10, "a")];
    let mut runner = link.start_cycle(feed, 2);

    let first = runner.next_group().unwrap();
    assert_eq!(first.username, "Mastodon");
    let urls: Vec<&str> = first.embeds.iter().map(|e| e.url.as_str()).collect();
    assert_eq!(
        urls,
        vec!["https://example.social/p/10", "https://example.social/p/11"]
    );
    assert_eq!(runner.cursor_value(), Id(11));

    let second = runner.next_group().unwrap();
    let urls: Vec<&str> = second.embeds.iter().map(|e| e.url.as_str()).collect();
    assert_eq!(urls, vec!["https://example.social/p/12"]);
    assert_eq!(runner.cursor_value(), Id(12));

    assert!(runner.next_group().is_none());

    link.commit_cycle(&runner);
    assert_eq!(link.last_id, Id(12));
    assert_eq!(render_cursor(link.last_id), "12");
}

#[test]
fn failed_delivery_of_second_group_still_persists_twelve() {
    let mut link = fresh_link();
    let feed = vec![image_post(12, "c"), image_post(11, "b"), image_post(10, "a")];
    let mut runner = link.start_cycle(feed, 2);

    let first = runner.next_group().unwrap();
    assert_eq!(first.embeds.len(), 2);
    // First group delivered; the second group's payload is taken, the cursor
    // moves past it, and then its delivery fails: the cycle stops here.
    let second = runner.next_group().unwrap();
    assert_eq!(second.embeds.len(), 1);

    link.commit_cycle(&runner);
    assert_eq!(link.last_id, Id(12));
    assert_eq!(render_cursor(link.last_id), "12");
}

#[test]
fn cursor_never_decreases_on_stale_feed() {
    let mut link = Link::new(
        String::from("https://mastodon.example"),
        Id(1),
        String::from("https://hooks.example/1"),
        7,
        Some("50"),
    )
    .unwrap();
    assert_eq!(link.last_id, Id(50));

    // Out-of-order identifiers below the cursor never move it backwards.
    let feed = vec![image_post(30, "x"), image_post(40, "y")];
    let mut runner = link.start_cycle(feed, 10);
    let group = runner.next_group().unwrap();
    assert_eq!(group.embeds.len(), 2);
    assert_eq!(runner.cursor_value(), Id(50));
    assert!(runner.next_group().is_none());
    link.commit_cycle(&runner);
    assert_eq!(link.last_id, Id(50));
}

#[test]
fn out_of_order_feed_cursor_is_running_max() {
    let mut link = fresh_link();
    let feed = vec![image_post(7, "n"), image_post(9, "m"), image_post(8, "o")];
    let mut runner = link.start_cycle(feed, 1);
    // Oldest-first order is the reversed feed: 8, 9, 7.
    let g1 = runner.next_group().unwrap();
    assert_eq!(g1.embeds[0].url, "https://example.social/p/8");
    assert_eq!(runner.cursor_value(), Id(8));
    let g2 = runner.next_group().unwrap();
    assert_eq!(g2.embeds[0].url, "https://example.social/p/9");
    assert_eq!(runner.cursor_value(), Id(9));
    let g3 = runner.next_group().unwrap();
    assert_eq!(g3.embeds[0].url, "https://example.social/p/7");
    assert_eq!(runner.cursor_value(), Id(9));
    assert!(runner.next_group().is_none());
    link.commit_cycle(&runner);
    assert_eq!(link.last_id, Id(9));
}

#[test]
fn embed_fields_present_one_post() {
    let mut link = fresh_link();
    let feed = vec![image_post(5, "<p>Hi <b>there</b></p>")];
    let mut runner = link.start_cycle(feed, 2);
    let payload = runner.next_group().unwrap();
    assert_eq!(
        payload.avatar_url,
        "https://raw.githubusercontent.com/mastodon/joinmastodon/c6fcdf841804349a95f7271c4e0f743974854ff2/public/app-icon.png"
    );
    assert_eq!(payload.embeds.len(), 1);
    let e = &payload.embeds[0];
    assert_eq!(e.title, "Hi there");
    assert_eq!(e.timestamp, "2024-02-01T00:00:05Z");
    assert_eq!(e.image.url, "https://files.example/5.png");
    assert_eq!(e.url, "https://example.social/p/5");
    assert_eq!(e.author.name, "Alice");
    assert_eq!(e.author.url, "https://example.social/@alice");
    assert_eq!(e.author.icon_url, "https://example.social/alice.png");
    assert_eq!(e.color, 0x595aff);
}

#[test]
fn ineligible_posts_never_delivered() {
    let mut link = fresh_link();
    let feed = vec![
        image_post(4, "keep"),
        Post {
            media_attachments: vec![],
            ..image_post(3, "no media")
        },
        Post {
            media_attachments: vec![
                MediaAttachment {
                    id: Id(200),
                    type_: AttachmentType::Video,
                    url: String::from("https://files.example/v.mp4"),
                },
                MediaAttachment {
                    id: Id(201),
                    type_: AttachmentType::Image,
                    url: String::from("https://files.example/i.png"),
                },
            ],
            ..image_post(2, "video first")
        },
    ];
    let mut runner = link.start_cycle(feed, 10);
    let payload = runner.next_group().unwrap();
    let urls: Vec<&str> = payload.embeds.iter().map(|e| e.url.as_str()).collect();
    assert_eq!(urls, vec!["https://example.social/p/4"]);
    assert!(runner.next_group().is_none());
    // The skipped posts still advance the cursor only through delivered ones.
    assert_eq!(runner.cursor_value(), Id(4));
}

#[test]
fn empty_feed_delivers_nothing() {
    let mut link = fresh_link();
    let mut runner = link.start_cycle(vec![], 2);
    assert!(runner.next_group().is_none());
    link.commit_cycle(&runner);
    assert_eq!(link.last_id, Id(0));
}
