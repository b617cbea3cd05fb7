use vstd::prelude::*;
use vstd::string::StringExecFns;
use crate::posts::Post;
use crate::text::{strip_markup, strip_tags};

verus! {

/// The fixed accent color of every notification embed.
pub const EMBED_COLOR: u32 = 0x595aff;

/// The image block of an embed.
#[derive(Debug)]
pub struct EmbedImage {
    pub url: String,
}

/// The author block of an embed.
#[derive(Debug)]
pub struct EmbedAuthor {
    pub name: String,
    pub url: String,
    pub icon_url: String,
}

/// One rich embed of a notification batch.
#[derive(Debug)]
pub struct Embed {
    pub title: String,
    pub image: EmbedImage,
    pub url: String,
    pub author: EmbedAuthor,
    pub color: u32,
    pub timestamp: String,
}

/// A notification batch: an ordered list of embeds under a fixed bot
/// display name and avatar.
#[derive(Debug)]
pub struct WebhookPayload {
    pub username: String,
    pub avatar_url: String,
    pub embeds: Vec<Embed>,
}

/// An embed presents one post: tag-stripped content as the title, the
/// timestamp verbatim, the first attachment as the image, the post's own
/// address as the link, the author block copied through, and the fixed
/// accent color.
pub open spec fn embed_matches(e: Embed, p: Post) -> bool {
    &&& e.title@ == strip_markup(p.content@)
    &&& e.timestamp@ == p.created_at@
    &&& p.media_attachments@.len() > 0 && e.image.url@ == p.media_attachments@[0].url@
    &&& e.url@ == p.url@
    &&& e.author.name@ == p.account.display_name@
    &&& e.author.url@ == p.account.url@
    &&& e.author.icon_url@ == p.account.avatar@
    &&& e.color == EMBED_COLOR
}

/// A payload presents a group of posts: one embed per post, in order,
/// under the fixed bot identity.
pub open spec fn payload_matches(w: WebhookPayload, posts: Seq<Post>) -> bool {
    &&& w.username@ == "Mastodon"@
    &&& w.avatar_url@
        == "https://raw.githubusercontent.com/mastodon/joinmastodon/c6fcdf841804349a95f7271c4e0f743974854ff2/public/app-icon.png"@
    &&& w.embeds@.len() == posts.len()
    &&& forall|i: int| 0 <= i < posts.len() ==> embed_matches(#[trigger] w.embeds@[i], posts[i])
}

/// The fixed display name notifications are sent under.
pub fn bot_username() -> (r: String)
    ensures
        r@ == "Mastodon"@,
{
    String::from_str("Mastodon")
}

/// The fixed avatar notifications are sent under.
pub fn bot_avatar_url() -> (r: String)
    ensures
        r@
            == "https://raw.githubusercontent.com/mastodon/joinmastodon/c6fcdf841804349a95f7271c4e0f743974854ff2/public/app-icon.png"@,
{
    String::from_str(
        "https://raw.githubusercontent.com/mastodon/joinmastodon/c6fcdf841804349a95f7271c4e0f743974854ff2/public/app-icon.png",
    )
}

/// Build the embed that presents one post.
pub fn make_embed(p: Post) -> (e: Embed)
    requires
        p.media_attachments@.len() > 0,
    ensures
        embed_matches(e, p),
{
    let Post { id: _, url, created_at, sensitive: _, content, media_attachments, account } = p;
    let crate::posts::Account { id: _, username: _, display_name, url: author_url, avatar } =
        account;
    let title = strip_tags(content.as_str());
    let mut attachments = media_attachments;
    let first = attachments.remove(0);
    Embed {
        title,
        image: EmbedImage { url: first.url },
        url,
        author: EmbedAuthor { name: display_name, url: author_url, icon_url: avatar },
        color: EMBED_COLOR,
        timestamp: created_at,
    }
}

} // verus!
