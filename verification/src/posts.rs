use vstd::prelude::*;
use crate::ids::Id;

verus! {

/// The kind of a media attachment. Unrecognized wire values are a decode
/// failure in the adapter, never a silent default.
#[derive(PartialEq, Eq, Structural, Clone, Copy, Debug)]
pub enum AttachmentType {
    Unknown,
    Image,
    Gifv,
    Video,
    Audio,
}

/// One media attachment of a post.
#[derive(Clone, Debug)]
pub struct MediaAttachment {
    pub id: Id,
    pub type_: AttachmentType,
    pub url: String,
}

/// The account a post was authored by. Addresses are carried verbatim.
#[derive(Clone, Debug)]
pub struct Account {
    pub id: Id,
    pub username: String,
    pub display_name: String,
    pub url: String,
    pub avatar: String,
}

/// One item of a source feed. `content` may hold markup that is stripped
/// before display; `created_at` passes through verbatim.
#[derive(Clone, Debug)]
pub struct Post {
    pub id: Id,
    pub url: String,
    pub created_at: String,
    pub sensitive: bool,
    pub content: String,
    pub media_attachments: Vec<MediaAttachment>,
    pub account: Account,
}

/// A post is eligible for notification exactly when its first media
/// attachment exists and is an image. A post with no attachments, or with a
/// non-image first attachment, is skipped even if a later attachment is an
/// image: that is the accepted behavior, not an accident.
pub open spec fn eligible(p: Post) -> bool {
    p.media_attachments@.len() > 0 && p.media_attachments@[0].type_ == AttachmentType::Image
}

/// [`eligible`] as a first-class predicate, for use with sequence filtering.
pub open spec fn eligible_pred() -> spec_fn(Post) -> bool {
    |p: Post| eligible(p)
}

/// Runtime test of [`eligible`].
pub fn is_eligible(p: &Post) -> (r: bool)
    ensures
        r == eligible(*p),
{
    if p.media_attachments.len() > 0 {
        matches!(p.media_attachments[0].type_, AttachmentType::Image)
    } else {
        false
    }
}

/// From a newest-first feed, keep the eligible posts and put them in
/// oldest-first (chronological) order.
pub fn eligible_oldest_first(posts: Vec<Post>) -> (r: Vec<Post>)
    ensures
        r@ == posts@.reverse().filter(eligible_pred()),
{
    let ghost orig = posts@;
    let mut rest = posts;
    let mut r: Vec<Post> = Vec::new();
    proof {
        assert(orig.subrange(0, orig.len() as int) =~= orig);
        assert(orig.subrange(orig.len() as int, orig.len() as int).reverse()
            =~= Seq::<Post>::empty());
        assert(Seq::<Post>::empty().filter(eligible_pred()) == Seq::<Post>::empty()) by {
            reveal(Seq::filter);
        }
    }
    while rest.len() > 0
        invariant
            rest@.len() <= orig.len(),
            rest@ == orig.subrange(0, rest@.len() as int),
            r@ == orig.subrange(rest@.len() as int, orig.len() as int).reverse().filter(
                eligible_pred(),
            ),
        decreases rest.len(),
    {
        let ghost m = rest@.len() as int;
        let p = rest.pop().unwrap();
        proof {
            let pred = eligible_pred();
            assert(p == orig.subrange(0, m)[m - 1]);
            assert(p == orig[m - 1]);
            assert(rest@ =~= orig.subrange(0, m - 1));
            let done_old = orig.subrange(m, orig.len() as int);
            let done_new = orig.subrange(m - 1, orig.len() as int);
            assert(done_new.reverse() =~= done_old.reverse().push(p));
            assert(done_new.reverse().filter(pred) == if pred(p) {
                done_old.reverse().filter(pred).push(p)
            } else {
                done_old.reverse().filter(pred)
            }) by {
                reveal(Seq::filter);
                assert(done_new.reverse() =~= done_old.reverse().push(p));
                assert(done_new.reverse().drop_last() =~= done_old.reverse());
                assert(done_new.reverse().last() == p);
            }
        }
        if is_eligible(&p) {
            r.push(p);
        }
    }
    proof {
        assert(orig.subrange(0, orig.len() as int) =~= orig);
    }
    r
}

} // verus!
