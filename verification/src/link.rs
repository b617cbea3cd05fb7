use vstd::prelude::*;
use crate::chunk::{
    chunks_of, chunk_vec, lemma_chunks_count, lemma_chunks_flatten, lemma_chunks_shape,
    seq_of_vecs,
};
use crate::embed::{bot_avatar_url, bot_username, make_embed, payload_matches, WebhookPayload};
use crate::ids::Id;
use crate::posts::{eligible, eligible_pred, eligible_oldest_first, Post};
use crate::store::parse_cursor_spec;

verus! {

/// A saved cursor record that cannot be read back.
#[derive(PartialEq, Eq, Structural, Clone, Copy, Debug)]
pub struct CursorError {}

/// The parameters of one fetch request: posts newer than `min_id`,
/// newest-first, at most `limit` of them, reposts excluded.
#[derive(PartialEq, Eq, Structural, Clone, Copy, Debug)]
pub struct FetchParams {
    pub min_id: Id,
    pub limit: u16,
    pub exclude_reblogs: bool,
}

/// One configured relay relationship: a source account watched for posts,
/// a destination notified of them, and the cursor of progress between the
/// two. The cursor never decreases over the link's lifetime.
#[derive(Debug)]
pub struct Link {
    pub mastodon_url: String,
    pub account_id: Id,
    pub webhook_url: String,
    pub key: u64,
    pub last_id: Id,
}

/// The cursor after absorbing the identifiers of `s`, starting from
/// `base`: the running maximum of `base` and every identifier seen.
pub open spec fn max_id_in(base: u64, s: Seq<Post>) -> u64
    decreases s.len(),
{
    if s.len() == 0 {
        base
    } else {
        max_id_in(
            if s[0].id.0 > base {
                s[0].id.0
            } else {
                base
            },
            s.drop_first(),
        )
    }
}

/// The cursor after absorbing every group in turn, starting from `base`.
pub open spec fn cursor_after(base: u64, groups: Seq<Seq<Post>>) -> u64
    decreases groups.len(),
{
    if groups.len() == 0 {
        base
    } else {
        cursor_after(max_id_in(base, groups[0]), groups.drop_first())
    }
}

/// The groups a cycle delivers: the eligible posts of a newest-first feed,
/// put in chronological order and partitioned into groups of at most `c`.
pub open spec fn cycle_groups(posts: Seq<Post>, c: int) -> Seq<Seq<Post>> {
    chunks_of(posts.reverse().filter(eligible_pred()), c)
}

/// Law: absorbing identifiers never lowers the cursor, the result is at
/// least every identifier seen, and it is either the starting value or one
/// of the identifiers seen.
pub proof fn lemma_max_id_bounds(base: u64, s: Seq<Post>)
    ensures
        max_id_in(base, s) >= base,
        forall|k: int| 0 <= k < s.len() ==> max_id_in(base, s) >= #[trigger] s[k].id.0,
        max_id_in(base, s) == base || exists|k: int|
            0 <= k < s.len() && max_id_in(base, s) == #[trigger] s[k].id.0,
    decreases s.len(),
{
    if s.len() > 0 {
        let base2 = if s[0].id.0 > base {
            s[0].id.0
        } else {
            base
        };
        lemma_max_id_bounds(base2, s.drop_first());
        assert forall|k: int| 0 <= k < s.len() implies max_id_in(base, s) >= #[trigger] s[k].id.0 by {
            if k > 0 {
                assert(s.drop_first()[k - 1] == s[k]);
            }
        }
        if max_id_in(base, s) != base {
            if max_id_in(base2, s.drop_first()) == base2 {
                assert(max_id_in(base, s) == s[0].id.0);
            } else {
                let k = choose|k: int|
                    0 <= k < s.drop_first().len() && max_id_in(base2, s.drop_first())
                        == #[trigger] s.drop_first()[k].id.0;
                assert(s.drop_first()[k] == s[k + 1]);
            }
        }
    }
}

proof fn lemma_max_id_concat(base: u64, s1: Seq<Post>, s2: Seq<Post>)
    ensures
        max_id_in(base, s1 + s2) == max_id_in(max_id_in(base, s1), s2),
    decreases s1.len(),
{
    if s1.len() == 0 {
        assert(s1 + s2 =~= s2);
    } else {
        let base2 = if s1[0].id.0 > base {
            s1[0].id.0
        } else {
            base
        };
        assert((s1 + s2).drop_first() =~= s1.drop_first() + s2);
        lemma_max_id_concat(base2, s1.drop_first(), s2);
    }
}

/// Law: running the cursor through the groups of a partition is the same
/// as running it through the concatenated posts: grouping does not change
/// what the cursor ends at.
pub proof fn lemma_cursor_after_flatten(base: u64, groups: Seq<Seq<Post>>)
    ensures
        cursor_after(base, groups) == max_id_in(base, groups.flatten()),
    decreases groups.len(),
{
    if groups.len() == 0 {
        assert(groups.flatten() =~= Seq::<Post>::empty());
    } else {
        lemma_max_id_concat(base, groups.first(), groups.drop_first().flatten());
        lemma_cursor_after_flatten(max_id_in(base, groups[0]), groups.drop_first());
        assert(groups[0] == groups.first());
    }
}

/// Law: after a cycle that delivers every group, the cursor is exactly the
/// running maximum of its starting value and the identifiers of all the
/// eligible posts, and in particular it never decreases.
pub proof fn lemma_cycle_cursor(base: u64, posts: Seq<Post>, c: int)
    requires
        c >= 1,
    ensures
        cursor_after(base, cycle_groups(posts, c)) == max_id_in(
            base,
            posts.reverse().filter(eligible_pred()),
        ),
        cursor_after(base, cycle_groups(posts, c)) >= base,
{
    let elig = posts.reverse().filter(eligible_pred());
    lemma_chunks_flatten(elig, c);
    lemma_cursor_after_flatten(base, cycle_groups(posts, c));
    lemma_max_id_bounds(base, elig);
}

/// Law: a cycle over any feed, with any group size `c` in [1, 10],
/// partitions the eligible posts — oldest first — into `ceil(N / c)`
/// groups of between 1 and `c` posts each; concatenated back together the
/// groups are exactly the eligible posts, so every one is delivered
/// exactly once, in chronological order within and across groups.
pub proof fn lemma_cycle_partition(posts: Seq<Post>, c: int)
    requires
        1 <= c <= 10,
    ensures
        cycle_groups(posts, c).len() == (posts.reverse().filter(eligible_pred()).len() + c - 1)
            / c,
        cycle_groups(posts, c).flatten() == posts.reverse().filter(eligible_pred()),
        forall|i: int|
            0 <= i < cycle_groups(posts, c).len() ==> 1 <= (#[trigger] cycle_groups(
                posts,
                c,
            )[i]).len() <= c,
{
    let elig = posts.reverse().filter(eligible_pred());
    lemma_chunks_count(elig, c);
    lemma_chunks_flatten(elig, c);
    assert forall|i: int| 0 <= i < cycle_groups(posts, c).len() implies 1 <= (
    #[trigger] cycle_groups(posts, c)[i]).len() <= c by {
        lemma_chunks_shape(elig, c, i);
    }
}

/// Law: a post with no media attachments, or whose first attachment is not
/// an image, stands in no delivered group at all — even if one of its later
/// attachments is an image.
pub proof fn lemma_ineligible_excluded(posts: Seq<Post>, c: int, p: Post)
    requires
        c >= 1,
        !eligible(p),
    ensures
        forall|i: int|
            0 <= i < cycle_groups(posts, c).len() ==> !(#[trigger] cycle_groups(
                posts,
                c,
            )[i]).contains(p),
{
    let elig = posts.reverse().filter(eligible_pred());
    let groups = cycle_groups(posts, c);
    assert forall|i: int| 0 <= i < groups.len() implies !(#[trigger] groups[i]).contains(p) by {
        lemma_chunks_shape(elig, c, i);
        if groups[i].contains(p) {
            let k = choose|k: int| 0 <= k < groups[i].len() && groups[i][k] == p;
            let lo = i * c;
            let hi = if (i + 1) * c < elig.len() {
                (i + 1) * c
            } else {
                elig.len() as int
            };
            assert(groups[i] == elig.subrange(lo, hi));
            assert((i + 1) * c == lo + c) by (nonlinear_arith)
                requires
                    lo == i * c,
            ;
            assert(0 <= lo <= hi <= elig.len());
            assert(groups[i].len() == hi - lo);
            assert(groups[i][k] == elig[lo + k]);
            posts.reverse().lemma_filter_pred(eligible_pred(), lo + k);
        }
    }
}

/// The in-flight state of one polling cycle: the groups not yet
/// dispatched, oldest first, and the cursor as advanced so far. The cursor
/// for a group moves before that group is handed out for delivery, so a
/// failed delivery still leaves the cursor past the failed group.
pub struct Runner {
    pub groups: Vec<Vec<Post>>,
    pub cursor: Id,
}

impl Runner {
    /// Every post still queued is eligible.
    pub open spec fn wf(self) -> bool {
        forall|i: int, k: int|
            0 <= i < self.groups@.len() && 0 <= k < self.groups@[i]@.len() ==> eligible(
                #[trigger] self.groups@[i]@[k],
            )
    }

    /// Begin a cycle: keep the eligible posts of a newest-first feed, put
    /// them oldest-first, and partition them into groups of at most
    /// `chunk_size`.
    pub fn new(last_id: Id, posts: Vec<Post>, chunk_size: usize) -> (r: Runner)
        requires
            1 <= chunk_size <= 10,
        ensures
            r.cursor == last_id,
            seq_of_vecs(r.groups@) == cycle_groups(posts@, chunk_size as int),
            r.wf(),
    {
        let ghost orig = posts@;
        let elig = eligible_oldest_first(posts);
        let ghost es = elig@;
        let groups = chunk_vec(elig, chunk_size);
        let r = Runner { groups, cursor: last_id };
        proof {
            let c = chunk_size as int;
            assert forall|i: int, k: int|
                0 <= i < r.groups@.len() && 0 <= k < r.groups@[i]@.len() implies eligible(
                #[trigger] r.groups@[i]@[k],
            ) by {
                assert(seq_of_vecs(r.groups@).len() == r.groups@.len());
                assert(chunks_of(es, c).len() == r.groups@.len());
                assert(seq_of_vecs(r.groups@)[i] == r.groups@[i]@);
                lemma_chunks_shape(es, c, i);
                let lo = i * c;
                let hi = if (i + 1) * c < es.len() {
                    (i + 1) * c
                } else {
                    es.len() as int
                };
                assert(r.groups@[i]@ == es.subrange(lo, hi));
                assert((i + 1) * c == lo + c) by (nonlinear_arith)
                    requires
                        lo == i * c,
                ;
                assert(0 <= lo <= hi <= es.len());
                assert(r.groups@[i]@.len() == hi - lo);
                assert(0 <= lo + k < es.len());
                assert(r.groups@[i]@[k] == es[lo + k]);
                assert(es == orig.reverse().filter(eligible_pred()));
                orig.reverse().lemma_filter_pred(eligible_pred(), lo + k);
            }
        }
        r
    }

    /// Take the next group, if any: advance the cursor over its posts,
    /// then hand back the notification payload to deliver for it.
    pub fn next_group(&mut self) -> (r: Option<WebhookPayload>)
        requires
            old(self).wf(),
        ensures
            final(self).wf(),
            final(self).cursor.0 >= old(self).cursor.0,
            old(self).groups@.len() == 0 ==> r is None && *final(self) == *old(self),
            old(self).groups@.len() > 0 ==> {
                &&& final(self).groups@ == old(self).groups@.drop_first()
                &&& final(self).cursor.0 == max_id_in(old(self).cursor.0, old(self).groups@[0]@)
                &&& r matches Some(w) && payload_matches(w, old(self).groups@[0]@)
            },
    {
        if self.groups.len() == 0 {
            return None;
        }
        let group = self.groups.remove(0);
        proof {
            assert(self.groups@ =~= old(self).groups@.drop_first());
        }
        let ghost g0 = group@;
        let mut rest = group;
        let mut cur = self.cursor;
        let mut embeds: Vec<crate::embed::Embed> = Vec::new();
        proof {
            assert(g0.skip(0) =~= g0);
        }
        while rest.len() > 0
            invariant
                old(self).wf(),
                old(self).groups@.len() > 0,
                g0 == old(self).groups@[0]@,
                rest@ =~= g0.skip(embeds@.len() as int),
                embeds@.len() <= g0.len(),
                forall|i: int|
                    0 <= i < embeds@.len() ==> crate::embed::embed_matches(
                        #[trigger] embeds@[i],
                        g0[i],
                    ),
                max_id_in(old(self).cursor.0, g0) == max_id_in(cur.0, rest@),
            decreases rest.len(),
        {
            let ghost done = embeds@.len() as int;
            let p = rest.remove(0);
            proof {
                assert(g0.skip(done)[0] == g0[done]);
                assert(eligible(g0[done]));
                assert(rest@ =~= g0.skip(done + 1));
                assert(g0.skip(done).drop_first() =~= g0.skip(done + 1));
            }
            cur = cur.max(p.id);
            let e = make_embed(p);
            embeds.push(e);
        }
        proof {
            assert(g0.skip(g0.len() as int) =~= Seq::<Post>::empty());
        }
        self.cursor = cur;
        proof {
            lemma_max_id_bounds(old(self).cursor.0, g0);
            assert forall|i: int, k: int|
                0 <= i < self.groups@.len() && 0 <= k < self.groups@[i]@.len() implies eligible(
                #[trigger] self.groups@[i]@[k],
            ) by {
                assert(self.groups@[i] == old(self).groups@[i + 1]);
            }
        }
        Some(
            WebhookPayload {
                username: bot_username(),
                avatar_url: bot_avatar_url(),
                embeds,
            },
        )
    }

    /// The cursor as advanced so far.
    pub fn cursor_value(&self) -> (r: Id)
        ensures
            r == self.cursor,
    {
        self.cursor
    }
}

impl Link {
    /// Set up a link from its configuration, its resolved account, its
    /// storage key, and whatever cursor record was found on disk: none
    /// means a first run and the zero cursor; a record that cannot be read
    /// back is an error, never silently coerced.
    pub fn new(
        mastodon_url: String,
        account_id: Id,
        webhook_url: String,
        key: u64,
        saved: Option<&str>,
    ) -> (r: Result<Link, CursorError>)
        ensures
            (match r {
                Ok(link) => {
                    &&& link.mastodon_url@ == mastodon_url@
                    &&& link.account_id == account_id
                    &&& link.webhook_url@ == webhook_url@
                    &&& link.key == key
                    &&& link.last_id.0 == (match saved {
                        None => 0u64,
                        Some(s) => parse_cursor_spec(s@)->Some_0,
                    })
                    &&& (saved matches Some(s) ==> parse_cursor_spec(s@) is Some)
                },
                Err(_) => saved matches Some(s) && parse_cursor_spec(s@) is None,
            }),
    {
        match crate::store::load_cursor(saved) {
            Some(last_id) => Ok(
                Link { mastodon_url, account_id, webhook_url, key, last_id },
            ),
            None => Err(CursorError {}),
        }
    }

    /// The fetch request a cycle issues: posts newer than the link's
    /// cursor, at most 20 of them, reposts excluded.
    pub fn fetch_params(&self) -> (p: FetchParams)
        ensures
            p.min_id == self.last_id,
            p.limit == 20,
            p.exclude_reblogs == true,
    {
        FetchParams { min_id: self.last_id, limit: 20, exclude_reblogs: true }
    }

    /// Begin a cycle over a fetched feed.
    pub fn start_cycle(&self, posts: Vec<Post>, chunk_size: usize) -> (r: Runner)
        requires
            1 <= chunk_size <= 10,
        ensures
            r.cursor == self.last_id,
            seq_of_vecs(r.groups@) == cycle_groups(posts@, chunk_size as int),
            r.wf(),
    {
        Runner::new(self.last_id, posts, chunk_size)
    }

    /// Take over the cursor a cycle advanced to, however far the cycle
    /// got. The link's cursor never decreases.
    pub fn commit_cycle(&mut self, runner: &Runner)
        ensures
            final(self).last_id.0 == (if runner.cursor.0 > old(self).last_id.0 {
                runner.cursor.0
            } else {
                old(self).last_id.0
            }),
            final(self).last_id.0 >= old(self).last_id.0,
            final(self).mastodon_url == old(self).mastodon_url,
            final(self).account_id == old(self).account_id,
            final(self).webhook_url == old(self).webhook_url,
            final(self).key == old(self).key,
    {
        self.last_id = self.last_id.max(runner.cursor);
    }
}

} // verus!
