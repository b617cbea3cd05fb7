use vstd::prelude::*;

verus! {

/// Index of the first character of `s` that could end or invalidate a markup
/// tag: the first `'>'` or line break. If there is none, `s.len()`.
pub open spec fn stop_at(s: Seq<char>) -> nat
    decreases s.len(),
{
    if s.len() == 0 {
        0
    } else if s[0] == '>' || s[0] == '\n' {
        0
    } else {
        (1 + stop_at(s.skip(1))) as nat
    }
}

/// Markup stripping: each shortest span `<...>` that contains no line break
/// is removed; everything else is kept. A `<` that is never closed on its
/// line stays in the text.
pub open spec fn strip_markup(s: Seq<char>) -> Seq<char>
    decreases s.len(),
{
    if s.len() == 0 {
        Seq::empty()
    } else if s[0] == '<' {
        let j = stop_at(s.skip(1)) as int;
        if j < s.len() - 1 && s[j + 1] == '>' {
            strip_markup(s.subrange(j + 2, s.len() as int))
        } else {
            seq!['<'] + strip_markup(s.skip(1))
        }
    } else {
        seq![s[0]] + strip_markup(s.skip(1))
    }
}

proof fn lemma_stop_at(s: Seq<char>)
    ensures
        stop_at(s) <= s.len(),
        forall|k: int| 0 <= k < stop_at(s) ==> s[k] != '>' && s[k] != '\n',
        stop_at(s) < s.len() ==> s[stop_at(s) as int] == '>' || s[stop_at(s) as int] == '\n',
    decreases s.len(),
{
    if s.len() == 0 {
    } else if s[0] == '>' || s[0] == '\n' {
    } else {
        lemma_stop_at(s.skip(1));
        assert forall|k: int| 0 <= k < stop_at(s) implies s[k] != '>' && s[k] != '\n' by {
            if k > 0 {
                assert(s.skip(1)[k - 1] == s[k]);
            }
        }
        if stop_at(s) < s.len() {
            assert(s.skip(1)[stop_at(s) - 1] == s[stop_at(s) as int]);
        }
    }
}

/// `stop_at(s)` is the unique `t` below which no stop character occurs and
/// which is either the end or a stop character.
proof fn lemma_stop_at_unique(s: Seq<char>, t: int)
    requires
        0 <= t <= s.len(),
        forall|k: int| 0 <= k < t ==> s[k] != '>' && s[k] != '\n',
        t < s.len() ==> s[t] == '>' || s[t] == '\n',
    ensures
        stop_at(s) == t,
    decreases s.len(),
{
    if t == 0 {
        if s.len() > 0 && !(s[0] == '>' || s[0] == '\n') {
            lemma_stop_at(s);
            if stop_at(s) < s.len() {
            }
        }
    } else {
        assert(s[0] != '>' && s[0] != '\n');
        assert forall|k: int| 0 <= k < t - 1 implies s.skip(1)[k] != '>' && s.skip(1)[k] != '\n' by {
            assert(s.skip(1)[k] == s[k + 1]);
        }
        if t - 1 < s.skip(1).len() {
            assert(s.skip(1)[t - 1] == s[t]);
        }
        lemma_stop_at_unique(s.skip(1), t - 1);
    }
}

/// Remove markup tags from a sequence of characters.
pub fn strip_markup_chars(s: &Vec<char>) -> (r: Vec<char>)
    ensures
        r@ == strip_markup(s@),
{
    let n = s.len();
    let mut out: Vec<char> = Vec::new();
    let mut i: usize = 0;
    proof {
        assert(s@.subrange(0, n as int) =~= s@);
        assert(Seq::<char>::empty() + strip_markup(s@) =~= strip_markup(s@));
    }
    while i < n
        invariant
            i <= n,
            n == s@.len(),
            strip_markup(s@) == out@ + strip_markup(s@.subrange(i as int, n as int)),
        decreases n - i,
    {
        let ghost rem = s@.subrange(i as int, n as int);
        let c = s[i];
        assert(rem[0] == c);
        if c == '<' {
            let mut j = i + 1;
            while j < n && s[j] != '>' && s[j] != '\n'
                invariant
                    i + 1 <= j <= n,
                    n == s@.len(),
                    forall|k: int| i + 1 <= k < j ==> s@[k] != '>' && s@[k] != '\n',
                decreases n - j,
            {
                j += 1;
            }
            proof {
                let tail = rem.skip(1);
                assert(tail =~= s@.subrange(i + 1, n as int));
                assert forall|k: int| 0 <= k < j - i - 1 implies tail[k] != '>' && tail[k]
                    != '\n' by {
                    assert(tail[k] == s@[k + i + 1]);
                }
                if j < n {
                    assert(tail[j - i - 1] == s@[j as int]);
                }
                lemma_stop_at_unique(tail, j - i - 1);
            }
            if j < n && s[j] == '>' {
                proof {
                    assert(rem[j - i] == s@[j as int]);
                    assert(rem.subrange(j - i + 1, rem.len() as int) =~= s@.subrange(
                        j + 1,
                        n as int,
                    ));
                }
                i = j + 1;
            } else {
                proof {
                    if j < n {
                        assert(rem[j - i] == s@[j as int]);
                    }
                    assert(rem.skip(1) =~= s@.subrange(i + 1, n as int));
                    assert(out@.push('<') + strip_markup(s@.subrange(i + 1, n as int)) =~= out@
                        + (seq!['<'] + strip_markup(s@.subrange(i + 1, n as int))));
                }
                out.push('<');
                i = i + 1;
            }
        } else {
            proof {
                assert(rem.skip(1) =~= s@.subrange(i + 1, n as int));
                assert(out@.push(c) + strip_markup(s@.subrange(i + 1, n as int)) =~= out@ + (seq![
                    c,
                ] + strip_markup(s@.subrange(i + 1, n as int))));
            }
            out.push(c);
            i = i + 1;
        }
    }
    proof {
        assert(s@.subrange(n as int, n as int) =~= Seq::<char>::empty());
        assert(out@ + Seq::<char>::empty() =~= out@);
    }
    out
}

/// The characters of a string slice, in order.
pub fn str_chars(s: &str) -> (r: Vec<char>)
    ensures
        r@ == s@,
{
    let mut r: Vec<char> = Vec::new();
    for c in iter: s.chars()
        invariant
            iter.seq() == s@,
            r@ =~= s@.take(iter.index()),
    {
        r.push(c);
    }
    proof {
        assert(s@.take(s@.len() as int) =~= s@);
    }
    r
}

/// Relies on `String: FromIterator<char>`: collecting characters yields the
/// string holding exactly those characters in that order.
#[verifier::external_body]
pub(crate) fn chars_to_string(v: Vec<char>) -> (r: String)
    ensures
        r@ == v@,
{
    v.into_iter().collect()
}

/// Strip markup tags from text: used to turn a post's raw content into a
/// plain-text notification title.
pub fn strip_tags(s: &str) -> (r: String)
    ensures
        r@ == strip_markup(s@),
{
    let chars = str_chars(s);
    let stripped = strip_markup_chars(&chars);
    chars_to_string(stripped)
}

} // verus!
