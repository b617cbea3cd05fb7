use vstd::prelude::*;
use crate::ids::Id;

verus! {

/// Whitespace that may surround a persisted cursor value.
pub open spec fn is_space(c: char) -> bool {
    c == ' ' || c == '\t' || c == '\n' || c == '\r'
}

/// `s` without leading whitespace.
pub open spec fn trim_front(s: Seq<char>) -> Seq<char>
    decreases s.len(),
{
    if s.len() > 0 && is_space(s[0]) {
        trim_front(s.drop_first())
    } else {
        s
    }
}

/// `s` without trailing whitespace.
pub open spec fn trim_back(s: Seq<char>) -> Seq<char>
    decreases s.len(),
{
    if s.len() > 0 && is_space(s.last()) {
        trim_back(s.drop_last())
    } else {
        s
    }
}

/// `s` without surrounding whitespace.
pub open spec fn trimmed(s: Seq<char>) -> Seq<char> {
    trim_back(trim_front(s))
}

/// A decimal digit.
pub open spec fn is_digit(c: char) -> bool {
    48 <= c as u32 <= 57
}

pub open spec fn all_digits(s: Seq<char>) -> bool {
    forall|k: int| 0 <= k < s.len() ==> is_digit(#[trigger] s[k])
}

/// The numeric value of a digit string.
pub open spec fn dec_val(s: Seq<char>) -> nat
    decreases s.len(),
{
    if s.len() == 0 {
        0
    } else {
        (10 * dec_val(s.drop_last()) + (s.last() as u32 - 48)) as nat
    }
}

/// A digit string parses as a `u64` when it is non-empty, all digits, and in
/// range.
pub open spec fn dec_valid(s: Seq<char>) -> bool {
    s.len() > 0 && all_digits(s) && dec_val(s) <= u64::MAX
}

/// What a persisted cursor record means: surrounding whitespace is
/// tolerated, anything else must be the decimal text of an identifier.
pub open spec fn parse_cursor_spec(s: Seq<char>) -> Option<u64> {
    if dec_valid(trimmed(s)) {
        Some(dec_val(trimmed(s)) as u64)
    } else {
        None
    }
}

proof fn lemma_dec_val_prefix(s: Seq<char>, i: int)
    requires
        0 <= i <= s.len(),
        all_digits(s),
    ensures
        dec_val(s.take(i)) <= dec_val(s),
    decreases s.len(),
{
    if i == s.len() {
        assert(s.take(i) =~= s);
    } else {
        assert(s.drop_last().take(i) =~= s.take(i));
        assert(all_digits(s.drop_last())) by {
            assert forall|k: int| 0 <= k < s.drop_last().len() implies is_digit(
                s.drop_last()[k],
            ) by {
                assert(s.drop_last()[k] == s[k]);
            }
        }
        assert(s[s.len() - 1] == s.last());
        assert(is_digit(s.last()));
        lemma_dec_val_prefix(s.drop_last(), i);
    }
}

fn is_space_char(c: char) -> (r: bool)
    ensures
        r == is_space(c),
{
    c == ' ' || c == '\t' || c == '\n' || c == '\r'
}

/// Drop surrounding whitespace from a character sequence.
pub fn trim_chars(v: Vec<char>) -> (r: Vec<char>)
    ensures
        r@ == trimmed(v@),
{
    let mut r = v;
    let ghost orig = r@;
    while r.len() > 0 && is_space_char(r[0])
        invariant
            trim_front(orig) == trim_front(r@),
        decreases r.len(),
    {
        proof {
            assert(r@.remove(0) =~= r@.drop_first());
        }
        r.remove(0);
    }
    let ghost mid = r@;
    assert(mid == trim_front(orig));
    while r.len() > 0 && is_space_char(r[r.len() - 1])
        invariant
            trim_back(mid) == trim_back(r@),
        decreases r.len(),
    {
        proof {
            assert(r@.subrange(0, r@.len() - 1) =~= r@.drop_last());
        }
        let _ = r.pop();
    }
    r
}

/// Parse the decimal text of an identifier. Returns `None` on an empty
/// string, a non-digit, or a value that does not fit.
pub fn parse_u64_chars(v: &Vec<char>) -> (r: Option<u64>)
    ensures
        r == (if dec_valid(v@) {
            Some(dec_val(v@) as u64)
        } else {
            None::<u64>
        }),
{
    let n = v.len();
    if n == 0 {
        return None;
    }
    let mut acc: u64 = 0;
    let mut i: usize = 0;
    proof {
        assert(v@.take(0) =~= Seq::<char>::empty());
    }
    while i < n
        invariant
            i <= n,
            n == v@.len(),
            all_digits(v@.take(i as int)),
            acc == dec_val(v@.take(i as int)),
        decreases n - i,
    {
        let c = v[i];
        let cv = c as u32;
        proof {
            assert(v@.take(i + 1).drop_last() =~= v@.take(i as int));
            assert(v@.take(i + 1).last() == v@[i as int]);
        }
        if cv < 48 || cv > 57 {
            proof {
                assert(!is_digit(v@[i as int]));
                assert(!all_digits(v@));
            }
            return None;
        }
        let d: u64 = (cv - 48) as u64;
        let step = match acc.checked_mul(10) {
            Some(t) => t.checked_add(d),
            None => None,
        };
        match step {
            Some(t) => {
                acc = t;
                i += 1;
            },
            None => {
                proof {
                    assert(dec_val(v@.take(i + 1)) > u64::MAX);
                    if all_digits(v@) {
                        lemma_dec_val_prefix(v@, i + 1);
                    }
                }
                return None;
            },
        }
    }
    proof {
        assert(v@.take(n as int) =~= v@);
    }
    Some(acc)
}

/// The digit character of a value below ten.
pub open spec fn digit_char(d: nat) -> char {
    ((d + 48) as u8) as char
}

/// The decimal text of a number, most significant digit first, no sign,
/// no padding: what a cursor record holds on disk.
pub open spec fn dec_chars(n: nat) -> Seq<char>
    decreases n,
{
    if n < 10 {
        seq![digit_char(n)]
    } else {
        dec_chars(n / 10).push(digit_char(n % 10))
    }
}

/// Law: rendering a value and reading the record back yields the value:
/// a persisted cursor is never lost or distorted by the record format.
pub proof fn lemma_cursor_round_trip(n: u64)
    ensures
        dec_chars(n as nat).len() >= 1,
        all_digits(dec_chars(n as nat)),
        dec_val(dec_chars(n as nat)) == n,
        parse_cursor_spec(dec_chars(n as nat)) == Some(n),
{
    lemma_dec_chars_val(n as nat);
    let s = dec_chars(n as nat);
    assert(!is_space(s[0]));
    assert(trim_front(s) == s);
    assert(!is_space(s.last()));
    assert(s[s.len() - 1] == s.last());
    assert(trim_back(s) == s);
}

proof fn lemma_dec_chars_val(n: nat)
    ensures
        dec_chars(n).len() >= 1,
        all_digits(dec_chars(n)),
        dec_val(dec_chars(n)) == n,
    decreases n,
{
    if n < 10 {
        let s = dec_chars(n);
        assert(s.drop_last() =~= Seq::<char>::empty());
        assert(dec_val(s.drop_last()) == 0);
        assert(s.last() == digit_char(n));
        assert(digit_char(n) as u32 == n + 48);
        assert(is_digit(digit_char(n)));
        assert(forall|k: int| 0 <= k < s.len() ==> s[k] == digit_char(n));
        assert(dec_val(s) == n);
    } else {
        lemma_dec_chars_val(n / 10);
        let s = dec_chars(n);
        let w = dec_chars(n / 10);
        assert(s == w.push(digit_char(n % 10)));
        assert(s.drop_last() =~= w);
        assert(s.last() == digit_char(n % 10));
        assert(is_digit(digit_char(n % 10))) by {
            assert(n % 10 < 10);
            assert(48 <= (n % 10 + 48) && (n % 10 + 48) <= 57);
        }
        assert forall|k: int| 0 <= k < s.len() implies is_digit(#[trigger] s[k]) by {
            if k < w.len() {
                assert(s[k] == w[k]);
            }
        }
        assert(dec_val(s) == 10 * (n / 10) + (digit_char(n % 10) as u32 - 48));
        assert(digit_char(n % 10) as u32 == n % 10 + 48);
        assert(n == 10 * (n / 10) + n % 10) by {
            vstd::arithmetic::div_mod::lemma_fundamental_div_mod(n as int, 10);
        }
    }
}

/// Render an identifier as the decimal text a cursor record holds.
pub fn render_cursor(id: Id) -> (r: String)
    ensures
        r@ == dec_chars(id.0 as nat),
{
    let n = id.0;
    let mut m = n;
    let mut revd: Vec<char> = Vec::new();
    let mut done = false;
    proof {
        assert(Seq::<char>::empty().reverse() =~= Seq::<char>::empty());
    }
    while !done
        invariant
            !done ==> dec_chars(n as nat) == dec_chars(m as nat) + revd@.reverse(),
            done ==> dec_chars(n as nat) == revd@.reverse(),
        decreases m, (if done { 0int } else { 1int }),
    {
        let d = m % 10;
        let c = digit_of(d);
        let ghost prev = revd@;
        revd.push(c);
        proof {
            assert(revd@.reverse() =~= seq![c] + prev.reverse());
            if m >= 10 {
                assert(dec_chars(m as nat) == dec_chars((m / 10) as nat).push(c));
                assert(dec_chars((m / 10) as nat).push(c) + prev.reverse() =~= dec_chars(
                    (m / 10) as nat,
                ) + revd@.reverse());
            } else {
                assert(dec_chars(m as nat) =~= seq![c]);
                assert(seq![c] + prev.reverse() =~= revd@.reverse());
            }
        }
        if m < 10 {
            done = true;
            m = 0;
        } else {
            m = m / 10;
        }
    }
    let mut out: Vec<char> = Vec::new();
    let total = revd.len();
    let mut j = total;
    while j > 0
        invariant
            j <= total,
            total == revd@.len(),
            out@ =~= revd@.reverse().take((total - j) as int),
        decreases j,
    {
        j -= 1;
        out.push(revd[j]);
        proof {
            assert(revd@.reverse()[(total - j - 1) as int] == revd@[j as int]);
            assert(out@ =~= revd@.reverse().take((total - j) as int));
        }
    }
    proof {
        assert(revd@.reverse().take(total as int) =~= revd@.reverse());
    }
    crate::text::chars_to_string(out)
}

fn digit_of(d: u64) -> (r: char)
    requires
        d < 10,
    ensures
        r == digit_char(d as nat),
{
    (d as u8 + 48) as char
}

/// The meaning of a saved cursor record: absent means the zero identifier
/// (a first run); a present record must hold the decimal text of an
/// identifier, surrounded by at most whitespace.
pub fn load_cursor(saved: Option<&str>) -> (r: Option<Id>)
    ensures
        saved is None ==> r == Some(Id(0)),
        saved matches Some(s) ==> r == (match parse_cursor_spec(s@) {
            Some(n) => Some(Id(n)),
            None => None::<Id>,
        }),
{
    match saved {
        None => Some(Id(0)),
        Some(s) => {
            let chars = crate::text::str_chars(s);
            let t = trim_chars(chars);
            match parse_u64_chars(&t) {
                Some(n) => Some(Id(n)),
                None => None,
            }
        },
    }
}

} // verus!
