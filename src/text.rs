//! Character-level helpers on topic strings and setting values.
use vstd::prelude::*;

verus! {

/// The decimal digit character for `d`.
pub open spec fn digit_char(d: int) -> char {
    seq!['0', '1', '2', '3', '4', '5', '6', '7', '8', '9'][d]
}

/// The canonical decimal text of `n`: no sign, no leading zeros.
pub open spec fn decimal(n: nat) -> Seq<char>
    decreases n,
{
    if n < 10 {
        seq![digit_char(n as int)]
    } else {
        decimal(n / 10).push(digit_char((n % 10) as int))
    }
}

/// `n` written with exactly two digits (`n < 100`).
pub open spec fn two_digits(n: nat) -> Seq<char> {
    seq![digit_char((n / 10) as int), digit_char((n % 10) as int)]
}

/// `s` without the double quotes around it: one leading and one trailing
/// `"` are removed where present; quotes inside stay.
pub open spec fn unquoted(s: Seq<char>) -> Seq<char> {
    let a = if s.len() > 0 && s[0] == '"' {
        s.drop_first()
    } else {
        s
    };
    if a.len() > 0 && a.last() == '"' {
        a.drop_last()
    } else {
        a
    }
}

/// `needle` occurs as a contiguous run of characters somewhere in `hay`.
pub open spec fn occurs_in(needle: Seq<char>, hay: Seq<char>) -> bool {
    exists|i: int| 0 <= i && i + needle.len() <= hay.len() && #[trigger] hay.subrange(i, i + needle.len()) == needle
}

/// The part of `s` after its last `/` (all of `s` where it holds none).
pub open spec fn last_segment(s: Seq<char>) -> Seq<char>
    decreases s.len(),
{
    if s.len() == 0 {
        s
    } else if s.last() == '/' {
        Seq::empty()
    } else {
        last_segment(s.drop_last()).push(s.last())
    }
}

/// `p` reads `true` once ASCII capitals are taken as small letters.
pub open spec fn is_true_word(p: Seq<char>) -> bool {
    &&& p.len() == 4
    &&& (p[0] == 't' || p[0] == 'T')
    &&& (p[1] == 'r' || p[1] == 'R')
    &&& (p[2] == 'u' || p[2] == 'U')
    &&& (p[3] == 'e' || p[3] == 'E')
}

/// The one-character string for digit `d`.
fn digit_str(d: u64) -> (r: &'static str)
    requires
        d < 10,
    ensures
        r@ == seq![digit_char(d as int)],
{
    let digits = "0123456789";
    proof {
        reveal_strlit("0123456789");
    }
    let r = digits.substring_char(d as usize, d as usize + 1);
    assert(r@ =~= seq![digit_char(d as int)]);
    r
}

/// Appends the decimal text of `n` to `s`.
fn push_decimal(s: &mut String, n: u64)
    ensures
        final(s)@ == old(s)@ + decimal(n as nat),
    decreases n,
{
    if n >= 10 {
        push_decimal(s, n / 10);
    }
    s.append(digit_str(n % 10));
    assert(final(s)@ =~= old(s)@ + decimal(n as nat));
}

/// The decimal text of an unsigned integer.
pub fn decimal_string(n: u64) -> (r: String)
    ensures
        r@ == decimal(n as nat),
{
    let mut s = String::new();
    push_decimal(&mut s, n);
    assert(s@ =~= decimal(n as nat));
    s
}

/// The two-digit text of `n`, zero-padded.
pub fn two_digit_string(n: u32) -> (r: String)
    requires
        n < 100,
    ensures
        r@ == two_digits(n as nat),
{
    let mut s = String::new();
    s.append(digit_str((n / 10) as u64));
    s.append(digit_str((n % 10) as u64));
    assert(s@ =~= two_digits(n as nat));
    s
}

/// The characters of `s`, one by one.
pub fn chars_of(s: &str) -> (r: Vec<char>)
    ensures
        r@ == s@,
{
    let n = s.unicode_len();
    let mut r: Vec<char> = Vec::new();
    let mut i: usize = 0;
    while i < n
        invariant
            n == s@.len(),
            i <= n,
            r@ == s@.take(i as int),
        decreases n - i,
    {
        r.push(s.get_char(i));
        i = i + 1;
        assert(r@ =~= s@.take(i as int));
    }
    assert(r@ =~= s@);
    r
}

/// The part of `s` after its last `/`.
pub fn last_segment_of(s: &str) -> (r: String)
    ensures
        r@ == last_segment(s@),
{
    let n = s.unicode_len();
    let mut r = String::new();
    let mut i: usize = 0;
    while i < n
        invariant
            n == s@.len(),
            i <= n,
            r@ == last_segment(s@.take(i as int)),
        decreases n - i,
    {
        assert(s@.take(i + 1).drop_last() =~= s@.take(i as int));
        if s.get_char(i) == '/' {
            r = String::new();
        } else {
            let piece = s.substring_char(i, i + 1);
            assert(piece@ =~= seq![s@[i as int]]);
            r.append(piece);
        }
        i = i + 1;
        assert(r@ =~= last_segment(s@.take(i as int)));
    }
    assert(s@.take(n as int) =~= s@);
    r
}

/// `s` without the double quotes around it.
pub fn trim_quotes(s: &str) -> (r: String)
    ensures
        r@ == unquoted(s@),
{
    let n = s.unicode_len();
    let mut from: usize = 0;
    let mut to: usize = n;
    if n > 0 && s.get_char(0) == '"' {
        from = 1;
    }
    if to > from && s.get_char(to - 1) == '"' {
        to = to - 1;
    }
    let r = String::from_str(s.substring_char(from, to));
    assert(r@ =~= unquoted(s@));
    r
}

/// Whether `p` reads `true`, ignoring ASCII case.
pub fn is_true_text(p: &str) -> (r: bool)
    ensures
        r == is_true_word(p@),
{
    let c = chars_of(p);
    c.len() == 4 && (c[0] == 't' || c[0] == 'T') && (c[1] == 'r' || c[1] == 'R') && (c[2] == 'u'
        || c[2] == 'U') && (c[3] == 'e' || c[3] == 'E')
}

/// Whether `needle` occurs as a contiguous run of characters in `hay`.
pub fn occurs(needle: &str, hay: &str) -> (r: bool)
    ensures
        r == occurs_in(needle@, hay@),
{
    let n = chars_of(needle);
    let h = chars_of(hay);
    if n.len() == 0 {
        assert(hay@.subrange(0int, 0int + needle@.len()) =~= needle@);
        return true;
    }
    if n.len() > h.len() {
        return false;
    }
    let last = h.len() - n.len();
    let mut i: usize = 0;
    while i <= last
        invariant
            n@ == needle@,
            h@ == hay@,
            last == h@.len() - n@.len(),
            n@.len() > 0,
            h@.len() <= usize::MAX,
            forall|k: int| 0 <= k < i ==> #[trigger] h@.subrange(k, k + n@.len()) != n@,
        decreases last + 1 - i,
    {
        let mut j: usize = 0;
        let mut same = true;
        while j < n.len()
            invariant
                n@ == needle@,
                h@ == hay@,
                i <= last,
                last == h@.len() - n@.len(),
                h@.len() <= usize::MAX,
                j <= n@.len(),
                same == (forall|t: int| 0 <= t < j ==> h@[i + t] == n@[t]),
            decreases n@.len() - j,
        {
            if h[i + j] != n[j] {
                same = false;
            }
            j = j + 1;
        }
        if same {
            assert(h@.subrange(i as int, i + n@.len()) =~= n@);
            return true;
        }
        assert(!(forall|t: int| 0 <= t < n@.len() ==> h@[i + t] == n@[t]));
        let ghost bad = choose|t: int| 0 <= t < n@.len() && h@[i + t] != n@[t];
        assert(h@.subrange(i as int, i + n@.len())[bad] != n@[bad]);
        i = i + 1;
    }
    false
}

} // verus!
