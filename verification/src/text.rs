//! Character-level string helpers with exact specifications.

use vstd::prelude::*;

verus! {

/// Whether two strings hold the same characters.
pub fn same_text(a: &str, b: &str) -> (r: bool)
    ensures
        r == (a@ == b@),
{
    let n: usize = a.unicode_len();
    if n != b.unicode_len() {
        return false;
    }
    let mut i: usize = 0;
    while i < n
        invariant
            n == a@.len(),
            n == b@.len(),
            i <= n,
            forall|j: int| 0 <= j < i ==> a@[j] == b@[j],
        decreases n - i,
    {
        if a.get_char(i) != b.get_char(i) {
            return false;
        }
        i = i + 1;
    }
    assert(a@ =~= b@);
    true
}


/// `s` with every leading occurrence of `c` removed.
pub open spec fn strip_leading(s: Seq<char>, c: char) -> Seq<char>
    decreases s.len(),
{
    if s.len() > 0 && s[0] == c {
        strip_leading(s.drop_first(), c)
    } else {
        s
    }
}

/// `s` with every trailing occurrence of `c` removed.
pub open spec fn strip_trailing(s: Seq<char>, c: char) -> Seq<char>
    decreases s.len(),
{
    if s.len() > 0 && s.last() == c {
        strip_trailing(s.drop_last(), c)
    } else {
        s
    }
}

/// The character of the decimal digit `d` (`d < 10`).
pub open spec fn digit_char(d: nat) -> char {
    (48 + d) as char
}

/// The decimal notation of `n`, without sign or leading zeros.
pub open spec fn decimal(n: nat) -> Seq<char>
    decreases n,
{
    if n < 10 {
        seq![digit_char(n)]
    } else {
        decimal(n / 10).push(digit_char(n % 10))
    }
}

/// What stripping a leading run leaves: a suffix of `s`, everything before
/// it is `c`, and it does not itself start with `c`.
pub proof fn lemma_strip_leading(s: Seq<char>, c: char)
    ensures
        strip_leading(s, c).len() <= s.len(),
        strip_leading(s, c) == s.skip(s.len() - strip_leading(s, c).len()),
        forall|i: int| 0 <= i < s.len() - strip_leading(s, c).len() ==> s[i] == c,
        strip_leading(s, c).len() == 0 || strip_leading(s, c)[0] != c,
    decreases s.len(),
{
    if s.len() > 0 && s[0] == c {
        let t = s.drop_first();
        lemma_strip_leading(t, c);
        let r = strip_leading(t, c);
        assert(t.skip(t.len() - r.len()) =~= s.skip(s.len() - r.len()));
        assert forall|i: int| 0 <= i < s.len() - r.len() implies s[i] == c by {
            if i > 0 {
                assert(s[i] == t[i - 1]);
            }
        }
    } else {
        assert(s.skip(0) =~= s);
    }
}

/// What stripping a trailing run leaves: a prefix of `s`, everything after
/// it is `c`, and it does not itself end with `c`.
pub proof fn lemma_strip_trailing(s: Seq<char>, c: char)
    ensures
        strip_trailing(s, c).len() <= s.len(),
        strip_trailing(s, c) == s.take(strip_trailing(s, c).len() as int),
        forall|i: int| strip_trailing(s, c).len() <= i < s.len() ==> s[i] == c,
        strip_trailing(s, c).len() == 0 || strip_trailing(s, c).last() != c,
    decreases s.len(),
{
    if s.len() > 0 && s.last() == c {
        let t = s.drop_last();
        lemma_strip_trailing(t, c);
        let r = strip_trailing(t, c);
        assert(t.take(r.len() as int) =~= s.take(r.len() as int));
        assert forall|i: int| r.len() <= i < s.len() implies s[i] == c by {
            if i < s.len() - 1 {
                assert(s[i] == t[i]);
            }
        }
    } else {
        assert(s.take(s.len() as int) =~= s);
    }
}

/// The number a string of decimal digits denotes.
pub open spec fn digits_value(s: Seq<char>) -> int
    decreases s.len(),
{
    if s.len() == 0 {
        0
    } else {
        digits_value(s.drop_last()) * 10 + (s.last() as int - 48)
    }
}

/// The decimal notation of `n` is made of digits only, has no leading zero
/// (but for `0` itself), and denotes `n`.
pub proof fn lemma_decimal_denotes(n: nat)
    ensures
        decimal(n).len() >= 1,
        forall|i: int| 0 <= i < decimal(n).len() ==> '0' <= #[trigger] decimal(n)[i] <= '9',
        n > 0 ==> decimal(n)[0] != '0',
        digits_value(decimal(n)) == n,
    decreases n,
{
    assert(digit_char(n % 10) as int == 48 + n % 10);
    if n < 10 {
        assert(decimal(n).drop_last() =~= Seq::<char>::empty());
        assert(digits_value(decimal(n)) == digits_value(Seq::<char>::empty()) * 10 + (decimal(n).last() as int - 48));
    } else {
        let m = n / 10;
        lemma_decimal_denotes(m);
        let d = decimal(n);
        assert(d.drop_last() =~= decimal(m));
        assert(d[0] == decimal(m)[0]);
        assert(forall|i: int| 0 <= i < decimal(m).len() ==> d[i] == decimal(m)[i]);
        assert(m * 10 + n % 10 == n);
        assert(digits_value(d) == digits_value(decimal(m)) * 10 + (d.last() as int - 48));
    }
}

/// Appends one character: `String::push`.
#[verifier::external_body]
pub(crate) fn push_char(s: &mut String, c: char)
    ensures
        final(s)@ == old(s)@.push(c),
{
    s.push(c);
}

proof fn lemma_strip_leading_step(s: Seq<char>, c: char, k: int)
    requires
        0 <= k < s.len(),
        s[k] == c,
    ensures
        strip_leading(s.skip(k), c) == strip_leading(s.skip(k + 1), c),
{
    assert(s.skip(k).drop_first() =~= s.skip(k + 1));
}

proof fn lemma_strip_trailing_step(s: Seq<char>, c: char, k: int)
    requires
        0 < k <= s.len(),
        s[k - 1] == c,
    ensures
        strip_trailing(s.take(k), c) == strip_trailing(s.take(k - 1), c),
{
    assert(s.take(k).drop_last() =~= s.take(k - 1));
}

/// `s` without its leading run of `c`, as a new string (`trim_start_matches`).
pub fn trim_start_char(s: &str, c: char) -> (r: String)
    ensures
        r@ == strip_leading(s@, c),
{
    let n: usize = s.unicode_len();
    let mut k: usize = 0;
    assert(s@.skip(0) =~= s@);
    while k < n
        invariant
            n == s@.len(),
            k <= n,
            strip_leading(s@, c) == strip_leading(s@.skip(k as int), c),
        ensures
            k <= n,
            strip_leading(s@, c) == strip_leading(s@.skip(k as int), c),
            k == n || s@[k as int] != c,
        decreases n - k,
    {
        if s.get_char(k) != c {
            break;
        }
        proof {
            lemma_strip_leading_step(s@, c, k as int);
        }
        k = k + 1;
    }
    let rest = s.substring_char(k, n);
    assert(rest@ =~= s@.skip(k as int));
    assert(k < n ==> s@.skip(k as int)[0] == s@[k as int]);
    rest.to_owned()
}

/// `s` without its trailing run of `c`, as a new string (`trim_end_matches`).
pub fn trim_end_char(s: &str, c: char) -> (r: String)
    ensures
        r@ == strip_trailing(s@, c),
{
    let n: usize = s.unicode_len();
    let mut k: usize = n;
    assert(s@.take(n as int) =~= s@);
    while k > 0
        invariant
            n == s@.len(),
            k <= n,
            strip_trailing(s@, c) == strip_trailing(s@.take(k as int), c),
        ensures
            k <= n,
            strip_trailing(s@, c) == strip_trailing(s@.take(k as int), c),
            k == 0 || s@[k - 1] != c,
        decreases k,
    {
        if s.get_char(k - 1) != c {
            break;
        }
        proof {
            lemma_strip_trailing_step(s@, c, k as int);
        }
        k = k - 1;
    }
    let rest = s.substring_char(0, k);
    assert(rest@ =~= s@.take(k as int));
    assert(k > 0 ==> s@.take(k as int).last() == s@[k - 1]);
    rest.to_owned()
}

fn digit(d: u64) -> (c: char)
    requires
        d < 10,
    ensures
        c == digit_char(d as nat),
{
    ((d as u8) + 48u8) as char
}

/// Appends the decimal notation of `n` to `s`.
pub fn push_decimal(s: &mut String, n: u64)
    ensures
        final(s)@ == old(s)@ + decimal(n as nat),
    decreases n,
{
    if n >= 10 {
        push_decimal(s, n / 10);
    }
    push_char(s, digit(n % 10));
    assert(old(s)@ + decimal(n as nat) =~= (old(s)@ + if n >= 10 { decimal((n / 10) as nat) } else { Seq::empty() }).push(digit_char((n % 10) as nat)));
}


/// The characters of each string of `v`.
pub open spec fn texts(v: Seq<String>) -> Seq<Seq<char>> {
    v.map_values(|s: String| s@)
}

/// The characters of an optional string, empty where it is absent
/// (`unwrap_or_default`).
pub open spec fn opt_text(o: Option<String>) -> Seq<char> {
    match o {
        Some(s) => s@,
        None => Seq::empty(),
    }
}

/// An optional string, the empty string where it is absent.
pub fn text_or_empty(o: Option<String>) -> (r: String)
    ensures
        r@ == opt_text(o),
{
    match o {
        Some(s) => s,
        None => String::new(),
    }
}

/// An optional list of strings, the empty list where it is absent.
pub fn list_or_empty(o: Option<Vec<String>>) -> (r: Vec<String>)
    ensures
        r@ == (match o {
            Some(v) => v@,
            None => Seq::<String>::empty(),
        }),
{
    match o {
        Some(v) => v,
        None => Vec::new(),
    }
}

/// The first string of an optional list, with its leading `/` removed
/// (the engine reports container names as `/name`); empty where there is none.
pub open spec fn display_name(names: Option<Vec<String>>) -> Seq<char> {
    match names {
        Some(v) => if v@.len() > 0 {
            strip_leading(v@[0]@, '/')
        } else {
            Seq::empty()
        },
        None => Seq::empty(),
    }
}

/// Computes [`display_name`].
pub fn first_display_name(names: &Option<Vec<String>>) -> (r: String)
    ensures
        r@ == display_name(*names),
{
    match names {
        Some(v) => if v.len() > 0 {
            trim_start_char(v[0].as_str(), '/')
        } else {
            String::new()
        },
        None => String::new(),
    }
}

} // verus!
