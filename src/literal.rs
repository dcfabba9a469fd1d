use vstd::prelude::*;
use vstd::string::*;

verus! {

/// An ASCII decimal digit.
pub open spec fn is_digit(c: char) -> bool {
    '0' <= c && c <= '9'
}

/// An ASCII letter of either case.
pub open spec fn is_letter(c: char) -> bool {
    ('a' <= c && c <= 'z') || ('A' <= c && c <= 'Z')
}

/// A leading sign.
pub open spec fn is_sign(c: char) -> bool {
    c == '+' || c == '-'
}

/// Nothing but blanks (possibly nothing at all).
pub open spec fn all_spaces(s: Seq<char>) -> bool {
    forall|i: int| 0 <= i < s.len() ==> #[trigger] s[i] == ' '
}

/// A unit token: one or more letters.
pub open spec fn is_word(s: Seq<char>) -> bool {
    s.len() > 0 && forall|i: int| 0 <= i < s.len() ==> is_letter(#[trigger] s[i])
}

/// Digits with at most one decimal point and at least one digit, such as
/// `124`, `124.`, `.75` or `000.1500000`.
pub open spec fn is_plain_number(s: Seq<char>) -> bool {
    &&& forall|i: int| 0 <= i < s.len() ==> is_digit(#[trigger] s[i]) || s[i] == '.'
    &&& forall|i: int, j: int|
        0 <= i < s.len() && 0 <= j < s.len() && #[trigger] s[i] == '.' && #[trigger] s[j] == '.'
            ==> i == j
    &&& exists|i: int| 0 <= i < s.len() && is_digit(#[trigger] s[i])
}

/// The number of a literal: a plain number, or a sign, blanks, and a plain
/// number (`- .85`, `+12`, `-124.`).
pub open spec fn is_number_text(s: Seq<char>) -> bool {
    ||| is_plain_number(s)
    ||| (s.len() > 0 && is_sign(s[0]) && exists|k: int|
        1 <= k < s.len() && all_spaces(#[trigger] s.subrange(1, k)) && is_plain_number(
            s.subrange(k, s.len() as int),
        ))
}

/// Whether `s` reads as blanks, a number `s[i..j]`, blanks, a unit token
/// `s[k..l]` and blanks, in that order.
pub open spec fn literal_parts(s: Seq<char>, i: int, j: int, k: int, l: int) -> bool {
    &&& 0 <= i <= j <= k <= l <= s.len()
    &&& all_spaces(s.subrange(0, i))
    &&& is_number_text(s.subrange(i, j))
    &&& all_spaces(s.subrange(j, k))
    &&& is_word(s.subrange(k, l))
    &&& all_spaces(s.subrange(l, s.len() as int))
}

/// Whether `s` is a literal at all.
pub open spec fn is_literal(s: Seq<char>) -> bool {
    exists|i: int, j: int, k: int, l: int| literal_parts(s, i, j, k, l)
}

/// The number text with its blanks taken out: what remains is a plain
/// number, with its sign in front when there is one.
pub open spec fn without_spaces(s: Seq<char>) -> Seq<char> {
    s.filter(|c: char| c != ' ')
}

/// Whether `num` is a plain number, checked over `num[a..b]`.
fn plain_number_in(num: &str, a: usize, b: usize) -> (r: bool)
    requires
        a <= b <= num@.len(),
    ensures
        r == is_plain_number(num@.subrange(a as int, b as int)),
{
    let ghost t = num@.subrange(a as int, b as int);
    let mut p: usize = a;
    let mut dot: Option<usize> = None;
    let mut digit = false;
    while p < b
        invariant
            a <= p <= b <= num@.len(),
            t == num@.subrange(a as int, b as int),
            forall|q: int| a <= q < p ==> is_digit(#[trigger] num@[q]) || num@[q] == '.',
            match dot {
                None => forall|q: int| a <= q < p ==> #[trigger] num@[q] != '.',
                Some(d) => a <= d < p && num@[d as int] == '.' && forall|q: int|
                    a <= q < p && q != d ==> #[trigger] num@[q] != '.',
            },
            digit == exists|q: int| a <= q < p && is_digit(#[trigger] num@[q]),
        decreases b - p,
    {
        let c = num.get_char(p);
        if c == '.' {
            if let Some(d) = dot {
                assert(t[d - a] == '.' && t[p - a] == '.');
                return false;
            }
            dot = Some(p);
        } else if '0' <= c && c <= '9' {
            digit = true;
        } else {
            assert(!(is_digit(t[p - a]) || t[p - a] == '.'));
            return false;
        }
        p = p + 1;
    }
    if !digit {
        assert forall|i: int| 0 <= i < t.len() implies !is_digit(#[trigger] t[i]) by {
            assert(t[i] == num@[a + i]);
        }
        return false;
    }
    let ghost w = choose|q: int| a <= q < p && is_digit(#[trigger] num@[q]);
    assert(is_digit(t[w - a]));
    assert forall|i: int, j: int|
        0 <= i < t.len() && 0 <= j < t.len() && #[trigger] t[i] == '.' && #[trigger] t[j] == '.'
            implies i == j by {
        assert(t[i] == num@[a + i] && t[j] == num@[a + j]);
    }
    assert forall|i: int| 0 <= i < t.len() implies is_digit(#[trigger] t[i]) || t[i] == '.' by {
        assert(t[i] == num@[a + i]);
    }
    true
}

/// Whether `num` is the number of a literal.
pub fn is_number(num: &str) -> (r: bool)
    ensures
        r == is_number_text(num@),
{
    let n = num.unicode_len();
    if n == 0 {
        return false;
    }
    let c = num.get_char(0);
    if c != '+' && c != '-' {
        let r = plain_number_in(num, 0, n);
        assert(num@.subrange(0, n as int) =~= num@);
        return r;
    }
    assert(!is_plain_number(num@)) by {
        assert(!(is_digit(num@[0]) || num@[0] == '.'));
    }
    let mut k: usize = 1;
    while k < n && num.get_char(k) == ' '
        invariant
            1 <= k <= n,
            n == num@.len(),
            forall|q: int| 1 <= q < k ==> #[trigger] num@[q] == ' ',
        decreases n - k,
    {
        k = k + 1;
    }
    // Any split of the signed form starts its plain number at `k`.
    assert forall|k2: int|
        1 <= k2 < n && all_spaces(#[trigger] num@.subrange(1, k2)) && is_plain_number(
            num@.subrange(k2, n as int),
        ) implies k2 == k by {
        let t = num@.subrange(k2, n as int);
        assert(is_digit(t[0]) || t[0] == '.');
        if k2 < k {
            assert(num@[k2] == ' ');
        }
        if k < k2 {
            assert(num@.subrange(1, k2)[k - 1] == ' ');
        }
    }
    if k == n {
        return false;
    }
    let r = plain_number_in(num, k, n);
    assert(all_spaces(num@.subrange(1, k as int)));
    r
}

/// A number text is not empty, and neither its first nor its last
/// character is a blank; its last is no letter either.
proof fn lemma_number_edges(t: Seq<char>)
    requires
        is_number_text(t),
    ensures
        t.len() > 0,
        t[0] != ' ',
        t.last() != ' ',
        !is_letter(t.last()),
{
    if is_plain_number(t) {
        let w = choose|i: int| 0 <= i < t.len() && is_digit(#[trigger] t[i]);
        assert(is_digit(t[0]) || t[0] == '.');
        assert(is_digit(t[t.len() - 1]) || t[t.len() - 1] == '.');
    } else {
        let k = choose|k: int|
            1 <= k < t.len() && all_spaces(#[trigger] t.subrange(1, k)) && is_plain_number(
                t.subrange(k, t.len() as int),
            );
        let body = t.subrange(k, t.len() as int);
        assert(is_digit(body[body.len() - 1]) || body[body.len() - 1] == '.');
        assert(body[body.len() - 1] == t.last());
    }
}

/// A literal reads in one way only: its blanks, number and unit token
/// stand at the same places in every reading.
pub proof fn literal_reads_one_way(s: Seq<char>, i: int, j: int, k: int, l: int, i2: int, j2: int, k2: int, l2: int)
    requires
        literal_parts(s, i, j, k, l),
        literal_parts(s, i2, j2, k2, l2),
    ensures
        i == i2 && j == j2 && k == k2 && l == l2,
{
    lemma_number_edges(s.subrange(i, j));
    lemma_number_edges(s.subrange(i2, j2));
    assert(s.subrange(i, j)[0] == s[i]);
    assert(s.subrange(i2, j2)[0] == s[i2]);
    if i < i2 {
        assert(s.subrange(0, i2)[i] == s[i]);
    }
    if i2 < i {
        assert(s.subrange(0, i)[i2] == s[i2]);
    }
    assert(is_letter(s.subrange(k, l)[l - k - 1]));
    assert(is_letter(s.subrange(k2, l2)[l2 - k2 - 1]));
    if l < l2 {
        assert(s.subrange(l, s.len() as int)[l2 - 1 - l] == s[l2 - 1]);
    }
    if l2 < l {
        assert(s.subrange(l2, s.len() as int)[l - 1 - l2] == s[l - 1]);
    }
    assert(l == l2);
    // The character before a unit token is a blank or the number's last.
    assert(s.subrange(i, j).last() == s[j - 1]);
    assert(s.subrange(i2, j2).last() == s[j2 - 1]);
    if k < k2 {
        assert(s.subrange(k, l)[k2 - 1 - k] == s[k2 - 1]);
        if j2 < k2 {
            assert(s.subrange(j2, k2)[k2 - 1 - j2] == s[k2 - 1]);
        }
    }
    if k2 < k {
        assert(s.subrange(k2, l2)[k - 1 - k2] == s[k - 1]);
        if j < k {
            assert(s.subrange(j, k)[k - 1 - j] == s[k - 1]);
        }
    }
    assert(k == k2);
    if j < j2 {
        assert(s.subrange(j, k)[j2 - 1 - j] == s[j2 - 1]);
    }
    if j2 < j {
        assert(s.subrange(j2, k2)[j - 1 - j2] == s[j - 1]);
    }
}

/// Where the scan of `split_literal` stops, every reading of `s` stands.
proof fn lemma_scan_finds_reading(s: Seq<char>, i: int, j: int, k: int, l: int, i2: int, j2: int, k2: int, l2: int)
    requires
        0 <= i <= j <= k <= l <= s.len(),
        forall|q: int| 0 <= q < i ==> #[trigger] s[q] == ' ',
        i == s.len() || s[i] != ' ',
        forall|q: int| l <= q < s.len() ==> #[trigger] s[q] == ' ',
        l == i || s[l - 1] != ' ',
        forall|q: int| k <= q < l ==> is_letter(#[trigger] s[q]),
        k == i || !is_letter(s[k - 1]),
        forall|q: int| j <= q < k ==> #[trigger] s[q] == ' ',
        j == i || s[j - 1] != ' ',
        literal_parts(s, i2, j2, k2, l2),
    ensures
        i == i2 && j == j2 && k == k2 && l == l2,
{
    lemma_number_edges(s.subrange(i2, j2));
    assert(s.subrange(i2, j2)[0] == s[i2]);
    assert(s.subrange(i2, j2).last() == s[j2 - 1]);
    if i < i2 {
        assert(s.subrange(0, i2)[i] == s[i]);
    }
    assert(i == i2);
    assert(is_letter(s.subrange(k2, l2)[l2 - k2 - 1]));
    if l2 < l {
        assert(s.subrange(l2, s.len() as int)[l - 1 - l2] == s[l - 1]);
    }
    assert(l == l2);
    if k < k2 {
        if j2 < k2 {
            assert(s.subrange(j2, k2)[k2 - 1 - j2] == s[k2 - 1]);
        }
    }
    if k2 < k {
        assert(s.subrange(k2, l2)[k - 1 - k2] == s[k - 1]);
    }
    assert(k == k2);
    if j2 < j {
        assert(s.subrange(j2, k2)[j - 1 - j2] == s[j - 1]);
    }
    assert(j == j2);
}

/// Splits a literal such as `"12.5 m"` or `"- .85 WithMinus"` into its
/// number text and its unit token, both as written (blanks inside the
/// number stay); `None` when `text` is no literal.
pub fn split_literal(text: &str) -> (r: Option<(String, String)>)
    ensures
        match r {
            Some((num, word)) => exists|i: int, j: int, k: int, l: int|
                literal_parts(text@, i, j, k, l) && num@ == text@.subrange(i, j) && word@
                    == text@.subrange(k, l),
            None => !is_literal(text@),
        },
{
    let ghost s = text@;
    let n = text.unicode_len();
    let mut i: usize = 0;
    while i < n && text.get_char(i) == ' '
        invariant
            0 <= i <= n,
            n == s.len(),
            s == text@,
            forall|q: int| 0 <= q < i ==> #[trigger] s[q] == ' ',
        decreases n - i,
    {
        i = i + 1;
    }
    let mut l: usize = n;
    while l > i && text.get_char(l - 1) == ' '
        invariant
            i <= l <= n,
            n == s.len(),
            s == text@,
            forall|q: int| l <= q < n ==> #[trigger] s[q] == ' ',
        decreases l,
    {
        l = l - 1;
    }
    let mut k: usize = l;
    while k > i && is_letter_char(text.get_char(k - 1))
        invariant
            i <= k <= l,
            s == text@,
            l <= s.len(),
            forall|q: int| k <= q < l ==> is_letter(#[trigger] s[q]),
        decreases k,
    {
        k = k - 1;
    }
    let mut j: usize = k;
    while j > i && text.get_char(j - 1) == ' '
        invariant
            i <= j <= k,
            s == text@,
            k <= s.len(),
            forall|q: int| j <= q < k ==> #[trigger] s[q] == ' ',
        decreases j,
    {
        j = j - 1;
    }
    proof {
        assert forall|i2: int, j2: int, k2: int, l2: int|
            literal_parts(s, i2, j2, k2, l2) implies i2 == i && j2 == j && k2 == k && l2 == l by {
            lemma_scan_finds_reading(s, i as int, j as int, k as int, l as int, i2, j2, k2, l2);
        }
    }
    if k == l {
        assert(!is_literal(s)) by {
            if is_literal(s) {
                let (i2, j2, k2, l2) = choose|i2: int, j2: int, k2: int, l2: int|
                    literal_parts(s, i2, j2, k2, l2);
                assert(literal_parts(s, i2, j2, k2, l2));
            }
        }
        return None;
    }
    let num = text.substring_char(i, j);
    if !is_number(num) {
        assert(!is_literal(s)) by {
            if is_literal(s) {
                let (i2, j2, k2, l2) = choose|i2: int, j2: int, k2: int, l2: int|
                    literal_parts(s, i2, j2, k2, l2);
                assert(literal_parts(s, i2, j2, k2, l2));
            }
        }
        return None;
    }
    let word = text.substring_char(k, l);
    assert(all_spaces(s.subrange(0, i as int)));
    assert(all_spaces(s.subrange(j as int, k as int)));
    assert(all_spaces(s.subrange(l as int, s.len() as int)));
    assert(is_word(s.subrange(k as int, l as int)));
    assert(literal_parts(s, i as int, j as int, k as int, l as int));
    Some((num.to_owned(), word.to_owned()))
}

/// Whether `c` is an ASCII letter.
fn is_letter_char(c: char) -> (r: bool)
    ensures
        r == is_letter(c),
{
    ('a' <= c && c <= 'z') || ('A' <= c && c <= 'Z')
}

/// Blanks contribute nothing once taken out.
proof fn lemma_no_spaces_left(t: Seq<char>)
    requires
        all_spaces(t),
    ensures
        without_spaces(t) == Seq::<char>::empty(),
    decreases t.len(),
{
    reveal(Seq::filter);
    if t.len() > 0 {
        assert(t.drop_last().len() < t.len());
        lemma_no_spaces_left(t.drop_last());
        assert(t.last() == ' ');
    }
}

/// A text without blanks is kept whole.
proof fn lemma_kept_whole(t: Seq<char>)
    requires
        forall|i: int| 0 <= i < t.len() ==> #[trigger] t[i] != ' ',
    ensures
        without_spaces(t) == t,
    decreases t.len(),
{
    reveal(Seq::filter);
    if t.len() > 0 {
        lemma_kept_whole(t.drop_last());
        assert(t.drop_last().push(t.last()) =~= t);
    }
}

/// The number of a literal with its blanks taken out, as in `- .85` to
/// `-.85`.
pub fn compact_number(num: &str) -> (r: String)
    requires
        is_number_text(num@),
    ensures
        r@ == without_spaces(num@),
{
    let n = num.unicode_len();
    let c = num.get_char(0);
    if c != '+' && c != '-' {
        assert forall|i: int| 0 <= i < num@.len() implies #[trigger] num@[i] != ' ' by {
            if is_plain_number(num@) {
                assert(is_digit(num@[i]) || num@[i] == '.');
            }
        }
        proof {
            lemma_kept_whole(num@);
        }
        return num.to_owned();
    }
    let ghost s = num@;
    let ghost k0 = choose|k: int|
        1 <= k < s.len() && all_spaces(#[trigger] s.subrange(1, k)) && is_plain_number(
            s.subrange(k, s.len() as int),
        );
    let mut k: usize = 1;
    while k < n && num.get_char(k) == ' '
        invariant
            1 <= k <= n,
            n == num@.len(),
            forall|q: int| 1 <= q < k ==> #[trigger] num@[q] == ' ',
        decreases n - k,
    {
        k = k + 1;
    }
    proof {
        let body = s.subrange(k0, s.len() as int);
        assert(is_digit(body[0]) || body[0] == '.');
        if k < k0 {
            assert(s.subrange(1, k0)[k - 1] == ' ');
        }
        if k0 < k {
            assert(s[k0] == ' ');
        }
        assert(k == k0);
        assert forall|i: int| 0 <= i < body.len() implies #[trigger] body[i] != ' ' by {
            assert(is_digit(body[i]) || body[i] == '.');
        }
        lemma_kept_whole(body);
        lemma_no_spaces_left(s.subrange(1, k0));
        lemma_kept_whole(s.subrange(0, 1));
        assert(s =~= s.subrange(0, 1) + s.subrange(1, k0) + body);
        Seq::filter_distributes_over_add(s.subrange(0, 1) + s.subrange(1, k0), body, |c: char| c != ' ');
        Seq::filter_distributes_over_add(s.subrange(0, 1), s.subrange(1, k0), |c: char| c != ' ');
    }
    let head = num.substring_char(0, 1).to_owned();
    head.concat(num.substring_char(k, n))
}

} // verus!
