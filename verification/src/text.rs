//! Character-level helpers shared by the path and configuration parsers.
use vstd::prelude::*;

verus! {

/// Whether `c` carries the Unicode `White_Space` property: the controls U+0009 to U+000D,
/// the space, U+0085, the no-break space, the Ogham space mark, the spaces U+2000 to U+200A,
/// the line and paragraph separators, the narrow no-break space, the medium mathematical
/// space and the ideographic space.
pub open spec fn white_space(c: char) -> bool {
    let n = c as u32;
    ||| 0x9 <= n <= 0xD
    ||| n == 0x20
    ||| n == 0x85
    ||| n == 0xA0
    ||| n == 0x1680
    ||| 0x2000 <= n <= 0x200A
    ||| n == 0x2028
    ||| n == 0x2029
    ||| n == 0x202F
    ||| n == 0x205F
    ||| n == 0x3000
}

/// Whether `c` is white space, as `char::is_whitespace` tells it.
pub fn is_white_space(c: char) -> (r: bool)
    ensures
        r == white_space(c),
{
    let n = c as u32;
    (0x9 <= n && n <= 0xD) || n == 0x20 || n == 0x85 || n == 0xA0 || n == 0x1680 || (0x2000 <= n
        && n <= 0x200A) || n == 0x2028 || n == 0x2029 || n == 0x202F || n == 0x205F || n == 0x3000
}

/// Calls `String::push`, which appends one character at the end of the string.
#[verifier::external_body]
pub(crate) fn push_char(s: &mut String, c: char)
    ensures
        final(s)@ == old(s)@.push(c),
{
    s.push(c)
}

/// Copies the characters of `s` into a vector.
pub fn chars_of(s: &str) -> (out: Vec<char>)
    ensures
        out@ == s@,
{
    let mut out: Vec<char> = Vec::new();
    for c in it: s.chars()
        invariant
            out@ == it.seq().take(it.index() as int),
    {
        out.push(c);
    }
    out
}

/// Builds a string out of a sequence of characters.
pub fn string_of(v: &Vec<char>) -> (out: String)
    ensures
        out@ == v@,
{
    let mut out = String::new();
    let mut i: usize = 0;
    while i < v.len()
        invariant
            i <= v.len(),
            out@ == v@.take(i as int),
        decreases v.len() - i,
    {
        push_char(&mut out, v[i]);
        i = i + 1;
        assert(v@.take(i as int) == v@.take((i - 1) as int).push(v@[i - 1]));
    }
    assert(v@.take(v.len() as int) == v@);
    out
}

/// The pieces of `s` between occurrences of `sep`, in order; there is always at least one
/// piece, and an empty piece stands wherever two separators meet or at an end that holds one.
pub open spec fn split_on(s: Seq<char>, sep: char) -> Seq<Seq<char>>
    decreases s.len(),
{
    if s.len() == 0 {
        seq![Seq::<char>::empty()]
    } else {
        let prev = split_on(s.drop_last(), sep);
        if s.last() == sep {
            prev.push(Seq::<char>::empty())
        } else {
            prev.update(prev.len() - 1, prev.last().push(s.last()))
        }
    }
}

/// `split_on` always yields at least one piece.
pub(crate) proof fn lemma_split_nonempty(s: Seq<char>, sep: char)
    ensures
        split_on(s, sep).len() >= 1,
    decreases s.len(),
{
    if s.len() > 0 {
        lemma_split_nonempty(s.drop_last(), sep);
    }
}

/// No piece of a split holds the separator.
pub(crate) proof fn lemma_split_parts_lack_sep(s: Seq<char>, sep: char)
    ensures
        forall|i: int, j: int|
            0 <= i < split_on(s, sep).len() && 0 <= j < split_on(s, sep)[i].len() ==> split_on(
                s,
                sep,
            )[i][j] != sep,
    decreases s.len(),
{
    if s.len() > 0 {
        lemma_split_nonempty(s.drop_last(), sep);
        lemma_split_parts_lack_sep(s.drop_last(), sep);
    }
}

/// Splitting `s` and then appending one more character extends the split as `split_on` says.
proof fn lemma_split_step(s: Seq<char>, i: int, sep: char)
    requires
        0 <= i < s.len(),
    ensures
        s.take(i + 1).drop_last() == s.take(i),
        s.take(i + 1).last() == s[i],
{
    assert(s.take(i + 1).drop_last() =~= s.take(i));
}

/// The character sequences held by a vector of character vectors.
pub open spec fn seqs_of(v: Seq<Vec<char>>) -> Seq<Seq<char>> {
    Seq::new(v.len(), |i: int| v[i]@)
}

/// Splits a sequence of characters at each occurrence of `sep`.
pub fn split_chars(s: &Vec<char>, sep: char) -> (parts: Vec<Vec<char>>)
    ensures
        seqs_of(parts@) == split_on(s@, sep),
{
    let mut parts: Vec<Vec<char>> = Vec::new();
    let mut cur: Vec<char> = Vec::new();
    let mut i: usize = 0;
    assert(s@.take(0) =~= Seq::<char>::empty());
    assert(seqs_of(parts@).push(cur@) =~= split_on(s@.take(0), sep));
    while i < s.len()
        invariant
            i <= s.len(),
            seqs_of(parts@).push(cur@) == split_on(s@.take(i as int), sep),
        decreases s.len() - i,
    {
        let c = s[i];
        proof {
            lemma_split_step(s@, i as int, sep);
        }
        let ghost before = seqs_of(parts@);
        let ghost cur_before = cur@;
        if c == sep {
            parts.push(cur);
            cur = Vec::new();
            assert(seqs_of(parts@) =~= before.push(cur_before));
            assert(seqs_of(parts@).push(cur@) =~= split_on(s@.take(i + 1), sep));
        } else {
            cur.push(c);
            assert(seqs_of(parts@).push(cur@) =~= before.push(cur_before).update(
                before.len() as int,
                cur_before.push(c),
            ));
        }
        i = i + 1;
    }
    assert(s@.take(s.len() as int) =~= s@);
    let ghost before = seqs_of(parts@);
    parts.push(cur);
    assert(seqs_of(parts@) =~= before.push(cur@));
    parts
}

/// `s` without its leading white space.
pub open spec fn trim_start(s: Seq<char>) -> Seq<char>
    decreases s.len(),
{
    if s.len() > 0 && white_space(s[0]) {
        trim_start(s.drop_first())
    } else {
        s
    }
}

/// `s` without its trailing white space.
pub open spec fn trim_end(s: Seq<char>) -> Seq<char>
    decreases s.len(),
{
    if s.len() > 0 && white_space(s.last()) {
        trim_end(s.drop_last())
    } else {
        s
    }
}

/// `s` without leading and trailing white space, as `str::trim` gives it.
pub open spec fn trimmed(s: Seq<char>) -> Seq<char> {
    trim_end(trim_start(s))
}

/// Removes leading and trailing white space.
pub fn trim_chars(s: &Vec<char>) -> (out: Vec<char>)
    ensures
        out@ == trimmed(s@),
{
    let n: usize = s.len();
    let mut i: usize = 0;
    assert(s@.subrange(0, n as int) =~= s@);
    while i < n && is_white_space(s[i])
        invariant
            i <= n,
            n == s.len(),
            trim_start(s@) == trim_start(s@.subrange(i as int, n as int)),
        decreases n - i,
    {
        assert(s@.subrange(i as int, n as int).drop_first() =~= s@.subrange(
            i + 1,
            n as int,
        ));
        i = i + 1;
    }
    let ghost start = s@.subrange(i as int, n as int);
    assert(trim_start(s@) == start);
    let mut j: usize = n;
    while j > i && is_white_space(s[j - 1])
        invariant
            i <= j <= n,
            n == s.len(),
            trim_end(start) == trim_end(s@.subrange(i as int, j as int)),
        decreases j - i,
    {
        assert(s@.subrange(i as int, j as int).drop_last() =~= s@.subrange(
            i as int,
            j - 1,
        ));
        j = j - 1;
    }
    let mut out: Vec<char> = Vec::new();
    let mut k: usize = i;
    while k < j
        invariant
            i <= k <= j,
            j <= n,
            n == s.len(),
            out@ == s@.subrange(i as int, k as int),
        decreases j - k,
    {
        out.push(s[k]);
        k = k + 1;
        assert(out@ =~= s@.subrange(i as int, k as int));
    }
    out
}

/// Appending characters leaves every piece of a split but the last one as it was.
pub(crate) proof fn lemma_split_append_keeps_closed(s: Seq<char>, u: Seq<char>, sep: char)
    ensures
        split_on(s + u, sep).len() >= split_on(s, sep).len(),
        forall|i: int|
            0 <= i < split_on(s, sep).len() - 1 ==> split_on(s + u, sep)[i] == split_on(s, sep)[i],
    decreases u.len(),
{
    lemma_split_nonempty(s, sep);
    if u.len() == 0 {
        assert(s + u =~= s);
    } else {
        lemma_split_append_keeps_closed(s, u.drop_last(), sep);
        assert((s + u).drop_last() =~= s + u.drop_last());
        lemma_split_nonempty(s + u.drop_last(), sep);
    }
}

/// Appending characters other than the separator only lengthens the last piece.
pub(crate) proof fn lemma_split_extend_last(s: Seq<char>, u: Seq<char>, sep: char)
    requires
        forall|j: int| 0 <= j < u.len() ==> u[j] != sep,
    ensures
        split_on(s + u, sep) == split_on(s, sep).update(
            split_on(s, sep).len() - 1,
            split_on(s, sep).last() + u,
        ),
    decreases u.len(),
{
    lemma_split_nonempty(s, sep);
    let p = split_on(s, sep);
    if u.len() == 0 {
        assert(s + u =~= s);
        assert(p.last() + u =~= p.last());
        assert(p.update(p.len() - 1, p.last() + u) =~= p);
    } else {
        let v = u.drop_last();
        lemma_split_extend_last(s, v, sep);
        assert((s + u).drop_last() =~= s + v);
        assert((s + u).last() == u.last());
        let q = split_on(s + v, sep);
        assert(q == p.update(p.len() - 1, p.last() + v));
        assert(q.last() == p.last() + v);
        assert((p.last() + v).push(u.last()) =~= p.last() + u);
        assert(q.update(q.len() - 1, q.last().push(u.last())) =~= p.update(
            p.len() - 1,
            p.last() + u,
        ));
    }
}

/// Whether `c` is one of the ASCII digits `0` to `9`.
pub open spec fn is_digit(c: char) -> bool {
    0x30 <= (c as u32) <= 0x39
}

/// The value of the ASCII digit `c`.
pub open spec fn digit_value(c: char) -> nat {
    ((c as u32) - 0x30) as nat
}

/// Whether `s` is a non-empty run of ASCII digits.
pub open spec fn is_decimal(s: Seq<char>) -> bool {
    s.len() > 0 && forall|i: int| 0 <= i < s.len() ==> is_digit(#[trigger] s[i])
}

/// The number that the ASCII digits `s` write in base ten.
pub open spec fn decimal_value(s: Seq<char>) -> nat
    decreases s.len(),
{
    if s.len() == 0 {
        0
    } else {
        decimal_value(s.drop_last()) * 10 + digit_value(s.last())
    }
}

/// The ASCII digit for `d`, below ten.
pub open spec fn digit_char(d: nat) -> char {
    (d + 0x30) as char
}

/// `n` written in base ten with no leading zero, as `{}` formats an integer.
pub open spec fn decimal_text(n: nat) -> Seq<char>
    decreases n,
{
    if n < 10 {
        seq![digit_char(n)]
    } else {
        decimal_text(n / 10).push(digit_char(n % 10))
    }
}

/// How many ASCII digits `s` begins with.
pub open spec fn leading_digits(s: Seq<char>) -> nat
    decreases s.len(),
{
    if s.len() > 0 && is_digit(s[0]) {
        1 + leading_digits(s.drop_first())
    } else {
        0
    }
}

/// Digits followed by a non-digit begin with exactly those digits.
pub(crate) proof fn lemma_leading_digits(d: Seq<char>, u: Seq<char>)
    requires
        forall|i: int| 0 <= i < d.len() ==> is_digit(#[trigger] d[i]),
        u.len() > 0,
        !is_digit(u[0]),
    ensures
        leading_digits(d + u) == d.len(),
    decreases d.len(),
{
    if d.len() == 0 {
        assert(d + u =~= u);
    } else {
        let r = d.drop_first();
        assert forall|i: int| 0 <= i < r.len() implies is_digit(#[trigger] r[i]) by {
            assert(r[i] == d[i + 1]);
        }
        lemma_leading_digits(r, u);
        assert((d + u).drop_first() =~= r + u);
        assert((d + u)[0] == d[0]);
    }
}

/// Writing `n` in base ten gives digits that read back as `n`.
pub(crate) proof fn lemma_decimal_text(n: nat)
    ensures
        is_decimal(decimal_text(n)),
        decimal_value(decimal_text(n)) == n,
    decreases n,
{
    if n < 10 {
        let t = decimal_text(n);
        assert(t.drop_last() =~= Seq::<char>::empty());
        assert(decimal_value(Seq::<char>::empty()) == 0);
        assert(t.last() == digit_char(n));
        assert(digit_value(digit_char(n)) == n);
        assert(decimal_value(t) == n);
    } else {
        lemma_decimal_text(n / 10);
        let t = decimal_text(n / 10);
        let c = digit_char(n % 10);
        assert(t.push(c).drop_last() =~= t);
        assert(digit_value(c) == n % 10);
        assert(is_digit(c));
        assert(decimal_value(t.push(c)) == decimal_value(t) * 10 + digit_value(c));
        assert(n == (n / 10) * 10 + n % 10);
        assert(decimal_text(n) == t.push(c));
        assert forall|i: int| 0 <= i < t.push(c).len() implies is_digit(#[trigger] t.push(c)[i]) by {
            if i < t.len() {
                assert(t.push(c)[i] == t[i]);
            }
        }
    }
}

/// A run of digits has no white space to trim.
pub(crate) proof fn lemma_decimal_untrimmed(s: Seq<char>)
    requires
        is_decimal(s),
    ensures
        trimmed(s) == s,
{
    assert(is_digit(s[0]));
    assert(is_digit(s[s.len() - 1]));
    assert(trim_start(s) == s);
    assert(trim_end(s) == s);
}

/// After a separator, appending characters leaves every piece before it as it was.
pub(crate) proof fn lemma_split_after_sep(s: Seq<char>, t: Seq<char>, sep: char)
    ensures
        split_on(s.push(sep) + t, sep).len() > split_on(s, sep).len(),
        forall|i: int|
            0 <= i < split_on(s, sep).len() ==> split_on(s.push(sep) + t, sep)[i] == split_on(
                s,
                sep,
            )[i],
{
    assert(s.push(sep).drop_last() =~= s);
    lemma_split_nonempty(s, sep);
    lemma_split_append_keeps_closed(s.push(sep), t, sep);
    let before = split_on(s, sep);
    let mid = split_on(s.push(sep), sep);
    assert(s.push(sep).last() == sep);
    assert(mid == before.push(Seq::<char>::empty()));
    assert forall|i: int| 0 <= i < before.len() implies split_on(s.push(sep) + t, sep)[i]
        == before[i] by {
        assert(mid[i] == before[i]);
    }
}

} // verus!
