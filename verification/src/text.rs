//! Character-level string helpers with exact specifications.

use vstd::prelude::*;

verus! {

/// Unicode `White_Space`, the property that `char::is_whitespace` tests.
pub open spec fn is_space(c: char) -> bool {
    ||| ('\u{9}' <= c && c <= '\u{d}')
    ||| c == ' '
    ||| c == '\u{85}'
    ||| c == '\u{a0}'
    ||| c == '\u{1680}'
    ||| ('\u{2000}' <= c && c <= '\u{200a}')
    ||| c == '\u{2028}'
    ||| c == '\u{2029}'
    ||| c == '\u{202f}'
    ||| c == '\u{205f}'
    ||| c == '\u{3000}'
}

/// `s` with its leading white space removed.
pub open spec fn trim_start(s: Seq<char>) -> Seq<char>
    decreases s.len(),
{
    if s.len() > 0 && is_space(s[0]) {
        trim_start(s.drop_first())
    } else {
        s
    }
}

/// `s` with its trailing white space removed.
pub open spec fn trim_end(s: Seq<char>) -> Seq<char>
    decreases s.len(),
{
    if s.len() > 0 && is_space(s.last()) {
        trim_end(s.drop_last())
    } else {
        s
    }
}

/// `s` with white space removed at both ends.
pub open spec fn trim(s: Seq<char>) -> Seq<char> {
    trim_end(trim_start(s))
}

/// `p` is a prefix of `s`.
pub open spec fn has_prefix(s: Seq<char>, p: Seq<char>) -> bool {
    p.len() <= s.len() && s.take(p.len() as int) == p
}

/// `s` with every leading repetition of `p` removed (nothing when `p` is empty).
pub open spec fn strip_repeated(s: Seq<char>, p: Seq<char>) -> Seq<char>
    decreases s.len(),
{
    if p.len() > 0 && has_prefix(s, p) {
        strip_repeated(s.skip(p.len() as int), p)
    } else {
        s
    }
}

/// The decimal digit that stands for `d`, for `d < 10`.
pub open spec fn digit_char(d: nat) -> char {
    if d == 0 { '0' }
    else if d == 1 { '1' }
    else if d == 2 { '2' }
    else if d == 3 { '3' }
    else if d == 4 { '4' }
    else if d == 5 { '5' }
    else if d == 6 { '6' }
    else if d == 7 { '7' }
    else if d == 8 { '8' }
    else { '9' }
}

/// The decimal notation of `n`, most significant digit first, without leading zeros.
pub open spec fn decimal(n: nat) -> Seq<char>
    decreases n,
{
    if n < 10 {
        seq![digit_char(n)]
    } else {
        decimal(n / 10) + seq![digit_char(n % 10)]
    }
}

/// Whether the character at `i` of `s` is white space.
fn space_at(s: &str, i: usize) -> (r: bool)
    requires
        i < s@.len(),
    ensures
        r == is_space(s@[i as int]),
{
    let c = s.get_char(i);
    ('\u{9}' <= c && c <= '\u{d}') || c == ' ' || c == '\u{85}' || c == '\u{a0}' || c
        == '\u{1680}' || ('\u{2000}' <= c && c <= '\u{200a}') || c == '\u{2028}' || c
        == '\u{2029}' || c == '\u{202f}' || c == '\u{205f}' || c == '\u{3000}'
}

/// The text of `s` without leading and trailing white space, as `str::trim` gives it.
pub fn trim_str(s: &str) -> (r: String)
    ensures
        r@ == trim(s@),
{
    let n = s.unicode_len();
    let mut i: usize = 0;
    assert(s@.skip(0) =~= s@);
    while i < n && space_at(s, i)
        invariant
            n == s@.len(),
            i <= n,
            trim_start(s@.skip(i as int)) == trim_start(s@),
        decreases n - i,
    {
        assert(s@.skip(i as int).drop_first() =~= s@.skip(i + 1));
        i = i + 1;
    }
    let ghost t = s@.skip(i as int);
    assert(trim_start(s@) == t);
    let mut j: usize = n;
    assert(t.take(n - i) =~= t);
    while j > i && space_at(s, j - 1)
        invariant
            n == s@.len(),
            i <= j <= n,
            t == s@.skip(i as int),
            trim_end(t.take(j - i)) == trim_end(t),
        decreases j,
    {
        assert(t.take(j - i).drop_last() =~= t.take(j - 1 - i));
        j = j - 1;
    }
    assert(trim_end(t.take(j - i)) == t.take(j - i));
    assert(t.take(j - i) =~= s@.subrange(i as int, j as int));
    let sub = s.substring_char(i, j);
    String::from_str(sub)
}

/// Whether the text of `s` from position `pos` on begins with `p`.
fn prefix_at(s: &str, pos: usize, p: &str) -> (r: bool)
    requires
        pos <= s@.len(),
    ensures
        r == has_prefix(s@.skip(pos as int), p@),
{
    let n = s.unicode_len();
    let m = p.unicode_len();
    if m > n - pos {
        return false;
    }
    let mut k: usize = 0;
    while k < m
        invariant
            n == s@.len(),
            m == p@.len(),
            pos + m <= n,
            k <= m,
            forall|x: int| 0 <= x < k ==> s@[pos + x] == p@[x],
        decreases m - k,
    {
        if s.get_char(pos + k) != p.get_char(k) {
            assert(s@.skip(pos as int).take(m as int)[k as int] != p@[k as int]);
            return false;
        }
        k = k + 1;
    }
    assert(s@.skip(pos as int).take(m as int) =~= p@);
    true
}

/// Whether `s` begins with `p`, as `str::starts_with` answers for a string pattern.
pub fn starts_with(s: &str, p: &str) -> (r: bool)
    ensures
        r == has_prefix(s@, p@),
{
    assert(s@.skip(0) =~= s@);
    prefix_at(s, 0, p)
}

/// `s` with every leading repetition of `p` removed, as `str::trim_start_matches` gives it.
pub fn strip_prefix_repeated(s: &str, p: &str) -> (r: String)
    ensures
        r@ == strip_repeated(s@, p@),
{
    let n = s.unicode_len();
    let m = p.unicode_len();
    let mut pos: usize = 0;
    assert(s@.skip(0) =~= s@);
    while m > 0 && prefix_at(s, pos, p)
        invariant
            n == s@.len(),
            m == p@.len(),
            pos <= n,
            strip_repeated(s@.skip(pos as int), p@) == strip_repeated(s@, p@),
        decreases n - pos,
    {
        assert(s@.skip(pos as int).skip(m as int) =~= s@.skip(pos + m));
        pos = pos + m;
    }
    assert(s@.skip(pos as int) =~= s@.subrange(pos as int, n as int));
    let sub = s.substring_char(pos, n);
    String::from_str(sub)
}

/// The one-character text of the digit `d`.
fn digit_text(d: u64) -> (r: &'static str)
    requires
        d < 10,
    ensures
        r@ == seq![digit_char(d as nat)],
{
    proof {
        reveal_strlit("0");
        reveal_strlit("1");
        reveal_strlit("2");
        reveal_strlit("3");
        reveal_strlit("4");
        reveal_strlit("5");
        reveal_strlit("6");
        reveal_strlit("7");
        reveal_strlit("8");
        reveal_strlit("9");
    }
    if d == 0 {
        "0"
    } else if d == 1 {
        "1"
    } else if d == 2 {
        "2"
    } else if d == 3 {
        "3"
    } else if d == 4 {
        "4"
    } else if d == 5 {
        "5"
    } else if d == 6 {
        "6"
    } else if d == 7 {
        "7"
    } else if d == 8 {
        "8"
    } else {
        "9"
    }
}

/// The decimal notation of `n`, as `u64`'s `Display` writes it.
pub fn decimal_string(n: u64) -> (r: String)
    ensures
        r@ == decimal(n as nat),
    decreases n,
{
    if n < 10 {
        String::from_str(digit_text(n))
    } else {
        let mut s = decimal_string(n / 10);
        s.append(digit_text(n % 10));
        s
    }
}


/// `z` occurs in `s` as a contiguous piece.
pub open spec fn contains_piece(s: Seq<char>, z: Seq<char>) -> bool {
    exists|i: int| 0 <= i && i + z.len() <= s.len() && #[trigger] s.subrange(i, i + z.len()) == z
}

/// `s` ends with `z`.
pub open spec fn has_suffix(s: Seq<char>, z: Seq<char>) -> bool {
    z.len() <= s.len() && s.skip(s.len() - z.len()) == z
}

/// The lines `ls` joined with `sep` between each two of them.
pub open spec fn join_lines(ls: Seq<Seq<char>>, sep: Seq<char>) -> Seq<char>
    decreases ls.len(),
{
    if ls.len() == 0 {
        Seq::empty()
    } else if ls.len() == 1 {
        ls[0]
    } else {
        join_lines(ls.drop_last(), sep) + sep + ls.last()
    }
}

/// A piece of `x` is a piece of `x + y`.
pub proof fn lemma_piece_extends(x: Seq<char>, y: Seq<char>, z: Seq<char>)
    requires
        contains_piece(x, z),
    ensures
        contains_piece(x + y, z),
{
    let i = choose|i: int| 0 <= i && i + z.len() <= x.len() && #[trigger] x.subrange(i, i + z.len()) == z;
    assert((x + y).subrange(i, i + z.len()) =~= x.subrange(i, i + z.len()));
}

/// A prefix of `x` is a prefix of `x + y`.
pub proof fn lemma_prefix_extends(x: Seq<char>, y: Seq<char>, z: Seq<char>)
    requires
        has_prefix(x, z),
    ensures
        has_prefix(x + y, z),
{
    assert((x + y).take(z.len() as int) =~= x.take(z.len() as int));
}

/// Joined lines begin with the first line, followed by the separator when
/// more lines come.
pub proof fn lemma_join_starts(ls: Seq<Seq<char>>, sep: Seq<char>)
    requires
        ls.len() >= 1,
    ensures
        has_prefix(join_lines(ls, sep), ls[0]),
        ls.len() >= 2 ==> has_prefix(join_lines(ls, sep), ls[0] + sep),
    decreases ls.len(),
{
    if ls.len() == 1 {
        assert(join_lines(ls, sep).take(ls[0].len() as int) =~= ls[0]);
    } else if ls.len() == 2 {
        let j = join_lines(ls, sep);
        assert(ls.drop_last() =~= seq![ls[0]]);
        assert(join_lines(ls.drop_last(), sep) == ls[0]);
        assert(j.take(ls[0].len() as int) =~= ls[0]);
        assert(j.take((ls[0] + sep).len() as int) =~= ls[0] + sep);
    } else {
        let init = ls.drop_last();
        lemma_join_starts(init, sep);
        assert(init[0] == ls[0]);
        lemma_prefix_extends(join_lines(init, sep), sep + ls.last(), ls[0]);
        lemma_prefix_extends(join_lines(init, sep), sep + ls.last(), ls[0] + sep);
        assert(join_lines(init, sep) + (sep + ls.last()) =~= join_lines(ls, sep));
    }
}

/// Joined lines, two or more, end with the separator and the last line.
pub proof fn lemma_join_ends(ls: Seq<Seq<char>>, sep: Seq<char>)
    requires
        ls.len() >= 2,
    ensures
        has_suffix(join_lines(ls, sep), sep + ls.last()),
{
    let j = join_lines(ls, sep);
    let z = sep + ls.last();
    assert(j.skip(j.len() - z.len()) =~= z);
}

/// Every line between the first and the last stands in the joined text with
/// a separator on each side.
pub proof fn lemma_join_inner(ls: Seq<Seq<char>>, sep: Seq<char>, k: int)
    requires
        0 < k < ls.len() - 1,
    ensures
        contains_piece(join_lines(ls, sep), sep + ls[k] + sep),
    decreases ls.len(),
{
    let init = ls.drop_last();
    let ji = join_lines(init, sep);
    let z = sep + ls[k] + sep;
    if k == ls.len() - 2 {
        lemma_join_ends(init, sep);
        assert(init.last() == ls[k]);
        let i = ji.len() - (sep + ls[k]).len();
        let j = join_lines(ls, sep);
        assert(j =~= ji + sep + ls.last());
        assert(j.subrange(i, i + z.len()) =~= z);
    } else {
        lemma_join_inner(init, sep, k);
        assert(init[k] == ls[k]);
        lemma_piece_extends(ji, sep + ls.last(), z);
        assert(ji + (sep + ls.last()) =~= join_lines(ls, sep));
    }
}


/// `s` neither begins nor ends with white space.
pub open spec fn unpadded(s: Seq<char>) -> bool {
    s.len() == 0 || (!is_space(s[0]) && !is_space(s.last()))
}

/// Text without white space at its ends is left as it is by trimming.
pub proof fn law_trim_keeps_unpadded(s: Seq<char>)
    requires
        unpadded(s),
    ensures
        trim(s) == s,
{
    assert(trim_start(s) == s);
}

/// Stripping `p` from `p + v`, where `v` does not begin with `p`, leaves
/// exactly `v`, whatever its length.
pub proof fn law_strip_once(p: Seq<char>, v: Seq<char>)
    requires
        p.len() > 0,
        !has_prefix(v, p),
    ensures
        has_prefix(p + v, p),
        strip_repeated(p + v, p) == v,
{
    assert((p + v).take(p.len() as int) =~= p);
    assert((p + v).skip(p.len() as int) =~= v);
    assert(strip_repeated(v, p) == v);
    assert(strip_repeated(p + v, p) == strip_repeated((p + v).skip(p.len() as int), p));
}

/// Stripping `p` from text that does not begin with it changes nothing.
pub proof fn law_strip_nothing(s: Seq<char>, p: Seq<char>)
    requires
        !has_prefix(s, p),
    ensures
        strip_repeated(s, p) == s,
{
}


/// The number a decimal digit stands for; -1 for any other character.
pub open spec fn digit_value(c: char) -> int {
    if c == '0' { 0 }
    else if c == '1' { 1 }
    else if c == '2' { 2 }
    else if c == '3' { 3 }
    else if c == '4' { 4 }
    else if c == '5' { 5 }
    else if c == '6' { 6 }
    else if c == '7' { 7 }
    else if c == '8' { 8 }
    else if c == '9' { 9 }
    else { -1 }
}

/// The number the digits `s` stand for, most significant first.
pub open spec fn digits_value(s: Seq<char>) -> int
    decreases s.len(),
{
    if s.len() == 0 {
        0
    } else {
        digits_value(s.drop_last()) * 10 + digit_value(s.last())
    }
}

/// The decimal notation of `n` is made of digits only, has no leading zero
/// (but for 0 itself), and reads back as `n`.
pub proof fn law_decimal_reads_back(n: nat)
    ensures
        decimal(n).len() >= 1,
        forall|i: int| 0 <= i < decimal(n).len() ==> 0 <= #[trigger] digit_value(decimal(n)[i]) <= 9,
        n > 0 ==> decimal(n)[0] != '0',
        digits_value(decimal(n)) == n,
    decreases n,
{
    if n >= 10 {
        let q = n / 10;
        let r = n % 10;
        law_decimal_reads_back(q);
        let d = decimal(n);
        assert(d == decimal(q) + seq![digit_char(r)]);
        assert(d.drop_last() =~= decimal(q));
        assert(d.last() == digit_char(r));
        assert(digit_value(digit_char(r)) == r);
        assert(q * 10 + r == n);
        assert forall|i: int| 0 <= i < d.len() implies 0 <= #[trigger] digit_value(d[i]) <= 9 by {
            if i < decimal(q).len() {
                assert(d[i] == decimal(q)[i]);
            }
        }
        assert(d[0] == decimal(q)[0]);
        assert(digits_value(d) == digits_value(d.drop_last()) * 10 + digit_value(d.last()));
    } else {
        let d = decimal(n);
        assert(d.drop_last() =~= Seq::<char>::empty());
        assert(digits_value(d) == digits_value(d.drop_last()) * 10 + digit_value(d.last()));
    }
}

/// Trimming keeps a contiguous piece of the text and removes white space only:
/// the result has no white space at its ends, and everything cut off before
/// and after it is white space.
pub proof fn law_trim_cuts_only_space(s: Seq<char>)
    ensures
        unpadded(trim(s)),
        exists|i: int, j: int|
            0 <= i <= j <= s.len() && trim(s) == s.subrange(i, j) && (forall|k: int|
                0 <= k < i ==> is_space(#[trigger] s[k])) && (forall|k: int|
                j <= k < s.len() ==> is_space(#[trigger] s[k])),
{
    lemma_trim_start(s);
    let i = s.len() - trim_start(s).len();
    let t = trim_start(s);
    lemma_trim_end(t);
    let j = i + trim_end(t).len();
    assert(trim(s) =~= s.subrange(i, j));
    assert forall|k: int| j <= k < s.len() implies is_space(#[trigger] s[k]) by {
        assert(s[k] == t[k - i]);
    }
    if trim(s).len() > 0 {
        assert(trim(s)[0] == t[0]);
    }
}

proof fn lemma_trim_start(s: Seq<char>)
    ensures
        trim_start(s).len() <= s.len(),
        trim_start(s) == s.skip(s.len() - trim_start(s).len()),
        forall|k: int| 0 <= k < s.len() - trim_start(s).len() ==> is_space(#[trigger] s[k]),
        trim_start(s).len() > 0 ==> !is_space(trim_start(s)[0]),
    decreases s.len(),
{
    if s.len() > 0 && is_space(s[0]) {
        lemma_trim_start(s.drop_first());
        let t = trim_start(s.drop_first());
        assert(s.skip(s.len() - t.len()) =~= s.drop_first().skip(s.drop_first().len() - t.len()));
        assert forall|k: int| 0 <= k < s.len() - t.len() implies is_space(#[trigger] s[k]) by {
            if k > 0 {
                assert(s[k] == s.drop_first()[k - 1]);
            }
        }
    } else {
        assert(s.skip(0) =~= s);
    }
}

proof fn lemma_trim_end(s: Seq<char>)
    ensures
        trim_end(s).len() <= s.len(),
        trim_end(s) == s.take(trim_end(s).len() as int),
        forall|k: int| trim_end(s).len() <= k < s.len() ==> is_space(#[trigger] s[k]),
        trim_end(s).len() > 0 ==> !is_space(trim_end(s).last()),
        trim_end(s).len() > 0 && s.len() > 0 ==> trim_end(s)[0] == s[0],
    decreases s.len(),
{
    if s.len() > 0 && is_space(s.last()) {
        lemma_trim_end(s.drop_last());
        let t = trim_end(s.drop_last());
        assert(s.take(t.len() as int) =~= s.drop_last().take(t.len() as int));
        assert forall|k: int| t.len() <= k < s.len() implies is_space(#[trigger] s[k]) by {
            if k < s.len() - 1 {
                assert(s[k] == s.drop_last()[k]);
            }
        }
    } else {
        assert(s.take(s.len() as int) =~= s);
    }
}

/// Stripping a repeated prefix leaves an end piece of the text that no
/// longer begins with the prefix.
pub proof fn law_strip_leaves_suffix(s: Seq<char>, p: Seq<char>)
    ensures
        has_suffix(s, strip_repeated(s, p)),
        p.len() > 0 ==> !has_prefix(strip_repeated(s, p), p),
    decreases s.len(),
{
    if p.len() > 0 && has_prefix(s, p) {
        let rest = s.skip(p.len() as int);
        law_strip_leaves_suffix(rest, p);
        let r = strip_repeated(rest, p);
        assert(s.skip(s.len() - r.len()) =~= rest.skip(rest.len() - r.len()));
    } else {
        assert(s.skip(0) =~= s);
    }
}


/// `p` is a prefix of `s` exactly when `s` is `p` followed by the rest of `s`.
pub proof fn law_prefix_characterization(s: Seq<char>, p: Seq<char>, v: Seq<char>)
    ensures
        has_prefix(p + v, p),
        has_prefix(s, p) <==> (p.len() <= s.len() && s == p + s.skip(p.len() as int)),
{
    assert((p + v).take(p.len() as int) =~= p);
    if has_prefix(s, p) {
        assert(s =~= p + s.skip(p.len() as int));
    }
    if p.len() <= s.len() && s == p + s.skip(p.len() as int) {
        assert(s.take(p.len() as int) =~= p);
    }
}

} // verus!
