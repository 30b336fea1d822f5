//! Character-level text helpers with their mathematical meaning.
//!
//! Text is handled as sequences of `char`; `String` appears only at the
//! edges of the library.

use vstd::prelude::*;

verus! {

// ---------------------------------------------------------------------------
// Specifications
// ---------------------------------------------------------------------------

/// The views of a sequence of character vectors.
pub open spec fn views(v: Seq<Vec<char>>) -> Seq<Seq<char>> {
    v.map_values(|x: Vec<char>| x@)
}

/// `p` is a prefix of `s`.
pub open spec fn starts_with(s: Seq<char>, p: Seq<char>) -> bool {
    p.len() <= s.len() && s.take(p.len() as int) == p
}

/// `t` occurs in `s` (the empty text occurs everywhere).
pub open spec fn contains(s: Seq<char>, t: Seq<char>) -> bool
    decreases s.len(),
{
    if s.len() < t.len() {
        false
    } else if starts_with(s, t) {
        true
    } else if s.len() == 0 {
        false
    } else {
        contains(s.drop_first(), t)
    }
}

/// Unicode `White_Space`, the property that `char::is_whitespace` tests.
pub open spec fn is_ws(c: char) -> bool {
    ||| ('\u{9}' <= c && c <= '\u{d}')
    ||| c == ' '
    ||| c == '\u{85}'
    ||| c == '\u{a0}'
    ||| c == '\u{1680}'
    ||| ('\u{2000}' <= c && c <= '\u{200a}')
    ||| c == '\u{2028}'
    ||| c == '\u{2029}'
    ||| c == '\u{202f}'
    ||| c == '\u{205f}'
    ||| c == '\u{3000}'
}

/// `s` without its leading white space.
pub open spec fn trim_start(s: Seq<char>) -> Seq<char>
    decreases s.len(),
{
    if s.len() > 0 && is_ws(s[0]) {
        trim_start(s.drop_first())
    } else {
        s
    }
}

/// `s` without its trailing white space.
pub open spec fn trim_end(s: Seq<char>) -> Seq<char>
    decreases s.len(),
{
    if s.len() > 0 && is_ws(s.last()) {
        trim_end(s.drop_last())
    } else {
        s
    }
}

/// `s` without leading and trailing white space.
pub open spec fn trim(s: Seq<char>) -> Seq<char> {
    trim_end(trim_start(s))
}

/// The pieces of `s` between the occurrences of `sep` (one more than there are occurrences).
pub open spec fn split_on(s: Seq<char>, sep: char) -> Seq<Seq<char>>
    decreases s.len(),
{
    if s.len() == 0 {
        seq![Seq::<char>::empty()]
    } else {
        let p = split_on(s.drop_last(), sep);
        if s.last() == sep {
            p.push(Seq::<char>::empty())
        } else {
            p.update(p.len() - 1, p.last().push(s.last()))
        }
    }
}

/// A line ended by `\n` also loses a `\r` before it.
pub open spec fn strip_cr(l: Seq<char>) -> Seq<char> {
    if l.len() > 0 && l.last() == '\r' {
        l.drop_last()
    } else {
        l
    }
}

/// The lines of `s` as `str::lines` gives them: split at `\n` (and `\r\n`),
/// with no line after a final line ending.
pub open spec fn lines_of(s: Seq<char>) -> Seq<Seq<char>> {
    let p = split_on(s, '\n');
    let ended = p.drop_last().map_values(|l: Seq<char>| strip_cr(l));
    if p.last().len() == 0 {
        ended
    } else {
        ended.push(p.last())
    }
}

/// The items of `ls` joined with `sep` between them.
pub open spec fn join(ls: Seq<Seq<char>>, sep: Seq<char>) -> Seq<char>
    decreases ls.len(),
{
    if ls.len() == 0 {
        Seq::empty()
    } else if ls.len() == 1 {
        ls[0]
    } else {
        join(ls.drop_last(), sep) + sep + ls.last()
    }
}

/// `s` with its first occurrence of `p` replaced by `r` (`str::replacen(p, r, 1)`).
pub open spec fn replace_first(s: Seq<char>, p: Seq<char>, r: Seq<char>) -> Seq<char>
    decreases s.len(),
{
    if s.len() < p.len() {
        s
    } else if starts_with(s, p) {
        r + s.skip(p.len() as int)
    } else if s.len() == 0 {
        s
    } else {
        seq![s[0]] + replace_first(s.drop_first(), p, r)
    }
}

/// `s` with every occurrence of `p`, taken left to right without overlap,
/// replaced by `r` (`str::replace`); an empty `p` occurs before every
/// character and at the end.
pub open spec fn replace_all(s: Seq<char>, p: Seq<char>, r: Seq<char>) -> Seq<char>
    decreases s.len(),
{
    if p.len() == 0 {
        if s.len() == 0 {
            r
        } else {
            r + seq![s[0]] + replace_all(s.drop_first(), p, r)
        }
    } else if s.len() < p.len() {
        s
    } else if starts_with(s, p) {
        r + replace_all(s.skip(p.len() as int), p, r)
    } else {
        seq![s[0]] + replace_all(s.drop_first(), p, r)
    }
}

/// The digit character for `d < 10`.
pub open spec fn digit(d: nat) -> char {
    ((d + 48) as u8) as char
}

/// The decimal notation of `n`.
pub open spec fn dec(n: nat) -> Seq<char>
    decreases n,
{
    if n < 10 {
        seq![digit(n)]
    } else {
        dec(n / 10).push(digit(n % 10))
    }
}

/// `n` spaces.
pub open spec fn spaces(n: nat) -> Seq<char> {
    Seq::new(n, |i: int| ' ')
}

/// `s` right-aligned in a field of `w` characters.
pub open spec fn pad_left(s: Seq<char>, w: nat) -> Seq<char> {
    if s.len() < w {
        spaces((w - s.len()) as nat) + s
    } else {
        s
    }
}

/// The length in bytes of the UTF-8 encoding of `c`.
pub open spec fn utf8_len(c: char) -> nat {
    if (c as u32) < 0x80 {
        1
    } else if (c as u32) < 0x800 {
        2
    } else if (c as u32) < 0x10000 {
        3
    } else {
        4
    }
}

/// The length in bytes of the UTF-8 encoding of `s`.
pub open spec fn utf8_size(s: Seq<char>) -> nat
    decreases s.len(),
{
    if s.len() == 0 {
        0
    } else {
        utf8_size(s.drop_last()) + utf8_len(s.last())
    }
}

/// The first `n` characters of `s` (all of them if it is shorter).
pub open spec fn take_chars(s: Seq<char>, n: nat) -> Seq<char> {
    if s.len() <= n {
        s
    } else {
        s.take(n as int)
    }
}

// ---------------------------------------------------------------------------
// Lemmas
// ---------------------------------------------------------------------------

pub proof fn lemma_split_nonempty(s: Seq<char>, sep: char)
    ensures
        split_on(s, sep).len() >= 1,
    decreases s.len(),
{
    if s.len() > 0 {
        lemma_split_nonempty(s.drop_last(), sep);
    }
}

pub proof fn lemma_trim_start_suffix(s: Seq<char>, i: int)
    requires
        0 <= i <= s.len(),
        forall|j: int| 0 <= j < i ==> is_ws(#[trigger] s[j]),
    ensures
        trim_start(s) == trim_start(s.skip(i)),
    decreases i,
{
    if i > 0 {
        assert(s.skip(1) =~= s.drop_first());
        lemma_trim_start_suffix(s.drop_first(), i - 1);
        assert(s.drop_first().skip(i - 1) =~= s.skip(i));
    } else {
        assert(s.skip(0) =~= s);
    }
}

pub proof fn lemma_trim_end_prefix(s: Seq<char>, j: int)
    requires
        0 <= j <= s.len(),
        forall|k: int| j <= k < s.len() ==> is_ws(#[trigger] s[k]),
    ensures
        trim_end(s) == trim_end(s.take(j)),
    decreases s.len() - j,
{
    if j < s.len() {
        assert(s.take(s.len() - 1) =~= s.drop_last());
        lemma_trim_end_prefix(s.drop_last(), j);
        assert(s.drop_last().take(j) =~= s.take(j));
    } else {
        assert(s.take(j) =~= s);
    }
}

pub proof fn lemma_dec_len(n: nat)
    ensures
        1 <= dec(n).len(),
        n < 10 ==> dec(n).len() == 1,
        n < 100 ==> dec(n).len() <= 2,
        n < 1000 ==> dec(n).len() <= 3,
        n < 10000 ==> dec(n).len() <= 4,
        n >= 10 ==> dec(n).len() >= 2,
        n >= 100 ==> dec(n).len() >= 3,
        n >= 1000 ==> dec(n).len() >= 4,
    decreases n,
{
    if n >= 10 {
        lemma_dec_len(n / 10);
    }
}

// ---------------------------------------------------------------------------
// Executable helpers
// ---------------------------------------------------------------------------

/// The characters of `s`, in order.
pub fn chars_of(s: &str) -> (v: Vec<char>)
    ensures
        v@ == s@,
{
    let mut v: Vec<char> = Vec::new();
    for c in it: s.chars()
        invariant
            v@ == it.seq().take(it.index() as int),
    {
        v.push(c);
    }
    v
}

/// A `String` holding the characters of `v`.
///
/// Trusted: collects the characters with std's `FromIterator<char>` for
/// `String`, which keeps them in order.
#[verifier::external_body]
pub fn string_of(v: &[char]) -> (s: String)
    ensures
        s@ == v@,
{
    v.iter().collect()
}

/// Appends the characters of `s` to `out`.
pub fn push_str(out: &mut Vec<char>, s: &str)
    ensures
        final(out)@ == old(out)@ + s@,
{
    let v = chars_of(s);
    extend(out, v.as_slice());
}

/// Appends `s` to `out`.
pub fn extend(out: &mut Vec<char>, s: &[char])
    ensures
        final(out)@ == old(out)@ + s@,
{
    let ghost start = out@;
    let mut i: usize = 0;
    while i < s.len()
        invariant
            i <= s@.len(),
            out@ == start + s@.take(i as int),
        decreases s@.len() - i,
    {
        out.push(s[i]);
        i = i + 1;
        assert(s@.take(i as int) =~= s@.take(i - 1).push(s@[i - 1]));
    }
    assert(s@.take(i as int) =~= s@);
}

/// A copy of `s`.
pub fn copy(s: &[char]) -> (r: Vec<char>)
    ensures
        r@ == s@,
{
    let mut r: Vec<char> = Vec::new();
    extend(&mut r, s);
    r
}

/// Whether `s` and `t` hold the same characters.
pub fn same(s: &[char], t: &[char]) -> (r: bool)
    ensures
        r == (s@ == t@),
{
    if s.len() != t.len() {
        return false;
    }
    let mut i: usize = 0;
    while i < s.len()
        invariant
            s@.len() == t@.len(),
            i <= s@.len(),
            forall|j: int| 0 <= j < i ==> s@[j] == t@[j],
        decreases s@.len() - i,
    {
        if s[i] != t[i] {
            return false;
        }
        i = i + 1;
    }
    assert(s@ =~= t@);
    true
}

/// Whether `p` occurs in `s` at position `i`.
pub fn matches_at(s: &[char], i: usize, p: &[char]) -> (r: bool)
    requires
        i <= s@.len(),
    ensures
        r == starts_with(s@.skip(i as int), p@),
{
    if s.len() - i < p.len() {
        return false;
    }
    let n = s.len();
    let mut j: usize = 0;
    while j < p.len()
        invariant
            n == s@.len(),
            i <= s@.len(),
            i + p@.len() <= s@.len(),
            j <= p@.len(),
            forall|k: int| 0 <= k < j ==> s@[i + k] == p@[k],
        decreases p@.len() - j,
    {
        assert(i + j < s@.len());
        if s[i + j] != p[j] {
            assert(s@.skip(i as int).take(p@.len() as int)[j as int] != p@[j as int]);
            return false;
        }
        j = j + 1;
    }
    assert(s@.skip(i as int).take(p@.len() as int) =~= p@);
    true
}

/// Whether `s` begins with `p`.
pub fn has_prefix(s: &[char], p: &str) -> (r: bool)
    ensures
        r == starts_with(s@, p@),
{
    let pv = chars_of(p);
    let r = matches_at(s, 0, pv.as_slice());
    assert(s@.skip(0) =~= s@);
    r
}

proof fn lemma_contains_from(s: Seq<char>, t: Seq<char>, i: int)
    requires
        0 <= i <= s.len(),
        forall|j: int| 0 <= j < i ==> !#[trigger] starts_with(s.skip(j), t),
    ensures
        contains(s, t) == contains(s.skip(i), t),
    decreases i,
{
    if i > 0 {
        assert(s.skip(0) =~= s);
        assert(!starts_with(s.skip(0), t));
        if s.len() >= t.len() {
            assert forall|j: int| 0 <= j < i - 1 implies !#[trigger] starts_with(
                s.drop_first().skip(j),
                t,
            ) by {
                assert(s.drop_first().skip(j) =~= s.skip(j + 1));
            }
            lemma_contains_from(s.drop_first(), t, i - 1);
            assert(s.drop_first().skip(i - 1) =~= s.skip(i));
        } else {
            lemma_contains_short(s.skip(i), t);
        }
    } else {
        assert(s.skip(0) =~= s);
    }
}

proof fn lemma_contains_short(s: Seq<char>, t: Seq<char>)
    requires
        s.len() < t.len(),
    ensures
        !contains(s, t),
{
}

/// Whether `t` occurs in `s`.
pub fn contains_chars(s: &[char], t: &[char]) -> (r: bool)
    ensures
        r == contains(s@, t@),
{
    if s.len() < t.len() {
        return false;
    }
    if t.len() == 0 {
        assert(s@.take(0) =~= t@);
        return true;
    }
    let last = s.len() - t.len();
    let mut i: usize = 0;
    loop
        invariant
            1 <= t@.len() <= s@.len(),
            last == s@.len() - t@.len(),
            i <= last,
            forall|j: int| 0 <= j < i ==> !#[trigger] starts_with(s@.skip(j), t@),
        decreases last - i,
    {
        if matches_at(s, i, t) {
            proof {
                lemma_contains_from(s@, t@, i as int);
            }
            return true;
        }
        if i == last {
            proof {
                lemma_contains_from(s@, t@, i as int + 1);
                lemma_contains_short(s@.skip(i as int + 1), t@);
            }
            return false;
        }
        i = i + 1;
    }
}

/// Whether `t` (a literal) occurs in `s`.
pub fn contains_str(s: &[char], t: &str) -> (r: bool)
    ensures
        r == contains(s@, t@),
{
    let tv = chars_of(t);
    contains_chars(s, tv.as_slice())
}

/// `char::is_whitespace`.
pub fn is_whitespace(c: char) -> (r: bool)
    ensures
        r == is_ws(c),
{
    ('\u{9}' <= c && c <= '\u{d}') || c == ' ' || c == '\u{85}' || c == '\u{a0}' || c
        == '\u{1680}' || ('\u{2000}' <= c && c <= '\u{200a}') || c == '\u{2028}' || c
        == '\u{2029}' || c == '\u{202f}' || c == '\u{205f}' || c == '\u{3000}'
}

/// The number of leading white-space characters of `s`.
pub fn leading_ws(s: &[char]) -> (n: usize)
    ensures
        n <= s@.len(),
        trim_start(s@) == s@.skip(n as int),
        forall|j: int| 0 <= j < n ==> is_ws(#[trigger] s@[j]),
{
    let mut i: usize = 0;
    while i < s.len() && is_whitespace(s[i])
        invariant
            i <= s@.len(),
            forall|j: int| 0 <= j < i ==> is_ws(#[trigger] s@[j]),
        decreases s@.len() - i,
    {
        i = i + 1;
    }
    proof {
        lemma_trim_start_suffix(s@, i as int);
    }
    i
}

/// `s` without leading and trailing white space.
pub fn trim_chars(s: &[char]) -> (r: Vec<char>)
    ensures
        r@ == trim(s@),
{
    let i = leading_ws(s);
    let mut j: usize = s.len();
    while j > i && is_whitespace(s[j - 1])
        invariant
            i <= j <= s@.len(),
            forall|k: int| j <= k < s@.len() ==> is_ws(#[trigger] s@[k]),
        decreases j,
    {
        j = j - 1;
    }
    let rest = &s[i..s.len()];
    let ghost t = s@.skip(i as int);
    proof {
        assert(rest@ =~= t);
        assert forall|k: int| j - i <= k < t.len() implies is_ws(#[trigger] t[k]) by {
            assert(t[k] == s@[k + i]);
        }
        lemma_trim_end_prefix(t, j - i);
        if j > i {
            assert(!is_ws(t[j - i - 1]));
            assert(t.take(j - i).last() == t[j - i - 1]);
        } else {
            assert(t.take(0).len() == 0);
        }
        assert(t.take(j - i) =~= s@.subrange(i as int, j as int));
    }
    let out = &s[i..j];
    copy(out)
}

/// The first `n` characters of `s`.
pub fn take_chars_exec(s: &[char], n: usize) -> (r: Vec<char>)
    ensures
        r@ == take_chars(s@, n as nat),
{
    if s.len() <= n {
        copy(s)
    } else {
        let t = &s[0..n];
        assert(t@ =~= s@.take(n as int));
        copy(t)
    }
}

pub proof fn lemma_split_step(s: Seq<char>, i: int, sep: char)
    requires
        0 <= i < s.len(),
    ensures
        s.take(i + 1).drop_last() == s.take(i),
        s.take(i + 1).last() == s[i],
        split_on(s.take(i + 1), sep) == (if s[i] == sep {
            split_on(s.take(i), sep).push(Seq::<char>::empty())
        } else {
            split_on(s.take(i), sep).update(
                split_on(s.take(i), sep).len() - 1,
                split_on(s.take(i), sep).last().push(s[i]),
            )
        }),
{
    assert(s.take(i + 1).drop_last() =~= s.take(i));
}

/// The lines of `s` (`str::lines`).
pub fn lines_chars(s: &[char]) -> (r: Vec<Vec<char>>)
    ensures
        views(r@) == lines_of(s@),
{
    let mut out: Vec<Vec<char>> = Vec::new();
    let mut cur: Vec<char> = Vec::new();
    let mut i: usize = 0;
    proof {
        assert(s@.take(0) =~= Seq::<char>::empty());
    }
    while i < s.len()
        invariant
            i <= s@.len(),
            split_on(s@.take(i as int), '\n').len() == out@.len() + 1,
            cur@ == split_on(s@.take(i as int), '\n').last(),
            forall|k: int|
                0 <= k < out@.len() ==> #[trigger] out@[k]@ == strip_cr(
                    split_on(s@.take(i as int), '\n')[k],
                ),
        decreases s@.len() - i,
    {
        proof {
            lemma_split_step(s@, i as int, '\n');
            lemma_split_nonempty(s@.take(i as int), '\n');
        }
        let c = s[i];
        if c == '\n' {
            let n = cur.len();
            if n > 0 && cur[n - 1] == '\r' {
                cur.pop();
            }
            let done = cur;
            out.push(done);
            cur = Vec::new();
        } else {
            cur.push(c);
        }
        i = i + 1;
    }
    proof {
        assert(s@.take(i as int) =~= s@);
        lemma_split_nonempty(s@, '\n');
    }
    let ghost p = split_on(s@, '\n');
    let ghost ended = p.drop_last().map_values(|l: Seq<char>| strip_cr(l));
    if cur.len() > 0 {
        out.push(cur);
        assert(views(out@) =~= ended.push(p.last()));
    } else {
        assert(views(out@) =~= ended);
    }
    out
}

/// The items of `ls` joined with the character `sep`.
pub fn join_chars(ls: &Vec<Vec<char>>, sep: char) -> (r: Vec<char>)
    ensures
        r@ == join(views(ls@), seq![sep]),
{
    let mut out: Vec<char> = Vec::new();
    let mut i: usize = 0;
    while i < ls.len()
        invariant
            i <= ls@.len(),
            out@ == join(views(ls@).take(i as int), seq![sep]),
        decreases ls@.len() - i,
    {
        let ghost before = views(ls@).take(i as int);
        if i > 0 {
            out.push(sep);
        }
        extend(&mut out, ls[i].as_slice());
        i = i + 1;
        proof {
            let now = views(ls@).take(i as int);
            assert(now.drop_last() =~= before);
            if i == 1 {
                assert(before.len() == 0);
            }
        }
    }
    assert(views(ls@).take(i as int) =~= views(ls@));
    out
}

/// The decimal notation of `n`, appended to `out`.
pub fn push_dec(out: &mut Vec<char>, n: usize)
    ensures
        final(out)@ == old(out)@ + dec(n as nat),
    decreases n,
{
    if n >= 10 {
        push_dec(out, n / 10);
    }
    let d: u8 = (n % 10) as u8;
    let c: char = (d + 48) as char;
    assert(c == digit((n % 10) as nat));
    out.push(c);
}

/// The decimal notation of `n`, right-aligned in four columns, appended to `out`.
pub fn push_dec_padded4(out: &mut Vec<char>, n: usize)
    ensures
        final(out)@ == old(out)@ + pad_left(dec(n as nat), 4),
{
    proof {
        lemma_dec_len(n as nat);
    }
    let ghost start = out@;
    let width: usize = if n < 10 {
        1
    } else if n < 100 {
        2
    } else if n < 1000 {
        3
    } else {
        4
    };
    let mut k: usize = width;
    while k < 4
        invariant
            width <= k <= 4,
            out@ == start + spaces((k - width) as nat),
        decreases 4 - k,
    {
        out.push(' ');
        k = k + 1;
        assert(spaces((k - width) as nat) =~= spaces((k - 1 - width) as nat).push(' '));
    }
    push_dec(out, n);
    proof {
        let d = dec(n as nat);
        if n < 10 {
            assert(d.len() == 1);
        } else if n < 100 {
            assert(d.len() == 2) by {
                lemma_dec_len((n / 10) as nat);
            }
        } else if n < 1000 {
            assert(d.len() == 3) by {
                lemma_dec_len((n / 10) as nat);
                lemma_dec_len((n / 100) as nat);
            }
        } else {
            assert(d.len() >= 4) by {
                lemma_dec_len((n / 10) as nat);
                lemma_dec_len((n / 100) as nat);
                lemma_dec_len((n / 1000) as nat);
            }
        }
        if d.len() < 4 {
            assert(spaces((4 - width) as nat) == spaces((4 - d.len()) as nat));
        } else {
            assert(spaces(0) =~= Seq::<char>::empty());
        }
        assert(out@ =~= start + pad_left(d, 4));
    }
}

/// `s` with its first occurrence of `p` replaced by `r`.
pub fn replace_first_chars(s: &[char], p: &[char], r: &[char]) -> (out: Vec<char>)
    ensures
        out@ == replace_first(s@, p@, r@),
{
    let mut out: Vec<char> = Vec::new();
    let mut i: usize = 0;
    assert(s@.skip(0) =~= s@);
    while i < s.len()
        invariant
            i <= s@.len(),
            replace_first(s@, p@, r@) == out@ + replace_first(s@.skip(i as int), p@, r@),
        ensures
            i <= s@.len(),
            replace_first(s@, p@, r@) == out@ + replace_first(s@.skip(i as int), p@, r@),
            s@.len() - i < p@.len() || i == s@.len(),
        decreases s@.len() - i,
    {
        let ghost rest = s@.skip(i as int);
        if s.len() - i < p.len() {
            break;
        }
        if matches_at(s, i, p) {
            extend(&mut out, r);
            let tail = &s[i + p.len()..s.len()];
            assert(tail@ =~= rest.skip(p@.len() as int));
            extend(&mut out, tail);
            assert(out@ =~= replace_first(s@, p@, r@));
            return out;
        }
        out.push(s[i]);
        i = i + 1;
        assert(rest.drop_first() =~= s@.skip(i as int));
        assert(seq![rest[0]] == seq![s@[i - 1]]);
        assert(out@ + replace_first(s@.skip(i as int), p@, r@) =~= out@.drop_last() + (seq![
            rest[0],
        ] + replace_first(rest.drop_first(), p@, r@)));
    }
    let ghost rest = s@.skip(i as int);
    if i == s.len() && p.len() == 0 {
        extend(&mut out, r);
        assert(rest.len() == 0);
        assert(rest.take(0) =~= p@);
        assert(replace_first(rest, p@, r@) =~= r@ + rest.skip(0));
        assert(rest.skip(0) =~= Seq::<char>::empty());
        assert(out@ =~= replace_first(s@, p@, r@));
        return out;
    }
    let tail = &s[i..s.len()];
    assert(tail@ =~= rest);
    extend(&mut out, tail);
    out
}

/// `s` with every occurrence of `p` replaced by `r`.
pub fn replace_all_chars(s: &[char], p: &[char], r: &[char]) -> (out: Vec<char>)
    ensures
        out@ == replace_all(s@, p@, r@),
{
    let mut out: Vec<char> = Vec::new();
    let mut i: usize = 0;
    assert(s@.skip(0) =~= s@);
    if p.len() == 0 {
        while i < s.len()
            invariant
                i <= s@.len(),
                p@.len() == 0,
                replace_all(s@, p@, r@) == out@ + replace_all(s@.skip(i as int), p@, r@),
            decreases s@.len() - i,
        {
            let ghost rest = s@.skip(i as int);
            let ghost before = out@;
            extend(&mut out, r);
            out.push(s[i]);
            i = i + 1;
            assert(rest.drop_first() =~= s@.skip(i as int));
            assert(out@ + replace_all(s@.skip(i as int), p@, r@) =~= before + (r@ + seq![rest[0]]
                + replace_all(rest.drop_first(), p@, r@)));
        }
        extend(&mut out, r);
        assert(s@.skip(i as int).len() == 0);
        return out;
    }
    while i < s.len()
        invariant
            i <= s@.len(),
            p@.len() > 0,
            replace_all(s@, p@, r@) == out@ + replace_all(s@.skip(i as int), p@, r@),
        ensures
            i <= s@.len(),
            p@.len() > 0,
            replace_all(s@, p@, r@) == out@ + replace_all(s@.skip(i as int), p@, r@),
            s@.len() - i < p@.len() || i == s@.len(),
        decreases s@.len() - i,
    {
        let ghost rest = s@.skip(i as int);
        let ghost before = out@;
        if s.len() - i < p.len() {
            break;
        }
        if matches_at(s, i, p) {
            extend(&mut out, r);
            i = i + p.len();
            assert(rest.skip(p@.len() as int) =~= s@.skip(i as int));
            assert(out@ + replace_all(s@.skip(i as int), p@, r@) =~= before + (r@ + replace_all(
                rest.skip(p@.len() as int),
                p@,
                r@,
            )));
        } else {
            out.push(s[i]);
            i = i + 1;
            assert(rest.drop_first() =~= s@.skip(i as int));
            assert(out@ + replace_all(s@.skip(i as int), p@, r@) =~= before + (seq![rest[0]]
                + replace_all(rest.drop_first(), p@, r@)));
        }
    }
    let ghost rest = s@.skip(i as int);
    let tail = &s[i..s.len()];
    assert(tail@ =~= rest);
    extend(&mut out, tail);
    out
}

} // verus!

verus! {

/// Whether `s` holds exactly the characters of the literal `lit`.
pub fn eq_str(s: &[char], lit: &str) -> (r: bool)
    ensures
        r == (s@ == lit@),
{
    let l = chars_of(lit);
    same(s, l.as_slice())
}

} // verus!

verus! {

/// A `String` holding the literal `lit`.
pub fn string_from(lit: &str) -> (r: String)
    ensures
        r@ == lit@,
{
    let v = chars_of(lit);
    string_of(v.as_slice())
}

/// The pieces of `s` between the occurrences of `sep`.
pub fn split_chars(s: &[char], sep: char) -> (r: Vec<Vec<char>>)
    ensures
        views(r@) == split_on(s@, sep),
{
    let mut out: Vec<Vec<char>> = Vec::new();
    let mut cur: Vec<char> = Vec::new();
    let mut i: usize = 0;
    assert(s@.take(0) =~= Seq::<char>::empty());
    while i < s.len()
        invariant
            i <= s@.len(),
            split_on(s@.take(i as int), sep).len() == out@.len() + 1,
            cur@ == split_on(s@.take(i as int), sep).last(),
            forall|k: int|
                0 <= k < out@.len() ==> #[trigger] out@[k]@ == split_on(s@.take(i as int), sep)[k],
        decreases s@.len() - i,
    {
        proof {
            lemma_split_step(s@, i as int, sep);
            lemma_split_nonempty(s@.take(i as int), sep);
        }
        let c = s[i];
        if c == sep {
            let done = cur;
            out.push(done);
            cur = Vec::new();
        } else {
            cur.push(c);
        }
        i = i + 1;
    }
    proof {
        assert(s@.take(i as int) =~= s@);
        lemma_split_nonempty(s@, sep);
    }
    out.push(cur);
    assert(views(out@) =~= split_on(s@, sep));
    out
}

} // verus!
