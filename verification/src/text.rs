//! Character-level text utilities shared by the parsers and renderers.
//!
//! Strings are handled as sequences of `char` (their Verus view); every
//! helper states its result over `Seq<char>`.
use vstd::prelude::*;

verus! {

/// The Unicode `White_Space` property, as used by `char::is_whitespace`,
/// `str::trim` and `str::split_whitespace`.
pub open spec fn is_ws(c: char) -> bool {
    c == ' ' || ('\t' <= c && c <= '\r') || c == '\u{85}' || c == '\u{a0}' || c == '\u{1680}'
        || ('\u{2000}' <= c && c <= '\u{200a}') || c == '\u{2028}' || c == '\u{2029}'
        || c == '\u{202f}' || c == '\u{205f}' || c == '\u{3000}'
}

/// Executable form of [`is_ws`].
pub fn char_is_ws(c: char) -> (r: bool)
    ensures
        r == is_ws(c),
{
    c == ' ' || ('\t' <= c && c <= '\r') || c == '\u{85}' || c == '\u{a0}' || c == '\u{1680}'
        || ('\u{2000}' <= c && c <= '\u{200a}') || c == '\u{2028}' || c == '\u{2029}'
        || c == '\u{202f}' || c == '\u{205f}' || c == '\u{3000}'
}

/// Number of leading whitespace characters of `s`.
pub open spec fn leading_ws(s: Seq<char>) -> nat
    decreases s.len(),
{
    if s.len() > 0 && is_ws(s[0]) {
        1 + leading_ws(s.drop_first())
    } else {
        0
    }
}

/// Number of trailing whitespace characters of `s`.
pub open spec fn trailing_ws(s: Seq<char>) -> nat
    decreases s.len(),
{
    if s.len() > 0 && is_ws(s.last()) {
        1 + trailing_ws(s.drop_last())
    } else {
        0
    }
}

/// `str::trim_start`.
pub open spec fn trim_start(s: Seq<char>) -> Seq<char> {
    s.skip(leading_ws(s) as int)
}

/// `str::trim_end`.
pub open spec fn trim_end(s: Seq<char>) -> Seq<char> {
    s.take(s.len() - trailing_ws(s))
}

/// `str::trim`.
pub open spec fn trim(s: Seq<char>) -> Seq<char> {
    trim_end(trim_start(s))
}

pub proof fn lemma_leading_ws_bound(s: Seq<char>)
    ensures
        leading_ws(s) <= s.len(),
        forall|i: int| 0 <= i < leading_ws(s) ==> is_ws(#[trigger] s[i]),
        leading_ws(s) < s.len() ==> !is_ws(s[leading_ws(s) as int]),
    decreases s.len(),
{
    if s.len() > 0 && is_ws(s[0]) {
        lemma_leading_ws_bound(s.drop_first());
        assert forall|i: int| 0 <= i < leading_ws(s) implies is_ws(#[trigger] s[i]) by {
            if i > 0 {
                assert(s[i] == s.drop_first()[i - 1]);
            }
        }
    }
}

pub proof fn lemma_trailing_ws_bound(s: Seq<char>)
    ensures
        trailing_ws(s) <= s.len(),
        forall|i: int| s.len() - trailing_ws(s) <= i < s.len() ==> is_ws(#[trigger] s[i]),
        trailing_ws(s) < s.len() ==> !is_ws(s[s.len() - trailing_ws(s) - 1]),
    decreases s.len(),
{
    if s.len() > 0 && is_ws(s.last()) {
        lemma_trailing_ws_bound(s.drop_last());
        assert forall|i: int| s.len() - trailing_ws(s) <= i < s.len() implies is_ws(
            #[trigger] s[i],
        ) by {
            if i < s.len() - 1 {
                assert(s[i] == s.drop_last()[i]);
            }
        }
    }
}

/// Count leading whitespace of `v[from..to]`.
pub fn count_leading_ws(v: &Vec<char>, from: usize, to: usize) -> (n: usize)
    requires
        from <= to <= v.len(),
    ensures
        n == leading_ws(v@.subrange(from as int, to as int)),
{
    let mut i = to;
    // Scan backwards so that the recursive definition unfolds naturally.
    let mut n: usize = 0;
    let ghost s = v@.subrange(from as int, to as int);
    // Forward scan: find the first non-whitespace position.
    let mut j = from;
    while j < to && char_is_ws(v[j])
        invariant
            from <= j <= to <= v.len(),
            s == v@.subrange(from as int, to as int),
            forall|k: int| from <= k < j ==> is_ws(#[trigger] v@[k]),
        decreases to - j,
    {
        j = j + 1;
    }
    proof {
        lemma_leading_ws_exact(s, (j - from) as nat);
    }
    j - from
}

/// `leading_ws` is determined by the first non-whitespace position.
pub proof fn lemma_leading_ws_exact(s: Seq<char>, k: nat)
    requires
        k <= s.len(),
        forall|i: int| 0 <= i < k ==> is_ws(#[trigger] s[i]),
        k < s.len() ==> !is_ws(s[k as int]),
    ensures
        leading_ws(s) == k,
    decreases k,
{
    if k > 0 {
        assert(is_ws(s[0]));
        let t = s.drop_first();
        assert forall|i: int| 0 <= i < k - 1 implies is_ws(#[trigger] t[i]) by {
            assert(t[i] == s[i + 1]);
        }
        if k - 1 < t.len() {
            assert(t[k - 1] == s[k as int]);
        }
        lemma_leading_ws_exact(t, (k - 1) as nat);
    }
}

/// `trailing_ws` is determined by the last non-whitespace position.
pub proof fn lemma_trailing_ws_exact(s: Seq<char>, k: nat)
    requires
        k <= s.len(),
        forall|i: int| s.len() - k <= i < s.len() ==> is_ws(#[trigger] s[i]),
        k < s.len() ==> !is_ws(s[s.len() - k - 1]),
    ensures
        trailing_ws(s) == k,
    decreases k,
{
    if k > 0 {
        assert(is_ws(s.last()));
        let t = s.drop_last();
        assert forall|i: int| t.len() - (k - 1) <= i < t.len() implies is_ws(#[trigger] t[i]) by {
            assert(t[i] == s[i]);
        }
        if k - 1 < t.len() {
            assert(t[t.len() - (k - 1) - 1] == s[s.len() - k - 1]);
        }
        lemma_trailing_ws_exact(t, (k - 1) as nat);
    }
}

/// Count trailing whitespace of `v[from..to]`.
pub fn count_trailing_ws(v: &Vec<char>, from: usize, to: usize) -> (n: usize)
    requires
        from <= to <= v.len(),
    ensures
        n == trailing_ws(v@.subrange(from as int, to as int)),
{
    let ghost s = v@.subrange(from as int, to as int);
    let mut j = to;
    while j > from && char_is_ws(v[j - 1])
        invariant
            from <= j <= to <= v.len(),
            s == v@.subrange(from as int, to as int),
            forall|k: int| j <= k < to ==> is_ws(#[trigger] v@[k]),
        decreases j - from,
    {
        j = j - 1;
    }
    proof {
        assert forall|i: int| s.len() - (to - j) <= i < s.len() implies is_ws(#[trigger] s[i]) by {
            assert(s[i] == v@[from + i]);
        }
        if (to - j) < s.len() {
            assert(s[s.len() - (to - j) - 1] == v@[j - 1]);
        }
        lemma_trailing_ws_exact(s, (to - j) as nat);
    }
    to - j
}

/// The characters of a string slice, as a vector.
pub fn str_chars(s: &str) -> (v: Vec<char>)
    ensures
        v@ == s@,
{
    let mut v: Vec<char> = Vec::new();
    for c in it: s.chars()
        invariant
            v@ == it.seq().take(it.index()),
    {
        v.push(c);
    }
    v
}

/// Pieces of `s` between `'\n'` characters (there is always at least one piece).
pub open spec fn split_nl(s: Seq<char>) -> Seq<Seq<char>>
    decreases s.len(),
{
    if s.len() == 0 {
        seq![Seq::empty()]
    } else {
        let p = split_nl(s.drop_last());
        if s.last() == '\n' {
            p.push(Seq::empty())
        } else {
            p.update(p.len() - 1, p.last().push(s.last()))
        }
    }
}

pub proof fn lemma_split_nl_nonempty(s: Seq<char>)
    ensures
        split_nl(s).len() >= 1,
    decreases s.len(),
{
    if s.len() > 0 {
        lemma_split_nl_nonempty(s.drop_last());
    }
}

/// Removes one trailing `'\r'`.
pub open spec fn strip_cr(line: Seq<char>) -> Seq<char> {
    if line.len() > 0 && line.last() == '\r' {
        line.drop_last()
    } else {
        line
    }
}

/// `str::lines`: pieces terminated by `'\n'` lose a trailing `'\r'`; a final
/// unterminated piece is a line only when it is non-empty.
pub open spec fn lines(s: Seq<char>) -> Seq<Seq<char>> {
    let parts = split_nl(s);
    let terminated = parts.take(parts.len() - 1).map_values(|l: Seq<char>| strip_cr(l));
    if parts.last().len() > 0 {
        terminated.push(parts.last())
    } else {
        terminated
    }
}

/// Splits `v` at `'\n'` into its pieces.
pub fn split_nl_exec(v: &Vec<char>) -> (r: Vec<Vec<char>>)
    ensures
        r@.len() == split_nl(v@).len(),
        forall|i: int| 0 <= i < r@.len() ==> #[trigger] r@[i]@ == split_nl(v@)[i],
{
    let mut done: Vec<Vec<char>> = Vec::new();
    let mut cur: Vec<char> = Vec::new();
    let mut i: usize = 0;
    while i < v.len()
        invariant
            i <= v.len(),
            done@.len() + 1 == split_nl(v@.take(i as int)).len(),
            forall|j: int| 0 <= j < done@.len() ==> #[trigger] done@[j]@ == split_nl(
                v@.take(i as int),
            )[j],
            cur@ == split_nl(v@.take(i as int)).last(),
        decreases v.len() - i,
    {
        proof {
            assert(v@.take(i + 1).drop_last() =~= v@.take(i as int));
            lemma_split_nl_nonempty(v@.take(i as int));
        }
        let c = v[i];
        if c == '\n' {
            let mut fresh: Vec<char> = Vec::new();
            std::mem::swap(&mut fresh, &mut cur);
            done.push(fresh);
        } else {
            cur.push(c);
        }
        i = i + 1;
    }
    proof {
        assert(v@.take(v.len() as int) =~= v@);
    }
    done.push(cur);
    done
}

/// The lines of `v`, as `str::lines` yields them.
pub fn lines_exec(v: &Vec<char>) -> (r: Vec<Vec<char>>)
    ensures
        r@.len() == lines(v@).len(),
        forall|i: int| 0 <= i < r@.len() ==> #[trigger] r@[i]@ == lines(v@)[i],
{
    let mut parts = split_nl_exec(v);
    proof {
        lemma_split_nl_nonempty(v@);
    }
    let ghost ps = split_nl(v@);
    let last = parts.pop().unwrap();
    let mut out: Vec<Vec<char>> = Vec::new();
    let n = parts.len();
    let mut i: usize = 0;
    while i < n
        invariant
            n == parts.len(),
            n + 1 == ps.len(),
            forall|j: int| 0 <= j < n ==> #[trigger] parts@[j]@ == ps[j],
            i <= n,
            out@.len() == i,
            forall|j: int| 0 <= j < i ==> #[trigger] out@[j]@ == strip_cr(ps[j]),
        decreases n - i,
    {
        let mut line: Vec<char> = Vec::new();
        let src = &parts[i];
        let len = src.len();
        let keep = if len > 0 && src[len - 1] == '\r' {
            len - 1
        } else {
            len
        };
        let mut k: usize = 0;
        while k < keep
            invariant
                keep <= len == src@.len(),
                k <= keep,
                line@ == src@.take(k as int),
            decreases keep - k,
        {
            line.push(src[k]);
            k = k + 1;
            proof {
                assert(line@ =~= src@.take(k as int));
            }
        }
        proof {
            assert(line@ =~= strip_cr(ps[i as int]));
        }
        out.push(line);
        i = i + 1;
    }
    if last.len() > 0 {
        out.push(last);
    }
    proof {
        let t = ps.take(ps.len() - 1).map_values(|l: Seq<char>| strip_cr(l));
        assert(t.len() == n);
        assert forall|j: int| 0 <= j < out@.len() implies #[trigger] out@[j]@ == lines(v@)[j] by {
            if j < n {
                assert(lines(v@)[j] == t[j]);
            }
        }
    }
    out
}

/// Whitespace-separated tokens of `s` (`str::split_whitespace`), together with
/// whether `s` ends inside a token.
pub open spec fn ws_split(s: Seq<char>) -> (Seq<Seq<char>>, bool)
    decreases s.len(),
{
    if s.len() == 0 {
        (Seq::empty(), false)
    } else {
        let (t, in_tok) = ws_split(s.drop_last());
        let c = s.last();
        if is_ws(c) {
            (t, false)
        } else if in_tok {
            (t.update(t.len() - 1, t.last().push(c)), true)
        } else {
            (t.push(seq![c]), true)
        }
    }
}

/// `str::split_whitespace`.
pub open spec fn ws_tokens(s: Seq<char>) -> Seq<Seq<char>> {
    ws_split(s).0
}

pub proof fn lemma_ws_split_in_tok(s: Seq<char>)
    ensures
        ws_split(s).1 ==> ws_split(s).0.len() > 0,
    decreases s.len(),
{
    if s.len() > 0 {
        lemma_ws_split_in_tok(s.drop_last());
    }
}

/// The whitespace-separated tokens of `v`.
pub fn ws_tokens_exec(v: &Vec<char>) -> (r: Vec<Vec<char>>)
    ensures
        r@.len() == ws_tokens(v@).len(),
        forall|i: int| 0 <= i < r@.len() ==> #[trigger] r@[i]@ == ws_tokens(v@)[i],
{
    let mut done: Vec<Vec<char>> = Vec::new();
    let mut cur: Vec<char> = Vec::new();
    let mut in_tok = false;
    let mut i: usize = 0;
    while i < v.len()
        invariant
            i <= v.len(),
            in_tok == ws_split(v@.take(i as int)).1,
            in_tok ==> done@.len() + 1 == ws_split(v@.take(i as int)).0.len(),
            in_tok ==> cur@ == ws_split(v@.take(i as int)).0.last(),
            !in_tok ==> done@.len() == ws_split(v@.take(i as int)).0.len(),
            forall|j: int| 0 <= j < done@.len() ==> #[trigger] done@[j]@ == ws_split(
                v@.take(i as int),
            ).0[j],
        decreases v.len() - i,
    {
        proof {
            assert(v@.take(i + 1).drop_last() =~= v@.take(i as int));
            lemma_ws_split_in_tok(v@.take(i as int));
        }
        let c = v[i];
        if char_is_ws(c) {
            if in_tok {
                let mut fresh: Vec<char> = Vec::new();
                std::mem::swap(&mut fresh, &mut cur);
                done.push(fresh);
            }
            in_tok = false;
        } else {
            if in_tok {
                cur.push(c);
            } else {
                cur = Vec::new();
                cur.push(c);
                proof {
                    assert(cur@ =~= seq![c]);
                }
            }
            in_tok = true;
        }
        i = i + 1;
    }
    proof {
        assert(v@.take(v.len() as int) =~= v@);
    }
    if in_tok {
        done.push(cur);
    }
    done
}

/// The trimmed characters `trim(v)`.
pub fn trim_exec(v: &Vec<char>) -> (r: Vec<char>)
    ensures
        r@ == trim(v@),
{
    let n = v.len();
    let a = count_leading_ws(v, 0, n);
    proof {
        assert(v@.subrange(0, n as int) =~= v@);
        lemma_leading_ws_bound(v@);
    }
    let b = count_trailing_ws(v, a, n);
    proof {
        assert(v@.subrange(a as int, n as int) =~= trim_start(v@));
        lemma_trailing_ws_bound(trim_start(v@));
    }
    slice_vec(v, a, n - b)
}

/// `v[from..to]` as a new vector.
pub fn slice_vec(v: &Vec<char>, from: usize, to: usize) -> (r: Vec<char>)
    requires
        from <= to <= v.len(),
    ensures
        r@ == v@.subrange(from as int, to as int),
{
    let mut r: Vec<char> = Vec::new();
    let mut i = from;
    while i < to
        invariant
            from <= i <= to <= v.len(),
            r@ == v@.subrange(from as int, i as int),
        decreases to - i,
    {
        r.push(v[i]);
        i = i + 1;
        proof {
            assert(r@ =~= v@.subrange(from as int, i as int));
        }
    }
    r
}

/// Appends the characters of `s` to `v`.
pub fn push_str(v: &mut Vec<char>, s: &str)
    ensures
        final(v)@ == old(v)@ + s@,
{
    let cs = str_chars(s);
    push_all(v, &cs);
}

/// Appends all of `w` to `v`.
pub fn push_all(v: &mut Vec<char>, w: &Vec<char>)
    ensures
        final(v)@ == old(v)@ + w@,
{
    let ghost v0 = v@;
    let mut i: usize = 0;
    while i < w.len()
        invariant
            i <= w.len(),
            v@ == v0 + w@.take(i as int),
        decreases w.len() - i,
    {
        v.push(w[i]);
        i = i + 1;
        proof {
            assert(v@ =~= v0 + w@.take(i as int));
        }
    }
    proof {
        assert(w@.take(w.len() as int) =~= w@);
    }
}

/// Whether `v` contains `c`.
pub fn contains_char(v: &Vec<char>, c: char) -> (r: bool)
    ensures
        r == v@.contains(c),
{
    let mut i: usize = 0;
    while i < v.len()
        invariant
            i <= v.len(),
            forall|j: int| 0 <= j < i ==> v@[j] != c,
        decreases v.len() - i,
    {
        if v[i] == c {
            return true;
        }
        i = i + 1;
    }
    false
}

/// Whether `v` equals `w`.
pub fn chars_eq(v: &Vec<char>, w: &Vec<char>) -> (r: bool)
    ensures
        r == (v@ == w@),
{
    if v.len() != w.len() {
        return false;
    }
    let mut i: usize = 0;
    while i < v.len()
        invariant
            i <= v.len() == w.len(),
            forall|j: int| 0 <= j < i ==> v@[j] == w@[j],
        decreases v.len() - i,
    {
        if v[i] != w[i] {
            return false;
        }
        i = i + 1;
    }
    proof {
        assert(v@ =~= w@);
    }
    true
}

/// The ASCII digit for `d < 10`.
pub open spec fn digit_char(d: int) -> char {
    if d == 0 { '0' } else if d == 1 { '1' } else if d == 2 { '2' } else if d == 3 { '3' }
    else if d == 4 { '4' } else if d == 5 { '5' } else if d == 6 { '6' } else if d == 7 { '7' }
    else if d == 8 { '8' } else { '9' }
}

/// Decimal rendering of a natural number, without leading zeros (`0` is `"0"`).
pub open spec fn decimal(n: nat) -> Seq<char>
    decreases n,
{
    if n < 10 {
        seq![digit_char(n as int)]
    } else {
        decimal(n / 10).push(digit_char((n % 10) as int))
    }
}

/// Decimal rendering left-padded with zeros to at least `width` digits
/// (`format!("{n:0width$}")`).
pub open spec fn decimal_padded(n: nat, width: nat) -> Seq<char> {
    let d = decimal(n);
    if d.len() >= width {
        d
    } else {
        Seq::new((width - d.len()) as nat, |i: int| '0') + d
    }
}

pub(crate) fn digit(d: u64) -> (c: char)
    requires
        d < 10,
    ensures
        c == digit_char(d as int),
{
    if d == 0 { '0' } else if d == 1 { '1' } else if d == 2 { '2' } else if d == 3 { '3' }
    else if d == 4 { '4' } else if d == 5 { '5' } else if d == 6 { '6' } else if d == 7 { '7' }
    else if d == 8 { '8' } else { '9' }
}

pub proof fn lemma_decimal_len(n: nat)
    ensures
        decimal(n).len() >= 1,
    decreases n,
{
    if n >= 10 {
        lemma_decimal_len(n / 10);
    }
}

/// Appends the decimal rendering of `n` to `v`.
pub fn push_decimal(v: &mut Vec<char>, n: u64)
    ensures
        final(v)@ == old(v)@ + decimal(n as nat),
    decreases n,
{
    if n < 10 {
        v.push(digit(n));
        proof {
            assert(decimal(n as nat) =~= seq![digit_char(n as int)]);
        }
    } else {
        push_decimal(v, n / 10);
        v.push(digit(n % 10));
        proof {
            let ghost a = decimal((n / 10) as nat);
            assert(decimal(n as nat) == a.push(digit_char((n % 10) as int)));
        }
    }
}

/// Appends the decimal rendering of a 128-bit `n` to `v`.
pub fn push_decimal_wide(v: &mut Vec<char>, n: u128)
    ensures
        final(v)@ == old(v)@ + decimal(n as nat),
    decreases n,
{
    if n < 10 {
        v.push(digit(n as u64));
        proof {
            assert(decimal(n as nat) =~= seq![digit_char(n as int)]);
        }
    } else {
        push_decimal_wide(v, n / 10);
        v.push(digit((n % 10) as u64));
        proof {
            let ghost a = decimal((n / 10) as nat);
            assert(decimal(n as nat) == a.push(digit_char((n % 10) as int)));
        }
    }
}

/// Appends the zero-padded decimal rendering of `n` to `v`.
pub fn push_decimal_padded(v: &mut Vec<char>, n: u64, width: usize)
    ensures
        final(v)@ == old(v)@ + decimal_padded(n as nat, width as nat),
{
    let mut d: Vec<char> = Vec::new();
    push_decimal(&mut d, n);
    proof {
        assert(d@ =~= decimal(n as nat));
    }
    let ghost v0 = v@;
    if d.len() < width {
        let pad = width - d.len();
        let mut i: usize = 0;
        while i < pad
            invariant
                i <= pad,
                v@ == v0 + Seq::new(i as nat, |k: int| '0'),
            decreases pad - i,
        {
            v.push('0');
            i = i + 1;
            proof {
                assert(v@ =~= v0 + Seq::new(i as nat, |k: int| '0'));
            }
        }
    }
    push_all(v, &d);
    proof {
        assert(v@ =~= v0 + decimal_padded(n as nat, width as nat));
    }
}

/// UTF-8 length of one character.
pub open spec fn utf8_width(c: char) -> nat {
    if (c as u32) < 0x80 {
        1
    } else if (c as u32) < 0x800 {
        2
    } else if (c as u32) < 0x10000 {
        3
    } else {
        4
    }
}

/// UTF-8 length of a character sequence.
pub open spec fn utf8_len(s: Seq<char>) -> nat
    decreases s.len(),
{
    if s.len() == 0 {
        0
    } else {
        utf8_len(s.drop_last()) + utf8_width(s.last())
    }
}

pub fn utf8_prefix_len(s: &Vec<char>, p: usize) -> (r: usize)
    requires
        p <= s.len(),
        utf8_len(s@.take(p as int)) <= usize::MAX,
    ensures
        r == utf8_len(s@.take(p as int)),
{
    let mut i: usize = 0;
    let mut n: usize = 0;
    while i < p
        invariant
            i <= p <= s.len(),
            n == utf8_len(s@.take(i as int)),
            utf8_len(s@.take(p as int)) <= usize::MAX,
        decreases p - i,
    {
        proof {
            assert(s@.take(i + 1).drop_last() =~= s@.take(i as int));
            lemma_utf8_len_mono(s@.take(p as int), i + 1);
            assert(s@.take(p as int).take(i + 1) =~= s@.take(i + 1));
        }
        let c = s[i];
        let w: usize = if (c as u32) < 0x80 {
            1
        } else if (c as u32) < 0x800 {
            2
        } else if (c as u32) < 0x10000 {
            3
        } else {
            4
        };
        n = n + w;
        i = i + 1;
    }
    n
}

pub proof fn lemma_utf8_len_mono(s: Seq<char>, k: int)
    requires
        0 <= k <= s.len(),
    ensures
        utf8_len(s.take(k)) <= utf8_len(s),
    decreases s.len() - k,
{
    if k < s.len() {
        lemma_utf8_len_mono(s, k + 1);
        assert(s.take(k + 1).drop_last() =~= s.take(k));
    } else {
        assert(s.take(k) =~= s);
    }
}

proof fn lemma_utf8_len_front(s: Seq<char>)
    requires
        s.len() > 0,
    ensures
        utf8_len(s) == utf8_width(s[0]) + utf8_len(s.drop_first()),
    decreases s.len(),
{
    if s.len() > 1 {
        lemma_utf8_len_front(s.drop_last());
        assert(s.drop_last().drop_first() =~= s.drop_first().drop_last());
        assert(s.drop_first().last() == s.last());
        assert(s.drop_last()[0] == s[0]);
        assert(utf8_len(s.drop_first()) == utf8_len(s.drop_first().drop_last()) + utf8_width(
            s.drop_first().last(),
        ));
    } else {
        assert(s.drop_last().len() == 0);
        assert(s.drop_first().len() == 0);
        assert(utf8_len(s.drop_last()) == 0);
        assert(s.last() == s[0]);
    }
}

/// Our UTF-8 length is the length of vstd's UTF-8 encoding.
pub proof fn lemma_utf8_len_is_encoding_len(s: Seq<char>)
    ensures
        utf8_len(s) == vstd::utf8::encode_utf8(s).len(),
    decreases s.len(),
{
    if s.len() > 0 {
        lemma_utf8_len_front(s);
        lemma_utf8_len_is_encoding_len(s.drop_first());
        vstd::utf8::char_is_scalar(s[0]);
        let c = s[0] as u32;
        assert(vstd::utf8::encode_scalar(c).len() == utf8_width(s[0]));
    }
}

/// The UTF-8 length of a string slice fits in `usize`.
pub fn str_utf8_len_fits(s: &str)
    ensures
        utf8_len(s@) <= usize::MAX,
{
    let b = s.as_bytes();
    let n = b.len();
    proof {
        lemma_utf8_len_is_encoding_len(s@);
        assert(b@.len() == n);
    }
}

/// The characters of each string.
pub open spec fn string_views(v: Seq<String>) -> Seq<Seq<char>> {
    v.map_values(|s: String| s@)
}

/// Builds a `String` from its characters (std's `FromIterator<char> for String`).
#[verifier::external_body]
pub(crate) fn chars_to_string(v: &[char]) -> (s: String)
    ensures
        s@ == v@,
{
    v.iter().collect()
}

} // verus!
