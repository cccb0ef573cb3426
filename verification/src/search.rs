//! Substring search over character sequences.
use vstd::prelude::*;

verus! {

/// `t` occurs in `s` starting at index `i`.
pub open spec fn occurs_at(s: Seq<char>, t: Seq<char>, i: int) -> bool {
    0 <= i && i + t.len() <= s.len() && s.subrange(i, i + t.len()) == t
}

/// The first index `>= from` at which `t` occurs in `s` (`str::find` on `s[from..]`).
pub open spec fn first_occ_from(s: Seq<char>, t: Seq<char>, from: int) -> Option<int>
    decreases s.len() - from,
{
    if from < 0 || from + t.len() > s.len() {
        None
    } else if occurs_at(s, t, from) {
        Some(from)
    } else if from >= s.len() {
        None
    } else {
        first_occ_from(s, t, from + 1)
    }
}

/// The last index at which `t` occurs entirely inside `s[..end]` (`str::rfind` on `s[..end]`).
pub open spec fn last_occ_before(s: Seq<char>, t: Seq<char>, end: int) -> Option<int>
    decreases end,
{
    if end < t.len() || end > s.len() {
        None
    } else if occurs_at(s, t, end - t.len()) {
        Some(end - t.len())
    } else if end == 0 {
        None
    } else {
        last_occ_before(s, t, end - 1)
    }
}

pub proof fn lemma_first_occ_props(s: Seq<char>, t: Seq<char>, from: int)
    requires
        0 <= from,
    ensures
        match first_occ_from(s, t, from) {
            Some(p) => from <= p && occurs_at(s, t, p) && forall|q: int|
                from <= q < p ==> !occurs_at(s, t, q),
            None => forall|q: int| from <= q ==> !occurs_at(s, t, q),
        },
    decreases s.len() - from,
{
    if from + t.len() <= s.len() && !occurs_at(s, t, from) && from < s.len() {
        lemma_first_occ_props(s, t, from + 1);
    }
}

fn occurs_at_exec(s: &Vec<char>, t: &Vec<char>, i: usize) -> (r: bool)
    ensures
        r == occurs_at(s@, t@, i as int),
{
    if i > s.len() || t.len() > s.len() - i {
        return false;
    }
    let mut k: usize = 0;
    while k < t.len()
        invariant
            i + t.len() <= s.len(),
            k <= t.len(),
            forall|j: int| 0 <= j < k ==> s@[i + j] == t@[j],
        decreases t.len() - k,
    {
        if s[i + k] != t[k] {
            proof {
                assert(s@.subrange(i as int, i + t.len())[k as int] != t@[k as int]);
            }
            return false;
        }
        k = k + 1;
    }
    proof {
        assert(s@.subrange(i as int, i + t.len()) =~= t@);
    }
    true
}

/// `str::find` on `s[from..]`, as an absolute index.
pub fn find_from(s: &Vec<char>, t: &Vec<char>, from: usize) -> (r: Option<usize>)
    ensures
        match first_occ_from(s@, t@, from as int) {
            Some(p) => r == Some(p as usize),
            None => r is None,
        },
{
    let mut i = from;
    while i <= s.len() && t.len() <= s.len() - i
        invariant
            from <= i,
            first_occ_from(s@, t@, from as int) == first_occ_from(s@, t@, i as int),
        decreases s.len() + 1 - i,
    {
        if occurs_at_exec(s, t, i) {
            return Some(i);
        }
        if i == s.len() {
            return None;
        }
        i = i + 1;
    }
    None
}

/// `str::rfind` on `s[..end]`.
pub fn rfind_before(s: &Vec<char>, t: &Vec<char>, end: usize) -> (r: Option<usize>)
    requires
        end <= s.len(),
    ensures
        match last_occ_before(s@, t@, end as int) {
            Some(p) => r == Some(p as usize),
            None => r is None,
        },
{
    let mut e = end;
    loop
        invariant
            e <= end <= s.len(),
            last_occ_before(s@, t@, end as int) == last_occ_before(s@, t@, e as int),
        decreases e,
    {
        if e < t.len() {
            return None;
        }
        if occurs_at_exec(s, t, e - t.len()) {
            return Some(e - t.len());
        }
        if e == 0 {
            return None;
        }
        e = e - 1;
    }
}

pub proof fn lemma_last_occ_bound(s: Seq<char>, t: Seq<char>, end: int)
    ensures
        match last_occ_before(s, t, end) {
            Some(p) => 0 <= p && p + t.len() <= end && end <= s.len() && occurs_at(s, t, p),
            None => true,
        },
    decreases end,
{
    if !(end < t.len() || end > s.len()) && !occurs_at(s, t, end - t.len()) && end != 0 {
        lemma_last_occ_bound(s, t, end - 1);
    }
}

/// `s` starts with `t`.
pub open spec fn starts_with(s: Seq<char>, t: Seq<char>) -> bool {
    t.len() <= s.len() && s.take(t.len() as int) == t
}

/// Whether `s` starts with `t`.
pub fn starts_with_exec(s: &Vec<char>, t: &Vec<char>) -> (r: bool)
    ensures
        r == starts_with(s@, t@),
{
    let r = occurs_at_exec(s, t, 0);
    proof {
        if t@.len() <= s@.len() {
            assert(s@.subrange(0, t@.len() as int) =~= s@.take(t@.len() as int));
        }
    }
    r
}

/// Pieces of `s[from..]` separated by `sep` (`str::split` with a string pattern).
pub open spec fn split_from(s: Seq<char>, sep: Seq<char>, from: int) -> Seq<Seq<char>>
    decreases s.len() - from,
{
    if sep.len() == 0 || from < 0 || from > s.len() {
        seq![Seq::empty()]
    } else {
        match first_occ_from(s, sep, from) {
            Some(i) => if i < from || i + sep.len() > s.len() {
                seq![s.skip(from)]
            } else {
                seq![s.subrange(from, i)] + split_from(s, sep, i + sep.len())
            },
            None => seq![s.skip(from)],
        }
    }
}

/// `s.split(sep)` for a non-empty separator.
pub open spec fn split_on(s: Seq<char>, sep: Seq<char>) -> Seq<Seq<char>> {
    split_from(s, sep, 0)
}

/// Splits `s` at every occurrence of the non-empty separator `sep`.
pub fn split_on_exec(s: &Vec<char>, sep: &Vec<char>) -> (r: Vec<Vec<char>>)
    requires
        sep.len() > 0,
    ensures
        r@.len() == split_on(s@, sep@).len(),
        forall|i: int| 0 <= i < r@.len() ==> #[trigger] r@[i]@ == split_on(s@, sep@)[i],
{
    let mut pieces: Vec<Vec<char>> = Vec::new();
    let ghost views: Seq<Seq<char>> = Seq::empty();
    let mut pos: usize = 0;
    loop
        invariant
            sep.len() > 0,
            pos <= s.len(),
            pieces@.len() == views.len(),
            forall|j: int| 0 <= j < views.len() ==> #[trigger] pieces@[j]@ == views[j],
            views + split_from(s@, sep@, pos as int) == split_on(s@, sep@),
        decreases s.len() - pos,
    {
        proof {
            lemma_first_occ_props(s@, sep@, pos as int);
        }
        match find_from(s, sep, pos) {
            Some(i) => {
                let piece = crate::text::slice_vec(s, pos, i);
                proof {
                    assert(split_from(s@, sep@, pos as int) == seq![s@.subrange(pos as int, i as int)]
                        + split_from(s@, sep@, i + sep.len()));
                    views = views.push(piece@);
                    assert(views + split_from(s@, sep@, i + sep.len()) =~= split_on(s@, sep@));
                }
                pieces.push(piece);
                pos = i + sep.len();
            },
            None => {
                let piece = crate::text::slice_vec(s, pos, s.len());
                proof {
                    assert(piece@ =~= s@.skip(pos as int));
                    views = views.push(piece@);
                    assert(views =~= split_on(s@, sep@));
                }
                pieces.push(piece);
                return pieces;
            },
        }
    }
}

/// A split has at least one piece.
pub proof fn lemma_split_nonempty(s: Seq<char>, sep: Seq<char>)
    ensures
        split_on(s, sep).len() >= 1,
{
    lemma_first_occ_props(s, sep, 0);
}

/// Every piece of a split is a subrange of the text.
pub proof fn lemma_split_piece_bound(s: Seq<char>, sep: Seq<char>, i: int)
    requires
        sep.len() > 0,
        0 <= i < split_on(s, sep).len(),
    ensures
        exists|a: int, b: int| 0 <= a <= b <= s.len() && split_on(s, sep)[i] == s.subrange(a, b),
{
    lemma_split_from_pieces(s, sep, 0, i);
}

proof fn lemma_split_from_pieces(s: Seq<char>, sep: Seq<char>, from: int, i: int)
    requires
        sep.len() > 0,
        0 <= from <= s.len(),
        0 <= i < split_from(s, sep, from).len(),
    ensures
        exists|a: int, b: int| 0 <= a <= b <= s.len() && split_from(s, sep, from)[i] == s.subrange(a, b),
    decreases s.len() - from,
{
    lemma_first_occ_props(s, sep, from);
    match first_occ_from(s, sep, from) {
        Some(p) => {
            if i == 0 {
                assert(split_from(s, sep, from)[0] == s.subrange(from, p));
            } else {
                lemma_split_from_pieces(s, sep, p + sep.len(), i - 1);
                assert(split_from(s, sep, from)[i] == split_from(s, sep, p + sep.len())[i - 1]);
            }
        },
        None => {
            assert(split_from(s, sep, from)[0] == s.subrange(from, s.len() as int));
        },
    }
}

/// Joins `parts` with `sep` between consecutive parts (`[T]::join`).
pub open spec fn join(parts: Seq<Seq<char>>, sep: Seq<char>) -> Seq<char>
    decreases parts.len(),
{
    if parts.len() == 0 {
        Seq::empty()
    } else if parts.len() == 1 {
        parts[0]
    } else {
        join(parts.drop_last(), sep) + sep + parts.last()
    }
}

} // verus!
