//! Orders used to present results: lexicographic order on strings, the
//! component order of paths, and a stable sort by a key built from them.
use vstd::prelude::*;
use crate::search::split_on;

verus! {

// ── Strings ──────────────────────────────────────────────────────

/// Lexicographic order of character strings (code point by code point; a
/// proper prefix comes first). For UTF-8 text this is the byte order.
pub open spec fn chars_lt(a: Seq<char>, b: Seq<char>) -> bool
    decreases a.len(),
{
    if a.len() == 0 {
        b.len() > 0
    } else if b.len() == 0 {
        false
    } else if a[0] != b[0] {
        a[0] < b[0]
    } else {
        chars_lt(a.drop_first(), b.drop_first())
    }
}

/// `chars_lt` is a strict total order.
pub proof fn lemma_chars_lt_total(a: Seq<char>, b: Seq<char>)
    ensures
        !chars_lt(a, a),
        !(chars_lt(a, b) && chars_lt(b, a)),
        a != b ==> chars_lt(a, b) || chars_lt(b, a),
    decreases a.len(),
{
    if a.len() > 0 && b.len() > 0 {
        lemma_chars_lt_total(a.drop_first(), b.drop_first());
        lemma_chars_lt_total(a.drop_first(), a.drop_first());
        if a[0] == b[0] && a.drop_first() == b.drop_first() {
            assert forall|i: int| 0 <= i < a.len() implies a[i] == b[i] by {
                if i > 0 {
                    assert(a[i] == a.drop_first()[i - 1]);
                    assert(b[i] == b.drop_first()[i - 1]);
                }
            }
            assert(a =~= b);
        }
    } else if a.len() > 0 {
        lemma_chars_lt_total(a.drop_first(), a.drop_first());
    } else if b.len() == 0 {
        assert(a =~= b);
    }
}

/// `chars_lt` is transitive.
pub proof fn lemma_chars_lt_trans(a: Seq<char>, b: Seq<char>, c: Seq<char>)
    requires
        chars_lt(a, b),
        chars_lt(b, c),
    ensures
        chars_lt(a, c),
    decreases a.len(),
{
    if a.len() > 0 && b.len() > 0 && c.len() > 0 && a[0] == b[0] && b[0] == c[0] {
        lemma_chars_lt_trans(a.drop_first(), b.drop_first(), c.drop_first());
    }
}

pub(crate) fn chars_less(a: &Vec<char>, b: &Vec<char>) -> (r: bool)
    ensures
        r == chars_lt(a@, b@),
{
    let mut i: usize = 0;
    proof {
        assert(a@.skip(0) =~= a@);
        assert(b@.skip(0) =~= b@);
    }
    while i < a.len() && i < b.len() && a[i] == b[i]
        invariant
            i <= a@.len(),
            i <= b@.len(),
            chars_lt(a@, b@) == chars_lt(a@.skip(i as int), b@.skip(i as int)),
        decreases a.len() - i,
    {
        proof {
            assert(a@.skip(i as int)[0] == a@[i as int]);
            assert(b@.skip(i as int)[0] == b@[i as int]);
            assert(a@.skip(i as int).drop_first() =~= a@.skip(i + 1));
            assert(b@.skip(i as int).drop_first() =~= b@.skip(i + 1));
        }
        i = i + 1;
    }
    proof {
        if i < a@.len() && i < b@.len() {
            assert(a@.skip(i as int)[0] == a@[i as int]);
            assert(b@.skip(i as int)[0] == b@[i as int]);
        }
    }
    if i < a.len() && i < b.len() {
        a[i] < b[i]
    } else {
        i == a.len() && i < b.len()
    }
}

// ── Paths ────────────────────────────────────────────────────────

/// A path component: its kind (0 root, 1 current directory, 2 parent
/// directory, 3 normal) and, for a normal component, its text.
pub type PathPart = (nat, Seq<char>);

/// The components carried by `/`-separated pieces: empty pieces and `.`
/// vanish, `..` is a parent directory, anything else a normal component.
pub open spec fn piece_parts(pieces: Seq<Seq<char>>) -> Seq<PathPart>
    decreases pieces.len(),
{
    if pieces.len() == 0 {
        Seq::empty()
    } else {
        let r = piece_parts(pieces.drop_last());
        let x = pieces.last();
        if x.len() == 0 || x == seq!['.'] {
            r
        } else if x == seq!['.', '.'] {
            r.push((2nat, Seq::empty()))
        } else {
            r.push((3nat, x))
        }
    }
}

/// The components of a Unix path (`Path::components`): a leading `/` is the
/// root, a leading `.` the current directory, and the rest as `piece_parts`.
pub open spec fn path_parts(p: Seq<char>) -> Seq<PathPart> {
    let pieces = split_on(p, seq!['/']);
    let head = if p.len() > 0 && p[0] == '/' {
        seq![(0nat, Seq::<char>::empty())]
    } else if pieces.len() > 0 && pieces[0] == seq!['.'] {
        seq![(1nat, Seq::<char>::empty())]
    } else {
        Seq::empty()
    };
    head + piece_parts(pieces)
}

/// Order of components: by kind, then normal components by their text.
pub open spec fn part_lt(x: PathPart, y: PathPart) -> bool {
    x.0 < y.0 || (x.0 == y.0 && chars_lt(x.1, y.1))
}

/// Lexicographic order of component sequences (`Ord for Path`).
pub open spec fn parts_lt(a: Seq<PathPart>, b: Seq<PathPart>) -> bool
    decreases a.len(),
{
    if a.len() == 0 {
        b.len() > 0
    } else if b.len() == 0 {
        false
    } else if a[0] != b[0] {
        part_lt(a[0], b[0])
    } else {
        parts_lt(a.drop_first(), b.drop_first())
    }
}

proof fn lemma_part_lt_total(x: PathPart, y: PathPart, z: PathPart)
    ensures
        !part_lt(x, x),
        !(part_lt(x, y) && part_lt(y, x)),
        x != y ==> part_lt(x, y) || part_lt(y, x),
        part_lt(x, y) && part_lt(y, z) ==> part_lt(x, z),
{
    lemma_chars_lt_total(x.1, y.1);
    if part_lt(x, y) && part_lt(y, z) && x.0 == y.0 && y.0 == z.0 {
        lemma_chars_lt_trans(x.1, y.1, z.1);
    }
}

/// `parts_lt` is a strict total order.
pub proof fn lemma_parts_lt_total(a: Seq<PathPart>, b: Seq<PathPart>)
    ensures
        !parts_lt(a, a),
        !(parts_lt(a, b) && parts_lt(b, a)),
        a != b ==> parts_lt(a, b) || parts_lt(b, a),
    decreases a.len(),
{
    if a.len() > 0 && b.len() > 0 {
        lemma_parts_lt_total(a.drop_first(), b.drop_first());
        lemma_parts_lt_total(a.drop_first(), a.drop_first());
        lemma_part_lt_total(a[0], b[0], a[0]);
        if a[0] == b[0] && a.drop_first() == b.drop_first() {
            assert forall|i: int| 0 <= i < a.len() implies a[i] == b[i] by {
                if i > 0 {
                    assert(a[i] == a.drop_first()[i - 1]);
                    assert(b[i] == b.drop_first()[i - 1]);
                }
            }
            assert(a =~= b);
        }
    } else if a.len() > 0 {
        lemma_parts_lt_total(a.drop_first(), a.drop_first());
    } else if b.len() == 0 {
        assert(a =~= b);
    }
}

/// `parts_lt` is transitive.
pub proof fn lemma_parts_lt_trans(a: Seq<PathPart>, b: Seq<PathPart>, c: Seq<PathPart>)
    requires
        parts_lt(a, b),
        parts_lt(b, c),
    ensures
        parts_lt(a, c),
    decreases a.len(),
{
    if a.len() > 0 && b.len() > 0 && c.len() > 0 {
        lemma_part_lt_total(a[0], b[0], c[0]);
        lemma_part_lt_total(b[0], c[0], a[0]);
        lemma_part_lt_total(c[0], a[0], b[0]);
        if a[0] == b[0] && b[0] == c[0] {
            lemma_parts_lt_trans(a.drop_first(), b.drop_first(), c.drop_first());
        }
    }
}

// ── Sort keys ────────────────────────────────────────────────────

/// A sort key: a number, a path, a second number and a name, compared in
/// that order.
pub type KeyView = (nat, Seq<PathPart>, nat, Seq<char>);

/// Strict order of sort keys.
pub open spec fn key_lt(a: KeyView, b: KeyView) -> bool {
    ||| a.0 < b.0
    ||| a.0 == b.0 && parts_lt(a.1, b.1)
    ||| a.0 == b.0 && a.1 == b.1 && a.2 < b.2
    ||| a.0 == b.0 && a.1 == b.1 && a.2 == b.2 && chars_lt(a.3, b.3)
}

/// `key_lt` is a strict total order.
pub proof fn lemma_key_lt_order(a: KeyView, b: KeyView, c: KeyView)
    ensures
        !key_lt(a, a),
        !(key_lt(a, b) && key_lt(b, a)),
        a != b ==> key_lt(a, b) || key_lt(b, a),
        key_lt(a, b) && key_lt(b, c) ==> key_lt(a, c),
{
    lemma_parts_lt_total(a.1, b.1);
    lemma_parts_lt_total(a.1, a.1);
    lemma_chars_lt_total(a.3, b.3);
    lemma_chars_lt_total(a.3, a.3);
    if key_lt(a, b) && key_lt(b, c) {
        if a.0 == b.0 && b.0 == c.0 {
            if parts_lt(a.1, b.1) && parts_lt(b.1, c.1) {
                lemma_parts_lt_trans(a.1, b.1, c.1);
            }
            if a.1 == b.1 && b.1 == c.1 && a.2 == b.2 && b.2 == c.2 && chars_lt(a.3, b.3) && chars_lt(
                b.3,
                c.3,
            ) {
                lemma_chars_lt_trans(a.3, b.3, c.3);
            }
        }
    }
}

// ── Executable forms ─────────────────────────────────────────────

/// The components of a list of `(kind, text)` pairs.
pub open spec fn parts_view(v: Seq<(u8, Vec<char>)>) -> Seq<PathPart> {
    v.map_values(|x: (u8, Vec<char>)| (x.0 as nat, x.1@))
}

/// The components of a path.
pub fn path_parts_exec(p: &Vec<char>) -> (r: Vec<(u8, Vec<char>)>)
    ensures
        parts_view(r@) == path_parts(p@),
{
    let slash: Vec<char> = vec!['/'];
    proof {
        assert(slash@ =~= seq!['/']);
        crate::search::lemma_split_nonempty(p@, seq!['/']);
    }
    let pieces = crate::search::split_on_exec(p, &slash);
    let ghost views = split_on(p@, seq!['/']);
    let mut out: Vec<(u8, Vec<char>)> = Vec::new();
    if p.len() > 0 && p[0] == '/' {
        out.push((0u8, Vec::new()));
    } else if pieces[0].len() == 1 && pieces[0][0] == '.' {
        out.push((1u8, Vec::new()));
        proof {
            assert(pieces@[0]@ =~= seq!['.']);
        }
    } else {
        proof {
            if views[0] == seq!['.'] {
                assert(pieces@[0]@.len() == 1 && pieces@[0]@[0] == '.');
            }
        }
    }
    let ghost head = parts_view(out@);
    proof {
        assert(head =~= path_parts(p@).take(head.len() as int)) by {
            assert(path_parts(p@) =~= head + piece_parts(views));
        }
        assert(path_parts(p@) =~= head + piece_parts(views));
        assert(views.take(0) =~= Seq::<Seq<char>>::empty());
        assert(head + piece_parts(views.take(0)) =~= head);
    }
    let mut i: usize = 0;
    while i < pieces.len()
        invariant
            views == split_on(p@, seq!['/']),
            pieces@.len() == views.len(),
            forall|j: int| 0 <= j < pieces@.len() ==> #[trigger] pieces@[j]@ == views[j],
            0 <= i <= pieces@.len(),
            parts_view(out@) == head + piece_parts(views.take(i as int)),
            path_parts(p@) == head + piece_parts(views),
        decreases pieces.len() - i,
    {
        let x = &pieces[i];
        proof {
            assert(views.take(i + 1).drop_last() =~= views.take(i as int));
            assert(views.take(i + 1).last() == views[i as int]);
            assert(x@ == views[i as int]);
        }
        let ghost before = out@;
        if x.len() == 0 || (x.len() == 1 && x[0] == '.') {
            proof {
                if x.len() == 1 {
                    assert(x@ =~= seq!['.']);
                }
            }
        } else if x.len() == 2 && x[0] == '.' && x[1] == '.' {
            out.push((2u8, Vec::new()));
            proof {
                assert(x@ =~= seq!['.', '.']);
                assert(parts_view(out@) =~= parts_view(before).push((2nat, Seq::<char>::empty())));
            }
        } else {
            proof {
                assert(x@ != seq!['.']) by {
                    if x@ == seq!['.'] {
                        assert(x@.len() == 1 && x@[0] == '.');
                    }
                }
                assert(x@ != seq!['.', '.']) by {
                    if x@ == seq!['.', '.'] {
                        assert(x@.len() == 2 && x@[0] == '.' && x@[1] == '.');
                    }
                }
            }
            out.push((3u8, x.clone()));
            proof {
                assert(parts_view(out@) =~= parts_view(before).push((3nat, x@)));
            }
        }
        i = i + 1;
    }
    proof {
        assert(views.take(i as int) =~= views);
    }
    out
}

fn part_less(x: &(u8, Vec<char>), y: &(u8, Vec<char>)) -> (r: bool)
    ensures
        r == part_lt((x.0 as nat, x.1@), (y.0 as nat, y.1@)),
{
    x.0 < y.0 || (x.0 == y.0 && chars_less(&x.1, &y.1))
}

fn part_equal(x: &(u8, Vec<char>), y: &(u8, Vec<char>)) -> (r: bool)
    ensures
        r == ((x.0 as nat, x.1@) == (y.0 as nat, y.1@)),
{
    x.0 == y.0 && crate::text::chars_eq(&x.1, &y.1)
}

fn parts_less(a: &Vec<(u8, Vec<char>)>, b: &Vec<(u8, Vec<char>)>) -> (r: bool)
    ensures
        r == parts_lt(parts_view(a@), parts_view(b@)),
{
    let ghost av = parts_view(a@);
    let ghost bv = parts_view(b@);
    let mut i: usize = 0;
    proof {
        assert(av.skip(0) =~= av);
        assert(bv.skip(0) =~= bv);
    }
    while i < a.len() && i < b.len() && part_equal(&a[i], &b[i])
        invariant
            av == parts_view(a@),
            bv == parts_view(b@),
            i <= a@.len(),
            i <= b@.len(),
            parts_lt(av, bv) == parts_lt(av.skip(i as int), bv.skip(i as int)),
        decreases a.len() - i,
    {
        proof {
            assert(av.skip(i as int)[0] == av[i as int]);
            assert(bv.skip(i as int)[0] == bv[i as int]);
            assert(av.skip(i as int).drop_first() =~= av.skip(i + 1));
            assert(bv.skip(i as int).drop_first() =~= bv.skip(i + 1));
        }
        i = i + 1;
    }
    proof {
        if i < a@.len() && i < b@.len() {
            assert(av.skip(i as int)[0] == av[i as int]);
            assert(bv.skip(i as int)[0] == bv[i as int]);
        }
    }
    if i < a.len() && i < b.len() {
        part_less(&a[i], &b[i])
    } else {
        i == a.len() && i < b.len()
    }
}

/// An executable sort key.
pub struct SortKey {
    pub primary: u64,
    pub parts: Vec<(u8, Vec<char>)>,
    pub secondary: u64,
    pub name: Vec<char>,
}

/// The value of a sort key.
pub open spec fn key_view(k: SortKey) -> KeyView {
    (k.primary as nat, parts_view(k.parts@), k.secondary as nat, k.name@)
}

/// The values of a list of sort keys.
pub open spec fn key_views(ks: Seq<SortKey>) -> Seq<KeyView> {
    ks.map_values(|k: SortKey| key_view(k))
}

fn key_less(a: &SortKey, b: &SortKey) -> (r: bool)
    ensures
        r == key_lt(key_view(*a), key_view(*b)),
{
    if a.primary != b.primary {
        return a.primary < b.primary;
    }
    if parts_less(&a.parts, &b.parts) {
        return true;
    }
    if parts_less(&b.parts, &a.parts) {
        return false;
    }
    proof {
        lemma_parts_lt_total(parts_view(a.parts@), parts_view(b.parts@));
    }
    if a.secondary != b.secondary {
        return a.secondary < b.secondary;
    }
    chars_less(&a.name, &b.name)
}

/// Items paired with their keys.
pub open spec fn tagged<T>(items: Seq<T>, keys: Seq<KeyView>) -> Seq<(T, KeyView)> {
    Seq::new(items.len(), |i: int| (items[i], keys[i]))
}

/// The entries whose key is `k`, in order.
pub open spec fn with_sort_key<T>(s: Seq<(T, KeyView)>, k: KeyView) -> Seq<(T, KeyView)> {
    s.filter(|e: (T, KeyView)| e.1 == k)
}

/// Entries in non-decreasing key order.
pub open spec fn sorted_by_key<T>(s: Seq<(T, KeyView)>) -> bool {
    forall|i: int, j: int| 0 <= i < j < s.len() ==> !key_lt(#[trigger] s[j].1, #[trigger] s[i].1)
}

proof fn lemma_insert_keeps_key_groups<T>(res: Seq<(T, KeyView)>, p: int, x: (T, KeyView))
    requires
        0 <= p <= res.len(),
        forall|i: int| 0 <= i < p ==> key_lt(#[trigger] res[i].1, x.1),
    ensures
        forall|k: KeyView|
            #[trigger] with_sort_key(res.insert(p, x), k) == (if x.1 == k {
                seq![x] + with_sort_key(res, k)
            } else {
                with_sort_key(res, k)
            }),
{
    broadcast use vstd::seq_lib::group_seq_properties;

    let a = res.take(p);
    let b = res.skip(p);
    assert(res =~= a + b);
    assert(res.insert(p, x) =~= a + (seq![x] + b));
    assert forall|k: KeyView|
        #[trigger] with_sort_key(res.insert(p, x), k) == (if x.1 == k {
            seq![x] + with_sort_key(res, k)
        } else {
            with_sort_key(res, k)
        }) by {
        let pred = |e: (T, KeyView)| e.1 == k;
        Seq::filter_distributes_over_add(a, seq![x] + b, pred);
        Seq::filter_distributes_over_add(a, b, pred);
        b.lemma_filter_prepend(x, pred);
        if x.1 == k {
            assert forall|i: int| 0 <= i < a.len() implies !pred(a[i]) by {
                assert(a[i] == res[i]);
                lemma_key_lt_order(res[i].1, x.1, x.1);
            }
            a.lemma_all_neg_filter_empty(pred);
            assert(a.filter(pred) =~= Seq::<(T, KeyView)>::empty());
            assert(with_sort_key(res.insert(p, x), k) =~= seq![x] + with_sort_key(res, k));
        } else {
            assert(with_sort_key(res.insert(p, x), k) =~= with_sort_key(res, k));
        }
    }
}

/// Sort items by their keys, smallest first. The sort is stable: items with
/// equal keys keep their relative order.
pub fn stable_sort_by_key<T>(items: Vec<T>, keys: Vec<SortKey>) -> (r: (Vec<T>, Vec<SortKey>))
    requires
        items@.len() == keys@.len(),
    ensures
        r.0@.len() == items@.len(),
        r.1@.len() == items@.len(),
        sorted_by_key(tagged(r.0@, key_views(r.1@))),
        forall|k: KeyView| #[trigger]
            with_sort_key(tagged(r.0@, key_views(r.1@)), k) == with_sort_key(
                tagged(items@, key_views(keys@)),
                k,
            ),
{
    broadcast use vstd::seq_lib::group_seq_properties;

    let ghost orig = tagged(items@, key_views(keys@));
    let mut rest = items;
    let mut rest_keys = keys;
    let mut res: Vec<T> = Vec::new();
    let mut res_keys: Vec<SortKey> = Vec::new();
    proof {
        assert(tagged(rest@, key_views(rest_keys@)) =~= orig.take(rest@.len() as int));
        assert(tagged(res@, key_views(res_keys@)) =~= Seq::<(T, KeyView)>::empty());
        assert(orig.skip(rest@.len() as int) =~= Seq::<(T, KeyView)>::empty());
    }
    while rest.len() > 0
        invariant
            rest@.len() == rest_keys@.len(),
            res@.len() == res_keys@.len(),
            tagged(rest@, key_views(rest_keys@)) == orig.take(rest@.len() as int),
            rest@.len() <= orig.len(),
            res@.len() + rest@.len() == orig.len(),
            sorted_by_key(tagged(res@, key_views(res_keys@))),
            forall|k: KeyView| #[trigger]
                with_sort_key(tagged(res@, key_views(res_keys@)), k) == with_sort_key(
                    orig.skip(rest@.len() as int),
                    k,
                ),
        decreases rest.len(),
    {
        let ghost m = rest@.len() as int;
        let ghost old_rest = tagged(rest@, key_views(rest_keys@));
        let x = rest.pop().unwrap();
        let kx = rest_keys.pop().unwrap();
        let ghost xe = (x, key_view(kx));
        proof {
            assert(old_rest[m - 1] == xe);
            assert(orig[m - 1] == xe);
            assert(tagged(rest@, key_views(rest_keys@)) =~= old_rest.drop_last());
        }
        let ghost cur = tagged(res@, key_views(res_keys@));
        let mut p: usize = 0;
        while p < res_keys.len() && key_less(&res_keys[p], &kx)
            invariant
                p <= res_keys@.len(),
                res@.len() == res_keys@.len(),
                cur == tagged(res@, key_views(res_keys@)),
                forall|i: int| 0 <= i < p ==> key_lt(#[trigger] cur[i].1, key_view(kx)),
            decreases res_keys.len() - p,
        {
            proof {
                assert(cur[p as int].1 == key_view(res_keys@[p as int]));
            }
            p = p + 1;
        }
        proof {
            lemma_insert_keeps_key_groups(cur, p as int, xe);
            assert(orig.skip(m - 1) =~= seq![xe] + orig.skip(m));
            assert forall|k: KeyView| #[trigger]
                with_sort_key(orig.skip(m - 1), k) == (if xe.1 == k {
                    seq![xe] + with_sort_key(orig.skip(m), k)
                } else {
                    with_sort_key(orig.skip(m), k)
                }) by {
                orig.skip(m).lemma_filter_prepend(xe, |e: (T, KeyView)| e.1 == k);
            }
            if p < cur.len() {
                assert(cur[p as int].1 == key_view(res_keys@[p as int]));
            }
        }
        res.insert(p, x);
        res_keys.insert(p, kx);
        proof {
            let now = tagged(res@, key_views(res_keys@));
            assert(now =~= cur.insert(p as int, xe));
            assert forall|i: int, j: int| 0 <= i < j < now.len() implies !key_lt(
                #[trigger] now[j].1,
                #[trigger] now[i].1,
            ) by {
                if j < p {
                    assert(now[i] == cur[i] && now[j] == cur[j]);
                } else if j == p {
                    assert(now[i] == cur[i]);
                    lemma_key_lt_order(cur[i].1, xe.1, xe.1);
                } else if i < p {
                    assert(now[i] == cur[i] && now[j] == cur[j - 1]);
                    lemma_key_lt_order(cur[i].1, xe.1, cur[j - 1].1);
                    lemma_key_lt_order(cur[j - 1].1, cur[i].1, xe.1);
                    lemma_key_lt_order(cur[j - 1].1, xe.1, cur[p as int].1);
                    lemma_key_lt_order(xe.1, cur[p as int].1, cur[j - 1].1);
                    lemma_key_lt_order(cur[j - 1].1, cur[p as int].1, cur[i].1);
                } else if i == p {
                    assert(now[i] == xe && now[j] == cur[j - 1]);
                    lemma_key_lt_order(cur[j - 1].1, xe.1, cur[p as int].1);
                    lemma_key_lt_order(xe.1, cur[p as int].1, cur[j - 1].1);
                    lemma_key_lt_order(cur[p as int].1, cur[j - 1].1, xe.1);
                } else {
                    assert(now[i] == cur[i - 1] && now[j] == cur[j - 1]);
                }
            }
            assert(tagged(rest@, key_views(rest_keys@)) =~= orig.take(rest@.len() as int));
        }
    }
    proof {
        assert(orig.skip(0) =~= orig);
    }
    (res, res_keys)
}

/// Mapping every item of a sequence commutes with keeping those whose image
/// satisfies a predicate.
pub proof fn lemma_map_filter<A, B>(s: Seq<A>, f: spec_fn(A) -> B, p: spec_fn(B) -> bool)
    ensures
        s.map_values(f).filter(p) == s.filter(|a: A| p(f(a))).map_values(f),
    decreases s.len(),
{
    reveal(Seq::filter);
    if s.len() > 0 {
        lemma_map_filter(s.drop_last(), f, p);
        assert(s.map_values(f).drop_last() =~= s.drop_last().map_values(f));
        assert(s.map_values(f).last() == f(s.last()));
        let q = |a: A| p(f(a));
        if q(s.last()) {
            assert(s.filter(q).map_values(f) =~= s.drop_last().filter(q).map_values(f).push(
                f(s.last()),
            ));
        } else {
            assert(s.filter(q) == s.drop_last().filter(q));
        }
    } else {
        assert(s.map_values(f) =~= Seq::<B>::empty());
        assert(s.filter(|a: A| p(f(a))) =~= Seq::<A>::empty());
    }
}

/// Viewing the items of a tagged sequence keeps its key groups and order.
pub proof fn lemma_tagged_view<T, V>(items: Seq<T>, keys: Seq<KeyView>, view: spec_fn(T) -> V)
    requires
        items.len() == keys.len(),
    ensures
        sorted_by_key(tagged(items, keys)) ==> sorted_by_key(tagged(items.map_values(view), keys)),
        forall|k: KeyView| #[trigger]
            with_sort_key(tagged(items.map_values(view), keys), k) == with_sort_key(
                tagged(items, keys),
                k,
            ).map_values(|e: (T, KeyView)| (view(e.0), e.1)),
{
    let g = |e: (T, KeyView)| (view(e.0), e.1);
    assert(tagged(items.map_values(view), keys) =~= tagged(items, keys).map_values(g));
    if sorted_by_key(tagged(items, keys)) {
        assert forall|i: int, j: int|
            0 <= i < j < tagged(items.map_values(view), keys).len() implies !key_lt(
            #[trigger] tagged(items.map_values(view), keys)[j].1,
            #[trigger] tagged(items.map_values(view), keys)[i].1,
        ) by {
            assert(tagged(items, keys)[j].1 == keys[j]);
            assert(tagged(items, keys)[i].1 == keys[i]);
        }
    }
    assert forall|k: KeyView| #[trigger]
        with_sort_key(tagged(items.map_values(view), keys), k) == with_sort_key(
            tagged(items, keys),
            k,
        ).map_values(g) by {
        lemma_map_filter(tagged(items, keys), g, |e: (V, KeyView)| e.1 == k);
        assert((|e: (T, KeyView)| (|e2: (V, KeyView)| e2.1 == k)(g(e))) =~= (|e: (T, KeyView)|
            e.1 == k));
    }
}

/// An entry belongs to the group of its own key.
pub proof fn lemma_with_sort_key_member<T>(s: Seq<(T, KeyView)>, j: int)
    requires
        0 <= j < s.len(),
    ensures
        with_sort_key(s, s[j].1).contains(s[j]),
{
    broadcast use vstd::seq_lib::group_filter_ensures;

    let k = s[j].1;
    assert(s.filter(|e: (T, KeyView)| e.1 == k).contains(s[j]));
}

/// A group holds only entries of the sequence.
pub proof fn lemma_with_sort_key_subset<T>(s: Seq<(T, KeyView)>, k: KeyView, item: (T, KeyView))
    requires
        with_sort_key(s, k).contains(item),
    ensures
        s.contains(item),
    decreases s.len(),
{
    reveal(Seq::filter);
    if s.len() > 0 {
        let sub = with_sort_key(s.drop_last(), k);
        let f = with_sort_key(s, k);
        assert(f == (if s.last().1 == k {
            sub.push(s.last())
        } else {
            sub
        }));
        let m = choose|m: int| 0 <= m < f.len() && f[m] == item;
        if m < sub.len() {
            assert(f[m] == sub[m]);
            assert(sub.contains(item));
            lemma_with_sort_key_subset(s.drop_last(), k, item);
            let q = choose|q: int| 0 <= q < s.drop_last().len() && s.drop_last()[q] == item;
            assert(s[q] == item);
        } else {
            assert(s[s.len() - 1] == item);
        }
    }
}

/// `out` is `input` sorted stably by the keys.
pub open spec fn stably_sorted<V>(out: Seq<V>, out_keys: Seq<KeyView>, input: Seq<V>, in_keys: Seq<KeyView>) -> bool {
    &&& out.len() == input.len()
    &&& sorted_by_key(tagged(out, out_keys))
    &&& forall|k: KeyView| #[trigger]
        with_sort_key(tagged(out, out_keys), k) == with_sort_key(tagged(input, in_keys), k)
}

/// When two tagged sequences have the same key groups and the second's keys
/// are a function of its items, so are the first's.
pub proof fn lemma_keys_follow_items<V>(
    out: Seq<V>,
    out_keys: Seq<KeyView>,
    input: Seq<V>,
    key: spec_fn(V) -> KeyView,
)
    requires
        out.len() == out_keys.len(),
        forall|k: KeyView| #[trigger]
            with_sort_key(tagged(out, out_keys), k) == with_sort_key(
                tagged(input, input.map_values(key)),
                k,
            ),
    ensures
        out_keys == out.map_values(key),
{
    let t_out = tagged(out, out_keys);
    let t_in = tagged(input, input.map_values(key));
    assert forall|j: int| 0 <= j < out.len() implies out_keys[j] == #[trigger] key(out[j]) by {
        let k = out_keys[j];
        let e = t_out[j];
        lemma_with_sort_key_member(t_out, j);
        lemma_with_sort_key_subset(t_in, k, e);
        let m = choose|m: int| 0 <= m < t_in.len() && t_in[m] == e;
        assert(t_in[m] == (input[m], key(input[m])));
    }
    assert(out_keys =~= out.map_values(key));
}

// ── Sorting strings ──────────────────────────────────────────────

/// The first position of a sorted sequence whose element is not below `x`.
pub open spec fn insert_pos(r: Seq<Seq<char>>, x: Seq<char>, from: int) -> int
    decreases r.len() - from,
{
    if from < 0 || from >= r.len() || !chars_lt(r[from], x) {
        from
    } else {
        insert_pos(r, x, from + 1)
    }
}

/// The strings of `s` in ascending order (`slice::sort` on strings).
pub open spec fn sort_strings(s: Seq<Seq<char>>) -> Seq<Seq<char>>
    decreases s.len(),
{
    if s.len() == 0 {
        Seq::empty()
    } else {
        let r = sort_strings(s.drop_last());
        r.insert(insert_pos(r, s.last(), 0), s.last())
    }
}

/// The distinct strings of `s` in ascending order (`sort` then `dedup`).
pub open spec fn sorted_distinct(s: Seq<Seq<char>>) -> Seq<Seq<char>>
    decreases s.len(),
{
    if s.len() == 0 {
        Seq::empty()
    } else {
        let r = sorted_distinct(s.drop_last());
        if r.contains(s.last()) {
            r
        } else {
            r.insert(insert_pos(r, s.last(), 0), s.last())
        }
    }
}

/// Non-decreasing order.
pub open spec fn ascending(r: Seq<Seq<char>>) -> bool {
    forall|i: int, j: int| 0 <= i < j < r.len() ==> !chars_lt(#[trigger] r[j], #[trigger] r[i])
}

/// Strictly increasing order.
pub open spec fn strictly_ascending(r: Seq<Seq<char>>) -> bool {
    forall|i: int, j: int| 0 <= i < j < r.len() ==> chars_lt(#[trigger] r[i], #[trigger] r[j])
}

proof fn lemma_insert_pos(r: Seq<Seq<char>>, x: Seq<char>, from: int)
    requires
        0 <= from <= r.len(),
    ensures
        from <= insert_pos(r, x, from) <= r.len(),
        forall|i: int| from <= i < insert_pos(r, x, from) ==> chars_lt(#[trigger] r[i], x),
        insert_pos(r, x, from) < r.len() ==> !chars_lt(r[insert_pos(r, x, from)], x),
    decreases r.len() - from,
{
    if from < r.len() && chars_lt(r[from], x) {
        lemma_insert_pos(r, x, from + 1);
    }
}

proof fn lemma_insert_keeps_ascending(r: Seq<Seq<char>>, x: Seq<char>)
    requires
        ascending(r),
    ensures
        ascending(r.insert(insert_pos(r, x, 0), x)),
        r.insert(insert_pos(r, x, 0), x).len() == r.len() + 1,
{
    let p = insert_pos(r, x, 0);
    lemma_insert_pos(r, x, 0);
    let t = r.insert(p, x);
    assert forall|i: int, j: int| 0 <= i < j < t.len() implies !chars_lt(#[trigger] t[j], #[trigger] t[i]) by {
        lemma_chars_lt_total(x, x);
        if j < p {
            assert(t[i] == r[i] && t[j] == r[j]);
        } else if j == p {
            assert(t[i] == r[i]);
            lemma_chars_lt_total(r[i], x);
        } else if i < p {
            assert(t[i] == r[i] && t[j] == r[j - 1]);
            lemma_chars_lt_total(r[i], r[j - 1]);
            lemma_chars_lt_total(r[p], x);
            lemma_chars_lt_total(r[j - 1], r[p]);
            if chars_lt(r[j - 1], r[i]) {
                lemma_chars_lt_trans(r[j - 1], r[i], x);
                if r[j - 1] != r[p] {
                    lemma_chars_lt_trans(r[p], r[j - 1], x);
                }
            }
        } else if i == p {
            assert(t[i] == x && t[j] == r[j - 1]);
            lemma_chars_lt_total(r[p], x);
            lemma_chars_lt_total(r[j - 1], r[p]);
            if chars_lt(r[j - 1], x) {
                if r[j - 1] == r[p] {
                } else {
                    lemma_chars_lt_total(r[j - 1], r[p]);
                    lemma_chars_lt_trans(r[p], r[j - 1], x);
                }
            }
        } else {
            assert(t[i] == r[i - 1] && t[j] == r[j - 1]);
        }
    }
}

proof fn lemma_insert_contains(r: Seq<Seq<char>>, p: int, y: Seq<char>)
    requires
        0 <= p <= r.len(),
    ensures
        forall|x: Seq<char>| #[trigger] r.insert(p, y).contains(x) <==> (r.contains(x) || x == y),
{
    let t = r.insert(p, y);
    assert forall|x: Seq<char>| #[trigger] t.contains(x) <==> (r.contains(x) || x == y) by {
        if r.contains(x) {
            let m = choose|m: int| 0 <= m < r.len() && r[m] == x;
            if m < p {
                assert(t[m] == x);
            } else {
                assert(t[m + 1] == x);
            }
        }
        if x == y {
            assert(t[p] == x);
        }
        if t.contains(x) {
            let m = choose|m: int| 0 <= m < t.len() && t[m] == x;
            if m != p {
                let q = if m < p { m } else { m - 1 };
                assert(r[q] == x);
            }
        }
    }
}

proof fn lemma_drop_last_contains(s: Seq<Seq<char>>)
    requires
        s.len() > 0,
    ensures
        forall|x: Seq<char>| #[trigger] s.contains(x) <==> (s.drop_last().contains(x) || x == s.last()),
{
    assert forall|x: Seq<char>| #[trigger] s.contains(x) <==> (s.drop_last().contains(x) || x == s.last()) by {
        if s.contains(x) {
            let k = choose|k: int| 0 <= k < s.len() && s[k] == x;
            if k < s.len() - 1 {
                assert(s.drop_last()[k] == x);
            }
        }
        if s.drop_last().contains(x) {
            let k = choose|k: int| 0 <= k < s.drop_last().len() && s.drop_last()[k] == x;
            assert(s[k] == x);
        }
        if x == s.last() {
            assert(s[s.len() - 1] == x);
        }
    }
}

/// Sorting puts the strings in ascending order and keeps each of them.
pub proof fn lemma_sort_strings(s: Seq<Seq<char>>)
    ensures
        ascending(sort_strings(s)),
        sort_strings(s).len() == s.len(),
        forall|x: Seq<char>| s.contains(x) <==> #[trigger] sort_strings(s).contains(x),
    decreases s.len(),
{
    if s.len() > 0 {
        let r = sort_strings(s.drop_last());
        lemma_sort_strings(s.drop_last());
        lemma_insert_keeps_ascending(r, s.last());
        let p = insert_pos(r, s.last(), 0);
        lemma_insert_pos(r, s.last(), 0);
        lemma_insert_contains(r, p, s.last());
        lemma_drop_last_contains(s);
    }
}

/// Sorting and removing repeats gives each distinct string once, in
/// strictly ascending order.
pub proof fn lemma_sorted_distinct(s: Seq<Seq<char>>)
    ensures
        strictly_ascending(sorted_distinct(s)),
        forall|x: Seq<char>| s.contains(x) <==> #[trigger] sorted_distinct(s).contains(x),
    decreases s.len(),
{
    if s.len() > 0 {
        let r = sorted_distinct(s.drop_last());
        lemma_sorted_distinct(s.drop_last());
        let x0 = s.last();
        if !r.contains(x0) {
            let p = insert_pos(r, x0, 0);
            lemma_insert_pos(r, x0, 0);
            let t = r.insert(p, x0);
            assert forall|i: int, j: int| 0 <= i < j < t.len() implies chars_lt(#[trigger] t[i], #[trigger] t[j]) by {
                if j < p {
                    assert(t[i] == r[i] && t[j] == r[j]);
                } else if j == p {
                    assert(t[i] == r[i]);
                } else if i < p {
                    assert(t[i] == r[i] && t[j] == r[j - 1]);
                } else if i == p {
                    assert(t[i] == x0 && t[j] == r[j - 1]);
                    lemma_chars_lt_total(r[p], x0);
                    assert(r[p] != x0);
                    if j - 1 > p {
                        lemma_chars_lt_trans(x0, r[p], r[j - 1]);
                    }
                } else {
                    assert(t[i] == r[i - 1] && t[j] == r[j - 1]);
                }
            }
            lemma_insert_contains(r, p, x0);
            lemma_drop_last_contains(s);
        } else {
            lemma_drop_last_contains(s);
        }
    }
}

/// Strings in non-decreasing order (`chars_lt` never runs backwards).
pub open spec fn chars_leq(a: Seq<char>, b: Seq<char>) -> bool {
    !chars_lt(b, a)
}

proof fn lemma_chars_leq_total_order()
    ensures
        vstd::relations::total_ordering(|a: Seq<char>, b: Seq<char>| chars_leq(a, b)),
{
    let leq = |a: Seq<char>, b: Seq<char>| chars_leq(a, b);
    assert forall|a: Seq<char>| #[trigger] leq(a, a) by {
        lemma_chars_lt_total(a, a);
    }
    assert forall|a: Seq<char>, b: Seq<char>| #[trigger] leq(a, b) && #[trigger] leq(b, a) implies a == b by {
        lemma_chars_lt_total(a, b);
    }
    assert forall|a: Seq<char>, b: Seq<char>, c: Seq<char>|
        #[trigger] leq(a, b) && #[trigger] leq(b, c) implies #[trigger] leq(a, c) by {
        lemma_chars_lt_total(a, b);
        lemma_chars_lt_total(b, c);
        lemma_chars_lt_total(a, c);
        if chars_lt(c, a) {
            if chars_lt(a, b) {
                lemma_chars_lt_trans(c, a, b);
            } else {
                assert(a == b);
            }
        }
    }
    assert forall|a: Seq<char>, b: Seq<char>| #[trigger] leq(a, b) || #[trigger] leq(b, a) by {
        lemma_chars_lt_total(a, b);
    }
}

proof fn lemma_insert_to_multiset(r: Seq<Seq<char>>, p: int, x: Seq<char>)
    requires
        0 <= p <= r.len(),
    ensures
        r.insert(p, x).to_multiset() =~= r.to_multiset().insert(x),
{
    broadcast use vstd::seq_lib::group_to_multiset_ensures, vstd::multiset::group_multiset_axioms;

    let t = r.insert(p, x);
    assert(t.remove(p) =~= r);
    assert(t[p] == x);
    assert(t.remove(p).to_multiset() =~= t.to_multiset().remove(x));
    assert(t.to_multiset().count(x) > 0);
}

/// Sorting keeps the multiset of strings.
pub proof fn lemma_sort_strings_multiset(s: Seq<Seq<char>>)
    ensures
        sort_strings(s).to_multiset() =~= s.to_multiset(),
    decreases s.len(),
{
    broadcast use vstd::seq_lib::group_to_multiset_ensures;

    if s.len() > 0 {
        let r = sort_strings(s.drop_last());
        lemma_sort_strings_multiset(s.drop_last());
        lemma_insert_pos(r, s.last(), 0);
        lemma_insert_to_multiset(r, insert_pos(r, s.last(), 0), s.last());
        assert(s.drop_last().push(s.last()) =~= s);
    }
}

proof fn lemma_ascending_sorted_by(r: Seq<Seq<char>>)
    requires
        ascending(r),
    ensures
        vstd::relations::sorted_by(r, |a: Seq<char>, b: Seq<char>| chars_leq(a, b)),
{
}

/// Sorting gives the same strings whatever the order of its input: inputs
/// that are permutations of each other sort alike.
pub proof fn lemma_sort_strings_order_free(s1: Seq<Seq<char>>, s2: Seq<Seq<char>>)
    requires
        s1.to_multiset() == s2.to_multiset(),
    ensures
        sort_strings(s1) == sort_strings(s2),
{
    lemma_sort_strings(s1);
    lemma_sort_strings(s2);
    lemma_sort_strings_multiset(s1);
    lemma_sort_strings_multiset(s2);
    lemma_ascending_sorted_by(sort_strings(s1));
    lemma_ascending_sorted_by(sort_strings(s2));
    lemma_chars_leq_total_order();
    vstd::seq_lib::lemma_sorted_unique(
        sort_strings(s1),
        sort_strings(s2),
        |a: Seq<char>, b: Seq<char>| chars_leq(a, b),
    );
}

proof fn lemma_strict_sorted_by(r: Seq<Seq<char>>)
    requires
        strictly_ascending(r),
    ensures
        vstd::relations::sorted_by(r, |a: Seq<char>, b: Seq<char>| chars_leq(a, b)),
{
    assert forall|i: int, j: int| 0 <= i < j < r.len() implies #[trigger] chars_leq(r[i], r[j]) by {
        lemma_chars_lt_total(r[i], r[j]);
    }
}

proof fn lemma_strict_multiset(r: Seq<Seq<char>>)
    requires
        strictly_ascending(r),
    ensures
        forall|x: Seq<char>| #[trigger] r.to_multiset().count(x) == if r.contains(x) { 1nat } else { 0nat },
{
    broadcast use vstd::seq_lib::group_to_multiset_ensures;

    assert(r.no_duplicates()) by {
        assert forall|i: int, j: int| 0 <= i < r.len() && 0 <= j < r.len() && i != j implies r[i] != r[j] by {
            if i < j {
                lemma_chars_lt_total(r[i], r[i]);
            } else {
                lemma_chars_lt_total(r[j], r[j]);
            }
        }
    }
    r.lemma_multiset_has_no_duplicates();
}

/// Sorting and removing repeats depends only on which strings occur:
/// inputs with the same members give the same result, whatever their order
/// and repeats.
pub proof fn lemma_sorted_distinct_order_free(s1: Seq<Seq<char>>, s2: Seq<Seq<char>>)
    requires
        forall|x: Seq<char>| s1.contains(x) <==> s2.contains(x),
    ensures
        sorted_distinct(s1) == sorted_distinct(s2),
{
    let a = sorted_distinct(s1);
    let b = sorted_distinct(s2);
    lemma_sorted_distinct(s1);
    lemma_sorted_distinct(s2);
    lemma_strict_multiset(a);
    lemma_strict_multiset(b);
    assert(a.to_multiset() =~= b.to_multiset()) by {
        assert forall|x: Seq<char>| a.to_multiset().count(x) == b.to_multiset().count(x) by {
            assert(s1.contains(x) <==> a.contains(x));
            assert(s2.contains(x) <==> b.contains(x));
        }
    }
    lemma_chars_leq_total_order();
    lemma_strict_sorted_by(a);
    lemma_strict_sorted_by(b);
    vstd::seq_lib::lemma_sorted_unique(a, b, |x: Seq<char>, y: Seq<char>| chars_leq(x, y));
}

/// Mapping sequences with the same multiset gives sequences with the same
/// multiset.
pub proof fn lemma_map_multiset<A, B>(s1: Seq<A>, s2: Seq<A>, f: spec_fn(A) -> B)
    requires
        s1.to_multiset() == s2.to_multiset(),
    ensures
        s1.map_values(f).to_multiset() == s2.map_values(f).to_multiset(),
    decreases s1.len(),
{
    broadcast use vstd::seq_lib::group_to_multiset_ensures, vstd::multiset::group_multiset_axioms;

    if s1.len() == 0 {
        assert(s1.to_multiset().len() == 0);
        assert(s2.to_multiset().len() == s2.len());
        assert(s2.len() == 0);
        assert(s1.map_values(f) =~= Seq::<B>::empty());
        assert(s2.map_values(f) =~= Seq::<B>::empty());
    } else {
        let x = s1.last();
        assert(s1.drop_last().push(x) =~= s1);
        assert(s1.to_multiset() =~= s1.drop_last().to_multiset().insert(x));
        assert(s2.to_multiset().count(x) > 0);
        assert(s2.contains(x));
        let k = choose|k: int| 0 <= k < s2.len() && s2[k] == x;
        assert(s2.remove(k).to_multiset() =~= s2.to_multiset().remove(x));
        assert(s1.drop_last().to_multiset() =~= s1.to_multiset().remove(x));
        lemma_map_multiset(s1.drop_last(), s2.remove(k), f);
        let m2 = s2.map_values(f);
        assert(s2.remove(k).map_values(f) =~= m2.remove(k));
        assert(m2.remove(k).to_multiset() =~= m2.to_multiset().remove(f(x)));
        assert(m2.to_multiset().count(f(x)) > 0) by {
            assert(m2[k] == f(x));
            assert(m2.contains(f(x)));
        }
        assert(s1.map_values(f) =~= s1.drop_last().map_values(f).push(f(x)));
        assert(s1.map_values(f).to_multiset() =~= s1.drop_last().map_values(f).to_multiset().insert(f(x)));
        assert(m2.to_multiset() =~= m2.to_multiset().remove(f(x)).insert(f(x)));
    }
}

/// Mapping sequences with the same members gives sequences with the same
/// members.
pub proof fn lemma_map_members<A, B>(s1: Seq<A>, s2: Seq<A>, f: spec_fn(A) -> B)
    requires
        forall|x: A| s1.contains(x) <==> s2.contains(x),
    ensures
        forall|y: B| s1.map_values(f).contains(y) <==> s2.map_values(f).contains(y),
{
    assert forall|y: B| s1.map_values(f).contains(y) implies s2.map_values(f).contains(y) by {
        let i = choose|i: int| 0 <= i < s1.map_values(f).len() && s1.map_values(f)[i] == y;
        assert(s1.contains(s1[i]));
        let j = choose|j: int| 0 <= j < s2.len() && s2[j] == s1[i];
        assert(s2.map_values(f)[j] == y);
    }
    assert forall|y: B| s2.map_values(f).contains(y) implies s1.map_values(f).contains(y) by {
        let i = choose|i: int| 0 <= i < s2.map_values(f).len() && s2.map_values(f)[i] == y;
        assert(s2.contains(s2[i]));
        let j = choose|j: int| 0 <= j < s1.len() && s1[j] == s2[i];
        assert(s1.map_values(f)[j] == y);
    }
}

/// The views of a list of character vectors.
pub open spec fn char_views(v: Seq<Vec<char>>) -> Seq<Seq<char>> {
    v.map_values(|w: Vec<char>| w@)
}

fn insert_position(r: &Vec<Vec<char>>, x: &Vec<char>) -> (p: usize)
    ensures
        p == insert_pos(char_views(r@), x@, 0),
{
    let ghost rv = char_views(r@);
    let mut p: usize = 0;
    while p < r.len() && chars_less(&r[p], x)
        invariant
            rv == char_views(r@),
            p <= r@.len(),
            insert_pos(rv, x@, 0) == insert_pos(rv, x@, p as int),
        decreases r.len() - p,
    {
        proof {
            assert(rv[p as int] == r@[p as int]@);
        }
        p = p + 1;
    }
    proof {
        if p < r@.len() {
            assert(rv[p as int] == r@[p as int]@);
        }
    }
    p
}

fn contains_chars(r: &Vec<Vec<char>>, x: &Vec<char>) -> (b: bool)
    ensures
        b == char_views(r@).contains(x@),
{
    let ghost rv = char_views(r@);
    let mut i: usize = 0;
    while i < r.len()
        invariant
            rv == char_views(r@),
            i <= r@.len(),
            forall|j: int| 0 <= j < i ==> rv[j] != x@,
        decreases r.len() - i,
    {
        if crate::text::chars_eq(&r[i], x) {
            proof {
                assert(rv[i as int] == x@);
            }
            return true;
        }
        i = i + 1;
    }
    false
}

/// Sort strings ascending, optionally removing repeats.
pub fn sort_chars(items: &Vec<Vec<char>>, distinct: bool) -> (r: Vec<Vec<char>>)
    ensures
        char_views(r@) == (if distinct {
            sorted_distinct(char_views(items@))
        } else {
            sort_strings(char_views(items@))
        }),
{
    let ghost iv = char_views(items@);
    let mut out: Vec<Vec<char>> = Vec::new();
    let mut i: usize = 0;
    while i < items.len()
        invariant
            iv == char_views(items@),
            i <= items@.len(),
            char_views(out@) == (if distinct {
                sorted_distinct(iv.take(i as int))
            } else {
                sort_strings(iv.take(i as int))
            }),
        decreases items.len() - i,
    {
        let x = &items[i];
        proof {
            assert(iv.take(i + 1).drop_last() =~= iv.take(i as int));
            assert(iv.take(i + 1).last() == x@);
        }
        if distinct && contains_chars(&out, x) {
        } else {
            let p = insert_position(&out, x);
            proof {
                lemma_insert_pos(char_views(out@), x@, 0);
            }
            let ghost before = out@;
            out.insert(p, x.clone());
            proof {
                assert(char_views(out@) =~= char_views(before).insert(p as int, x@));
            }
        }
        i = i + 1;
    }
    proof {
        assert(iv.take(i as int) =~= iv);
    }
    out
}

/// Join strings with a separator.
pub fn join_chars(parts: &Vec<Vec<char>>, sep: &str) -> (r: Vec<char>)
    ensures
        r@ == crate::search::join(char_views(parts@), sep@),
{
    let ghost pv = char_views(parts@);
    let mut out: Vec<char> = Vec::new();
    let mut i: usize = 0;
    while i < parts.len()
        invariant
            pv == char_views(parts@),
            i <= parts@.len(),
            out@ == crate::search::join(pv.take(i as int), sep@),
        decreases parts.len() - i,
    {
        proof {
            assert(pv.take(i + 1).drop_last() =~= pv.take(i as int));
            assert(pv.take(i + 1).last() == parts@[i as int]@);
        }
        if i > 0 {
            crate::text::push_str(&mut out, sep);
        } else {
            proof {
                assert(pv.take(0) =~= Seq::<Seq<char>>::empty());
            }
        }
        crate::text::push_all(&mut out, &parts[i]);
        i = i + 1;
    }
    proof {
        assert(pv.take(i as int) =~= pv);
    }
    out
}

} // verus!
