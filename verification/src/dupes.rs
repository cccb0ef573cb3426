//! Identity keys of duplicated-code groups, by which audit tells the groups
//! that a change introduced from those that were already there.
use vstd::prelude::*;
use std::collections::hash_map::DefaultHasher;
use std::hash::Hasher;
use vstd::std_specs::hash::DefaultHasherAdditionalSpecFns;
use vstd::utf8::encode_utf8;
use crate::ordering::{char_views, join_chars, sort_chars, sorted_distinct};
use crate::paths::{key_path, relative_key_path};
use crate::runtime_coverage::hex_char;
use crate::search::join;
use crate::text::{chars_to_string, decimal, push_all, push_decimal, push_str, str_chars};

verus! {

/// One occurrence of duplicated code: its file and its text.
#[derive(Debug, Clone)]
pub struct CloneInstance {
    pub file: String,
    pub fragment: String,
}

/// A group of duplicated-code occurrences.
#[derive(Debug, Clone)]
pub struct CloneGroup {
    pub instances: Vec<CloneInstance>,
    pub token_count: usize,
    pub line_count: usize,
}

/// Lowercase hexadecimal digits of `n`, without leading zeros (`{:x}`).
pub open spec fn hex(n: nat) -> Seq<char>
    decreases n,
{
    if n < 16 {
        seq![hex_char(n as int)]
    } else {
        hex(n / 16).push(hex_char((n % 16) as int))
    }
}

/// The key paths of a group's files.
pub open spec fn instance_files(is: Seq<CloneInstance>, root: Seq<char>) -> Seq<Seq<char>> {
    is.map_values(|i: CloneInstance| key_path(i.file@, root))
}

/// What hashing a string feeds a hasher: its UTF-8 bytes, then `0xff`
/// (how `str` implements `Hash`).
pub open spec fn str_writes(s: Seq<char>) -> Seq<Seq<u8>> {
    seq![encode_utf8(s), seq![0xffu8]]
}

/// What hashing the texts of a group's occurrences, in order, feeds a hasher.
pub open spec fn fragment_writes(is: Seq<CloneInstance>) -> Seq<Seq<u8>>
    decreases is.len(),
{
    if is.len() == 0 {
        Seq::empty()
    } else {
        fragment_writes(is.drop_last()) + str_writes(is.last().fragment@)
    }
}

/// `dupe:<files>:<tokens>:<lines>:<hash>`: the group's distinct files in
/// order joined by `|`, its token and line counts, and the hash of its
/// fragments (fed in order to a `DefaultHasher`) in hexadecimal.
pub open spec fn dupe_key(g: CloneGroup, root: Seq<char>) -> Seq<char> {
    "dupe:"@ + join(sorted_distinct(instance_files(g.instances@, root)), "|"@) + ":"@ + decimal(
        g.token_count as nat,
    ) + ":"@ + decimal(g.line_count as nat) + ":"@ + hex(
        DefaultHasher::spec_finish(fragment_writes(g.instances@)) as nat,
    )
}

fn push_hex_min(v: &mut Vec<char>, n: u64)
    ensures
        final(v)@ == old(v)@ + hex(n as nat),
    decreases n,
{
    if n < 16 {
        v.push(hex_digit_char(n));
    } else {
        push_hex_min(v, n / 16);
        v.push(hex_digit_char(n % 16));
    }
}

fn hex_digit_char(d: u64) -> (c: char)
    requires
        d < 16,
    ensures
        c == hex_char(d as int),
{
    if d < 10 {
        crate::text::digit(d)
    } else if d == 10 {
        'a'
    } else if d == 11 {
        'b'
    } else if d == 12 {
        'c'
    } else if d == 13 {
        'd'
    } else if d == 14 {
        'e'
    } else {
        'f'
    }
}

/// The identity key of a duplicated-code group.
pub fn dupe_group_key(group: &CloneGroup, root: &str) -> (r: String)
    ensures
        r@ == dupe_key(*group, root@),
{
    let is = &group.instances;
    let mut files: Vec<Vec<char>> = Vec::new();
    let mut hasher = DefaultHasher::new();
    let mut i: usize = 0;
    while i < is.len()
        invariant
            i <= is@.len(),
            char_views(files@) == instance_files(is@.take(i as int), root@),
            hasher@ == fragment_writes(is@.take(i as int)),
        decreases is.len() - i,
    {
        let key = relative_key_path(is[i].file.as_str(), root);
        let ghost old_files = files@;
        let key_chars = str_chars(key.as_str());
        files.push(key_chars);
        proof {
            assert(char_views(files@) =~= char_views(old_files).push(key_path(is@[i as int].file@, root@)));
        }
        let fragment = is[i].fragment.as_str();
        let ghost before = hasher@;
        let bytes = fragment.as_bytes();
        hasher.write(bytes);
        let end: [u8; 1] = [0xffu8];
        hasher.write(&end);
        proof {
            let t = is@.take(i + 1);
            assert(t =~= is@.take(i as int).push(is@[i as int]));
            assert(t.drop_last() =~= is@.take(i as int));
            assert(t.last() == is@[i as int]);
            assert(char_views(files@) =~= instance_files(t, root@));
            assert(end@ =~= seq![0xffu8]);
            assert(bytes@ == encode_utf8(is@[i as int].fragment@));
            assert(hasher@ =~= before + str_writes(is@[i as int].fragment@));
            assert(hasher@ =~= fragment_writes(t));
        }
        i = i + 1;
    }
    proof {
        assert(is@.take(is@.len() as int) =~= is@);
    }
    let sorted = sort_chars(&files, true);
    let mut out: Vec<char> = Vec::new();
    push_str(&mut out, "dupe:");
    let joined = join_chars(&sorted, "|");
    push_all(&mut out, &joined);
    push_str(&mut out, ":");
    push_decimal(&mut out, group.token_count as u64);
    push_str(&mut out, ":");
    push_decimal(&mut out, group.line_count as u64);
    push_str(&mut out, ":");
    push_hex_min(&mut out, hasher.finish());
    chars_to_string(out.as_slice())
}

/// The identity keys of duplicated-code groups, one per group, in order.
pub fn dupes_keys(groups: &Vec<CloneGroup>, root: &str) -> (r: Vec<String>)
    ensures
        r@.len() == groups@.len(),
        forall|i: int| 0 <= i < r@.len() ==> (#[trigger] r@[i])@ == dupe_key(groups@[i], root@),
{
    let mut out: Vec<String> = Vec::new();
    let mut i: usize = 0;
    while i < groups.len()
        invariant
            i <= groups@.len(),
            out@.len() == i,
            forall|j: int| 0 <= j < i ==> (#[trigger] out@[j])@ == dupe_key(groups@[j], root@),
        decreases groups.len() - i,
    {
        out.push(dupe_group_key(&groups[i], root));
        i = i + 1;
    }
    out
}

} // verus!
