//! Command-line inputs: which issue types a run is restricted to, and the
//! git references a user may pass.
use vstd::prelude::*;

verus! {

/// Issue types a run is restricted to (all `false`: no restriction).
#[derive(Debug, Clone, Copy)]
pub struct IssueFilters {
    pub unused_files: bool,
    pub unused_exports: bool,
    pub unused_deps: bool,
    pub unused_types: bool,
    pub unused_enum_members: bool,
    pub unused_class_members: bool,
    pub unresolved_imports: bool,
    pub unlisted_deps: bool,
    pub duplicate_exports: bool,
}

impl IssueFilters {
    /// Whether any issue type was requested.
    pub fn any_active(&self) -> (r: bool)
        ensures
            r == (self.unused_files || self.unused_exports || self.unused_deps
                || self.unused_types || self.unused_enum_members || self.unused_class_members
                || self.unresolved_imports || self.unlisted_deps || self.duplicate_exports),
    {
        self.unused_files || self.unused_exports || self.unused_deps || self.unused_types
            || self.unused_enum_members || self.unused_class_members || self.unresolved_imports
            || self.unlisted_deps || self.duplicate_exports
    }
}

/// A character allowed in a git reference: ASCII letters and digits and
/// `. _ - / ~ ^ @ { }`.
pub open spec fn git_ref_char(c: char) -> bool {
    ('a' <= c && c <= 'z') || ('A' <= c && c <= 'Z') || ('0' <= c && c <= '9') || c == '.'
        || c == '_' || c == '-' || c == '/' || c == '~' || c == '^' || c == '@' || c == '{'
        || c == '}'
}

/// Why a git reference is refused, if it is.
pub open spec fn git_ref_error(s: Seq<char>) -> Option<Seq<char>> {
    if s.len() == 0 {
        Some("git ref cannot be empty"@)
    } else if s[0] == '-' {
        Some("git ref cannot start with '-'"@)
    } else if exists|i: int| 0 <= i < s.len() && !git_ref_char(#[trigger] s[i]) {
        Some("git ref contains disallowed characters"@)
    } else {
        None
    }
}

/// Accept a git reference only when it is non-empty, does not start with
/// `-` (it would read as an option) and holds only allowed characters.
pub fn validate_git_ref(s: &str) -> (r: Result<&str, String>)
    ensures
        match git_ref_error(s@) {
            Some(e) => r matches Err(m) && m@ == e,
            None => r == Ok::<&str, String>(s),
        },
{
    let v = crate::text::str_chars(s);
    if v.len() == 0 {
        return Err(String::from_str("git ref cannot be empty"));
    }
    if v[0] == '-' {
        return Err(String::from_str("git ref cannot start with '-'"));
    }
    let mut i: usize = 0;
    while i < v.len()
        invariant
            v@ == s@,
            v@.len() > 0,
            v@[0] != '-',
            i <= v@.len(),
            forall|j: int| 0 <= j < i ==> git_ref_char(#[trigger] v@[j]),
        decreases v.len() - i,
    {
        let c = v[i];
        if !(('a' <= c && c <= 'z') || ('A' <= c && c <= 'Z') || ('0' <= c && c <= '9') || c == '.'
            || c == '_' || c == '-' || c == '/' || c == '~' || c == '^' || c == '@' || c == '{'
            || c == '}') {
            proof {
                assert(!git_ref_char(s@[i as int]));
            }
            return Err(String::from_str("git ref contains disallowed characters"));
        }
        i = i + 1;
    }
    Ok(s)
}

} // verus!
