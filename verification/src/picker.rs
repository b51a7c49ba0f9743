//! The file-picker entry model: entry kinds, their display order, and the
//! markdown-file test applied to directory listings. Paths are handled as
//! `/`-separated strings.

use crate::search::fold_code;
use crate::textutil::str_to_chars;
use vstd::prelude::*;
use vstd::string::*;

verus! {

/// What a picker row stands for: the parent directory, a subdirectory, or
/// an openable markdown file.
#[derive(Clone, Copy, Debug, PartialEq, Eq, Structural)]
pub enum PickerEntryKind {
    Parent,
    Directory,
    MarkdownFile,
}

/// One row of the picker listing.
#[derive(Clone, Debug, PartialEq, Eq)]
pub struct PickerEntry {
    pub path: String,
    pub kind: PickerEntryKind,
    pub label: String,
}

/// Sort rank of an entry kind: parent first, then directories, then files.
pub fn kind_order(kind: &PickerEntryKind) -> (r: u8)
    ensures
        r == match kind {
            PickerEntryKind::Parent => 0u8,
            PickerEntryKind::Directory => 1u8,
            PickerEntryKind::MarkdownFile => 2u8,
        },
{
    match kind {
        PickerEntryKind::Parent => 0,
        PickerEntryKind::Directory => 1,
        PickerEntryKind::MarkdownFile => 2,
    }
}

/// Index of the last occurrence of `c` in `s`, or -1 if it never occurs.
pub open spec fn last_index_of(s: Seq<char>, c: char) -> int
    decreases s.len(),
{
    if s.len() == 0 {
        -1
    } else if s.last() == c {
        s.len() - 1
    } else {
        last_index_of(s.drop_last(), c)
    }
}

/// What [`last_index_of`] finds: the position of the last occurrence, or
/// the absence of any.
pub proof fn lemma_last_index_of(s: Seq<char>, c: char)
    ensures
        last_index_of(s, c) >= 0 ==> last_index_of(s, c) < s.len() && s[last_index_of(s, c)] == c
            && (forall|j: int| last_index_of(s, c) < j < s.len() ==> s[j] != c),
        last_index_of(s, c) < 0 ==> forall|j: int| 0 <= j < s.len() ==> s[j] != c,
    decreases s.len(),
{
    if s.len() > 0 && s.last() != c {
        lemma_last_index_of(s.drop_last(), c);
        assert(forall|j: int| 0 <= j < s.len() - 1 ==> s[j] == s.drop_last()[j]);
    }
}

/// The two sequences are equal under ASCII case folding.
pub open spec fn eq_fold(a: Seq<char>, b: Seq<char>) -> bool {
    a.len() == b.len() && forall|k: int| 0 <= k < a.len() ==> fold_code(a[k]) == fold_code(b[k])
}

/// The path names a markdown file: its file name (the part after the last
/// `/`) has an extension after a dot that is not the name's first
/// character, and that extension is one of the markdown extensions,
/// compared case-insensitively.
pub open spec fn is_markdown_spec(s: Seq<char>) -> bool {
    let ls = last_index_of(s, '/');
    let ld = last_index_of(s, '.');
    ld > ls + 1 && {
        let ext = s.subrange(ld + 1, s.len() as int);
        eq_fold(ext, "md"@) || eq_fold(ext, "markdown"@) || eq_fold(ext, "mdown"@) || eq_fold(
            ext,
            "mdx"@,
        )
    }
}

/// The parent of a `/`-separated path: everything before the last `/`,
/// with the root's parent being the root marker itself; the root and the
/// empty path have no parent, and a bare name's parent is the empty path.
pub open spec fn parent_dir_spec(s: Seq<char>) -> Option<Seq<char>> {
    if s.len() == 0 || s == seq!['/'] {
        None
    } else {
        let ls = last_index_of(s, '/');
        if ls < 0 {
            Some(Seq::empty())
        } else if ls == 0 {
            Some(seq!['/'])
        } else {
            Some(s.subrange(0, ls))
        }
    }
}

/// The parent directory of a path, if it has one.
#[verifier::loop_isolation(false)]
pub fn parent_of(path: &str) -> (r: Option<String>)
    ensures
        match r {
            Some(p) => parent_dir_spec(path@) == Some(p@),
            None => parent_dir_spec(path@) is None,
        },
{
    let chars = str_to_chars(path);
    let n = chars.len();
    if n == 0 {
        return None;
    }
    if n == 1 && chars[0] == '/' {
        proof {
            assert(path@ =~= seq!['/']);
        }
        return None;
    }
    proof {
        assert(path@ != seq!['/']);
    }
    let mut slash: usize = 0;
    let mut has_slash = false;
    let mut i: usize = 0;
    proof {
        assert(chars@.take(0) =~= Seq::<char>::empty());
    }
    while i < n
        invariant
            i <= n,
            last_index_of(chars@.take(i as int), '/') == if has_slash {
                slash as int
            } else {
                -1
            },
            has_slash ==> slash < i,
        decreases n - i,
    {
        proof {
            assert(chars@.take(i + 1).drop_last() =~= chars@.take(i as int));
            assert(chars@.take(i + 1).last() == chars@[i as int]);
        }
        if chars[i] == '/' {
            slash = i;
            has_slash = true;
        }
        i = i + 1;
    }
    proof {
        assert(chars@.take(n as int) =~= chars@);
    }
    if !has_slash {
        proof {
            assert(Seq::<char>::empty() =~= path@.subrange(0, 0));
        }
        return Some(String::new());
    }
    if slash == 0 {
        let root = String::from_str(path.substring_char(0, 1));
        proof {
            lemma_last_index_of(path@, '/');
            assert(path@.subrange(0, 1) =~= seq![path@[0]]);
            assert(path@[0] == '/');
        }
        return Some(root);
    }
    Some(String::from_str(path.substring_char(0, slash)))
}

#[verifier::loop_isolation(false)]
fn suffix_eq_fold(chars: &Vec<char>, from: usize, lit: &str) -> (r: bool)
    requires
        from <= chars@.len(),
    ensures
        r == eq_fold(chars@.subrange(from as int, chars@.len() as int), lit@),
{
    let n = chars.len();
    let m = lit.unicode_len();
    if n - from != m {
        return false;
    }
    let mut i: usize = 0;
    while i < m
        invariant
            i <= m,
            forall|k: int| 0 <= k < i ==> fold_code(chars@[from + k]) == fold_code(lit@[k]),
        decreases m - i,
    {
        if crate::search::fold_char(chars[from + i]) != crate::search::fold_char(lit.get_char(i)) {
            return false;
        }
        i = i + 1;
    }
    true
}

/// Whether a path names a markdown file, by its extension.
#[verifier::loop_isolation(false)]
pub fn is_markdown(path: &str) -> (r: bool)
    ensures
        r == is_markdown_spec(path@),
{
    let chars = str_to_chars(path);
    let n = chars.len();
    let mut slash: usize = 0;
    let mut has_slash = false;
    let mut dot: usize = 0;
    let mut has_dot = false;
    let mut i: usize = 0;
    proof {
        assert(chars@.take(0) =~= Seq::<char>::empty());
    }
    while i < n
        invariant
            i <= n,
            last_index_of(chars@.take(i as int), '/') == if has_slash {
                slash as int
            } else {
                -1
            },
            last_index_of(chars@.take(i as int), '.') == if has_dot {
                dot as int
            } else {
                -1
            },
            has_slash ==> slash < i,
            has_dot ==> dot < i,
        decreases n - i,
    {
        let c = chars[i];
        proof {
            assert(chars@.take(i + 1).drop_last() =~= chars@.take(i as int));
            assert(chars@.take(i + 1).last() == chars@[i as int]);
        }
        if c == '/' {
            slash = i;
            has_slash = true;
        } else if c == '.' {
            dot = i;
            has_dot = true;
        }
        i = i + 1;
    }
    proof {
        assert(chars@.take(n as int) =~= chars@);
    }
    let ls: bool = has_dot && (!has_slash || dot > slash + 1) && (has_slash || dot > 0);
    if !ls {
        proof {
            let lsi = last_index_of(path@, '/');
            let ldi = last_index_of(path@, '.');
            assert(!(ldi > lsi + 1));
        }
        return false;
    }
    let from = dot + 1;
    if suffix_eq_fold(&chars, from, "md") {
        return true;
    }
    if suffix_eq_fold(&chars, from, "markdown") {
        return true;
    }
    if suffix_eq_fold(&chars, from, "mdown") {
        return true;
    }
    suffix_eq_fold(&chars, from, "mdx")
}

} // verus!
