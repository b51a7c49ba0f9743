//! Small verified helpers for moving between `String`/`&str` values and
//! their character sequences.

use vstd::prelude::*;
use vstd::string::*;
use vstd::utf8::{char_is_scalar, encode_scalar, encode_utf8};

verus! {

/// Byte offset of character position `i` of `s` in the UTF-8 encoding of
/// `s`: the encoded length of the characters before it.
pub open spec fn byte_index(s: Seq<char>, i: int) -> nat {
    encode_utf8(s.take(i)).len()
}

/// Appending a character to a sequence appends its scalar encoding.
pub proof fn lemma_encode_utf8_push(s: Seq<char>, c: char)
    ensures
        encode_utf8(s.push(c)) == encode_utf8(s) + encode_scalar(c as u32),
    decreases s.len(),
{
    if s.len() == 0 {
        assert(s.push(c).drop_first() =~= s);
        assert(encode_utf8(s) + encode_scalar(c as u32) =~= encode_scalar(c as u32));
        assert(encode_utf8(Seq::<char>::empty()) =~= Seq::<u8>::empty());
    } else {
        assert(s.push(c).drop_first() =~= s.drop_first().push(c));
        lemma_encode_utf8_push(s.drop_first(), c);
        assert(encode_utf8(s.push(c)) =~= encode_utf8(s) + encode_scalar(c as u32));
    }
}

/// Byte offsets step by the encoded length of each character.
pub proof fn lemma_byte_index_step(s: Seq<char>, i: int)
    requires
        0 <= i < s.len(),
    ensures
        byte_index(s, i + 1) == byte_index(s, i) + encode_scalar(s[i] as u32).len(),
{
    assert(s.take(i + 1) =~= s.take(i).push(s[i]));
    lemma_encode_utf8_push(s.take(i), s[i]);
}

/// Byte offsets are non-decreasing and bounded by the whole encoding.
pub proof fn lemma_byte_index_le(s: Seq<char>, i: int, j: int)
    requires
        0 <= i <= j <= s.len(),
    ensures
        byte_index(s, i) <= byte_index(s, j),
    decreases j - i,
{
    if i < j {
        lemma_byte_index_le(s, i, j - 1);
        lemma_byte_index_step(s, j - 1);
    }
}

/// Byte offsets are strictly increasing in the character position.
pub proof fn lemma_byte_index_lt(s: Seq<char>, i: int, j: int)
    requires
        0 <= i < j <= s.len(),
    ensures
        byte_index(s, i) < byte_index(s, j),
{
    lemma_byte_index_step(s, i);
    lemma_byte_index_le(s, i + 1, j);
}

/// The UTF-8 length in bytes of one character.
pub fn char_utf8_len(c: char) -> (w: usize)
    ensures
        w == encode_scalar(c as u32).len(),
        1 <= w <= 4,
{
    proof {
        char_is_scalar(c);
    }
    let v = c as u32;
    if v < 0x80 {
        1
    } else if v < 0x800 {
        2
    } else if v < 0x10000 {
        3
    } else {
        4
    }
}

/// The characters of a string slice, in order.
pub fn str_to_chars(s: &str) -> (v: Vec<char>)
    ensures
        v@ == s@,
{
    let n = s.unicode_len();
    let mut v: Vec<char> = Vec::new();
    let mut i: usize = 0;
    while i < n
        invariant
            i <= n,
            n == s@.len(),
            v@ == s@.subrange(0, i as int),
        decreases n - i,
    {
        v.push(s.get_char(i));
        proof {
            assert(v@ =~= s@.subrange(0, i + 1));
        }
        i = i + 1;
    }
    proof {
        assert(v@ =~= s@);
    }
    v
}

/// Index of the first occurrence of `c` in `s`, or -1 if it never occurs.
pub open spec fn first_index_of(s: Seq<char>, c: char) -> int
    decreases s.len(),
{
    if s.len() == 0 {
        -1
    } else if s[0] == c {
        0
    } else {
        let rest = first_index_of(s.drop_first(), c);
        if rest < 0 {
            -1
        } else {
            rest + 1
        }
    }
}

/// What [`first_index_of`] finds.
pub proof fn lemma_first_index_of(s: Seq<char>, c: char)
    ensures
        first_index_of(s, c) >= 0 ==> first_index_of(s, c) < s.len() && s[first_index_of(s, c)]
            == c && (forall|j: int| 0 <= j < first_index_of(s, c) ==> s[j] != c),
        first_index_of(s, c) < 0 ==> forall|j: int| 0 <= j < s.len() ==> s[j] != c,
    decreases s.len(),
{
    if s.len() > 0 && s[0] != c {
        let rest = s.drop_first();
        lemma_first_index_of(rest, c);
        let fr = first_index_of(rest, c);
        if fr >= 0 {
            assert(s[fr + 1] == rest[fr]);
            assert forall|j: int| 0 <= j < fr + 1 implies s[j] != c by {
                if j > 0 {
                    assert(rest[j - 1] == s[j]);
                }
            }
        } else {
            assert forall|j: int| 0 <= j < s.len() implies s[j] != c by {
                if j > 0 {
                    assert(rest[j - 1] == s[j]);
                }
            }
        }
    }
}

#[via_fn]
proof fn split_lines_decreases(s: Seq<char>) {
    if s.len() > 0 {
        lemma_first_index_of(s, '\n');
    }
}

/// A line with a trailing carriage return loses it.
pub open spec fn strip_cr(l: Seq<char>) -> Seq<char> {
    if l.len() > 0 && l.last() == '\r' {
        l.drop_last()
    } else {
        l
    }
}

/// The lines of a text: split at every newline, dropping a carriage
/// return at the end of each newline-terminated line; text after the final
/// newline forms a last line as it stands, and empty text has no lines.
pub open spec fn split_lines(s: Seq<char>) -> Seq<Seq<char>>
    decreases s.len(),
    via split_lines_decreases
{
    if s.len() == 0 {
        Seq::empty()
    } else {
        let nl = first_index_of(s, '\n');
        if nl < 0 {
            seq![s]
        } else {
            seq![strip_cr(s.take(nl))] + split_lines(s.skip(nl + 1))
        }
    }
}

/// Split a document into plain unstyled lines, as the raw-text view
/// renders it.
#[verifier::loop_isolation(false)]
#[verifier::rlimit(60)]
pub fn render_plain_lines(markdown: &str) -> (r: Vec<String>)
    ensures
        r.deep_view() == split_lines(markdown@),
{
    let chars = str_to_chars(markdown);
    let n = chars.len();
    let mut r: Vec<String> = Vec::new();
    let mut start: usize = 0;
    let mut i: usize = 0;
    proof {
        assert(markdown@.skip(0) =~= markdown@);
    }
    while i < n
        invariant
            start <= i <= n,
            n == markdown@.len(),
            chars@ == markdown@,
            split_lines(markdown@) == r.deep_view() + split_lines(markdown@.skip(start as int)),
            forall|j: int| start <= j < i ==> markdown@[j] != '\n',
        decreases n - i,
    {
        if chars[i] == '\n' {
            let mut stop = i;
            if stop > start && chars[stop - 1] == '\r' {
                stop = stop - 1;
            }
            let piece = String::from_str(markdown.substring_char(start, stop));
            proof {
                let tail = markdown@.skip(start as int);
                lemma_first_index_of(tail, '\n');
                assert(tail[i - start] == '\n');
                assert forall|j: int| 0 <= j < i - start implies tail[j] != '\n' by {
                    assert(tail[j] == markdown@[start + j]);
                }
                if first_index_of(tail, '\n') < i - start {
                    assert(false);
                }
                if first_index_of(tail, '\n') > i - start {
                    assert(false);
                }
                assert(first_index_of(tail, '\n') == i - start);
                assert(tail.take(i - start) =~= markdown@.subrange(start as int, i as int));
                assert(tail.skip(i - start + 1) =~= markdown@.skip(i + 1));
                assert(strip_cr(tail.take(i - start)) =~= markdown@.subrange(
                    start as int,
                    stop as int,
                ));
                assert(piece@ == strip_cr(tail.take(i - start)));
                assert(r.deep_view().push(piece@) + split_lines(markdown@.skip(i + 1))
                    =~= split_lines(markdown@));
            }
            r.push(piece);
            start = i + 1;
        }
        i = i + 1;
    }
    if start < n {
        let piece = String::from_str(markdown.substring_char(start, n));
        proof {
            let tail = markdown@.skip(start as int);
            lemma_first_index_of(tail, '\n');
            assert forall|j: int| 0 <= j < tail.len() implies tail[j] != '\n' by {
                assert(tail[j] == markdown@[start + j]);
            }
            if first_index_of(tail, '\n') >= 0 {
                assert(false);
            }
            assert(tail =~= markdown@.subrange(start as int, n as int));
            assert(piece@ == tail);
            assert(r.deep_view().push(piece@) =~= split_lines(markdown@));
        }
        r.push(piece);
    } else {
        proof {
            assert(markdown@.skip(start as int).len() == 0);
            assert(r.deep_view() + split_lines(markdown@.skip(start as int)) =~= r.deep_view());
        }
    }
    r
}

/// Character-wise string slice equality.
#[verifier::loop_isolation(false)]
pub fn str_eq(a: &str, b: &str) -> (r: bool)
    ensures
        r == (a@ == b@),
{
    let n = a.unicode_len();
    let m = b.unicode_len();
    if n != m {
        return false;
    }
    let mut i: usize = 0;
    while i < n
        invariant
            i <= n,
            forall|j: int| 0 <= j < i ==> a@[j] == b@[j],
        decreases n - i,
    {
        if a.get_char(i) != b.get_char(i) {
            return false;
        }
        i = i + 1;
    }
    proof {
        assert(a@ =~= b@);
    }
    true
}

/// Relies on `String::push`: appends the given character to the end of the
/// string.
#[verifier::external_body]
pub fn string_push(s: &mut String, c: char)
    ensures
        final(s)@ == old(s)@.push(c),
{
    s.push(c);
}

/// The string shortened by its last character (unchanged when empty).
pub fn string_drop_last(s: &String) -> (t: String)
    ensures
        s@.len() == 0 ==> t@ == s@,
        s@.len() > 0 ==> t@ == s@.take(s@.len() - 1),
{
    let n = s.as_str().unicode_len();
    if n == 0 {
        proof {
            assert(s@.take(0) =~= s@);
        }
        String::from_str(s.as_str())
    } else {
        let t = String::from_str(s.as_str().substring_char(0, n - 1));
        proof {
            assert(s@.subrange(0, s@.len() - 1) =~= s@.take(s@.len() - 1));
        }
        t
    }
}

} // verus!
