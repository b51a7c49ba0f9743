//! Status-line labels and the static help listing.

use vstd::prelude::*;
use vstd::string::*;

verus! {

/// The decimal digit character for a value below ten.
pub open spec fn digit_char(d: int) -> char {
    if d == 0 {
        '0'
    } else if d == 1 {
        '1'
    } else if d == 2 {
        '2'
    } else if d == 3 {
        '3'
    } else if d == 4 {
        '4'
    } else if d == 5 {
        '5'
    } else if d == 6 {
        '6'
    } else if d == 7 {
        '7'
    } else if d == 8 {
        '8'
    } else {
        '9'
    }
}

/// The decimal representation of a non-negative number, most significant
/// digit first, without leading zeros (zero itself is "0").
pub open spec fn dec_digits(n: int) -> Seq<char>
    decreases n,
{
    if n < 10 {
        seq![digit_char(n)]
    } else {
        dec_digits(n / 10) + seq![digit_char(n % 10)]
    }
}

fn digit_str(d: usize) -> (s: &'static str)
    requires
        d < 10,
    ensures
        s@ == seq![digit_char(d as int)],
{
    proof {
        reveal_strlit("0");
        reveal_strlit("1");
        reveal_strlit("2");
        reveal_strlit("3");
        reveal_strlit("4");
        reveal_strlit("5");
        reveal_strlit("6");
        reveal_strlit("7");
        reveal_strlit("8");
        reveal_strlit("9");
    }
    let s = match d {
        0 => "0",
        1 => "1",
        2 => "2",
        3 => "3",
        4 => "4",
        5 => "5",
        6 => "6",
        7 => "7",
        8 => "8",
        _ => "9",
    };
    proof {
        assert(s@ =~= seq![digit_char(d as int)]);
    }
    s
}

/// The decimal representation of `n`.
pub fn usize_to_string(n: usize) -> (s: String)
    ensures
        s@ == dec_digits(n as int),
    decreases n,
{
    if n < 10 {
        String::from_str(digit_str(n))
    } else {
        let mut s = usize_to_string(n / 10);
        s.append(digit_str(n % 10));
        s
    }
}

/// The title-bar label `[current/total] path`, with the position clamped
/// into `1..=total` and an empty queue shown as one document.
pub open spec fn queue_label_spec(current_index: int, total: int, path: Seq<char>) -> Seq<char> {
    let t = if total < 1 {
        1
    } else {
        total
    };
    let c = if current_index + 1 < t {
        current_index + 1
    } else {
        t
    };
    seq!['['] + dec_digits(c) + seq!['/'] + dec_digits(t) + seq![']', ' '] + path
}

/// Format the queue position label shown in the title bar.
pub fn queue_label(current_index: usize, total: usize, path: &str) -> (s: String)
    requires
        current_index < usize::MAX,
    ensures
        s@ == queue_label_spec(current_index as int, total as int, path@),
{
    let t: usize = if total < 1 {
        1
    } else {
        total
    };
    let c: usize = if current_index + 1 < t {
        current_index + 1
    } else {
        t
    };
    proof {
        reveal_strlit("[");
        reveal_strlit("/");
        reveal_strlit("] ");
    }
    let mut s = String::from_str("[");
    s.append(usize_to_string(c).as_str());
    s.append("/");
    s.append(usize_to_string(t).as_str());
    s.append("] ");
    s.append(path);
    proof {
        assert(s@ =~= queue_label_spec(current_index as int, total as int, path@));
    }
    s
}

/// The text of the help overlay, one entry per line.
pub open spec fn help_text() -> Seq<Seq<char>> {
    seq![
        "mdr - help"@,
        ""@,
        "Navigation:"@,
        "  Up/Down              Scroll line by line"@,
        "  Space                Page down"@,
        "  ]                    Next document"@,
        "  [                    Previous document"@,
        "  Mouse wheel          Scroll"@,
        ""@,
        "Search:"@,
        "  /                    Start search"@,
        "  Enter                Jump to first match"@,
        "  Esc                  Cancel search"@,
        "  n / N                Next/previous match"@,
        ""@,
        "Modes:"@,
        "  b                    Toggle BeeLine"@,
        "  m                    Toggle plain mode"@,
        ""@,
        "General:"@,
        "  g                    Go to document"@,
        "  o                    Open markdown filesystem browser"@,
        "  h                    Toggle help"@,
        "  q                    Quit"@,
    ]
}

/// The help overlay's lines.
pub fn help_lines() -> (r: Vec<String>)
    ensures
        r.deep_view() == help_text(),
{
    let mut r: Vec<String> = Vec::new();
    r.push("mdr - help".to_owned());
    r.push("".to_owned());
    r.push("Navigation:".to_owned());
    r.push("  Up/Down              Scroll line by line".to_owned());
    r.push("  Space                Page down".to_owned());
    r.push("  ]                    Next document".to_owned());
    r.push("  [                    Previous document".to_owned());
    r.push("  Mouse wheel          Scroll".to_owned());
    r.push("".to_owned());
    r.push("Search:".to_owned());
    r.push("  /                    Start search".to_owned());
    r.push("  Enter                Jump to first match".to_owned());
    r.push("  Esc                  Cancel search".to_owned());
    r.push("  n / N                Next/previous match".to_owned());
    r.push("".to_owned());
    r.push("Modes:".to_owned());
    r.push("  b                    Toggle BeeLine".to_owned());
    r.push("  m                    Toggle plain mode".to_owned());
    r.push("".to_owned());
    r.push("General:".to_owned());
    r.push("  g                    Go to document".to_owned());
    r.push("  o                    Open markdown filesystem browser".to_owned());
    r.push("  h                    Toggle help".to_owned());
    r.push("  q                    Quit".to_owned());
    proof {
        assert(r.deep_view() =~= help_text());
    }
    r
}

} // verus!
