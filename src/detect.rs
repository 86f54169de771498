use vstd::prelude::*;
use crate::text::{find_text, first_occurrence, lemma_first_occurrence};

verus! {

/// The value of a `KEY=value` line as the session manager prints it: what
/// follows the `key` prefix, without the line's final character.
pub open spec fn line_value(s: Seq<char>, key: Seq<char>) -> Option<Seq<char>> {
    if first_occurrence(s, key, 0) is Some && s.len() > key.len() {
        Some(s.subrange(key.len() as int, s.len() - 1))
    } else {
        None
    }
}

fn value_after(s: &str, key: &str) -> (r: Option<String>)
    ensures
        match r {
            Some(v) => line_value(s@, key@) == Some(v@),
            None => line_value(s@, key@) is None,
        },
{
    let n = s.unicode_len();
    let k = key.unicode_len();
    match find_text(s, key) {
        Some(_) => {
            if n > k {
                Some(s.substring_char(k, n - 1).to_owned())
            } else {
                None
            }
        },
        None => None,
    }
}

/// The credential path found in the session manager's environment listing
/// (a line `XAUTHORITY=<path>`).
pub fn xauthority_from_environment(out: &str) -> (r: Option<String>)
    ensures
        match r {
            Some(v) => line_value(out@, "XAUTHORITY="@) == Some(v@),
            None => line_value(out@, "XAUTHORITY="@) is None,
        },
{
    value_after(out, "XAUTHORITY=")
}

/// The display found in the session manager's environment listing (a line
/// `DISPLAY=<display>`).
pub fn display_from_environment(out: &str) -> (r: Option<String>)
    ensures
        match r {
            Some(v) => line_value(out@, "DISPLAY="@) == Some(v@),
            None => line_value(out@, "DISPLAY="@) is None,
        },
{
    value_after(out, "DISPLAY=")
}

/// The path in a process listing that ends with the first occurrence of
/// `tail`: it starts just after the last space before that occurrence.
/// There is none when `tail` does not occur or no space precedes it.
pub open spec fn path_ending_with(s: Seq<char>, tail: Seq<char>, r: Option<Seq<char>>) -> bool {
    match first_occurrence(s, tail, 0) {
        None => r is None,
        Some(i) => {
            let spaced = exists|j: int| 0 <= j < i && s[j] == ' ';
            if !spaced {
                r is None
            } else {
                exists|start: int|
                    #![trigger s[start - 1]]
                    0 < start <= i && s[start - 1] == ' ' && (forall|k: int|
                        start <= k < i ==> s[k] != ' ') && r == Some(
                        s.subrange(start, i + tail.len()),
                    )
            }
        },
    }
}

/// The credential path that the display server was started with, found in
/// a process listing by its `/gdm/Xauthority` ending.
pub fn xauthority_from_processes(out: &str) -> (r: Option<String>)
    ensures
        path_ending_with(out@, "/gdm/Xauthority"@, match r {
            Some(v) => Some(v@),
            None => None,
        }),
{
    let tail = "/gdm/Xauthority";
    let m = tail.unicode_len();
    let n = out.unicode_len();
    match find_text(out, tail) {
        None => None,
        Some(i) => {
            proof {
                lemma_first_occurrence(out@, tail@, 0);
            }
            let mut start: usize = i;
            while start > 0 && out.get_char(start - 1) != ' '
                invariant
                    start <= i,
                    n == out@.len(),
                    m == tail@.len(),
                    i + m <= n,
                    forall|k: int| start <= k < i ==> out@[k] != ' ',
                decreases start,
            {
                start = start - 1;
            }
            if start == 0 {
                assert(!exists|j: int| 0 <= j < i && out@[j] == ' ');
                None
            } else {
                let r = out.substring_char(start, i + m).to_owned();
                assert(out@[start - 1] == ' ');
                Some(r)
            }
        },
    }
}

} // verus!
