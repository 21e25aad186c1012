//! Script validation before a hot-swap is attempted: the text must not be
//! empty and must define an output node, and a script that ignores the
//! live input earns a note. Whitespace here means the four ASCII blanks
//! (space, tab, carriage return, newline).

use vstd::prelude::*;
use crate::engine::param_injector::{contains_seq, contains_str};

verus! {

/// The blank characters `trim` strips.
pub open spec fn is_space_char(c: char) -> bool {
    c == ' ' || c == '\t' || c == '\r' || c == '\n'
}

/// The first index at or after `i` holding a non-blank character, or the
/// end of the text.
pub open spec fn lead_end(s: Seq<char>, i: int) -> int
    decreases s.len() - i,
{
    if 0 <= i < s.len() && is_space_char(s[i]) {
        lead_end(s, i + 1)
    } else {
        i
    }
}

/// The index after the last non-blank character strictly before `j`, or
/// zero.
pub open spec fn trail_begin(s: Seq<char>, j: int) -> int
    decreases j,
{
    if 0 < j <= s.len() && is_space_char(s[j - 1]) {
        trail_begin(s, j - 1)
    } else {
        j
    }
}

/// The text with leading and trailing blanks removed.
pub open spec fn spec_trim(s: Seq<char>) -> Seq<char> {
    let a = lead_end(s, 0);
    let b = trail_begin(s, s.len() as int);
    if a >= b {
        Seq::<char>::empty()
    } else {
        s.subrange(a, b)
    }
}

/// The trailing cut never moves past `j`.
proof fn lemma_trail_le(s: Seq<char>, j: int)
    ensures
        trail_begin(s, j) <= j,
    decreases j,
{
    if 0 < j <= s.len() && is_space_char(s[j - 1]) {
        lemma_trail_le(s, j - 1);
    }
}

/// `[i, j)` is one line of the text: it touches the borders or sits
/// between newlines, and holds none itself.
pub open spec fn is_line(s: Seq<char>, i: int, j: int) -> bool {
    &&& 0 <= i <= j <= s.len()
    &&& (i == 0 || s[i - 1] == '\n')
    &&& (j == s.len() || s[j] == '\n')
    &&& forall|k: int| i <= k < j ==> s[k] != '\n'
}

/// A line that, trimmed, declares the output node: it starts with `out`,
/// not with `~out`, and carries a colon.
pub open spec fn output_line(seg: Seq<char>) -> bool {
    let t = spec_trim(seg);
    &&& t.len() >= 3 && t.subrange(0, 3) == "out"@
    &&& !(t.len() >= 4 && t.subrange(0, 4) == "~out"@)
    &&& contains_seq(t, ":"@)
}

/// Some line of the text declares the output node.
pub open spec fn has_output_line(s: Seq<char>) -> bool {
    exists|i: int, j: int| is_line(s, i, j) && #[trigger] output_line(s.subrange(i, j))
}

/// Strip leading and trailing blanks, exact per `spec_trim`.
fn trim_str<'a>(s: &'a str) -> (r: &'a str)
    ensures
        r@ == spec_trim(s@),
{
    let n = s.unicode_len();
    let mut a: usize = 0;
    while a < n && is_space(s.get_char(a))
        invariant
            a <= n,
            n == s@.len(),
            lead_end(s@, 0) == lead_end(s@, a as int),
        decreases n - a,
    {
        a = a + 1;
    }
    proof {
        assert(lead_end(s@, a as int) == a);
    }
    if a == n {
        proof {
            lemma_trail_le(s@, n as int);
            assert(s@.subrange(0, 0) =~= Seq::<char>::empty());
        }
        let r = s.substring_char(0, 0);
        return r;
    }
    let mut b: usize = n;
    while b > a + 1 && is_space(s.get_char(b - 1))
        invariant
            a < n,
            a + 1 <= b <= n,
            n == s@.len(),
            !is_space_char(s@[a as int]),
            trail_begin(s@, n as int) == trail_begin(s@, b as int),
        decreases b,
    {
        b = b - 1;
    }
    proof {
        if b == a + 1 {
            assert(trail_begin(s@, b as int) == b);
        } else {
            assert(!is_space_char(s@[b - 1]));
            assert(trail_begin(s@, b as int) == b);
        }
    }
    s.substring_char(a, b)
}

/// The blank test, matching `is_space_char`.
fn is_space(c: char) -> (r: bool)
    ensures
        r == is_space_char(c),
{
    c == ' ' || c == '\t' || c == '\r' || c == '\n'
}

/// Whether one line segment, trimmed, declares the output node.
fn segment_is_output(seg: &str) -> (r: bool)
    ensures
        r == output_line(seg@),
{
    proof {
        reveal_strlit("out");
        reveal_strlit("~out");
        reveal_strlit(":");
    }
    let t = trim_str(seg);
    let tn = t.unicode_len();
    let starts_out: bool = tn >= 3 && t.get_char(0) == 'o' && t.get_char(1) == 'u' && t.get_char(
        2,
    ) == 't';
    proof {
        if starts_out {
            assert(t@.subrange(0, 3) =~= "out"@);
        } else if tn >= 3 {
            if t@.subrange(0, 3) == "out"@ {
                assert(t@.subrange(0, 3)[0] == 'o' && t@.subrange(0, 3)[1] == 'u'
                    && t@.subrange(0, 3)[2] == 't');
                assert(false);
            }
        }
    }
    if !starts_out {
        return false;
    }
    let starts_tilde: bool = tn >= 4 && t.get_char(0) == '~';
    proof {
        if tn >= 4 {
            if t@.subrange(0, 4) == "~out"@ {
                assert(t@.subrange(0, 4)[0] == '~');
            }
            if t@[0] == '~' {
                assert(t@[0] == 'o');
                assert(false);
            }
        }
    }
    let has_colon = contains_str(t, ":");
    has_colon
}

/// Scan the lines from a line start onward for an output declaration.
fn scan_lines(s: &str, start: usize) -> (r: bool)
    requires
        start <= s@.len(),
        start == 0 || s@[start as int - 1] == '\n',
    ensures
        r == (exists|i: int, j: int|
            is_line(s@, i, j) && i >= start && #[trigger] output_line(s@.subrange(i, j))),
    decreases s@.len() - start,
{
    let n = s.unicode_len();
    let mut j: usize = start;
    while j < n && s.get_char(j) != '\n'
        invariant
            start <= j <= n,
            n == s@.len(),
            forall|k: int| start <= k < j ==> s@[k] != '\n',
        decreases n - j,
    {
        j = j + 1;
    }
    proof {
        assert(is_line(s@, start as int, j as int));
    }
    let seg = s.substring_char(start, j);
    if segment_is_output(seg) {
        proof {
            assert(output_line(s@.subrange(start as int, j as int)));
        }
        return true;
    }
    proof {
        lemma_line_unique(s@, start as int, j as int);
    }
    if j < n {
        let deeper = scan_lines(s, j + 1);
        proof {
            if !deeper {
                assert forall|i2: int, j2: int|
                    is_line(s@, i2, j2) && i2 >= start implies !output_line(
                    s@.subrange(i2, j2),
                ) by {
                    if i2 == start {
                        lemma_line_unique(s@, start as int, j as int);
                        assert(j2 == j);
                    } else if i2 <= j {
                        assert(s@[i2 - 1] == '\n');
                        assert(false);
                    } else if i2 == j + 1 || i2 > j + 1 {
                        assert(!output_line(s@.subrange(i2, j2)));
                    }
                }
            }
        }
        deeper
    } else {
        proof {
            assert forall|i2: int, j2: int|
                is_line(s@, i2, j2) && i2 >= start implies !output_line(s@.subrange(i2, j2)) by {
                if i2 == start {
                    lemma_line_unique(s@, start as int, j as int);
                    assert(j2 == j);
                } else {
                    assert(s@[i2 - 1] == '\n');
                    assert(false);
                }
            }
        }
        false
    }
}

/// A line's end is determined by its start: two lines from the same start
/// coincide.
proof fn lemma_line_unique(s: Seq<char>, i: int, j: int)
    requires
        is_line(s, i, j),
    ensures
        forall|j2: int| is_line(s, i, j2) ==> j2 == j,
{
    assert forall|j2: int| is_line(s, i, j2) implies j2 == j by {
        if j2 < j {
            assert(s[j2] != '\n');
        } else if j2 > j {
            assert(s[j] != '\n');
        }
    }
}

/// Validate a script before it is offered to the engine: empty text and
/// text without an `out:` node are rejected with the exact message; a
/// script that never reads `~input` passes with a note; anything else
/// passes silently. The verdict depends only on the text.
pub fn validate_glicol_code(code: &str) -> (r: Result<Option<String>, String>)
    ensures
        ({
            let t = spec_trim(code@);
            &&& (t.len() == 0 ==> (r matches Err(m) && m@ == "Code cannot be empty"@))
            &&& (t.len() > 0 && !has_output_line(t) ==> (r matches Err(m) && m@
                == "Missing 'out:' - code must define an output node (not ~out:)"@))
            &&& (t.len() > 0 && has_output_line(t) && !contains_seq(t, "~input"@) ==> (r matches
                Ok(w) && (w matches Some(m) && m@
                == "Note: Code doesn't use ~input (live audio)"@)))
            &&& (t.len() > 0 && has_output_line(t) && contains_seq(t, "~input"@) ==> (r matches
                Ok(w) && w is None))
        }),
{
    let trimmed = trim_str(code);
    if trimmed.unicode_len() == 0 {
        return Err("Code cannot be empty".to_owned());
    }
    let has_output = scan_lines(trimmed, 0);
    if !has_output {
        return Err("Missing 'out:' - code must define an output node (not ~out:)".to_owned());
    }
    let has_input = contains_str(trimmed, "~input");
    if !has_input {
        return Ok(Some("Note: Code doesn't use ~input (live audio)".to_owned()));
    }
    Ok(None)
}

} // verus!
