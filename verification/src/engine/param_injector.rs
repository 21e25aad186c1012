//! Parameter injection for the engine's script text.
//!
//! For every recognized control variable that the user's script
//! references by its `~name` sigil, one definition line binding it to the
//! current value is prepended, so live control values reach the script
//! without the user editing it. The output is a pure function of the
//! control values and the script text: a script referencing nothing comes
//! back unchanged, and the user's text is never altered, only prefixed.

use vstd::prelude::*;

verus! {

/// How many control variables can be injected.
pub const PARAM_COUNT: usize = 8;

/// Control values for injection, one fixed-point number per variable.
pub struct ParamInjector {
    pub knob1: i64,
    pub knob2: i64,
    pub knob3: i64,
    pub knob4: i64,
    pub drive: i64,
    pub feedback: i64,
    pub mix: i64,
    pub rate: i64,
}

/// The recognized variable names, by index.
pub open spec fn spec_param_name(k: int) -> Seq<char> {
    if k == 0 {
        "knob1"@
    } else if k == 1 {
        "knob2"@
    } else if k == 2 {
        "knob3"@
    } else if k == 3 {
        "knob4"@
    } else if k == 4 {
        "drive"@
    } else if k == 5 {
        "feedback"@
    } else if k == 6 {
        "mix"@
    } else {
        "rate"@
    }
}

/// The sigil the script uses to reference a variable.
pub open spec fn spec_param_reference(k: int) -> Seq<char> {
    "~"@ + spec_param_name(k)
}

/// The stored value of a variable, by index.
pub open spec fn spec_param_value(inj: ParamInjector, k: int) -> i64 {
    if k == 0 {
        inj.knob1
    } else if k == 1 {
        inj.knob2
    } else if k == 2 {
        inj.knob3
    } else if k == 3 {
        inj.knob4
    } else if k == 4 {
        inj.drive
    } else if k == 5 {
        inj.feedback
    } else if k == 6 {
        inj.mix
    } else {
        inj.rate
    }
}

/// The pattern occurs in the text starting at position `i`.
pub open spec fn is_match_at(s: Seq<char>, pat: Seq<char>, i: int) -> bool {
    0 <= i && i + pat.len() <= s.len() && s.subrange(i, i + pat.len() as int) == pat
}

/// The pattern occurs somewhere in the text.
pub open spec fn contains_seq(s: Seq<char>, pat: Seq<char>) -> bool {
    exists|i: int| is_match_at(s, pat, i)
}

/// The script references variable `k` by its sigil.
pub open spec fn spec_references(code: Seq<char>, k: int) -> bool {
    contains_seq(code, spec_param_reference(k))
}

/// One decimal digit as a character.
pub open spec fn digit_char(d: int) -> char {
    if d == 0 {
        '0'
    } else if d == 1 {
        '1'
    } else if d == 2 {
        '2'
    } else if d == 3 {
        '3'
    } else if d == 4 {
        '4'
    } else if d == 5 {
        '5'
    } else if d == 6 {
        '6'
    } else if d == 7 {
        '7'
    } else if d == 8 {
        '8'
    } else {
        '9'
    }
}

/// A nonnegative integer in decimal, most significant digit first.
pub open spec fn spec_dec_digits(n: nat) -> Seq<char>
    decreases n,
{
    if n < 10 {
        seq![digit_char(n as int)]
    } else {
        spec_dec_digits(n / 10).push(digit_char((n % 10) as int))
    }
}

/// Exactly six decimal places of a fraction in millionths.
pub open spec fn spec_frac6(n: nat) -> Seq<char> {
    seq![
        digit_char(((n / 100_000) % 10) as int),
        digit_char(((n / 10_000) % 10) as int),
        digit_char(((n / 1_000) % 10) as int),
        digit_char(((n / 100) % 10) as int),
        digit_char(((n / 10) % 10) as int),
        digit_char((n % 10) as int),
    ]
}

/// A fixed-point value written with six decimal places, as the engine's
/// number syntax expects.
pub open spec fn spec_format_fx(v: int) -> Seq<char> {
    let m = if v >= 0 {
        v
    } else {
        -v
    };
    let sign: Seq<char> = if v < 0 {
        seq!['-']
    } else {
        Seq::<char>::empty()
    };
    sign + spec_dec_digits((m / 1_000_000) as nat) + seq!['.'] + spec_frac6((m % 1_000_000) as nat)
}

/// The definition line bound to variable `k`: `~name: sig value`.
pub open spec fn spec_binding_line(inj: ParamInjector, k: int) -> Seq<char> {
    "~"@ + spec_param_name(k) + ": sig "@ + spec_format_fx(spec_param_value(inj, k) as int)
}

/// The block of definition lines, each followed by a newline, for the
/// variables from `k` upward that the script references.
pub open spec fn spec_inject_prefix(inj: ParamInjector, code: Seq<char>, k: int) -> Seq<char>
    decreases 8 - k,
{
    if k < 0 || k >= 8 {
        Seq::<char>::empty()
    } else {
        let here: Seq<char> = if spec_references(code, k) {
            spec_binding_line(inj, k) + "\n"@
        } else {
            Seq::<char>::empty()
        };
        here + spec_inject_prefix(inj, code, k + 1)
    }
}

/// The script references at least one recognized variable.
pub open spec fn spec_any_reference(code: Seq<char>) -> bool {
    exists|k: int| 0 <= k < 8 && #[trigger] spec_references(code, k)
}

/// What `inject` returns: the unchanged script, or the definition block
/// followed by the script.
pub open spec fn spec_inject(inj: ParamInjector, code: Seq<char>) -> Seq<char> {
    if spec_any_reference(code) {
        spec_inject_prefix(inj, code, 0) + code
    } else {
        code
    }
}

/// The value stored under a variable name; unrecognized names read as
/// zero.
pub open spec fn spec_get_value(inj: ParamInjector, name: Seq<char>) -> i64 {
    if name == spec_param_name(0) {
        inj.knob1
    } else if name == spec_param_name(1) {
        inj.knob2
    } else if name == spec_param_name(2) {
        inj.knob3
    } else if name == spec_param_name(3) {
        inj.knob4
    } else if name == spec_param_name(4) {
        inj.drive
    } else if name == spec_param_name(5) {
        inj.feedback
    } else if name == spec_param_name(6) {
        inj.mix
    } else if name == spec_param_name(7) {
        inj.rate
    } else {
        0
    }
}

/// A digit as a one-character string.
fn digit_str(d: u64) -> (r: &'static str)
    requires
        d < 10,
    ensures
        r@ == seq![digit_char(d as int)],
{
    proof {
        reveal_strlit("0");
        reveal_strlit("1");
        reveal_strlit("2");
        reveal_strlit("3");
        reveal_strlit("4");
        reveal_strlit("5");
        reveal_strlit("6");
        reveal_strlit("7");
        reveal_strlit("8");
        reveal_strlit("9");
    }
    if d == 0 {
        "0"
    } else if d == 1 {
        "1"
    } else if d == 2 {
        "2"
    } else if d == 3 {
        "3"
    } else if d == 4 {
        "4"
    } else if d == 5 {
        "5"
    } else if d == 6 {
        "6"
    } else if d == 7 {
        "7"
    } else if d == 8 {
        "8"
    } else {
        "9"
    }
}

/// Append a nonnegative integer's decimal digits.
fn append_dec_digits(out: &mut String, n: u64)
    ensures
        final(out)@ == old(out)@ + spec_dec_digits(n as nat),
    decreases n,
{
    if n < 10 {
        out.append(digit_str(n));
    } else {
        append_dec_digits(out, n / 10);
        out.append(digit_str(n % 10));
        proof {
            assert(old(out)@ + spec_dec_digits((n / 10) as nat) + seq![
                digit_char((n % 10) as int)] =~= old(out)@ + spec_dec_digits(n as nat));
        }
    }
}

/// Append a fixed-point value with six decimal places.
fn append_format_fx(out: &mut String, v: i64)
    requires
        v > i64::MIN,
    ensures
        final(out)@ == old(out)@ + spec_format_fx(v as int),
{
    proof {
        reveal_strlit("-");
        reveal_strlit(".");
    }
    let m: u64 = if v < 0 {
        out.append("-");
        (-v) as u64
    } else {
        v as u64
    };
    append_dec_digits(out, m / 1_000_000);
    out.append(".");
    let frac = m % 1_000_000;
    out.append(digit_str((frac / 100_000) % 10));
    out.append(digit_str((frac / 10_000) % 10));
    out.append(digit_str((frac / 1_000) % 10));
    out.append(digit_str((frac / 100) % 10));
    out.append(digit_str((frac / 10) % 10));
    out.append(digit_str(frac % 10));
    proof {
        assert(final(out)@ =~= old(out)@ + spec_format_fx(v as int));
    }
}

/// The recognized variable name at an index.
pub fn param_name(k: usize) -> (r: &'static str)
    requires
        k < 8,
    ensures
        r@ == spec_param_name(k as int),
{
    if k == 0 {
        "knob1"
    } else if k == 1 {
        "knob2"
    } else if k == 2 {
        "knob3"
    } else if k == 3 {
        "knob4"
    } else if k == 4 {
        "drive"
    } else if k == 5 {
        "feedback"
    } else if k == 6 {
        "mix"
    } else {
        "rate"
    }
}

/// The sigil reference for the variable at an index.
fn param_reference(k: usize) -> (r: &'static str)
    requires
        k < 8,
    ensures
        r@ == spec_param_reference(k as int),
{
    proof {
        reveal_strlit("~");
        reveal_strlit("~knob1");
        reveal_strlit("~knob2");
        reveal_strlit("~knob3");
        reveal_strlit("~knob4");
        reveal_strlit("~drive");
        reveal_strlit("~feedback");
        reveal_strlit("~mix");
        reveal_strlit("~rate");
        reveal_strlit("knob1");
        reveal_strlit("knob2");
        reveal_strlit("knob3");
        reveal_strlit("knob4");
        reveal_strlit("drive");
        reveal_strlit("feedback");
        reveal_strlit("mix");
        reveal_strlit("rate");
    }
    let r: &'static str = if k == 0 {
        "~knob1"
    } else if k == 1 {
        "~knob2"
    } else if k == 2 {
        "~knob3"
    } else if k == 3 {
        "~knob4"
    } else if k == 4 {
        "~drive"
    } else if k == 5 {
        "~feedback"
    } else if k == 6 {
        "~mix"
    } else {
        "~rate"
    };
    proof {
        assert(r@ =~= spec_param_reference(k as int));
    }
    r
}

/// Whether the pattern occurs at position `i` of the text.
fn match_at(s: &str, pat: &str, i: usize) -> (r: bool)
    requires
        i + pat@.len() <= s@.len(),
        s@.len() <= usize::MAX,
    ensures
        r == is_match_at(s@, pat@, i as int),
{
    let m = pat.unicode_len();
    let mut j: usize = 0;
    while j < m
        invariant
            j <= m,
            m == pat@.len(),
            i + m <= s@.len(),
            s@.len() <= usize::MAX,
            forall|t: int| 0 <= t < j ==> s@[i + t] == pat@[t],
        decreases m - j,
    {
        let a = s.get_char(i + j);
        let b = pat.get_char(j);
        if a != b {
            proof {
                assert(s@.subrange(i as int, i as int + pat@.len() as int) != pat@) by {
                    assert(s@.subrange(i as int, i as int + pat@.len() as int)[j as int]
                        != pat@[j as int]);
                }
            }
            return false;
        }
        j = j + 1;
    }
    proof {
        assert(s@.subrange(i as int, i as int + pat@.len() as int) =~= pat@);
    }
    true
}

/// Whether two texts are the same sequence of characters.
fn str_eq(a: &str, b: &str) -> (r: bool)
    ensures
        r == (a@ == b@),
{
    let na = a.unicode_len();
    let nb = b.unicode_len();
    if na != nb {
        return false;
    }
    let m = match_at(a, b, 0);
    proof {
        if m {
            assert(a@.subrange(0, a@.len() as int) =~= a@);
        } else if a@ == b@ {
            assert(a@.subrange(0, b@.len() as int) =~= b@);
            assert(false);
        }
    }
    m
}

/// Whether the pattern occurs anywhere in the text.
pub(crate) fn contains_str(s: &str, pat: &str) -> (r: bool)
    ensures
        r == contains_seq(s@, pat@),
{
    let n = s.unicode_len();
    let m = pat.unicode_len();
    if m > n {
        proof {
            assert(forall|i: int| !is_match_at(s@, pat@, i));
        }
        return false;
    }
    if m == 0 {
        proof {
            assert(s@.subrange(0, 0) =~= pat@);
            assert(is_match_at(s@, pat@, 0));
        }
        return true;
    }
    let mut i: usize = 0;
    while i <= n - m
        invariant
            1 <= m <= n,
            n == s@.len(),
            m == pat@.len(),
            i <= n - m + 1,
            forall|t: int| 0 <= t < i ==> !is_match_at(s@, pat@, t),
        decreases n - i,
    {
        if match_at(s, pat, i) {
            return true;
        }
        i = i + 1;
    }
    proof {
        assert(forall|t: int| is_match_at(s@, pat@, t) ==> 0 <= t <= n - m);
    }
    false
}

impl ParamInjector {
    /// All values zero.
    pub fn new() -> (r: ParamInjector)
        ensures
            r.knob1 == 0 && r.knob2 == 0 && r.knob3 == 0 && r.knob4 == 0,
            r.drive == 0 && r.feedback == 0 && r.mix == 0 && r.rate == 0,
    {
        ParamInjector {
            knob1: 0,
            knob2: 0,
            knob3: 0,
            knob4: 0,
            drive: 0,
            feedback: 0,
            mix: 0,
            rate: 0,
        }
    }

    /// The stored value of the variable at an index.
    pub fn value_at(&self, k: usize) -> (r: i64)
        requires
            k < 8,
        ensures
            r == spec_param_value(*self, k as int),
    {
        if k == 0 {
            self.knob1
        } else if k == 1 {
            self.knob2
        } else if k == 2 {
            self.knob3
        } else if k == 3 {
            self.knob4
        } else if k == 4 {
            self.drive
        } else if k == 5 {
            self.feedback
        } else if k == 6 {
            self.mix
        } else {
            self.rate
        }
    }

    /// The value of a variable looked up by name; an unrecognized name
    /// reads as zero.
    pub fn get_value(&self, name: &str) -> (r: i64)
        ensures
            r == spec_get_value(*self, name@),
    {
        if str_eq(name, "knob1") {
            self.knob1
        } else if str_eq(name, "knob2") {
            self.knob2
        } else if str_eq(name, "knob3") {
            self.knob3
        } else if str_eq(name, "knob4") {
            self.knob4
        } else if str_eq(name, "drive") {
            self.drive
        } else if str_eq(name, "feedback") {
            self.feedback
        } else if str_eq(name, "mix") {
            self.mix
        } else if str_eq(name, "rate") {
            self.rate
        } else {
            0
        }
    }

    /// Prepend a definition line for every recognized variable the script
    /// references; a script referencing none comes back unchanged.
    pub fn inject(&self, user_code: &str) -> (r: String)
        requires
            forall|k: int| 0 <= k < 8 ==> #[trigger] spec_param_value(*self, k) > i64::MIN,
        ensures
            r@ == spec_inject(*self, user_code@),
            !spec_any_reference(user_code@) ==> r@ == user_code@,
            spec_any_reference(user_code@) ==> r@ == spec_inject_prefix(*self, user_code@, 0)
                + user_code@,
    {
        proof {
            reveal_strlit("~");
            reveal_strlit(": sig ");
            reveal_strlit("\n");
        }
        let mut prefix = String::new();
        let mut any = false;
        let mut k: usize = 0;
        while k < PARAM_COUNT
            invariant
                k <= 8,
                any == (exists|j: int| 0 <= j < k && #[trigger] spec_references(user_code@, j)),
                spec_inject_prefix(*self, user_code@, 0) == prefix@ + spec_inject_prefix(*self,
                    user_code@, k as int),
                forall|j: int| 0 <= j < 8 ==> #[trigger] spec_param_value(*self, j) > i64::MIN,
            decreases 8 - k,
        {
            let ghost prefix_before = prefix@;
            if contains_str(user_code, param_reference(k)) {
                prefix.append("~");
                prefix.append(param_name(k));
                prefix.append(": sig ");
                append_format_fx(&mut prefix, self.value_at(k));
                prefix.append("\n");
                proof {
                    assert(prefix@ =~= prefix_before + (spec_binding_line(*self, k as int)
                        + "\n"@));
                }
                any = true;
            }
            proof {
                assert(prefix_before + spec_inject_prefix(*self, user_code@, k as int) =~= prefix@
                    + spec_inject_prefix(*self, user_code@, k as int + 1));
            }
            k = k + 1;
        }
        if !any {
            let r = user_code.to_owned();
            return r;
        }
        let mut out = prefix;
        out.append(user_code);
        proof {
            assert(out@ =~= spec_inject_prefix(*self, user_code@, 0) + user_code@);
        }
        out
    }
}

/// A script that references a recognized variable is returned with that
/// variable's binding block in front and the original text unchanged at
/// the end: the injected output always ends with the user's script.
pub proof fn lemma_inject_ends_with_script(inj: ParamInjector, code: Seq<char>)
    requires
        spec_any_reference(code),
    ensures
        spec_inject(inj, code).len() >= code.len(),
        spec_inject(inj, code).subrange(
            spec_inject(inj, code).len() - code.len(),
            spec_inject(inj, code).len() as int,
        ) == code,
{
    let p = spec_inject_prefix(inj, code, 0);
    assert(spec_inject(inj, code) == p + code);
    assert((p + code).subrange(p.len() as int, (p + code).len() as int) =~= code);
}

/// When the first referenced variable is `k`, the injected output begins
/// with that variable's binding line.
pub proof fn lemma_inject_begins_with_binding(inj: ParamInjector, code: Seq<char>, k: int)
    requires
        0 <= k < 8,
        spec_references(code, k),
        forall|j: int| 0 <= j < k ==> !#[trigger] spec_references(code, j),
    ensures
        ({
            let line = spec_binding_line(inj, k) + "\n"@;
            let out = spec_inject(inj, code);
            &&& out.len() >= line.len()
            &&& out.subrange(0, line.len() as int) == line
        }),
{
    lemma_prefix_skips_unreferenced(inj, code, 0, k);
    let line = spec_binding_line(inj, k) + "\n"@;
    let p = spec_inject_prefix(inj, code, 0);
    let rest = spec_inject_prefix(inj, code, k + 1);
    assert(spec_inject_prefix(inj, code, k) == line + rest);
    assert(p == line + rest);
    let out = spec_inject(inj, code);
    assert(out == (line + rest) + code);
    assert(out.subrange(0, line.len() as int) =~= line);
}

/// The definition block is unchanged by skipping indices the script does
/// not reference.
proof fn lemma_prefix_skips_unreferenced(inj: ParamInjector, code: Seq<char>, j: int, k: int)
    requires
        0 <= j <= k <= 8,
        forall|t: int| j <= t < k ==> !#[trigger] spec_references(code, t),
    ensures
        spec_inject_prefix(inj, code, j) == spec_inject_prefix(inj, code, k),
    decreases k - j,
{
    if j < k {
        lemma_prefix_skips_unreferenced(inj, code, j + 1, k);
        assert(spec_inject_prefix(inj, code, j) =~= Seq::<char>::empty() + spec_inject_prefix(
            inj, code, j + 1));
        assert(Seq::<char>::empty() + spec_inject_prefix(inj, code, j + 1)
            =~= spec_inject_prefix(inj, code, j + 1));
    }
}

} // verus!
