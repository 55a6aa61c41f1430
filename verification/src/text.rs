//! Character-level utilities shared by the pattern matcher and the
//! parsers: blank-space tests, trimming, case-insensitive comparison of
//! ASCII letters, and splitting text into whitespace-separated tokens.

use vstd::prelude::*;
use vstd::string::*;

verus! {

/// Blank characters as this library understands them: the ASCII blanks
/// that occur in command output and console input.
pub open spec fn is_space(c: char) -> bool {
    c == ' ' || c == '\t' || c == '\n' || c == '\r'
}

/// Executable counterpart of `is_space`.
pub fn is_space_char(c: char) -> (r: bool)
    ensures
        r == is_space(c),
{
    c == ' ' || c == '\t' || c == '\n' || c == '\r'
}

/// Compare two text slices for equal contents.
pub fn str_eq(a: &str, b: &str) -> (r: bool)
    ensures
        r == (a@ == b@),
{
    let alen = a.unicode_len();
    let blen = b.unicode_len();
    if alen != blen {
        return false;
    }
    let mut i: usize = 0;
    while i < alen
        invariant
            i <= alen,
            alen == a@.len(),
            alen == b@.len(),
            forall|j: int| 0 <= j < i ==> a@[j] == b@[j],
        decreases alen - i,
    {
        if a.get_char(i) != b.get_char(i) {
            return false;
        }
        i = i + 1;
    }
    proof {
        assert(a@ =~= b@);
    }
    true
}

/// One character of `a` matches one of `b` ignoring the case of ASCII
/// letters.
pub open spec fn char_eq_ci(a: char, b: char) -> bool {
    ||| a == b
    ||| ('A' <= a <= 'Z' && a as u32 + 32 == b as u32)
    ||| ('A' <= b <= 'Z' && b as u32 + 32 == a as u32)
}

/// Executable counterpart of `char_eq_ci`.
pub fn char_matches_ci(a: char, b: char) -> (r: bool)
    ensures
        r == char_eq_ci(a, b),
{
    let au = a as u32;
    let bu = b as u32;
    au == bu || ('A' as u32 <= au && au <= 'Z' as u32 && au + 32 == bu) || ('A' as u32 <= bu && bu
        <= 'Z' as u32 && bu + 32 == au)
}

/// Two texts match ignoring the case of ASCII letters.
pub open spec fn seq_eq_ci(a: Seq<char>, b: Seq<char>) -> bool {
    a.len() == b.len() && forall|i: int| 0 <= i < a.len() ==> char_eq_ci(a[i], b[i])
}

/// Compare two text slices ignoring the case of ASCII letters.
pub fn str_eq_ci(a: &str, b: &str) -> (r: bool)
    ensures
        r == seq_eq_ci(a@, b@),
{
    let alen = a.unicode_len();
    let blen = b.unicode_len();
    if alen != blen {
        return false;
    }
    let mut i: usize = 0;
    while i < alen
        invariant
            i <= alen,
            alen == a@.len(),
            alen == b@.len(),
            forall|j: int| 0 <= j < i ==> char_eq_ci(a@[j], b@[j]),
        decreases alen - i,
    {
        if !char_matches_ci(a.get_char(i), b.get_char(i)) {
            return false;
        }
        i = i + 1;
    }
    true
}

/// `s` without the blank characters at its start.
pub open spec fn trim_start_spec(s: Seq<char>) -> Seq<char>
    decreases s.len(),
{
    if s.len() > 0 && is_space(s[0]) {
        trim_start_spec(s.drop_first())
    } else {
        s
    }
}

/// `s` without the blank characters at its end.
pub open spec fn trim_end_spec(s: Seq<char>) -> Seq<char>
    decreases s.len(),
{
    if s.len() > 0 && is_space(s.last()) {
        trim_end_spec(s.drop_last())
    } else {
        s
    }
}

/// `s` without the blank characters at either end.
pub open spec fn trim_spec(s: Seq<char>) -> Seq<char> {
    trim_end_spec(trim_start_spec(s))
}

proof fn lemma_trim_start_at(s: Seq<char>, i: int)
    requires
        0 <= i <= s.len(),
        forall|j: int| 0 <= j < i ==> is_space(s[j]),
        i == s.len() || !is_space(s[i]),
    ensures
        trim_start_spec(s) == s.subrange(i, s.len() as int),
    decreases i,
{
    if i == 0 {
        assert(s =~= s.subrange(0, s.len() as int));
    } else {
        let t = s.drop_first();
        assert(forall|j: int| 0 <= j < i - 1 ==> t[j] == s[j + 1] && is_space(s[j + 1]));
        lemma_trim_start_at(t, i - 1);
        assert(t.subrange(i - 1, t.len() as int) =~= s.subrange(i, s.len() as int));
    }
}

proof fn lemma_trim_end_at(s: Seq<char>, i: int)
    requires
        0 <= i <= s.len(),
        forall|j: int| i <= j < s.len() ==> is_space(s[j]),
        i == 0 || !is_space(s[i - 1]),
    ensures
        trim_end_spec(s) == s.subrange(0, i),
    decreases s.len() - i,
{
    if i == s.len() {
        assert(s =~= s.subrange(0, i));
    } else {
        let t = s.drop_last();
        lemma_trim_end_at(t, i);
        assert(t.subrange(0, i) =~= s.subrange(0, i));
    }
}

/// Copy of `s` without the blank characters at either end.
pub fn trim(s: &str) -> (r: String)
    ensures
        r@ == trim_spec(s@),
{
    let len = s.unicode_len();
    let mut a: usize = 0;
    while a < len && is_space_char(s.get_char(a))
        invariant
            a <= len,
            len == s@.len(),
            forall|j: int| 0 <= j < a ==> is_space(s@[j]),
        decreases len - a,
    {
        a = a + 1;
    }
    proof {
        lemma_trim_start_at(s@, a as int);
    }
    let mut b: usize = len;
    while b > a && is_space_char(s.get_char(b - 1))
        invariant
            a <= b <= len,
            len == s@.len(),
            forall|j: int| b <= j < len ==> is_space(s@[j]),
        decreases b,
    {
        b = b - 1;
    }
    proof {
        let t = s@.subrange(a as int, len as int);
        assert(forall|j: int| b - a <= j < t.len() ==> t[j] == s@[j + a] && is_space(s@[j + a]));
        if b > a {
            assert(t[b - a - 1] == s@[b - 1]);
        }
        lemma_trim_end_at(t, b - a);
        assert(t.subrange(0, b - a) =~= s@.subrange(a as int, b as int));
    }
    s.substring_char(a, b).to_owned()
}

/// Copy of `s` without the blank characters at its end.
pub fn trim_end(s: &str) -> (r: String)
    ensures
        r@ == trim_end_spec(s@),
{
    let len = s.unicode_len();
    let mut b: usize = len;
    while b > 0 && is_space_char(s.get_char(b - 1))
        invariant
            b <= len,
            len == s@.len(),
            forall|j: int| b <= j < len ==> is_space(s@[j]),
        decreases b,
    {
        b = b - 1;
    }
    proof {
        lemma_trim_end_at(s@, b as int);
    }
    s.substring_char(0, b).to_owned()
}

/// `s` without the characters equal to `c` at its start.
pub open spec fn trim_char_start_spec(s: Seq<char>, c: char) -> Seq<char>
    decreases s.len(),
{
    if s.len() > 0 && s[0] == c {
        trim_char_start_spec(s.drop_first(), c)
    } else {
        s
    }
}

/// `s` without the characters equal to `c` at its end.
pub open spec fn trim_char_end_spec(s: Seq<char>, c: char) -> Seq<char>
    decreases s.len(),
{
    if s.len() > 0 && s.last() == c {
        trim_char_end_spec(s.drop_last(), c)
    } else {
        s
    }
}

/// `s` without the characters equal to `c` at either end.
pub open spec fn trim_char_spec(s: Seq<char>, c: char) -> Seq<char> {
    trim_char_end_spec(trim_char_start_spec(s, c), c)
}

proof fn lemma_trim_char_start_at(s: Seq<char>, c: char, i: int)
    requires
        0 <= i <= s.len(),
        forall|j: int| 0 <= j < i ==> s[j] == c,
        i == s.len() || s[i] != c,
    ensures
        trim_char_start_spec(s, c) == s.subrange(i, s.len() as int),
    decreases i,
{
    if i == 0 {
        assert(s =~= s.subrange(0, s.len() as int));
    } else {
        let t = s.drop_first();
        assert(forall|j: int| 0 <= j < i - 1 ==> t[j] == s[j + 1] && s[j + 1] == c);
        lemma_trim_char_start_at(t, c, i - 1);
        assert(t.subrange(i - 1, t.len() as int) =~= s.subrange(i, s.len() as int));
    }
}

proof fn lemma_trim_char_end_at(s: Seq<char>, c: char, i: int)
    requires
        0 <= i <= s.len(),
        forall|j: int| i <= j < s.len() ==> s[j] == c,
        i == 0 || s[i - 1] != c,
    ensures
        trim_char_end_spec(s, c) == s.subrange(0, i),
    decreases s.len() - i,
{
    if i == s.len() {
        assert(s =~= s.subrange(0, i));
    } else {
        let t = s.drop_last();
        lemma_trim_char_end_at(t, c, i);
        assert(t.subrange(0, i) =~= s.subrange(0, i));
    }
}

/// Copy of `s` without the characters equal to `c` at either end.
pub fn trim_char(s: &str, c: char) -> (r: String)
    ensures
        r@ == trim_char_spec(s@, c),
{
    let len = s.unicode_len();
    let mut a: usize = 0;
    while a < len && s.get_char(a) == c
        invariant
            a <= len,
            len == s@.len(),
            forall|j: int| 0 <= j < a ==> s@[j] == c,
        decreases len - a,
    {
        a = a + 1;
    }
    proof {
        lemma_trim_char_start_at(s@, c, a as int);
    }
    let mut b: usize = len;
    while b > a && s.get_char(b - 1) == c
        invariant
            a <= b <= len,
            len == s@.len(),
            forall|j: int| b <= j < len ==> s@[j] == c,
        decreases b,
    {
        b = b - 1;
    }
    proof {
        let t = s@.subrange(a as int, len as int);
        assert(forall|j: int| b - a <= j < t.len() ==> t[j] == s@[j + a] && s@[j + a] == c);
        if b > a {
            assert(t[b - a - 1] == s@[b - 1]);
        }
        lemma_trim_char_end_at(t, c, b - a);
        assert(t.subrange(0, b - a) =~= s@.subrange(a as int, b as int));
    }
    s.substring_char(a, b).to_owned()
}

/// Length of the run of non-blank characters at the start of `s`.
pub open spec fn token_len(s: Seq<char>) -> int
    decreases s.len(),
{
    if s.len() == 0 || is_space(s[0]) {
        0
    } else {
        1 + token_len(s.drop_first())
    }
}

pub proof fn lemma_token_len_bounds(s: Seq<char>)
    ensures
        0 <= token_len(s) <= s.len(),
        s.len() > 0 && !is_space(s[0]) ==> token_len(s) >= 1,
    decreases s.len(),
{
    if s.len() > 0 && !is_space(s[0]) {
        lemma_token_len_bounds(s.drop_first());
    }
}

/// The whitespace-separated tokens of `s`, in order.
pub open spec fn spec_tokens(s: Seq<char>) -> Seq<Seq<char>>
    decreases s.len(),
{
    if s.len() == 0 {
        Seq::empty()
    } else if is_space(s[0]) {
        spec_tokens(s.drop_first())
    } else {
        proof {
            lemma_token_len_bounds(s);
        }
        seq![s.subrange(0, token_len(s))] + spec_tokens(s.subrange(token_len(s), s.len() as int))
    }
}

proof fn lemma_token_len_at(s: Seq<char>, k: int)
    requires
        0 <= k <= s.len(),
        forall|j: int| 0 <= j < k ==> !is_space(s[j]),
        k == s.len() || is_space(s[k]),
    ensures
        token_len(s) == k,
    decreases k,
{
    if k == 0 {
    } else {
        let t = s.drop_first();
        assert(forall|j: int| 0 <= j < k - 1 ==> t[j] == s[j + 1] && !is_space(s[j + 1]));
        lemma_token_len_at(t, k - 1);
    }
}

/// Split `s` into its whitespace-separated tokens.
pub fn tokenize(s: &str) -> (r: Vec<String>)
    ensures
        r.deep_view() == spec_tokens(s@),
{
    let len = s.unicode_len();
    let mut out: Vec<String> = Vec::new();
    let mut i: usize = 0;
    proof {
        assert(s@.subrange(0, len as int) =~= s@);
        assert(out.deep_view() + spec_tokens(s@) =~= spec_tokens(s@));
    }
    while i < len
        invariant
            i <= len,
            len == s@.len(),
            out.deep_view() + spec_tokens(s@.subrange(i as int, len as int)) == spec_tokens(s@),
        decreases len - i,
    {
        let ghost pre = s@.subrange(i as int, len as int);
        if is_space_char(s.get_char(i)) {
            proof {
                assert(pre.drop_first() =~= s@.subrange(i + 1, len as int));
            }
            i = i + 1;
        } else {
            let mut j: usize = i + 1;
            while j < len && !is_space_char(s.get_char(j))
                invariant
                    i < j <= len,
                    len == s@.len(),
                    forall|k: int| i <= k < j ==> !is_space(s@[k]),
                decreases len - j,
            {
                j = j + 1;
            }
            proof {
                assert(forall|k: int|
                    0 <= k < j - i ==> pre[k] == s@[k + i] && !is_space(s@[k + i]));
                if j < len {
                    assert(pre[j - i] == s@[j as int]);
                }
                lemma_token_len_at(pre, j - i);
                assert(pre.subrange(0, j - i) =~= s@.subrange(i as int, j as int));
                assert(pre.subrange(j - i, pre.len() as int) =~= s@.subrange(
                    j as int,
                    len as int,
                ));
            }
            let tok = s.substring_char(i, j).to_owned();
            let ghost old_out = out.deep_view();
            out.push(tok);
            proof {
                assert(out.deep_view() =~= old_out + seq![s@.subrange(i as int, j as int)]);
                assert(old_out + seq![s@.subrange(i as int, j as int)] + spec_tokens(
                    s@.subrange(j as int, len as int),
                ) =~= old_out + (seq![s@.subrange(i as int, j as int)] + spec_tokens(
                    s@.subrange(j as int, len as int),
                )));
            }
            i = j;
        }
    }
    proof {
        assert(s@.subrange(len as int, len as int) =~= Seq::<char>::empty());
        assert(out.deep_view() + Seq::<Seq<char>>::empty() =~= out.deep_view());
    }
    out
}

/// The display line for a command: the program and its arguments,
/// separated by single blanks.
pub open spec fn spec_command_line(program: Seq<char>, args: Seq<Seq<char>>) -> Seq<char>
    decreases args.len(),
{
    if args.len() == 0 {
        program
    } else {
        spec_command_line(program, args.drop_last()) + seq![' '] + args.last()
    }
}

/// Write a command and its arguments as one display line.
pub fn collect_full_command(program: &str, args: &Vec<String>) -> (r: String)
    ensures
        r@ == spec_command_line(program@, args.deep_view()),
{
    let ghost dv = args.deep_view();
    let mut command_string = program.to_owned();
    let mut i: usize = 0;
    proof {
        reveal_strlit(" ");
        assert(" "@ =~= seq![' ']);
        assert(dv.take(0) =~= Seq::<Seq<char>>::empty());
    }
    while i < args.len()
        invariant
            i <= args@.len(),
            dv == args.deep_view(),
            dv.len() == args@.len(),
            " "@ == seq![' '],
            command_string@ == spec_command_line(program@, dv.take(i as int)),
        decreases args@.len() - i,
    {
        command_string.append(" ");
        command_string.append(args[i].as_str());
        proof {
            assert(dv.take(i + 1).drop_last() =~= dv.take(i as int));
            assert(dv.take(i + 1).last() == dv[i as int]);
            assert(dv[i as int] == args@[i as int]@);
        }
        i = i + 1;
    }
    proof {
        assert(dv.take(dv.len() as int) =~= dv);
    }
    command_string
}

} // verus!
