//! Substring and character search over text, without a regex engine.
//!
//! A pattern is one of: a single character, a literal sequence, a set of
//! characters, a set of sequences (longest match wins at the leftmost
//! position), or a caller-supplied qualifier predicate evaluated at
//! successive offsets.  All offsets and lengths count characters of the
//! text's view.

use vstd::prelude::*;
use vstd::string::*;

verus! {

/// `pat` occurs in `text` starting at offset `i`.
pub open spec fn match_at(text: Seq<char>, pat: Seq<char>, i: int) -> bool {
    0 <= i && i + pat.len() <= text.len() && text.subrange(i, i + pat.len()) == pat
}

/// The leftmost offset at or after `from` where `pat` occurs in `text`,
/// if there is one.
pub open spec fn spec_find(text: Seq<char>, pat: Seq<char>, from: int) -> Option<int>
    decreases text.len() - from,
{
    if !(0 <= from && from + pat.len() <= text.len()) {
        None
    } else if text.subrange(from, from + pat.len()) == pat {
        Some(from)
    } else {
        proof {
            assert(pat.len() > 0) by {
                if pat.len() == 0 {
                    assert(text.subrange(from, from) =~= pat);
                }
            }
        }
        spec_find(text, pat, from + 1)
    }
}

/// The leftmost offset at or after `from` where the character `c` stands
/// in `text`, if there is one.
pub open spec fn spec_find_char(text: Seq<char>, c: char, from: int) -> Option<int>
    decreases text.len() - from,
{
    if !(0 <= from && from < text.len()) {
        None
    } else if text[from] == c {
        Some(from)
    } else {
        spec_find_char(text, c, from + 1)
    }
}

/// The leftmost offset at or after `from` where any character of `cs`
/// stands in `text`, if there is one.
pub open spec fn spec_find_any_char(text: Seq<char>, cs: Seq<char>, from: int) -> Option<int>
    decreases text.len() - from,
{
    if !(0 <= from && from < text.len()) {
        None
    } else if cs.contains(text[from]) {
        Some(from)
    } else {
        spec_find_any_char(text, cs, from + 1)
    }
}

/// Some member of `pats` occurs in `text` at offset `i`.
pub open spec fn any_match_at(text: Seq<char>, pats: Seq<Seq<char>>, i: int) -> bool {
    exists|k: int| 0 <= k < pats.len() && match_at(text, pats[k], i)
}

/// The leftmost offset at or after `from` where some member of `pats`
/// occurs in `text`, if there is one.
pub open spec fn spec_find_any(text: Seq<char>, pats: Seq<Seq<char>>, from: int) -> Option<int>
    decreases text.len() - from + 1,
{
    if !(0 <= from && from <= text.len()) {
        None
    } else if any_match_at(text, pats, from) {
        Some(from)
    } else if from == text.len() {
        None
    } else {
        spec_find_any(text, pats, from + 1)
    }
}

/// The length of the longest member of `pats` that occurs in `text` at
/// offset `i`; zero when none occurs.
pub open spec fn best_match_len(text: Seq<char>, pats: Seq<Seq<char>>, i: int) -> int
    decreases pats.len(),
{
    if pats.len() == 0 {
        0
    } else {
        let rest = best_match_len(text, pats.drop_last(), i);
        if match_at(text, pats.last(), i) && pats.last().len() > rest {
            pats.last().len() as int
        } else {
            rest
        }
    }
}

/// The longest-match tie-break: at any offset, `best_match_len` is the
/// length of some member that occurs there and bounds every member that
/// occurs there.
pub proof fn lemma_best_match_len(text: Seq<char>, pats: Seq<Seq<char>>, i: int)
    ensures
        best_match_len(text, pats, i) >= 0,
        forall|k: int|
            0 <= k < pats.len() && match_at(text, pats[k], i) ==> pats[k].len() <= best_match_len(
                text,
                pats,
                i,
            ),
        any_match_at(text, pats, i) ==> exists|k: int|
            0 <= k < pats.len() && match_at(text, pats[k], i) && pats[k].len() == best_match_len(
                text,
                pats,
                i,
            ),
        !any_match_at(text, pats, i) ==> best_match_len(text, pats, i) == 0,
    decreases pats.len(),
{
    if pats.len() == 0 {
    } else {
        let pre = pats.drop_last();
        lemma_best_match_len(text, pre, i);
        let best = best_match_len(text, pats, i);
        let rest = best_match_len(text, pre, i);
        assert(forall|k: int| 0 <= k < pre.len() ==> pats[k] == pre[k]);
        if any_match_at(text, pats, i) {
            if match_at(text, pats.last(), i) && pats.last().len() > rest {
                assert(match_at(text, pats[pats.len() - 1], i) && pats[pats.len() - 1].len()
                    == best);
            } else {
                if any_match_at(text, pre, i) {
                    let k = choose|k: int|
                        0 <= k < pre.len() && match_at(text, pre[k], i) && pre[k].len() == rest;
                    assert(match_at(text, pats[k], i) && pats[k].len() == best);
                } else {
                    assert(rest == 0);
                    let k = choose|k: int| 0 <= k < pats.len() && match_at(text, pats[k], i);
                    assert(k == pats.len() - 1);
                    assert(match_at(text, pats[k], i) && pats[k].len() == best);
                }
            }
        }
        if !any_match_at(text, pats, i) {
            assert(!any_match_at(text, pre, i));
            assert(!match_at(text, pats.last(), i));
        }
    }
}

/// Lift an optional machine offset to an optional mathematical one.
pub open spec fn as_int_opt(r: Option<usize>) -> Option<int> {
    match r {
        Some(i) => Some(i as int),
        None => None,
    }
}

/// `pat` occurs in `text` at offset `i`, decided by comparing characters.
fn is_match_at_exec(text: &str, pat: &str, i: usize) -> (r: bool)
    requires
        i <= text@.len(),
    ensures
        r == match_at(text@, pat@, i as int),
{
    let tlen = text.unicode_len();
    let plen = pat.unicode_len();
    if plen > tlen - i {
        return false;
    }
    let mut j: usize = 0;
    while j < plen
        invariant
            j <= plen,
            i + plen <= tlen,
            tlen == text@.len(),
            plen == pat@.len(),
            forall|k: int| 0 <= k < j ==> text@[i + k] == pat@[k],
        decreases plen - j,
    {
        if text.get_char(i + j) != pat.get_char(j) {
            proof {
                assert(text@.subrange(i as int, i + plen) != pat@) by {
                    assert(text@.subrange(i as int, i + plen)[j as int] == text@[i + j]);
                }
            }
            return false;
        }
        j = j + 1;
    }
    proof {
        assert(text@.subrange(i as int, i + plen) =~= pat@);
    }
    true
}

/// Find the leftmost occurrence of the sequence `pat` in `text` at or
/// after offset `from`.
pub fn find_seq_from(text: &str, pat: &str, from: usize) -> (r: Option<usize>)
    ensures
        as_int_opt(r) == spec_find(text@, pat@, from as int),
{
    let tlen = text.unicode_len();
    let plen = pat.unicode_len();
    if from > tlen || plen > tlen - from {
        return None;
    }
    if plen == 0 {
        proof {
            assert(text@.subrange(from as int, from as int) =~= pat@);
        }
        return Some(from);
    }
    let limit = tlen - plen;
    let mut i: usize = from;
    while i <= limit
        invariant
            from <= i <= limit + 1,
            limit == tlen - plen,
            plen >= 1,
            plen <= tlen,
            tlen == text@.len(),
            plen == pat@.len(),
            spec_find(text@, pat@, from as int) == spec_find(text@, pat@, i as int),
        decreases limit + 1 - i,
    {
        if is_match_at_exec(text, pat, i) {
            return Some(i);
        }
        i = i + 1;
    }
    None
}

/// Find the leftmost occurrence of the character `c` in `text` at or
/// after offset `from`.
pub fn find_char_from(text: &str, c: char, from: usize) -> (r: Option<usize>)
    ensures
        as_int_opt(r) == spec_find_char(text@, c, from as int),
{
    let tlen = text.unicode_len();
    if from >= tlen {
        return None;
    }
    let mut i: usize = from;
    while i < tlen
        invariant
            from <= i <= tlen,
            tlen == text@.len(),
            spec_find_char(text@, c, from as int) == spec_find_char(text@, c, i as int),
        decreases tlen - i,
    {
        if text.get_char(i) == c {
            return Some(i);
        }
        i = i + 1;
    }
    None
}

/// `cs` holds the character `c`.
fn vec_contains_char(cs: &Vec<char>, c: char) -> (r: bool)
    ensures
        r == cs@.contains(c),
{
    let mut k: usize = 0;
    while k < cs.len()
        invariant
            k <= cs@.len(),
            forall|j: int| 0 <= j < k ==> cs@[j] != c,
        decreases cs@.len() - k,
    {
        if cs[k] == c {
            return true;
        }
        k = k + 1;
    }
    false
}

/// Find the leftmost offset in `text` at or after `from` holding any
/// character of `cs`.
pub fn find_any_char_from(text: &str, cs: &Vec<char>, from: usize) -> (r: Option<usize>)
    ensures
        as_int_opt(r) == spec_find_any_char(text@, cs@, from as int),
{
    let tlen = text.unicode_len();
    if from >= tlen {
        return None;
    }
    let mut i: usize = from;
    while i < tlen
        invariant
            from <= i <= tlen,
            tlen == text@.len(),
            spec_find_any_char(text@, cs@, from as int) == spec_find_any_char(
                text@,
                cs@,
                i as int,
            ),
        decreases tlen - i,
    {
        if vec_contains_char(cs, text.get_char(i)) {
            return Some(i);
        }
        i = i + 1;
    }
    None
}

/// Decide whether any member of `pats` occurs in `text` at offset `i`,
/// and return the longest such member's length.
fn best_match_at_exec(text: &str, pats: &Vec<String>, i: usize) -> (r: (bool, usize))
    requires
        i <= text@.len(),
    ensures
        r.0 == any_match_at(text@, pats.deep_view(), i as int),
        r.1 as int == best_match_len(text@, pats.deep_view(), i as int),
{
    let ghost dv = pats.deep_view();
    let mut matched = false;
    let mut best: usize = 0;
    let mut k: usize = 0;
    proof {
        assert(dv.take(0) =~= Seq::<Seq<char>>::empty());
    }
    while k < pats.len()
        invariant
            k <= pats@.len(),
            i <= text@.len(),
            dv == pats.deep_view(),
            dv.len() == pats@.len(),
            matched == any_match_at(text@, dv.take(k as int), i as int),
            best as int == best_match_len(text@, dv.take(k as int), i as int),
            best <= text@.len(),
        decreases pats@.len() - k,
    {
        let ghost pre = dv.take(k as int);
        let ghost cur = dv.take(k + 1);
        proof {
            assert(cur.drop_last() =~= pre);
            assert(cur.last() == dv[k as int]);
            assert(dv[k as int] == pats@[k as int]@);
        }
        let hit = is_match_at_exec(text, pats[k].as_str(), i);
        proof {
            if hit {
                assert(any_match_at(text@, cur, i as int)) by {
                    assert(0 <= k < cur.len() && match_at(text@, cur[k as int], i as int));
                }
            } else {
                assert(any_match_at(text@, cur, i as int) == any_match_at(
                    text@,
                    pre,
                    i as int,
                )) by {
                    if any_match_at(text@, cur, i as int) {
                        let w = choose|w: int|
                            0 <= w < cur.len() && match_at(text@, cur[w], i as int);
                        assert(w < k);
                        assert(0 <= w < pre.len() && match_at(text@, pre[w], i as int));
                    }
                    if any_match_at(text@, pre, i as int) {
                        let w = choose|w: int|
                            0 <= w < pre.len() && match_at(text@, pre[w], i as int);
                        assert(0 <= w < cur.len() && match_at(text@, cur[w], i as int));
                    }
                }
            }
        }
        let plen = pats[k].as_str().unicode_len();
        if hit && plen > best {
            best = plen;
            matched = true;
        } else {
            if hit {
                matched = true;
            }
        }
        k = k + 1;
    }
    proof {
        assert(dv.take(dv.len() as int) =~= dv);
    }
    (matched, best)
}

/// Find the leftmost offset in `text` at or after `from` where some
/// member of `pats` occurs, together with the length of the longest
/// member occurring there.
pub fn find_any_seq_from(text: &str, pats: &Vec<String>, from: usize) -> (r: Option<
    (usize, usize),
>)
    ensures
        match r {
            Some(p) => spec_find_any(text@, pats.deep_view(), from as int) == Some(p.0 as int)
                && p.1 as int == best_match_len(text@, pats.deep_view(), p.0 as int),
            None => spec_find_any(text@, pats.deep_view(), from as int) is None,
        },
{
    let tlen = text.unicode_len();
    if from > tlen {
        return None;
    }
    let mut i: usize = from;
    loop
        invariant
            from <= i <= tlen,
            tlen == text@.len(),
            spec_find_any(text@, pats.deep_view(), from as int) == spec_find_any(
                text@,
                pats.deep_view(),
                i as int,
            ),
        decreases tlen - i,
    {
        let (matched, best) = best_match_at_exec(text, pats, i);
        if matched {
            return Some((i, best));
        }
        if i == tlen {
            return None;
        }
        i = i + 1;
    }
}

/// An offset-and-length pair reported by a qualifier predicate,
/// relative to the suffix the predicate was shown.
#[derive(Clone, Copy, PartialEq, Eq, Structural, Debug)]
pub struct StringQulaifierMatch {
    pub index: usize,
    pub length: usize,
}

/// A predicate over text suffixes, the general escape hatch among the
/// pattern variants.  `qualify` is the predicate's meaning; `check`
/// decides it and must agree with that meaning.
pub trait TextQualifier: Sized {
    /// Where, if anywhere, this predicate reports a hit inside `suffix`.
    spec fn qualify(&self, suffix: Seq<char>) -> Option<StringQulaifierMatch>;

    /// Decide `qualify` on a concrete suffix.
    fn check(&self, suffix: &str) -> (r: Option<StringQulaifierMatch>)
        ensures
            r == self.qualify(suffix@),
            r matches Some(m) ==> m.index + m.length <= suffix@.len(),
    ;
}

/// The qualifier that never reports a hit; it stands in for the unused
/// type parameter when a plain pattern variant is built.
pub struct NoQualifier;

impl TextQualifier for NoQualifier {
    open spec fn qualify(&self, suffix: Seq<char>) -> Option<StringQulaifierMatch> {
        None
    }

    fn check(&self, suffix: &str) -> (r: Option<StringQulaifierMatch>) {
        None
    }
}

/// A decimal digit.
pub open spec fn is_decimal(c: char) -> bool {
    '0' as u32 <= c as u32 && c as u32 <= '9' as u32
}

/// Length of the run of decimal digits at the start of `s`.
pub open spec fn digit_run_len(s: Seq<char>) -> int
    decreases s.len(),
{
    if s.len() == 0 || !is_decimal(s[0]) {
        0
    } else {
        1 + digit_run_len(s.drop_first())
    }
}

proof fn lemma_digit_run_len_at(s: Seq<char>, k: int)
    requires
        0 <= k <= s.len(),
        forall|j: int| 0 <= j < k ==> is_decimal(s[j]),
        k == s.len() || !is_decimal(s[k]),
    ensures
        digit_run_len(s) == k,
    decreases k,
{
    if k > 0 {
        let t = s.drop_first();
        assert(forall|j: int| 0 <= j < k - 1 ==> t[j] == s[j + 1] && is_decimal(s[j + 1]));
        lemma_digit_run_len_at(t, k - 1);
    }
}

/// Executable counterpart of `is_decimal`.
pub fn is_decimal_char(c: char) -> (r: bool)
    ensures
        r == is_decimal(c),
{
    let u = c as u32;
    '0' as u32 <= u && u <= '9' as u32
}

/// A qualifier that hits where a suffix starts with a decimal digit,
/// matching the whole leading digit run.  Searching with it finds the
/// first number written in a text.
pub struct DigitRunQualifier;

impl TextQualifier for DigitRunQualifier {
    open spec fn qualify(&self, suffix: Seq<char>) -> Option<StringQulaifierMatch> {
        if suffix.len() > 0 && is_decimal(suffix[0]) {
            Some(StringQulaifierMatch { index: 0, length: digit_run_len(suffix) as usize })
        } else {
            None
        }
    }

    fn check(&self, suffix: &str) -> (r: Option<StringQulaifierMatch>) {
        let len = suffix.unicode_len();
        if len == 0 {
            return None;
        }
        let c0 = suffix.get_char(0) as u32;
        if c0 < '0' as u32 || c0 > '9' as u32 {
            return None;
        }
        let mut k: usize = 1;
        while k < len && is_decimal_char(suffix.get_char(k))
            invariant
                1 <= k <= len,
                len == suffix@.len(),
                forall|j: int| 0 <= j < k ==> is_decimal(suffix@[j]),
            decreases len - k,
        {
            k = k + 1;
        }
        proof {
            lemma_digit_run_len_at(suffix@, k as int);
        }
        Some(StringQulaifierMatch { index: 0, length: k })
    }
}

/// The leftmost offset at or after `from` whose text suffix satisfies
/// the qualifier, if there is one.
pub open spec fn spec_find_qual<Q: TextQualifier>(q: &Q, text: Seq<char>, from: int) -> Option<
    int,
>
    decreases text.len() - from + 1,
{
    if !(0 <= from && from <= text.len()) {
        None
    } else if q.qualify(text.subrange(from, text.len() as int)) is Some {
        Some(from)
    } else if from == text.len() {
        None
    } else {
        spec_find_qual(q, text, from + 1)
    }
}

/// Scan offsets left to right and stop at the first whose suffix
/// satisfies the qualifier; the qualifier's reported offset is added to
/// the scan offset.
pub fn find_qualifier_from<Q: TextQualifier>(q: &Q, text: &str, from: usize) -> (r: Option<
    StringQulaifierMatch,
>)
    ensures
        match r {
            Some(m) => (spec_find_qual(q, text@, from as int) matches Some(i) && (q.qualify(
                text@.subrange(i, text@.len() as int),
            ) matches Some(qm) && m.index == i + qm.index && m.length == qm.length)) && m.index
                + m.length <= text@.len(),
            None => spec_find_qual(q, text@, from as int) is None,
        },
{
    let tlen = text.unicode_len();
    if from > tlen {
        return None;
    }
    let mut i: usize = from;
    loop
        invariant
            from <= i <= tlen,
            tlen == text@.len(),
            spec_find_qual(q, text@, from as int) == spec_find_qual(q, text@, i as int),
        decreases tlen - i,
    {
        let suffix = text.substring_char(i, tlen);
        let res = q.check(suffix);
        match res {
            Some(qm) => {
                return Some(StringQulaifierMatch { index: i + qm.index, length: qm.length });
            },
            None => {},
        }
        if i == tlen {
            return None;
        }
        i = i + 1;
    }
}

/// A located occurrence: offset and length within the searched text,
/// and a borrowed view of the matched characters.
pub struct StringMatch<'a> {
    pub index: usize,
    pub length: usize,
    pub value: &'a str,
}

impl<'a> StringMatch<'a> {
    /// Offset of the first matched character.
    pub fn start(&self) -> (r: usize)
        ensures
            r == self.index,
    {
        self.index
    }

    /// Offset one past the last matched character.
    pub fn end(&self) -> (r: usize)
        requires
            self.index + self.length <= usize::MAX,
        ensures
            r == self.index + self.length,
    {
        self.index + self.length
    }
}

/// The five ways a search can be phrased.
pub enum StringPattern<Q> {
    /// One character.
    Literal(char),
    /// A contiguous sequence of characters.
    LiteralSequence(String),
    /// Any one character out of a set.
    AnyOfChars(Vec<char>),
    /// Any member of a set of sequences; the longest member matching at
    /// the leftmost position wins.
    AnyOfSequences(Vec<String>),
    /// A caller-supplied predicate evaluated at successive offsets.
    Qualifier(Q),
}

/// What `find_first_from` promises: `r` reports the leftmost match of
/// `pattern` at or after `from`, or `None` when there is none.
pub open spec fn found_from<Q: TextQualifier>(
    pattern: &StringPattern<Q>,
    text: Seq<char>,
    from: int,
    r: Option<StringMatch>,
) -> bool {
    match pattern {
        StringPattern::Literal(c) => match r {
            Some(m) => spec_find_char(text, *c, from) == Some(m.index as int) && m.length == 1,
            None => spec_find_char(text, *c, from) is None,
        },
        StringPattern::LiteralSequence(s) => match r {
            Some(m) => spec_find(text, s@, from) == Some(m.index as int) && m.length == s@.len(),
            None => spec_find(text, s@, from) is None,
        },
        StringPattern::AnyOfChars(cs) => match r {
            Some(m) => spec_find_any_char(text, cs@, from) == Some(m.index as int) && m.length
                == 1,
            None => spec_find_any_char(text, cs@, from) is None,
        },
        StringPattern::AnyOfSequences(ss) => match r {
            Some(m) => spec_find_any(text, ss.deep_view(), from) == Some(m.index as int)
                && m.length as int == best_match_len(text, ss.deep_view(), m.index as int),
            None => spec_find_any(text, ss.deep_view(), from) is None,
        },
        StringPattern::Qualifier(q) => match r {
            Some(m) => spec_find_qual(q, text, from) matches Some(i) && (q.qualify(
                text.subrange(i, text.len() as int),
            ) matches Some(qm) && m.index == i + qm.index && m.length == qm.length),
            None => spec_find_qual(q, text, from) is None,
        },
    }
}

/// A reported match lies inside the text and carries the matched slice.
pub open spec fn match_wf(m: StringMatch, text: Seq<char>) -> bool {
    m.index + m.length <= text.len() && m.value@ == text.subrange(
        m.index as int,
        m.index + m.length,
    )
}

/// Search `text[start_offset..]` for the first occurrence of `pattern`,
/// reporting offsets relative to the whole of `text`.
pub fn find_first_from<'a, Q: TextQualifier>(
    pattern: &StringPattern<Q>,
    text: &'a str,
    start_offset: usize,
) -> (r: Option<StringMatch<'a>>)
    ensures
        found_from(pattern, text@, start_offset as int, r),
        r matches Some(m) ==> match_wf(m, text@) && m.index >= start_offset,
{
    let _text_len = text.unicode_len();
    match pattern {
        StringPattern::Literal(c) => {
            match find_char_from(text, *c, start_offset) {
                Some(i) => {
                    proof {
                        lemma_spec_find_char_in_range(text@, *c, start_offset as int);
                    }
                    let value = text.substring_char(i, i + 1);
                    Some(StringMatch { index: i, length: 1, value })
                },
                None => None,
            }
        },
        StringPattern::LiteralSequence(s) => {
            let plen = s.as_str().unicode_len();
            match find_seq_from(text, s.as_str(), start_offset) {
                Some(i) => {
                    proof {
                        lemma_spec_find_in_range(text@, s@, start_offset as int);
                    }
                    let value = text.substring_char(i, i + plen);
                    Some(StringMatch { index: i, length: plen, value })
                },
                None => None,
            }
        },
        StringPattern::AnyOfChars(cs) => {
            match find_any_char_from(text, cs, start_offset) {
                Some(i) => {
                    proof {
                        lemma_spec_find_any_char_in_range(text@, cs@, start_offset as int);
                    }
                    let value = text.substring_char(i, i + 1);
                    Some(StringMatch { index: i, length: 1, value })
                },
                None => None,
            }
        },
        StringPattern::AnyOfSequences(ss) => {
            match find_any_seq_from(text, ss, start_offset) {
                Some(p) => {
                    proof {
                        lemma_spec_find_any_in_range(text@, ss.deep_view(), start_offset as int);
                        lemma_best_match_len(text@, ss.deep_view(), p.0 as int);
                    }
                    let value = text.substring_char(p.0, p.0 + p.1);
                    Some(StringMatch { index: p.0, length: p.1, value })
                },
                None => None,
            }
        },
        StringPattern::Qualifier(q) => {
            match find_qualifier_from(q, text, start_offset) {
                Some(qm) => {
                    proof {
                        lemma_spec_find_qual_in_range(q, text@, start_offset as int);
                    }
                    let value = text.substring_char(qm.index, qm.index + qm.length);
                    Some(StringMatch { index: qm.index, length: qm.length, value })
                },
                None => None,
            }
        },
    }
}

/// Search the whole of `text` for the first occurrence of `pattern`.
pub fn find_first<'a, Q: TextQualifier>(pattern: &StringPattern<Q>, text: &'a str) -> (r: Option<
    StringMatch<'a>,
>)
    ensures
        found_from(pattern, text@, 0, r),
        r matches Some(m) ==> match_wf(m, text@),
{
    find_first_from(pattern, text, 0)
}

/// Text that patterns can be searched in.
pub trait PatternMatching where Self: View<V = Seq<char>> {
    /// Search `self` for the first occurrence of `pattern`.
    fn match_pattern<'a, Q: TextQualifier>(&'a self, pattern: &StringPattern<Q>) -> (r: Option<
        StringMatch<'a>,
    >)
        ensures
            found_from(pattern, self@, 0, r),
            r matches Some(m) ==> match_wf(m, self@),
    ;
}

impl PatternMatching for str {
    fn match_pattern<'a, Q: TextQualifier>(&'a self, pattern: &StringPattern<Q>) -> (r: Option<
        StringMatch<'a>,
    >) {
        find_first(pattern, self)
    }
}

pub proof fn lemma_spec_find_in_range(text: Seq<char>, pat: Seq<char>, from: int)
    ensures
        spec_find(text, pat, from) matches Some(i) ==> from <= i && i + pat.len() <= text.len(),
    decreases text.len() - from,
{
    if 0 <= from && from + pat.len() <= text.len() && text.subrange(from, from + pat.len())
        != pat {
        assert(pat.len() > 0) by {
            if pat.len() == 0 {
                assert(text.subrange(from, from) =~= pat);
            }
        }
        lemma_spec_find_in_range(text, pat, from + 1);
    }
}

pub proof fn lemma_spec_find_char_in_range(text: Seq<char>, c: char, from: int)
    ensures
        spec_find_char(text, c, from) matches Some(i) ==> from <= i && i + 1 <= text.len(),
    decreases text.len() - from,
{
    if 0 <= from && from < text.len() && text[from] != c {
        lemma_spec_find_char_in_range(text, c, from + 1);
    }
}

pub proof fn lemma_spec_find_any_char_in_range(text: Seq<char>, cs: Seq<char>, from: int)
    ensures
        spec_find_any_char(text, cs, from) matches Some(i) ==> from <= i && i + 1 <= text.len(),
    decreases text.len() - from,
{
    if 0 <= from && from < text.len() && !cs.contains(text[from]) {
        lemma_spec_find_any_char_in_range(text, cs, from + 1);
    }
}

pub proof fn lemma_spec_find_any_in_range(text: Seq<char>, pats: Seq<Seq<char>>, from: int)
    ensures
        spec_find_any(text, pats, from) matches Some(i) ==> from <= i && i <= text.len()
            && best_match_len(text, pats, i) + i <= text.len(),
    decreases text.len() - from + 1,
{
    if 0 <= from && from <= text.len() {
        if any_match_at(text, pats, from) {
            lemma_best_match_len(text, pats, from);
        } else if from < text.len() {
            lemma_spec_find_any_in_range(text, pats, from + 1);
        }
    }
}

pub proof fn lemma_spec_find_qual_in_range<Q: TextQualifier>(q: &Q, text: Seq<char>, from: int)
    ensures
        spec_find_qual(q, text, from) matches Some(i) ==> from <= i && i <= text.len(),
    decreases text.len() - from + 1,
{
    if 0 <= from && from <= text.len() {
        if !(q.qualify(text.subrange(from, text.len() as int)) is Some) && from < text.len() {
            lemma_spec_find_qual_in_range(q, text, from + 1);
        }
    }
}

/// `spec_find` reports the leftmost occurrence at or after `from`, and
/// reports `None` exactly when there is none.
pub proof fn lemma_spec_find_characterizes(text: Seq<char>, pat: Seq<char>, from: int)
    requires
        0 <= from,
    ensures
        match spec_find(text, pat, from) {
            Some(i) => from <= i && match_at(text, pat, i) && forall|j: int|
                from <= j < i ==> !match_at(text, pat, j),
            None => forall|j: int| from <= j ==> !match_at(text, pat, j),
        },
    decreases text.len() - from,
{
    if !(from + pat.len() <= text.len()) {
    } else if text.subrange(from, from + pat.len()) == pat {
    } else {
        assert(pat.len() > 0) by {
            if pat.len() == 0 {
                assert(text.subrange(from, from) =~= pat);
            }
        }
        lemma_spec_find_characterizes(text, pat, from + 1);
    }
}

/// `spec_find_char` reports the leftmost occurrence at or after `from`,
/// and reports `None` exactly when there is none.
pub proof fn lemma_spec_find_char_characterizes(text: Seq<char>, c: char, from: int)
    requires
        0 <= from,
    ensures
        match spec_find_char(text, c, from) {
            Some(i) => from <= i < text.len() && text[i] == c && forall|j: int|
                from <= j < i ==> text[j] != c,
            None => forall|j: int| from <= j < text.len() ==> text[j] != c,
        },
    decreases text.len() - from,
{
    if 0 <= from && from < text.len() && text[from] != c {
        lemma_spec_find_char_characterizes(text, c, from + 1);
    }
}

/// A search that starts at or before a known occurrence, with no earlier
/// occurrence in its range, reports exactly that occurrence.
pub proof fn lemma_spec_find_unique(text: Seq<char>, pat: Seq<char>, from: int, i: int)
    requires
        0 <= from <= i,
        match_at(text, pat, i),
        forall|j: int| from <= j < i ==> !match_at(text, pat, j),
    ensures
        spec_find(text, pat, from) == Some(i),
{
    lemma_spec_find_characterizes(text, pat, from);
    match spec_find(text, pat, from) {
        Some(j) => {
            if j < i {
            } else if j > i {
            }
        },
        None => {},
    }
}

/// The character-search counterpart of `lemma_spec_find_unique`.
pub proof fn lemma_spec_find_char_unique(text: Seq<char>, c: char, from: int, i: int)
    requires
        0 <= from <= i < text.len(),
        text[i] == c,
        forall|j: int| from <= j < i ==> text[j] != c,
    ensures
        spec_find_char(text, c, from) == Some(i),
{
    lemma_spec_find_char_characterizes(text, c, from);
}

/// Any literal that occurs in a text is found: the search from the start
/// reports its leftmost occurrence, and a search from past any reported
/// occurrence reports the next one or nothing beyond it.
pub proof fn lemma_find_literal_leftmost(text: Seq<char>, pat: Seq<char>, i: int)
    requires
        match_at(text, pat, i),
    ensures
        spec_find(text, pat, 0) matches Some(j) && j <= i && match_at(text, pat, j) && (forall|
            k: int,
        |
            0 <= k < j ==> !match_at(text, pat, k)),
        forall|f: int|
            0 <= f ==> match #[trigger] spec_find(text, pat, f) {
                Some(j) => f <= j && match_at(text, pat, j) && forall|k: int|
                    f <= k < j ==> !match_at(text, pat, k),
                None => forall|k: int| f <= k ==> !match_at(text, pat, k),
            },
{
    lemma_spec_find_characterizes(text, pat, 0);
    assert forall|f: int| 0 <= f implies match #[trigger] spec_find(text, pat, f) {
        Some(j) => f <= j && match_at(text, pat, j) && forall|k: int|
            f <= k < j ==> !match_at(text, pat, k),
        None => forall|k: int| f <= k ==> !match_at(text, pat, k),
    } by {
        lemma_spec_find_characterizes(text, pat, f);
    }
}

} // verus!
