//! The three-part version number embedded in a manifest document:
//! locating it, parsing it, bumping one of its parts, and writing the
//! document back.

use vstd::prelude::*;
use vstd::string::*;
use crate::pattern::{
    spec_find,
    spec_find_char,
    match_at,
    find_seq_from,
    find_char_from,
    lemma_spec_find_in_range,
    lemma_spec_find_char_in_range,
    lemma_spec_find_unique,
    lemma_spec_find_char_unique,
};

verus! {

/// How a version parse or an extraction can fail.
#[derive(Clone, Copy, PartialEq, Eq, Structural, Debug)]
pub enum ParseFailure {
    /// The document holds no version marker.
    MarkerNotFound,
    /// No closing quote follows the version substring.
    TerminatorNotFound,
    /// Fewer than two separating dots stand in the version substring.
    SeparatorNotFound,
    /// A version part is empty, not all digits, or too large.
    NumericFormat,
}

impl ParseFailure {
    /// A line for the caller to print.
    pub fn message(&self) -> (r: String)
        ensures
            *self is MarkerNotFound ==> r@ == "could not locate the version marker"@,
            *self is TerminatorNotFound ==> r@ == "could not locate a closing quote after the version"@,
            *self is SeparatorNotFound ==> r@ == "could not locate a '.' between version parts"@,
            *self is NumericFormat ==> r@ == "could not parse a version part into a 32-bit number"@,
    {
        match self {
            ParseFailure::MarkerNotFound => "could not locate the version marker".to_owned(),
            ParseFailure::TerminatorNotFound => "could not locate a closing quote after the version".to_owned(),
            ParseFailure::SeparatorNotFound => "could not locate a '.' between version parts".to_owned(),
            ParseFailure::NumericFormat => "could not parse a version part into a 32-bit number".to_owned(),
        }
    }
}

/// A decimal digit.
pub open spec fn is_digit(c: char) -> bool {
    '0' as u32 <= c as u32 && c as u32 <= '9' as u32
}

/// The value of one digit.
pub open spec fn digit_val(c: char) -> int {
    c as u32 - '0' as u32
}

/// Every character of `s` is a decimal digit.
pub open spec fn all_digits(s: Seq<char>) -> bool {
    forall|i: int| 0 <= i < s.len() ==> is_digit(#[trigger] s[i])
}

/// The number written by the digit sequence `s`, most significant digit
/// first.
pub open spec fn seq_to_num(s: Seq<char>) -> int
    decreases s.len(),
{
    if s.len() == 0 {
        0
    } else {
        seq_to_num(s.drop_last()) * 10 + digit_val(s.last())
    }
}

/// The digit writing the value `d`.
pub open spec fn digit_char(d: int) -> char {
    if d == 0 {
        '0'
    } else if d == 1 {
        '1'
    } else if d == 2 {
        '2'
    } else if d == 3 {
        '3'
    } else if d == 4 {
        '4'
    } else if d == 5 {
        '5'
    } else if d == 6 {
        '6'
    } else if d == 7 {
        '7'
    } else if d == 8 {
        '8'
    } else {
        '9'
    }
}

/// The decimal writing of `n`, without leading zeros.
pub open spec fn spec_dec(n: int) -> Seq<char>
    decreases n,
{
    if n < 10 {
        seq![digit_char(n)]
    } else {
        spec_dec(n / 10).push(digit_char(n % 10))
    }
}

/// The decimal writing of a number consists of digits and reads back as
/// that number.
pub proof fn lemma_spec_dec(n: int)
    requires
        n >= 0,
    ensures
        spec_dec(n).len() >= 1,
        all_digits(spec_dec(n)),
        seq_to_num(spec_dec(n)) == n,
    decreases n,
{
    if n < 10 {
        assert(seq_to_num(spec_dec(n)) == seq_to_num(seq![digit_char(n)].drop_last()) * 10
            + digit_val(digit_char(n)));
        assert(seq![digit_char(n)].drop_last() =~= Seq::<char>::empty());
    } else {
        lemma_spec_dec(n / 10);
        let s = spec_dec(n / 10);
        assert(s.push(digit_char(n % 10)).drop_last() =~= s);
        assert(forall|i: int|
            0 <= i < s.push(digit_char(n % 10)).len() ==> is_digit(
                #[trigger] s.push(digit_char(n % 10))[i],
            ));
        assert(seq_to_num(spec_dec(n)) == (n / 10) * 10 + n % 10);
    }
}

/// Digit sequences write nonnegative numbers.
pub proof fn lemma_seq_to_num_nonneg(s: Seq<char>)
    requires
        all_digits(s),
    ensures
        seq_to_num(s) >= 0,
    decreases s.len(),
{
    if s.len() > 0 {
        assert(all_digits(s.drop_last())) by {
            assert(forall|i: int| 0 <= i < s.len() - 1 ==> s.drop_last()[i] == s[i]);
        }
        lemma_seq_to_num_nonneg(s.drop_last());
    }
}

proof fn lemma_seq_to_num_take_step(s: Seq<char>, i: int)
    requires
        0 <= i < s.len(),
    ensures
        seq_to_num(s.take(i + 1)) == seq_to_num(s.take(i)) * 10 + digit_val(s[i]),
{
    assert(s.take(i + 1).drop_last() =~= s.take(i));
    assert(s.take(i + 1).last() == s[i]);
}

proof fn lemma_seq_to_num_grows(s: Seq<char>, i: int)
    requires
        0 <= i <= s.len(),
        all_digits(s),
    ensures
        seq_to_num(s) >= seq_to_num(s.take(i)),
    decreases s.len() - i,
{
    assert(forall|j: int| 0 <= j <= s.len() ==> all_digits(#[trigger] s.take(j))) by {
        assert(forall|j: int, k: int| 0 <= j <= s.len() && 0 <= k < j ==> s.take(j)[k] == s[k]);
    }
    if i == s.len() {
        assert(s.take(i) =~= s);
    } else {
        lemma_seq_to_num_take_step(s, i);
        lemma_seq_to_num_nonneg(s.take(i));
        assert(seq_to_num(s.take(i + 1)) >= seq_to_num(s.take(i)));
        lemma_seq_to_num_grows(s, i + 1);
    }
}

/// The digit sequence `s` is nonempty, all digits, and writes a value
/// that fits 32 bits.
pub open spec fn valid_u32_digits(s: Seq<char>) -> bool {
    s.len() > 0 && all_digits(s) && seq_to_num(s) <= u32::MAX
}

/// Read a nonnegative 32-bit number from a digit string.
pub fn parse_u32(s: &str) -> (r: Result<u32, ParseFailure>)
    ensures
        match r {
            Ok(n) => valid_u32_digits(s@) && n as int == seq_to_num(s@),
            Err(e) => !valid_u32_digits(s@) && e == ParseFailure::NumericFormat,
        },
{
    let len = s.unicode_len();
    if len == 0 {
        return Err(ParseFailure::NumericFormat);
    }
    let mut acc: u64 = 0;
    let mut i: usize = 0;
    proof {
        assert(s@.take(0) =~= Seq::<char>::empty());
    }
    while i < len
        invariant
            0 < len == s@.len(),
            i <= len,
            acc <= u32::MAX,
            forall|j: int| 0 <= j < i ==> is_digit(#[trigger] s@[j]),
            acc as int == seq_to_num(s@.take(i as int)),
        decreases len - i,
    {
        let c = s.get_char(i);
        let cu = c as u32;
        if cu < '0' as u32 || cu > '9' as u32 {
            return Err(ParseFailure::NumericFormat);
        }
        let d = cu - '0' as u32;
        let next: u64 = acc * 10 + d as u64;
        proof {
            lemma_seq_to_num_take_step(s@, i as int);
        }
        if next > u32::MAX as u64 {
            proof {
                if all_digits(s@) {
                    lemma_seq_to_num_grows(s@, i + 1);
                }
            }
            return Err(ParseFailure::NumericFormat);
        }
        acc = next;
        i = i + 1;
    }
    proof {
        assert(s@.take(len as int) =~= s@);
    }
    Ok(acc as u32)
}

/// The text that one digit writes.
fn digit_str(d: u32) -> (r: &'static str)
    requires
        d < 10,
    ensures
        r@ == seq![digit_char(d as int)],
{
    match d {
        0 => {
            proof {
                reveal_strlit("0");
                assert("0"@ =~= seq![digit_char(0)]);
            }
            "0"
        },
        1 => {
            proof {
                reveal_strlit("1");
                assert("1"@ =~= seq![digit_char(1)]);
            }
            "1"
        },
        2 => {
            proof {
                reveal_strlit("2");
                assert("2"@ =~= seq![digit_char(2)]);
            }
            "2"
        },
        3 => {
            proof {
                reveal_strlit("3");
                assert("3"@ =~= seq![digit_char(3)]);
            }
            "3"
        },
        4 => {
            proof {
                reveal_strlit("4");
                assert("4"@ =~= seq![digit_char(4)]);
            }
            "4"
        },
        5 => {
            proof {
                reveal_strlit("5");
                assert("5"@ =~= seq![digit_char(5)]);
            }
            "5"
        },
        6 => {
            proof {
                reveal_strlit("6");
                assert("6"@ =~= seq![digit_char(6)]);
            }
            "6"
        },
        7 => {
            proof {
                reveal_strlit("7");
                assert("7"@ =~= seq![digit_char(7)]);
            }
            "7"
        },
        8 => {
            proof {
                reveal_strlit("8");
                assert("8"@ =~= seq![digit_char(8)]);
            }
            "8"
        },
        _ => {
            proof {
                reveal_strlit("9");
                assert("9"@ =~= seq![digit_char(9)]);
            }
            "9"
        },
    }
}

/// Write `n` in decimal.
pub fn u32_to_string(n: u32) -> (r: String)
    ensures
        r@ == spec_dec(n as int),
    decreases n,
{
    if n < 10 {
        digit_str(n).to_owned()
    } else {
        let mut s = u32_to_string(n / 10);
        s.append(digit_str(n % 10));
        proof {
            assert(spec_dec((n / 10) as int).push(digit_char((n % 10) as int)) =~= spec_dec(
                (n / 10) as int,
            ) + seq![digit_char((n % 10) as int)]);
        }
        s
    }
}

/// Which part of a version number a bump raises.
#[derive(Clone, Copy, PartialEq, Eq, Structural, Debug)]
pub enum VersionPart {
    Major,
    Minor,
    Patch,
}

/// A three-part version number.
#[derive(Clone, Copy, PartialEq, Eq, Structural, Debug)]
pub struct Version {
    pub major: u32,
    pub minor: u32,
    pub patch: u32,
}

/// The text a version renders to: the three parts in decimal, separated
/// by dots.
pub open spec fn spec_version_str(v: Version) -> Seq<char> {
    spec_dec(v.major as int) + seq!['.'] + spec_dec(v.minor as int) + seq!['.'] + spec_dec(
        v.patch as int,
    )
}

impl Version {
    /// Write the version as `major.minor.patch`.
    pub fn to_string(&self) -> (r: String)
        ensures
            r@ == spec_version_str(*self),
    {
        proof {
            reveal_strlit(".");
            assert("."@ =~= seq!['.']);
        }
        let mut s = u32_to_string(self.major);
        s.append(".");
        s.append(u32_to_string(self.minor).as_str());
        s.append(".");
        s.append(u32_to_string(self.patch).as_str());
        s
    }
}

/// The version after bumping one part: the part rises by one and the
/// lesser parts return to zero.
pub open spec fn spec_bump(v: Version, part: VersionPart) -> Version {
    match part {
        VersionPart::Major => Version { major: (v.major + 1) as u32, minor: 0, patch: 0 },
        VersionPart::Minor => Version { major: v.major, minor: (v.minor + 1) as u32, patch: 0 },
        VersionPart::Patch => Version {
            major: v.major,
            minor: v.minor,
            patch: (v.patch + 1) as u32,
        },
    }
}

/// The bumped part has room to rise.
pub open spec fn can_bump(v: Version, part: VersionPart) -> bool {
    match part {
        VersionPart::Major => v.major < u32::MAX,
        VersionPart::Minor => v.minor < u32::MAX,
        VersionPart::Patch => v.patch < u32::MAX,
    }
}

/// The literal that stands right before the version number in a
/// manifest document.
pub open spec fn version_marker() -> Seq<char> {
    "version = \""@
}

/// Split a manifest document around its version substring: everything
/// through the marker, the version text, and everything from the closing
/// quote on.
pub open spec fn spec_extract(doc: Seq<char>) -> Result<
    (Seq<char>, Seq<char>, Seq<char>),
    ParseFailure,
> {
    match spec_find(doc, version_marker(), 0) {
        Option::None => Err(ParseFailure::MarkerNotFound),
        Option::Some(i) => {
            let e = i + version_marker().len();
            match spec_find_char(doc, '"', e) {
                Option::None => Err(ParseFailure::TerminatorNotFound),
                Option::Some(q) => Ok(
                    (doc.subrange(0, e), doc.subrange(e, q), doc.subrange(q, doc.len() as int)),
                ),
            }
        },
    }
}

/// Split a version substring at its first two dots into major, minor
/// and patch texts.
pub open spec fn spec_split_parts(vs: Seq<char>) -> Result<
    (Seq<char>, Seq<char>, Seq<char>),
    ParseFailure,
> {
    match spec_find_char(vs, '.', 0) {
        Option::None => Err(ParseFailure::SeparatorNotFound),
        Option::Some(i) => match spec_find_char(vs, '.', i + 1) {
            Option::None => Err(ParseFailure::SeparatorNotFound),
            Option::Some(j) => Ok(
                (vs.subrange(0, i), vs.subrange(i + 1, j), vs.subrange(j + 1, vs.len() as int)),
            ),
        },
    }
}

/// Read a version substring as a three-part version number.
pub open spec fn spec_parse_parts(vs: Seq<char>) -> Result<Version, ParseFailure> {
    match spec_split_parts(vs) {
        Err(e) => Err(e),
        Ok(t) => if valid_u32_digits(t.0) && valid_u32_digits(t.1) && valid_u32_digits(t.2) {
            Ok(
                Version {
                    major: seq_to_num(t.0) as u32,
                    minor: seq_to_num(t.1) as u32,
                    patch: seq_to_num(t.2) as u32,
                },
            )
        } else {
            Err(ParseFailure::NumericFormat)
        },
    }
}

/// Locate the version substring of a manifest document: the text after
/// the first version marker and before the next quote.  The returned
/// triple is the document through the marker, the version text, and the
/// document from the closing quote on.
pub fn split_version_from_cargo_toml<'a>(cargo_toml_str: &'a str) -> (r: Result<
    (&'a str, &'a str, &'a str),
    ParseFailure,
>)
    ensures
        match r {
            Ok(t) => (spec_extract(cargo_toml_str@) matches Ok(v) && t.0@ == v.0 && t.1@ == v.1
                && t.2@ == v.2),
            Err(e) => spec_extract(cargo_toml_str@) == Err::<
                (Seq<char>, Seq<char>, Seq<char>),
                ParseFailure,
            >(e),
        },
{
    let tlen = cargo_toml_str.unicode_len();
    let marker = "version = \"";
    let mlen = marker.unicode_len();
    let found = find_seq_from(cargo_toml_str, marker, 0);
    match found {
        Option::None => Err(ParseFailure::MarkerNotFound),
        Option::Some(i) => {
            proof {
                lemma_spec_find_in_range(cargo_toml_str@, marker@, 0);
            }
            let e = i + mlen;
            match find_char_from(cargo_toml_str, '"', e) {
                Option::None => Err(ParseFailure::TerminatorNotFound),
                Option::Some(q) => {
                    proof {
                        lemma_spec_find_char_in_range(cargo_toml_str@, '"', e as int);
                    }
                    let before = cargo_toml_str.substring_char(0, e);
                    let version = cargo_toml_str.substring_char(e, q);
                    let after = cargo_toml_str.substring_char(q, tlen);
                    Ok((before, version, after))
                },
            }
        },
    }
}

/// Split a version substring at its first two dots.  The returned triple
/// is the major, minor and patch texts.
pub fn split_parts_from_version<'a>(version_string: &'a str) -> (r: Result<
    (&'a str, &'a str, &'a str),
    ParseFailure,
>)
    ensures
        match r {
            Ok(t) => (spec_split_parts(version_string@) matches Ok(v) && t.0@ == v.0 && t.1@
                == v.1 && t.2@ == v.2),
            Err(e) => spec_split_parts(version_string@) == Err::<
                (Seq<char>, Seq<char>, Seq<char>),
                ParseFailure,
            >(e),
        },
{
    let tlen = version_string.unicode_len();
    match find_char_from(version_string, '.', 0) {
        Option::None => Err(ParseFailure::SeparatorNotFound),
        Option::Some(i) => {
            proof {
                lemma_spec_find_char_in_range(version_string@, '.', 0);
            }
            match find_char_from(version_string, '.', i + 1) {
                Option::None => Err(ParseFailure::SeparatorNotFound),
                Option::Some(j) => {
                    proof {
                        lemma_spec_find_char_in_range(version_string@, '.', i + 1);
                    }
                    let major = version_string.substring_char(0, i);
                    let minor = version_string.substring_char(i + 1, j);
                    let patch = version_string.substring_char(j + 1, tlen);
                    Ok((major, minor, patch))
                },
            }
        },
    }
}

/// Read a version substring as a three-part version number.
pub fn parse_parts(version_text: &str) -> (r: Result<Version, ParseFailure>)
    ensures
        match r {
            Ok(v) => spec_parse_parts(version_text@) == Ok::<Version, ParseFailure>(v),
            Err(e) => spec_parse_parts(version_text@) == Err::<Version, ParseFailure>(e),
        },
{
    match split_parts_from_version(version_text) {
        Err(e) => Err(e),
        Ok((major_text, minor_text, patch_text)) => {
            match parse_u32(major_text) {
                Err(e) => Err(e),
                Ok(major) => match parse_u32(minor_text) {
                    Err(e) => Err(e),
                    Ok(minor) => match parse_u32(patch_text) {
                        Err(e) => Err(e),
                        Ok(patch) => Ok(Version { major, minor, patch }),
                    },
                },
            }
        },
    }
}

/// Rebuild a document around a version: the prefix, the rendered
/// version, and the suffix, concatenated.
pub fn render(prefix: &str, version: &Version, suffix: &str) -> (r: String)
    ensures
        r@ == prefix@ + spec_version_str(*version) + suffix@,
{
    let mut out = prefix.to_owned();
    out.append(version.to_string().as_str());
    out.append(suffix);
    out
}

/// What updating a manifest document yields: the document with the
/// chosen part bumped, and the new version; or the failure that stopped
/// the parse.  A version whose bumped part cannot rise any further is
/// out of numeric range.
pub open spec fn spec_update(doc: Seq<char>, part: VersionPart) -> Result<
    (Seq<char>, Version),
    ParseFailure,
> {
    match spec_extract(doc) {
        Err(e) => Err(e),
        Ok(t) => match spec_parse_parts(t.1) {
            Err(e) => Err(e),
            Ok(v) => if can_bump(v, part) {
                Ok((t.0 + spec_version_str(spec_bump(v, part)) + t.2, spec_bump(v, part)))
            } else {
                Err(ParseFailure::NumericFormat)
            },
        },
    }
}

/// Bump the version inside a manifest document: locate it, parse it,
/// raise the chosen part, and write the document back around it.
pub fn update_manifest_version(document: &str, part: VersionPart) -> (r: Result<
    (String, Version),
    ParseFailure,
>)
    ensures
        match r {
            Ok(t) => (spec_update(document@, part) matches Ok(u) && t.0@ == u.0 && t.1 == u.1),
            Err(e) => spec_update(document@, part) == Err::<(Seq<char>, Version), ParseFailure>(
                e,
            ),
        },
{
    match split_version_from_cargo_toml(document) {
        Err(e) => Err(e),
        Ok((before, version_text, after)) => {
            match parse_parts(version_text) {
                Err(e) => Err(e),
                Ok(v) => {
                    let can = match part {
                        VersionPart::Major => v.major < u32::MAX,
                        VersionPart::Minor => v.minor < u32::MAX,
                        VersionPart::Patch => v.patch < u32::MAX,
                    };
                    if can {
                        let new_version = bump(v, part);
                        let new_document = render(before, &new_version, after);
                        Ok((new_document, new_version))
                    } else {
                        Err(ParseFailure::NumericFormat)
                    }
                },
            }
        },
    }
}

/// Every character of a rendered version is a digit or a dot.
pub proof fn lemma_version_str_chars(v: Version)
    ensures
        forall|i: int|
            0 <= i < spec_version_str(v).len() ==> is_digit(#[trigger] spec_version_str(v)[i])
                || spec_version_str(v)[i] == '.',
{
    let d1 = spec_dec(v.major as int);
    let d2 = spec_dec(v.minor as int);
    let d3 = spec_dec(v.patch as int);
    let vs = spec_version_str(v);
    lemma_spec_dec(v.major as int);
    lemma_spec_dec(v.minor as int);
    lemma_spec_dec(v.patch as int);
    let l1 = d1.len() as int;
    let l2 = d2.len() as int;
    assert forall|i: int| 0 <= i < vs.len() implies is_digit(#[trigger] vs[i]) || vs[i]
        == '.' by {
        if i < l1 {
            assert(vs[i] == d1[i]);
        } else if i == l1 {
            assert(vs[i] == '.');
        } else if i < l1 + 1 + l2 {
            assert(vs[i] == d2[i - l1 - 1]);
        } else if i == l1 + 1 + l2 {
            assert(vs[i] == '.');
        } else {
            assert(vs[i] == d3[i - l1 - 1 - l2 - 1]);
        }
    }
}

/// A rendered version reads back as itself.
pub proof fn lemma_parse_render(v: Version)
    ensures
        spec_parse_parts(spec_version_str(v)) == Ok::<Version, ParseFailure>(v),
{
    let d1 = spec_dec(v.major as int);
    let d2 = spec_dec(v.minor as int);
    let d3 = spec_dec(v.patch as int);
    let vs = spec_version_str(v);
    lemma_spec_dec(v.major as int);
    lemma_spec_dec(v.minor as int);
    lemma_spec_dec(v.patch as int);
    let l1 = d1.len() as int;
    let l2 = d2.len() as int;
    let l3 = d3.len() as int;
    assert(vs.len() == l1 + 1 + l2 + 1 + l3);
    assert(vs[l1] == '.');
    assert(vs[l1 + 1 + l2] == '.');
    assert(forall|j: int| 0 <= j < l1 ==> vs[j] == d1[j]);
    assert(forall|j: int| 0 <= j < l2 ==> vs[l1 + 1 + j] == d2[j]);
    assert(forall|j: int| 0 <= j < l3 ==> vs[l1 + 1 + l2 + 1 + j] == d3[j]);
    assert forall|j: int| 0 <= j < l1 implies vs[j] != '.' by {
        assert(is_digit(d1[j]));
    }
    lemma_spec_find_char_unique(vs, '.', 0, l1);
    assert forall|j: int| l1 + 1 <= j < l1 + 1 + l2 implies vs[j] != '.' by {
        assert(is_digit(d2[j - l1 - 1]));
    }
    lemma_spec_find_char_unique(vs, '.', l1 + 1, l1 + 1 + l2);
    assert(vs.subrange(0, l1) =~= d1);
    assert(vs.subrange(l1 + 1, l1 + 1 + l2) =~= d2);
    assert(vs.subrange(l1 + 1 + l2 + 1, vs.len() as int) =~= d3);
}

/// The round trip: rendering a version between a compatible prefix and
/// suffix and extracting it again reconstructs the same version.  The
/// prefix must end with the marker, no earlier occurrence of the marker
/// may stand in the document, and the suffix must begin with the closing
/// quote.
pub proof fn lemma_extract_render_round_trip(p: Seq<char>, v: Version, s: Seq<char>)
    requires
        p.len() >= version_marker().len(),
        p.subrange(p.len() - version_marker().len(), p.len() as int) == version_marker(),
        forall|i: int|
            0 <= i < p.len() - version_marker().len() ==> !match_at(
                p + spec_version_str(v) + s,
                version_marker(),
                i,
            ),
        s.len() > 0,
        s[0] == '"',
    ensures
        spec_extract(p + spec_version_str(v) + s) matches Ok(t) && t.0 == p && t.1
            == spec_version_str(v) && t.2 == s && spec_parse_parts(t.1) == Ok::<
            Version,
            ParseFailure,
        >(v),
{
    let vs = spec_version_str(v);
    let doc = p + vs + s;
    let mk = version_marker();
    let m0 = p.len() - mk.len();
    assert(forall|i: int| 0 <= i < p.len() ==> doc[i] == p[i]);
    assert(forall|i: int| 0 <= i < vs.len() ==> doc[p.len() + i] == vs[i]);
    assert(forall|i: int| 0 <= i < s.len() ==> doc[p.len() + vs.len() + i] == s[i]);
    assert(match_at(doc, mk, m0)) by {
        assert(doc.subrange(m0, m0 + mk.len()) =~= p.subrange(m0, p.len() as int));
    }
    lemma_spec_find_unique(doc, mk, 0, m0);
    lemma_version_str_chars(v);
    assert forall|j: int| p.len() <= j < p.len() + vs.len() implies doc[j] != '"' by {
        assert(doc[j] == vs[j - p.len()]);
        assert(is_digit(vs[j - p.len()]) || vs[j - p.len()] == '.');
    }
    assert(doc[(p.len() + vs.len()) as int] == s[0]);
    lemma_spec_find_char_unique(doc, '"', p.len() as int, (p.len() + vs.len()) as int);
    assert(doc.subrange(0, p.len() as int) =~= p);
    assert(doc.subrange(p.len() as int, (p.len() + vs.len()) as int) =~= vs);
    assert(doc.subrange((p.len() + vs.len()) as int, doc.len() as int) =~= s);
    lemma_parse_render(v);
}

/// Raise one part of a version, setting the lesser parts to zero.
pub fn bump(version: Version, part: VersionPart) -> (r: Version)
    requires
        can_bump(version, part),
    ensures
        r == spec_bump(version, part),
{
    match part {
        VersionPart::Major => Version { major: version.major + 1, minor: 0, patch: 0 },
        VersionPart::Minor => Version {
            major: version.major,
            minor: version.minor + 1,
            patch: 0,
        },
        VersionPart::Patch => Version {
            major: version.major,
            minor: version.minor,
            patch: version.patch + 1,
        },
    }
}

} // verus!
