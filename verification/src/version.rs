//! Package versions written `major.minor[.patch]`.

use vstd::prelude::*;

use crate::text::{
    all_digits, chars_of, decimal_chars, free_of, lemma_decimal_chars, lemma_parse_decimal_chars,
    lemma_split_on_append_plain, lemma_split_on_append_sep, parse_u32_range, push_char,
    push_decimal, spec_parse_u32, split_on, split_ranges,
};

verus! {

/// A package version: three numbers, compared in the order major, minor, patch.
#[derive(Debug, Clone, PartialEq, Eq, Ord, Hash, Structural)]
pub struct Version {
    pub(crate) major: u32,
    pub(crate) minor: u32,
    pub(crate) patch: u32,
}

/// Why a text is not a version.
#[derive(Debug, Clone, Copy, PartialEq, Eq, Structural)]
pub enum VersionParseError {
    /// The text does not have two or three dot-separated parts.
    InvalidFormat,
    /// A part is not a decimal number that fits in a `u32`.
    InvalidNumber,
}

impl VersionParseError {
    /// The message that explains the error.
    pub fn to_string(&self) -> (s: String)
        ensures
            s@ == match self {
                VersionParseError::InvalidFormat => "version must use x.y or x.y.z format"@,
                VersionParseError::InvalidNumber => "version contains a non-numeric component"@,
            },
    {
        match self {
            VersionParseError::InvalidFormat => "version must use x.y or x.y.z format".to_owned(),
            VersionParseError::InvalidNumber => "version contains a non-numeric component".to_owned(),
        }
    }
}

impl View for Version {
    type V = (u32, u32, u32);

    closed spec fn view(&self) -> (u32, u32, u32) {
        (self.major, self.minor, self.patch)
    }
}

/// What `parse_or_error` gives for the characters `s`.
pub open spec fn spec_parse_or_error(s: Seq<char>) -> Result<u32, VersionParseError> {
    match spec_parse_u32(s) {
        Some(n) => Ok(n),
        None => Err(VersionParseError::InvalidNumber),
    }
}

/// The version written by the characters `s`: two or three parts separated
/// by `.`, each a `u32` numeral; a missing patch number is 0.
pub open spec fn spec_to_version(s: Seq<char>) -> Result<(u32, u32, u32), VersionParseError> {
    let parts = split_on(s, '.');
    if parts.len() < 2 || parts.len() > 3 {
        Err(VersionParseError::InvalidFormat)
    } else {
        match (
            spec_parse_u32(parts[0]),
            spec_parse_u32(parts[1]),
            if parts.len() == 3 {
                spec_parse_u32(parts[2])
            } else {
                Some(0u32)
            },
        ) {
            (Some(a), Some(b), Some(c)) => Ok((a, b, c)),
            _ => Err(VersionParseError::InvalidNumber),
        }
    }
}

/// How a version is written: all three numbers in decimal, joined by `.`.
pub open spec fn version_chars(v: (u32, u32, u32)) -> Seq<char> {
    decimal_chars(v.0 as nat) + seq!['.'] + decimal_chars(v.1 as nat) + seq!['.']
        + decimal_chars(v.2 as nat)
}

/// A numeral holds no `.`.
proof fn lemma_numeral_has_no_dot(n: nat)
    ensures
        free_of(decimal_chars(n), '.'),
{
    lemma_decimal_chars(n);
    assert forall|i: int| 0 <= i < decimal_chars(n).len() implies decimal_chars(n)[i] != '.' by {
        assert(all_digits(decimal_chars(n)));
    }
}

/// Splitting `p + x` at dots, where `x` has no dot and `p` ends in a dot or is empty.
proof fn lemma_split_then_numeral(p: Seq<char>, n: nat)
    ensures
        split_on(p + decimal_chars(n), '.') == split_on(p, '.').update(
            split_on(p, '.').len() - 1,
            split_on(p, '.').last() + decimal_chars(n),
        ),
{
    lemma_numeral_has_no_dot(n);
    lemma_split_on_append_plain(p, decimal_chars(n), '.');
}

/// Reading back a written version gives the same version.
pub proof fn lemma_version_round_trip(v: (u32, u32, u32))
    ensures
        spec_to_version(version_chars(v)) == Ok::<(u32, u32, u32), VersionParseError>(v),
{
    let a = decimal_chars(v.0 as nat);
    let b = decimal_chars(v.1 as nat);
    let c = decimal_chars(v.2 as nat);
    let e = Seq::<char>::empty();
    assert(split_on(e, '.') =~= seq![e]);
    lemma_split_then_numeral(e, v.0 as nat);
    assert(e + a =~= a);
    assert(split_on(a, '.') =~= seq![a]);
    lemma_split_on_append_sep(a, '.');
    let p1 = a.push('.');
    assert(split_on(p1, '.') =~= seq![a, e]);
    lemma_split_then_numeral(p1, v.1 as nat);
    let p2 = p1 + b;
    assert(split_on(p2, '.') =~= seq![a, b]);
    lemma_split_on_append_sep(p2, '.');
    let p3 = p2.push('.');
    assert(split_on(p3, '.') =~= seq![a, b, e]);
    lemma_split_then_numeral(p3, v.2 as nat);
    assert(p3 + c =~= version_chars(v));
    assert(split_on(version_chars(v), '.') =~= seq![a, b, c]);
    lemma_parse_decimal_chars(v.0);
    lemma_parse_decimal_chars(v.1);
    lemma_parse_decimal_chars(v.2);
}

/// A version written with two parts means the same as the one written with
/// the same two parts and a patch number of `0`.
pub proof fn lemma_missing_patch_is_zero(s: Seq<char>)
    requires
        split_on(s, '.').len() == 2,
    ensures
        spec_to_version(s + seq!['.', '0']) == spec_to_version(s),
{
    lemma_split_on_append_sep(s, '.');
    let z = seq!['0'];
    assert(free_of(z, '.'));
    lemma_split_on_append_plain(s.push('.'), z, '.');
    assert(s.push('.') + z =~= s + seq!['.', '0']);
    let parts = split_on(s, '.');
    assert(split_on(s + seq!['.', '0'], '.') =~= seq![parts[0], parts[1], z]);
    assert(z.drop_last() =~= Seq::<char>::empty());
    assert(crate::text::decimal_value(Seq::<char>::empty()) == 0);
    assert(z.last() == '0');
    assert(crate::text::decimal_value(z) == 0);
    assert(all_digits(z));
    assert(z[0] != '+');
    assert(spec_parse_u32(z) == Some(0u32));
}

/// Parses `input` as an unsigned 32-bit decimal number, as `str::parse::<u32>`
/// does; any failure is `InvalidNumber`.
pub fn parse_or_error(input: &str) -> (r: Result<u32, VersionParseError>)
    ensures
        r == spec_parse_or_error(input@),
{
    let cs = chars_of(input);
    assert(cs@.subrange(0, cs@.len() as int) =~= cs@);
    match parse_u32_range(&cs, 0, cs.len()) {
        Some(n) => Ok(n),
        None => Err(VersionParseError::InvalidNumber),
    }
}

impl Version {
    /// The view holds the three fields.
    pub(crate) proof fn lemma_view_fields(&self)
        ensures
            self@ == (self.major, self.minor, self.patch),
    {
    }

    /// The version `0.0.0`.
    pub fn new() -> (v: Version)
        ensures
            v@ == (0u32, 0u32, 0u32),
    {
        Version { major: 0, minor: 0, patch: 0 }
    }

    /// The version with the given numbers.
    pub fn from_components(major: u32, minor: u32, patch: u32) -> (v: Version)
        ensures
            v@ == (major, minor, patch),
    {
        Version { major, minor, patch }
    }

    /// Whether `input` is a version that `to_version` accepts.
    pub fn is_version(input: &str) -> (b: bool)
        ensures
            b == spec_to_version(input@) is Ok,
    {
        Self::to_version(input).is_ok()
    }

    /// Parses `major.minor` or `major.minor.patch`.
    pub fn to_version(input: &str) -> (r: Result<Version, VersionParseError>)
        ensures
            match r {
                Ok(v) => spec_to_version(input@) == Ok::<(u32, u32, u32), VersionParseError>(v@),
                Err(e) => spec_to_version(input@) == Err::<(u32, u32, u32), VersionParseError>(e),
            },
    {
        let cs = chars_of(input);
        let parts = split_ranges(&cs, '.');
        let ghost pieces = split_on(cs@, '.');
        if parts.len() < 2 || parts.len() > 3 {
            return Err(VersionParseError::InvalidFormat);
        }
        let major = match parse_u32_range(&cs, parts[0].0, parts[0].1) {
            Some(n) => n,
            None => return Err(VersionParseError::InvalidNumber),
        };
        let minor = match parse_u32_range(&cs, parts[1].0, parts[1].1) {
            Some(n) => n,
            None => return Err(VersionParseError::InvalidNumber),
        };
        let patch = if parts.len() == 3 {
            match parse_u32_range(&cs, parts[2].0, parts[2].1) {
                Some(n) => n,
                None => return Err(VersionParseError::InvalidNumber),
            }
        } else {
            0
        };
        Ok(Version { major, minor, patch })
    }

    /// The version written `major.minor.patch`.
    pub fn to_string(&self) -> (s: String)
        ensures
            s@ == version_chars(self@),
    {
        let mut s = String::new();
        push_decimal(&mut s, self.major);
        push_char(&mut s, '.');
        push_decimal(&mut s, self.minor);
        push_char(&mut s, '.');
        push_decimal(&mut s, self.patch);
        s
    }

    /// The three numbers, major first.
    pub fn components(&self) -> (c: Vec<u32>)
        ensures
            c@ == seq![self@.0, self@.1, self@.2],
    {
        let mut c = Vec::new();
        c.push(self.major);
        c.push(self.minor);
        c.push(self.patch);
        c
    }
}

impl core::str::FromStr for Version {
    type Err = VersionParseError;

    fn from_str(s: &str) -> (r: Result<Version, VersionParseError>)
        ensures
            match r {
                Ok(v) => spec_to_version(s@) == Ok::<(u32, u32, u32), VersionParseError>(v@),
                Err(e) => spec_to_version(s@) == Err::<(u32, u32, u32), VersionParseError>(e),
            },
    {
        Self::to_version(s)
    }
}

impl IntoIterator for Version {
    type Item = u32;

    type IntoIter = std::vec::IntoIter<u32>;

    fn into_iter(self) -> (it: std::vec::IntoIter<u32>)
        ensures
            vstd::std_specs::iter::IteratorSpec::remaining(&it) == seq![self@.0, self@.1, self@.2],
    {
        broadcast use vstd::std_specs::vec::axiom_spec_into_iter;

        self.components().into_iter()
    }
}

} // verus!
