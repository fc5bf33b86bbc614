//! Dependencies on other packages, such as `glibc>=2.42`.

use vstd::prelude::*;

use crate::errors::CpsiError;
use crate::text::{
    all_digits, all_whitespace, ascii_alphanumeric, chars_of, decimal_chars,
    is_ascii_alphanumeric, is_whitespace, lemma_decimal_chars, lemma_trim_surrounded,
    lemma_trim_unchanged, trim, trim_range,
};
use crate::version::{lemma_version_round_trip, spec_to_version, version_chars, Version};

verus! {

/// How a dependency's version constraint compares the installed version.
#[derive(Debug, Clone, Copy, PartialEq, Eq, Structural)]
pub enum ComparisonOperator {
    Eq,
    Gt,
    Gte,
    Lt,
    Lte,
}

/// A dependency on a package, with an optional version constraint.
#[derive(Debug, Clone, PartialEq, Eq)]
pub struct Dependency {
    pub name: String,
    pub version: Option<Version>,
    pub operator: Option<ComparisonOperator>,
}

/// What a dependency holds, as plain values.
pub struct DependencyModel {
    pub name: Seq<char>,
    pub version: Option<(u32, u32, u32)>,
    pub operator: Option<ComparisonOperator>,
}

impl View for Dependency {
    type V = DependencyModel;

    open spec fn view(&self) -> DependencyModel {
        DependencyModel {
            name: self.name@,
            version: match self.version {
                Some(v) => Some(v@),
                None => None,
            },
            operator: self.operator,
        }
    }
}

/// The symbol an operator is written with.
pub open spec fn operator_chars(op: ComparisonOperator) -> Seq<char> {
    match op {
        ComparisonOperator::Eq => seq!['='],
        ComparisonOperator::Gt => seq!['>'],
        ComparisonOperator::Gte => seq!['>', '='],
        ComparisonOperator::Lt => seq!['<'],
        ComparisonOperator::Lte => seq!['<', '='],
    }
}

/// The operator whose symbol is exactly `s`.
pub open spec fn spec_operator_from_symbol(s: Seq<char>) -> Option<ComparisonOperator> {
    if s == seq!['='] {
        Some(ComparisonOperator::Eq)
    } else if s == seq!['>'] {
        Some(ComparisonOperator::Gt)
    } else if s == seq!['>', '='] {
        Some(ComparisonOperator::Gte)
    } else if s == seq!['<'] {
        Some(ComparisonOperator::Lt)
    } else if s == seq!['<', '='] {
        Some(ComparisonOperator::Lte)
    } else {
        None
    }
}

/// A character allowed in a package name: an ASCII letter or digit, or one of `-_.+`.
pub open spec fn is_name_char(c: char) -> bool {
    is_ascii_alphanumeric(c) || c == '-' || c == '_' || c == '.' || c == '+'
}

/// A package name: not empty, made of name characters, with at least one
/// ASCII letter or digit.
pub open spec fn spec_valid_package_name(s: Seq<char>) -> bool {
    &&& s.len() > 0
    &&& exists|i: int| 0 <= i < s.len() && is_ascii_alphanumeric(#[trigger] s[i])
    &&& forall|i: int| 0 <= i < s.len() ==> is_name_char(#[trigger] s[i])
}

/// A character that starts a version constraint.
pub open spec fn is_operator_char(c: char) -> bool {
    c == '=' || c == '>' || c == '<'
}

/// The position of the first constraint character in `s`, or its length if there is none.
pub open spec fn operator_position(s: Seq<char>) -> int
    decreases s.len(),
{
    if s.len() == 0 {
        0
    } else if is_operator_char(s[0]) {
        0
    } else {
        1 + operator_position(s.drop_first())
    }
}

/// The operator at the start of `rest`, which starts with a constraint
/// character, and the text after it; a two-character operator is preferred.
pub open spec fn split_operator(rest: Seq<char>) -> (ComparisonOperator, Seq<char>) {
    if rest.len() >= 2 && rest[0] == '>' && rest[1] == '=' {
        (ComparisonOperator::Gte, rest.subrange(2, rest.len() as int))
    } else if rest.len() >= 2 && rest[0] == '<' && rest[1] == '=' {
        (ComparisonOperator::Lte, rest.subrange(2, rest.len() as int))
    } else if rest[0] == '=' {
        (ComparisonOperator::Eq, rest.drop_first())
    } else if rest[0] == '>' {
        (ComparisonOperator::Gt, rest.drop_first())
    } else {
        (ComparisonOperator::Lt, rest.drop_first())
    }
}

/// The dependency that the text `input` describes: white space around it is
/// ignored; either a bare package name, or a name, an operator and a version,
/// with white space allowed around the name and the version.
pub open spec fn spec_parse_dependency(input: Seq<char>) -> Option<DependencyModel> {
    let t = trim(input);
    let k = operator_position(t);
    if t.len() == 0 {
        None
    } else if k == t.len() {
        if spec_valid_package_name(t) {
            Some(DependencyModel { name: t, version: None, operator: None })
        } else {
            None
        }
    } else {
        let name = trim(t.subrange(0, k));
        let (op, text) = split_operator(t.subrange(k, t.len() as int));
        if !spec_valid_package_name(name) || trim(text).len() == 0 {
            None
        } else {
            match spec_to_version(trim(text)) {
                Ok(v) => Some(DependencyModel { name, version: Some(v), operator: Some(op) }),
                Err(_) => None,
            }
        }
    }
}

/// How a dependency is written: the name, then, where it has a version, the
/// operator (`>=` where it has none) and the version.
pub open spec fn dependency_chars(d: DependencyModel) -> Seq<char> {
    match (d.version, d.operator) {
        (Some(v), Some(op)) => d.name + operator_chars(op) + version_chars(v),
        (Some(v), None) => d.name + seq!['>', '='] + version_chars(v),
        _ => d.name,
    }
}

/// The message that refuses an unknown operator symbol `s`.
pub open spec fn unsupported_operator_message(s: Seq<char>) -> Seq<char> {
    seq![
        'u', 'n', 's', 'u', 'p', 'p', 'o', 'r', 't', 'e', 'd', ' ', 'c', 'o', 'm', 'p', 'a', 'r',
        'i', 's', 'o', 'n', ' ', 'o', 'p', 'e', 'r', 'a', 't', 'o', 'r', ':', ' ',
    ] + s
}

impl ComparisonOperator {
    /// The symbol of the operator.
    pub fn as_str(&self) -> (s: &'static str)
        ensures
            s@ == operator_chars(*self),
    {
        match self {
            ComparisonOperator::Eq => {
                proof {
                    reveal_strlit("=");
                }
                "="
            },
            ComparisonOperator::Gt => {
                proof {
                    reveal_strlit(">");
                }
                ">"
            },
            ComparisonOperator::Gte => {
                proof {
                    reveal_strlit(">=");
                }
                ">="
            },
            ComparisonOperator::Lt => {
                proof {
                    reveal_strlit("<");
                }
                "<"
            },
            ComparisonOperator::Lte => {
                proof {
                    reveal_strlit("<=");
                }
                "<="
            },
        }
    }

    /// The symbol of the operator, as an owned string.
    pub fn to_string(&self) -> (s: String)
        ensures
            s@ == operator_chars(*self),
    {
        self.as_str().to_owned()
    }

    /// Reads an operator symbol: exactly one of `=`, `>`, `>=`, `<`, `<=`;
    /// anything else is refused with a message that names it.
    pub fn parse_symbol(value: &str) -> (r: Result<ComparisonOperator, String>)
        ensures
            match r {
                Ok(op) => spec_operator_from_symbol(value@) == Some(op),
                Err(m) => spec_operator_from_symbol(value@) is None
                    && m@ == unsupported_operator_message(value@),
            },
    {
        let cs = chars_of(value);
        let n = cs.len();
        if n == 1 && cs[0] == '=' {
            assert(value@ =~= seq!['=']);
            Ok(ComparisonOperator::Eq)
        } else if n == 1 && cs[0] == '>' {
            assert(value@ =~= seq!['>']);
            Ok(ComparisonOperator::Gt)
        } else if n == 2 && cs[0] == '>' && cs[1] == '=' {
            assert(value@ =~= seq!['>', '=']);
            Ok(ComparisonOperator::Gte)
        } else if n == 1 && cs[0] == '<' {
            assert(value@ =~= seq!['<']);
            Ok(ComparisonOperator::Lt)
        } else if n == 2 && cs[0] == '<' && cs[1] == '=' {
            assert(value@ =~= seq!['<', '=']);
            Ok(ComparisonOperator::Lte)
        } else {
            assert(spec_operator_from_symbol(value@) is None) by {
                if value@ == seq!['='] || value@ == seq!['>'] || value@ == seq!['<'] {
                    assert(value@[0] == cs@[0]);
                }
                if value@ == seq!['>', '='] || value@ == seq!['<', '='] {
                    assert(value@[0] == cs@[0]);
                    assert(value@[1] == cs@[1]);
                }
            }
            let mut m = String::new();
            proof {
                reveal_strlit("unsupported comparison operator: ");
            }
            m.append("unsupported comparison operator: ");
            m.append(value);
            Err(m)
        }
    }
}

impl Dependency {
    /// The dependency as it is written.
    pub fn to_string(&self) -> (s: String)
        ensures
            s@ == dependency_chars(self@),
    {
        let mut s = self.name.clone();
        match (&self.version, self.operator) {
            (Some(v), Some(op)) => {
                s.append(op.as_str());
                s.append(v.to_string().as_str());
            },
            (Some(v), None) => {
                proof {
                    reveal_strlit(">=");
                }
                s.append(">=");
                s.append(v.to_string().as_str());
            },
            _ => {},
        }
        s
    }
}

/// The dependency that reading back a written one gives: an operator without
/// a version is not written, and a version without an operator is written
/// with `>=`.
pub open spec fn normalized(d: DependencyModel) -> DependencyModel {
    match d.version {
        Some(v) => DependencyModel {
            name: d.name,
            version: Some(v),
            operator: Some(
                match d.operator {
                    Some(op) => op,
                    None => ComparisonOperator::Gte,
                },
            ),
        },
        None => DependencyModel { name: d.name, version: None, operator: None },
    }
}

/// Text without constraint characters shifts the first one by its length.
proof fn lemma_operator_position_append(x: Seq<char>, y: Seq<char>)
    requires
        forall|i: int| 0 <= i < x.len() ==> !is_operator_char(#[trigger] x[i]),
    ensures
        operator_position(x + y) == x.len() + operator_position(y),
    decreases x.len(),
{
    if x.len() == 0 {
        assert(x + y =~= y);
    } else {
        assert((x + y)[0] == x[0]);
        assert((x + y).drop_first() =~= x.drop_first() + y);
        lemma_operator_position_append(x.drop_first(), y);
    }
}

/// A written version starts and ends with a digit.
proof fn lemma_version_chars_ends(v: (u32, u32, u32))
    ensures
        version_chars(v).len() > 0,
        crate::text::is_digit(version_chars(v)[0]),
        crate::text::is_digit(version_chars(v).last()),
{
    lemma_decimal_chars(v.0 as nat);
    lemma_decimal_chars(v.2 as nat);
    let a = decimal_chars(v.0 as nat);
    let c = decimal_chars(v.2 as nat);
    assert(all_digits(a));
    assert(all_digits(c));
    assert(version_chars(v)[0] == a[0]);
    assert(version_chars(v).last() == c.last());
}

/// Reading back a written dependency whose name is valid gives the dependency,
/// with its constraint written out in full.
pub proof fn lemma_dependency_round_trip(d: DependencyModel)
    requires
        spec_valid_package_name(d.name),
    ensures
        spec_parse_dependency(dependency_chars(d)) == Some(normalized(d)),
{
    let name = d.name;
    assert(!is_whitespace(name[0]) && !is_whitespace(name.last())) by {
        assert(is_name_char(name[0]));
        assert(is_name_char(name[name.len() - 1]));
    }
    assert forall|i: int| 0 <= i < name.len() implies !is_operator_char(#[trigger] name[i]) by {
        assert(is_name_char(name[i]));
    }
    lemma_trim_unchanged(name);
    match d.version {
        None => {
            lemma_operator_position_append(name, Seq::<char>::empty());
            assert(name + Seq::<char>::empty() =~= name);
            assert(dependency_chars(d) == name);
        },
        Some(v) => {
            let op = normalized(d).operator.unwrap();
            let oc = operator_chars(op);
            let vc = version_chars(v);
            let s = name + oc + vc;
            assert(dependency_chars(d) == s);
            lemma_version_chars_ends(v);
            lemma_version_round_trip(v);
            lemma_trim_unchanged(vc);
            assert(s[0] == name[0]);
            assert(s.last() == vc.last());
            lemma_trim_unchanged(s);
            assert(s =~= name + (oc + vc));
            lemma_operator_position_append(name, oc + vc);
            assert(is_operator_char((oc + vc)[0]));
            assert(operator_position(s) == name.len());
            assert(s.subrange(0, name.len() as int) =~= name);
            let rest = s.subrange(name.len() as int, s.len() as int);
            assert(rest =~= oc + vc);
            assert(vc[0] != '=');
            assert(split_operator(rest).0 == op);
            assert(split_operator(rest).1 =~= vc);
        },
    }
}

/// White space before and after a dependency does not change how it is read.
pub proof fn lemma_dependency_ignores_surrounding_whitespace(
    p: Seq<char>,
    s: Seq<char>,
    q: Seq<char>,
)
    requires
        all_whitespace(p),
        all_whitespace(q),
    ensures
        spec_parse_dependency(p + s + q) == spec_parse_dependency(s),
{
    lemma_trim_surrounded(p, s, q);
}

/// A package name is valid exactly when it is not empty, each of its
/// characters is an ASCII letter of either case, an ASCII digit, `-`, `_`, `.`
/// or `+`, and at least one of them is a letter or a digit.
pub proof fn lemma_package_name_characters(s: Seq<char>)
    ensures
        spec_valid_package_name(s) <==> {
            &&& s.len() > 0
            &&& forall|i: int|
                0 <= i < s.len() ==> ('a' <= #[trigger] s[i] <= 'z' || 'A' <= s[i] <= 'Z' || '0'
                    <= s[i] <= '9' || s[i] == '-' || s[i] == '_' || s[i] == '.' || s[i] == '+')
            &&& exists|i: int|
                0 <= i < s.len() && ('a' <= #[trigger] s[i] <= 'z' || 'A' <= s[i] <= 'Z' || '0'
                    <= s[i] <= '9')
        },
{
}

/// A valid package name followed by `>=` and a written version reads as a
/// dependency on that name, at least that version.
pub proof fn lemma_name_at_least_version(n: Seq<char>, v: (u32, u32, u32))
    requires
        n.len() > 0,
        forall|i: int|
            0 <= i < n.len() ==> ('a' <= #[trigger] n[i] <= 'z' || 'A' <= n[i] <= 'Z' || '0'
                <= n[i] <= '9' || n[i] == '-' || n[i] == '_' || n[i] == '.' || n[i] == '+'),
        exists|i: int|
            0 <= i < n.len() && ('a' <= #[trigger] n[i] <= 'z' || 'A' <= n[i] <= 'Z' || '0'
                <= n[i] <= '9'),
    ensures
        spec_parse_dependency(n + seq!['>', '='] + version_chars(v)) == Some(
            DependencyModel {
                name: n,
                version: Some(v),
                operator: Some(ComparisonOperator::Gte),
            },
        ),
{
    lemma_package_name_characters(n);
    let d = DependencyModel { name: n, version: Some(v), operator: Some(ComparisonOperator::Gte) };
    lemma_dependency_round_trip(d);
    assert(dependency_chars(d) == n + seq!['>', '='] + version_chars(v));
}

/// A text reads as an operator exactly when it is that operator's written
/// symbol: no other text is taken for an operator.
pub proof fn lemma_operator_symbol_exact(s: Seq<char>, op: ComparisonOperator)
    ensures
        spec_operator_from_symbol(s) == Some(op) <==> s == operator_chars(op),
{
    lemma_operator_symbol_round_trip(op);
    if spec_operator_from_symbol(s) == Some(op) {
        assert(s =~= operator_chars(op));
    }
}

/// Every operator symbol is read back as its operator.
pub proof fn lemma_operator_symbol_round_trip(op: ComparisonOperator)
    ensures
        spec_operator_from_symbol(operator_chars(op)) == Some(op),
{
    let s = operator_chars(op);
    assert(seq!['='][0] == '=' && seq!['>'][0] == '>' && seq!['<'][0] == '<');
    assert(seq!['>', '='].len() == 2 && seq!['<', '='].len() == 2 && seq!['>', '='][0] == '>');
    assert(s == seq!['='] ==> op == ComparisonOperator::Eq);
    assert(s == seq!['>'] ==> op == ComparisonOperator::Gt);
    assert(s == seq!['>', '='] ==> op == ComparisonOperator::Gte);
    assert(s == seq!['<'] ==> op == ComparisonOperator::Lt);
}

/// Whether `s[lo..hi]` is a package name.
fn valid_name_range(s: &Vec<char>, lo: usize, hi: usize) -> (b: bool)
    requires
        lo <= hi <= s@.len(),
    ensures
        b == spec_valid_package_name(s@.subrange(lo as int, hi as int)),
{
    let ghost t = s@.subrange(lo as int, hi as int);
    if lo == hi {
        return false;
    }
    let mut seen = false;
    let mut i = lo;
    while i < hi
        invariant
            lo <= i <= hi <= s@.len(),
            t == s@.subrange(lo as int, hi as int),
            forall|j: int| 0 <= j < i - lo ==> is_name_char(#[trigger] t[j]),
            seen <==> exists|j: int| 0 <= j < i - lo && is_ascii_alphanumeric(#[trigger] t[j]),
        decreases hi - i,
    {
        let c = s[i];
        assert(t[i - lo] == c);
        let alnum = ascii_alphanumeric(c);
        if !(alnum || c == '-' || c == '_' || c == '.' || c == '+') {
            return false;
        }
        if alnum {
            seen = true;
        }
        i = i + 1;
    }
    seen
}

/// Whether `name` is a valid package name.
pub fn valid_package_name(name: &str) -> (b: bool)
    ensures
        b == spec_valid_package_name(name@),
{
    let cs = chars_of(name);
    assert(cs@.subrange(0, cs@.len() as int) =~= cs@);
    valid_name_range(&cs, 0, cs.len())
}

/// The position of the first constraint character in `s[lo..hi]`, counted from 0.
fn operator_range_position(s: &Vec<char>, lo: usize, hi: usize) -> (k: usize)
    requires
        lo <= hi <= s@.len(),
    ensures
        lo <= k <= hi,
        k - lo == operator_position(s@.subrange(lo as int, hi as int)),
{
    let mut i = lo;
    while i < hi && !(s[i] == '=' || s[i] == '>' || s[i] == '<')
        invariant
            lo <= i <= hi <= s@.len(),
            operator_position(s@.subrange(lo as int, hi as int)) == (i - lo)
                + operator_position(s@.subrange(i as int, hi as int)),
        decreases hi - i,
    {
        assert(s@.subrange(i as int, hi as int).drop_first() =~= s@.subrange(i + 1, hi as int));
        i = i + 1;
    }
    i
}

impl core::str::FromStr for Dependency {
    type Err = CpsiError;

    /// Reads a dependency; a malformed one is refused with the trimmed text.
    fn from_str(input: &str) -> (r: Result<Dependency, CpsiError>)
        ensures
            match r {
                Ok(d) => spec_parse_dependency(input@) == Some(d@),
                Err(e) => spec_parse_dependency(input@) is None && (e matches CpsiError::InvalidDependency(m) && m@ == trim(input@)),
            },
    {
        let cs = chars_of(input);
        let (a, b) = trim_range(&cs, 0, cs.len());
        assert(cs@.subrange(0, cs@.len() as int) =~= cs@);
        let t = input.substring_char(a, b);
        let ghost tv = t@;
        assert(tv == trim(input@));
        if a == b {
            return Err(CpsiError::InvalidDependency(t.to_owned()));
        }
        let k = operator_range_position(&cs, a, b);
        if k == b {
            if valid_package_name(t) {
                return Ok(Dependency { name: t.to_owned(), version: None, operator: None });
            }
            return Err(CpsiError::InvalidDependency(t.to_owned()));
        }
        let (na, nb) = trim_range(&cs, a, k);
        assert(cs@.subrange(a as int, k as int) =~= tv.subrange(0, k - a));
        let name = input.substring_char(na, nb);
        let (op, vstart) = if k + 1 < b && cs[k] == '>' && cs[k + 1] == '=' {
            (ComparisonOperator::Gte, k + 2)
        } else if k + 1 < b && cs[k] == '<' && cs[k + 1] == '=' {
            (ComparisonOperator::Lte, k + 2)
        } else if cs[k] == '=' {
            (ComparisonOperator::Eq, k + 1)
        } else if cs[k] == '>' {
            (ComparisonOperator::Gt, k + 1)
        } else {
            (ComparisonOperator::Lt, k + 1)
        };
        let ghost rest = tv.subrange(k - a, tv.len() as int);
        assert(rest =~= cs@.subrange(k as int, b as int));
        assert(split_operator(rest).0 == op);
        assert(split_operator(rest).1 =~= cs@.subrange(vstart as int, b as int));
        let (va, vb) = trim_range(&cs, vstart, b);
        if !valid_package_name(name) || va == vb {
            return Err(CpsiError::InvalidDependency(t.to_owned()));
        }
        let text = input.substring_char(va, vb);
        match Version::to_version(text) {
            Ok(v) => Ok(Dependency { name: name.to_owned(), version: Some(v), operator: Some(op) }),
            Err(_) => Err(CpsiError::InvalidDependency(t.to_owned())),
        }
    }
}

} // verus!
