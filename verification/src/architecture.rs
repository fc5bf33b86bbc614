//! The processor architectures that packages are built for.

use vstd::prelude::*;

use crate::errors::CpsiError;
use crate::text::{ascii_lower, ascii_lowercase, chars_of, to_ascii_lower};

verus! {

/// A processor architecture.
#[derive(Debug, Clone, Copy, PartialEq, Eq, Hash, PartialOrd, Ord, Structural)]
pub enum Architecture {
    X86_64,
    Aarch64,
    Riscv64,
}

/// `x86_64`
pub open spec fn x86_64_chars() -> Seq<char> {
    seq!['x', '8', '6', '_', '6', '4']
}

/// `amd64`
pub open spec fn amd64_chars() -> Seq<char> {
    seq!['a', 'm', 'd', '6', '4']
}

/// `aarch64`
pub open spec fn aarch64_chars() -> Seq<char> {
    seq!['a', 'a', 'r', 'c', 'h', '6', '4']
}

/// `arm64`
pub open spec fn arm64_chars() -> Seq<char> {
    seq!['a', 'r', 'm', '6', '4']
}

/// `riscv64`
pub open spec fn riscv64_chars() -> Seq<char> {
    seq!['r', 'i', 's', 'c', 'v', '6', '4']
}

/// The name an architecture is written with.
pub open spec fn architecture_name(a: Architecture) -> Seq<char> {
    match a {
        Architecture::X86_64 => x86_64_chars(),
        Architecture::Aarch64 => aarch64_chars(),
        Architecture::Riscv64 => riscv64_chars(),
    }
}

/// The architecture that the name `s` stands for, whatever the case of its
/// ASCII letters: its own name, or `amd64` for x86_64 and `arm64` for aarch64.
pub open spec fn spec_parse_architecture(s: Seq<char>) -> Option<Architecture> {
    let l = ascii_lowercase(s);
    if l == x86_64_chars() || l == amd64_chars() {
        Some(Architecture::X86_64)
    } else if l == aarch64_chars() || l == arm64_chars() {
        Some(Architecture::Aarch64)
    } else if l == riscv64_chars() {
        Some(Architecture::Riscv64)
    } else {
        None
    }
}

/// Making small letters twice is the same as making them once.
proof fn lemma_ascii_lowercase_idempotent(s: Seq<char>)
    ensures
        ascii_lowercase(ascii_lowercase(s)) == ascii_lowercase(s),
{
    assert forall|i: int| 0 <= i < s.len() implies ascii_lower(ascii_lower(s[i])) == ascii_lower(
        s[i],
    ) by {
        let c = s[i];
        if 'A' <= c <= 'Z' {
            assert((((c as u32) + 32) as char) as u32 == (c as u32) + 32);
        }
    }
    assert(ascii_lowercase(ascii_lowercase(s)) =~= ascii_lowercase(s));
}

/// The name of an architecture is read back as that architecture.
pub proof fn lemma_architecture_round_trip(a: Architecture)
    ensures
        spec_parse_architecture(architecture_name(a)) == Some(a),
{
    let n = architecture_name(a);
    assert(ascii_lowercase(n) =~= n);
}

/// An architecture name is read as x86_64 exactly when, with its ASCII
/// capitals made small, it is `x86_64` or `amd64`; as aarch64 exactly when it
/// is `aarch64` or `arm64`; as riscv64 exactly when it is `riscv64`; every
/// other text is refused.
pub proof fn lemma_architecture_names(s: Seq<char>)
    ensures
        spec_parse_architecture(s) == Some(Architecture::X86_64) <==> (ascii_lowercase(s) == seq![
            'x',
            '8',
            '6',
            '_',
            '6',
            '4',
        ] || ascii_lowercase(s) == seq!['a', 'm', 'd', '6', '4']),
        spec_parse_architecture(s) == Some(Architecture::Aarch64) <==> (ascii_lowercase(s)
            == seq!['a', 'a', 'r', 'c', 'h', '6', '4'] || ascii_lowercase(s) == seq![
            'a',
            'r',
            'm',
            '6',
            '4',
        ]),
        spec_parse_architecture(s) == Some(Architecture::Riscv64) <==> ascii_lowercase(s)
            == seq!['r', 'i', 's', 'c', 'v', '6', '4'],
        spec_parse_architecture(s) is None <==> !(ascii_lowercase(s) == seq![
            'x',
            '8',
            '6',
            '_',
            '6',
            '4',
        ] || ascii_lowercase(s) == seq!['a', 'm', 'd', '6', '4'] || ascii_lowercase(s) == seq![
            'a',
            'a',
            'r',
            'c',
            'h',
            '6',
            '4',
        ] || ascii_lowercase(s) == seq!['a', 'r', 'm', '6', '4'] || ascii_lowercase(s) == seq![
            'r',
            'i',
            's',
            'c',
            'v',
            '6',
            '4',
        ]),
{
    let l = ascii_lowercase(s);
    let x = seq!['x', '8', '6', '_', '6', '4'];
    let m = seq!['a', 'm', 'd', '6', '4'];
    let a = seq!['a', 'a', 'r', 'c', 'h', '6', '4'];
    let r = seq!['a', 'r', 'm', '6', '4'];
    let v = seq!['r', 'i', 's', 'c', 'v', '6', '4'];
    assert(x =~= x86_64_chars() && m =~= amd64_chars() && a =~= aarch64_chars() && r
        =~= arm64_chars() && v =~= riscv64_chars());
    assert(x.len() == 6 && m.len() == 5 && a.len() == 7 && r.len() == 5 && v.len() == 7);
    assert(m[1] != r[1] && a[0] != v[0]);
    assert(l == m ==> l != r);
    assert(l == a ==> l != v);
}

/// Reading an architecture name does not depend on the case of its ASCII letters.
pub proof fn lemma_architecture_case_insensitive(s: Seq<char>)
    ensures
        spec_parse_architecture(ascii_lowercase(s)) == spec_parse_architecture(s),
{
    lemma_ascii_lowercase_idempotent(s);
}

/// Whether `s`, with its ASCII capitals made small, is `word`.
fn lowercase_equals(s: &Vec<char>, word: &[char]) -> (b: bool)
    ensures
        b == (ascii_lowercase(s@) == word@),
{
    if s.len() != word.len() {
        return false;
    }
    let mut i: usize = 0;
    while i < s.len()
        invariant
            s@.len() == word@.len(),
            i <= s@.len(),
            forall|j: int| 0 <= j < i ==> ascii_lower(#[trigger] s@[j]) == word@[j],
        decreases s@.len() - i,
    {
        if to_ascii_lower(s[i]) != word[i] {
            assert(ascii_lowercase(s@)[i as int] != word@[i as int]);
            return false;
        }
        i = i + 1;
    }
    assert(ascii_lowercase(s@) =~= word@);
    true
}

impl Architecture {
    /// The name of the architecture.
    pub fn to_string(&self) -> (s: String)
        ensures
            s@ == architecture_name(*self),
    {
        let mut s = String::new();
        let name: &[char] = match self {
            Architecture::X86_64 => &['x', '8', '6', '_', '6', '4'],
            Architecture::Aarch64 => &['a', 'a', 'r', 'c', 'h', '6', '4'],
            Architecture::Riscv64 => &['r', 'i', 's', 'c', 'v', '6', '4'],
        };
        assert(name@ == architecture_name(*self));
        let mut i: usize = 0;
        while i < name.len()
            invariant
                i <= name@.len(),
                s@ == name@.take(i as int),
            decreases name@.len() - i,
        {
            crate::text::push_char(&mut s, name[i]);
            assert(name@.take(i + 1) =~= name@.take(i as int).push(name@[i as int]));
            i = i + 1;
        }
        assert(name@.take(i as int) =~= name@);
        s
    }
}

impl core::str::FromStr for Architecture {
    type Err = CpsiError;

    /// Reads an architecture name; an unknown name is refused with the text as given.
    fn from_str(value: &str) -> (r: Result<Architecture, CpsiError>)
        ensures
            match r {
                Ok(a) => spec_parse_architecture(value@) == Some(a),
                Err(e) => spec_parse_architecture(value@) is None && (e matches CpsiError::UnsupportedArchitecture(m) && m@ == value@),
            },
    {
        let cs = chars_of(value);
        if lowercase_equals(&cs, &['x', '8', '6', '_', '6', '4']) || lowercase_equals(&cs, &['a', 'm', 'd', '6', '4']) {
            Ok(Architecture::X86_64)
        } else if lowercase_equals(&cs, &['a', 'a', 'r', 'c', 'h', '6', '4']) || lowercase_equals(&cs, &['a', 'r', 'm', '6', '4']) {
            Ok(Architecture::Aarch64)
        } else if lowercase_equals(&cs, &['r', 'i', 's', 'c', 'v', '6', '4']) {
            Ok(Architecture::Riscv64)
        } else {
            Err(CpsiError::UnsupportedArchitecture(value.to_owned()))
        }
    }
}

} // verus!
