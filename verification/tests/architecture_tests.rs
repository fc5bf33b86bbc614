use cpsi::architecture::Architecture;
use cpsi::errors::CpsiError;

#[test]
fn parses_and_displays_every_supported_architecture() {
    for (name, expected) in [
        ("x86_64", Architecture::X86_64),
        ("aarch64", Architecture::Aarch64),
        ("riscv64", Architecture::Riscv64),
    ] {
        assert_eq!(name.parse::<Architecture>().unwrap(), expected);
        assert_eq!(expected.to_string(), name);
    }
}

#[test]
fn accepts_common_host_architecture_aliases() {
    assert_eq!("amd64".parse::<Architecture>().unwrap(), Architecture::X86_64);
    assert_eq!("arm64".parse::<Architecture>().unwrap(), Architecture::Aarch64);
    assert_eq!("X86_64".parse::<Architecture>().unwrap(), Architecture::X86_64);
}

#[test]
fn rejects_an_unsupported_architecture() {
    let error = "powerpc64".parse::<Architecture>().unwrap_err();
    assert!(matches!(
        error,
        CpsiError::UnsupportedArchitecture(value)
            if value == "powerpc64"
    ));
}

#[test]
fn case_does_not_matter() {
    assert_eq!("AaRcH64".parse::<Architecture>().unwrap(), Architecture::Aarch64);
    assert_eq!("RISCV64".parse::<Architecture>().unwrap(), Architecture::Riscv64);
    assert_eq!("AMD64".parse::<Architecture>().unwrap(), Architecture::X86_64);
}

#[test]
fn unknown_names_keep_their_spelling() {
    for input in ["", "X86-64", " x86_64", "arm", "RiscV32"] {
        let error = input.parse::<Architecture>().unwrap_err();
        assert!(matches!(error, CpsiError::UnsupportedArchitecture(value) if value == input));
    }
}

#[test]
fn written_name_reads_back() {
    for a in [Architecture::X86_64, Architecture::Aarch64, Architecture::Riscv64] {
        assert_eq!(a.to_string().parse::<Architecture>().unwrap(), a);
    }
}
