//! The target: the operating system and architecture that a target triple
//! names, and the target configuration of a session.

use vstd::prelude::*;
use vstd::string::*;
use crate::text::{contains_seq, str_contains};
use crate::error::DriverError;
use crate::session::{Os, Architecture, IntTy, UintTy, Config, SessionOptions};

verus! {

/// The triple of the host, the target when none is given.
pub open spec fn spec_host_triple() -> Seq<char> {
    "x86_64-unknown-linux-gnu"@
}

/// The triple of the host, the target when none is given.
pub fn host_triple() -> (r: String)
    ensures
        r@ == spec_host_triple(),
{
    String::from_str("x86_64-unknown-linux-gnu")
}

/// The substrings that name an operating system in a triple, in the order in
/// which they are tried.
pub open spec fn os_names() -> Seq<(Seq<char>, Os)> {
    seq![
        ("mingw32"@, Os::Win32),
        ("win32"@, Os::Win32),
        ("darwin"@, Os::Macos),
        ("android"@, Os::Android),
        ("linux"@, Os::Linux),
        ("freebsd"@, Os::Freebsd),
    ]
}

/// The substrings that name an architecture in a triple, in the order in
/// which they are tried.
pub open spec fn architecture_abis() -> Seq<(Seq<char>, Architecture)> {
    seq![
        ("i386"@, Architecture::X86),
        ("i486"@, Architecture::X86),
        ("i586"@, Architecture::X86),
        ("i686"@, Architecture::X86),
        ("i786"@, Architecture::X86),
        ("x86_64"@, Architecture::X86_64),
        ("arm"@, Architecture::Arm),
        ("xscale"@, Architecture::Arm),
        ("thumb"@, Architecture::Arm),
        ("mips"@, Architecture::Mips),
    ]
}

/// The value of the first entry, from `i` on, whose substring occurs in
/// `triple`.
pub open spec fn first_match<T>(table: Seq<(Seq<char>, T)>, triple: Seq<char>, i: int) -> Option<T>
    decreases table.len() - i,
{
    if i < 0 || i >= table.len() {
        None
    } else if contains_seq(triple, table[i].0) {
        Some(table[i].1)
    } else {
        first_match(table, triple, i + 1)
    }
}

/// The operating system that a triple names.
pub open spec fn spec_get_os(triple: Seq<char>) -> Option<Os> {
    first_match(os_names(), triple, 0)
}

/// The architecture that a triple names.
pub open spec fn spec_get_arch(triple: Seq<char>) -> Option<Architecture> {
    first_match(architecture_abis(), triple, 0)
}

fn os_entry(i: usize) -> (r: (&'static str, Os))
    requires
        i < 6,
    ensures
        r.0@ == os_names()[i as int].0,
        r.1 == os_names()[i as int].1,
{
    match i {
        0 => ("mingw32", Os::Win32),
        1 => ("win32", Os::Win32),
        2 => ("darwin", Os::Macos),
        3 => ("android", Os::Android),
        4 => ("linux", Os::Linux),
        _ => ("freebsd", Os::Freebsd),
    }
}

fn arch_entry(i: usize) -> (r: (&'static str, Architecture))
    requires
        i < 10,
    ensures
        r.0@ == architecture_abis()[i as int].0,
        r.1 == architecture_abis()[i as int].1,
{
    match i {
        0 => ("i386", Architecture::X86),
        1 => ("i486", Architecture::X86),
        2 => ("i586", Architecture::X86),
        3 => ("i686", Architecture::X86),
        4 => ("i786", Architecture::X86),
        5 => ("x86_64", Architecture::X86_64),
        6 => ("arm", Architecture::Arm),
        7 => ("xscale", Architecture::Arm),
        8 => ("thumb", Architecture::Arm),
        _ => ("mips", Architecture::Mips),
    }
}

/// The operating system named by the first of `mingw32`, `win32`, `darwin`,
/// `android`, `linux` and `freebsd` that occurs in the triple.
pub fn get_os(triple: &str) -> (r: Option<Os>)
    ensures
        r == spec_get_os(triple@),
{
    let mut i: usize = 0;
    while i < 6
        invariant
            i <= 6,
            os_names().len() == 6,
            spec_get_os(triple@) == first_match(os_names(), triple@, i as int),
        decreases 6 - i,
    {
        let (name, os) = os_entry(i);
        if str_contains(triple, name) {
            return Some(os);
        }
        i = i + 1;
    }
    None
}

/// The architecture named by the first of `i386` to `i786`, `x86_64`, `arm`,
/// `xscale`, `thumb` and `mips` that occurs in the triple.
pub fn get_arch(triple: &str) -> (r: Option<Architecture>)
    ensures
        r == spec_get_arch(triple@),
{
    let mut i: usize = 0;
    while i < 10
        invariant
            i <= 10,
            architecture_abis().len() == 10,
            spec_get_arch(triple@) == first_match(architecture_abis(), triple@, i as int),
        decreases 10 - i,
    {
        let (name, arch) = arch_entry(i);
        if str_contains(triple, name) {
            return Some(arch);
        }
        i = i + 1;
    }
    None
}

/// The machine types of `int` and `uint` on an architecture.
pub open spec fn machine_types(arch: Architecture) -> (IntTy, UintTy) {
    match arch {
        Architecture::X86_64 => (IntTy::TyI64, UintTy::TyU64),
        _ => (IntTy::TyI32, UintTy::TyU32),
    }
}

/// The target configuration for a triple; the operating system is looked up
/// first.
pub open spec fn spec_target_config(triple: Seq<char>) -> Result<Config, crate::error::ErrorView> {
    match spec_get_os(triple) {
        None => Err(crate::error::ErrorView::UnknownOs),
        Some(os) => match spec_get_arch(triple) {
            None => Err(crate::error::ErrorView::UnknownArch(triple)),
            Some(arch) => Ok(
                Config {
                    os,
                    arch,
                    int_type: machine_types(arch).0,
                    uint_type: machine_types(arch).1,
                },
            ),
        },
    }
}

/// The target configuration for the target triple of the options.
pub fn build_target_config(sopts: &SessionOptions) -> (r: Result<Config, DriverError>)
    ensures
        match r {
            Ok(c) => spec_target_config(sopts.target_triple@) == Ok::<
                Config,
                crate::error::ErrorView,
            >(c),
            Err(e) => spec_target_config(sopts.target_triple@) == Err::<
                Config,
                crate::error::ErrorView,
            >(e@),
        },
{
    let triple = sopts.target_triple.as_str();
    let os = match get_os(triple) {
        Some(os) => os,
        None => {
            return Err(DriverError::UnknownOs);
        },
    };
    let arch = match get_arch(triple) {
        Some(arch) => arch,
        None => {
            return Err(DriverError::UnknownArch(sopts.target_triple.clone()));
        },
    };
    let (int_type, uint_type) = match arch {
        Architecture::X86_64 => (IntTy::TyI64, UintTy::TyU64),
        _ => (IntTy::TyI32, UintTy::TyU32),
    };
    Ok(Config { os, arch, int_type, uint_type })
}

/// The machine types of `int` and `uint` are 64-bit exactly on an x86_64
/// target and 32-bit on every other (x86, arm, mips); the configuration's
/// operating system and architecture are those that the triple names.
pub proof fn lemma_machine_types_follow_arch(triple: Seq<char>)
    requires
        spec_target_config(triple) is Ok,
    ensures
        spec_target_config(triple)->Ok_0.os == spec_get_os(triple)->0,
        spec_target_config(triple)->Ok_0.arch == spec_get_arch(triple)->0,
        (spec_target_config(triple)->Ok_0.int_type == IntTy::TyI64) == (spec_target_config(
            triple,
        )->Ok_0.arch == Architecture::X86_64),
        (spec_target_config(triple)->Ok_0.uint_type == UintTy::TyU64) == (spec_target_config(
            triple,
        )->Ok_0.arch == Architecture::X86_64),
        spec_target_config(triple)->Ok_0.arch != Architecture::X86_64 ==> spec_target_config(
            triple,
        )->Ok_0.int_type == IntTy::TyI32 && spec_target_config(triple)->Ok_0.uint_type
            == UintTy::TyU32,
{
}

} // verus!
