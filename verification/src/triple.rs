//! What a cross build needs to know about a target triple.
//!
//! Triples are parsed and written by the `target-lexicon` crate. The rules of
//! this module look at three things only: the family of the architecture, the
//! operating system and the environment.

use target_lexicon::{Architecture, Environment, OperatingSystem, Triple};
use vstd::prelude::*;

verus! {

/// `target_lexicon::Triple`. Its fields are read through the functions below.
#[verifier::external_type_specification]
#[verifier::external_body]
pub struct ExTriple(Triple);

/// The architecture families that the rules tell apart.
#[derive(Clone, Copy, Debug, PartialEq, Eq, Structural)]
pub enum Cpu {
    Aarch64,
    Arm,
    X86_32,
    X86_64,
    Other,
}

/// The operating systems that the rules tell apart.
#[derive(Clone, Copy, Debug, PartialEq, Eq, Structural)]
pub enum System {
    Linux,
    /// No operating system: a bare-metal target.
    Bare,
    Windows,
    Other,
}

/// The environments that the rules tell apart.
#[derive(Clone, Copy, Debug, PartialEq, Eq, Structural)]
pub enum Abi {
    Gnueabi,
    Gnueabihf,
    Musl,
    Musleabi,
    Musleabihf,
    Eabi,
    Other,
}

/// The family of the architecture of a triple.
pub uninterp spec fn triple_cpu(triple: Triple) -> Cpu;

/// The operating system of a triple.
pub uninterp spec fn triple_system(triple: Triple) -> System;

/// The environment of a triple.
pub uninterp spec fn triple_abi(triple: Triple) -> Abi;

/// The triple that the text names, if `Triple::from_str` accepts it.
pub uninterp spec fn triple_from(text: Seq<char>) -> Option<Triple>;

/// The text of a triple, as its `Display` impl writes it.
pub uninterp spec fn triple_text(triple: Triple) -> Seq<char>;

/// Reads the `architecture` field of a triple and tells its family.
#[verifier::external_body]
fn cpu_of(triple: &Triple) -> (cpu: Cpu)
    ensures
        cpu == triple_cpu(*triple),
{
    match triple.architecture {
        Architecture::Aarch64(_) => Cpu::Aarch64,
        Architecture::Arm(_) => Cpu::Arm,
        Architecture::X86_32(_) => Cpu::X86_32,
        Architecture::X86_64 => Cpu::X86_64,
        _ => Cpu::Other,
    }
}

/// Reads the `operating_system` field of a triple.
#[verifier::external_body]
fn system_of(triple: &Triple) -> (system: System)
    ensures
        system == triple_system(*triple),
{
    match triple.operating_system {
        OperatingSystem::Linux => System::Linux,
        OperatingSystem::None_ => System::Bare,
        OperatingSystem::Windows => System::Windows,
        _ => System::Other,
    }
}

/// Reads the `environment` field of a triple.
#[verifier::external_body]
fn abi_of(triple: &Triple) -> (abi: Abi)
    ensures
        abi == triple_abi(*triple),
{
    match triple.environment {
        Environment::Gnueabi => Abi::Gnueabi,
        Environment::Gnueabihf => Abi::Gnueabihf,
        Environment::Musl => Abi::Musl,
        Environment::Musleabi => Abi::Musleabi,
        Environment::Musleabihf => Abi::Musleabihf,
        Environment::Eabi => Abi::Eabi,
        _ => Abi::Other,
    }
}

/// Calls `Triple::from_str`.
#[verifier::external_body]
pub(crate) fn parse_triple(text: &str) -> (triple: Option<Triple>)
    ensures
        triple == triple_from(text@),
{
    text.parse().ok()
}

/// Calls `to_string` on a triple.
#[verifier::external_body]
pub(crate) fn triple_to_string(triple: &Triple) -> (text: String)
    ensures
        text@ == triple_text(*triple),
{
    triple.to_string()
}

/// The APT package that holds the C toolchain for a target, if a build for
/// that target needs one.
pub open spec fn apt_package(cpu: Cpu, system: System, abi: Abi) -> Option<Seq<char>> {
    match (cpu, system, abi) {
        (Cpu::Aarch64, System::Linux, _) => Some("gcc-aarch64-linux-gnu"@),
        (Cpu::Arm, System::Linux, Abi::Gnueabi) => Some("gcc-arm-linux-gnueabi"@),
        (Cpu::Arm, System::Linux, Abi::Musleabi) => Some("gcc-arm-linux-gnueabi"@),
        (Cpu::Arm, System::Linux, Abi::Gnueabihf) => Some("gcc-arm-linux-gnueabihf"@),
        (Cpu::Arm, System::Linux, Abi::Musleabihf) => Some("gcc-arm-linux-gnueabihf"@),
        (Cpu::Arm, System::Bare, Abi::Eabi) => Some("gcc-arm-none-eabi"@),
        (Cpu::X86_32, System::Linux, Abi::Musl) => Some("musl-tools"@),
        (Cpu::X86_64, System::Linux, Abi::Musl) => Some("musl-tools"@),
        _ => None,
    }
}

/// The C compiler, which is also the linker, for a target, if a build for that
/// target needs one.
pub open spec fn c_compiler(cpu: Cpu, system: System, abi: Abi) -> Option<Seq<char>> {
    match (cpu, system, abi) {
        (Cpu::Aarch64, System::Linux, _) => Some("aarch64-linux-gnu-gcc"@),
        (Cpu::Arm, System::Linux, Abi::Gnueabi) => Some("arm-linux-gnueabi-gcc"@),
        (Cpu::Arm, System::Linux, Abi::Musleabi) => Some("arm-linux-gnueabi-gcc"@),
        (Cpu::Arm, System::Linux, Abi::Gnueabihf) => Some("arm-linux-gnueabihf-gcc"@),
        (Cpu::Arm, System::Linux, Abi::Musleabihf) => Some("arm-linux-gnueabihf-gcc"@),
        (Cpu::Arm, System::Bare, Abi::Eabi) => Some("arm-none-eabi-gcc"@),
        (Cpu::X86_32, System::Linux, Abi::Musl) => Some("musl-gcc"@),
        (Cpu::X86_64, System::Linux, Abi::Musl) => Some("musl-gcc"@),
        _ => None,
    }
}

/// The view of an optional string.
pub open spec fn text_of(name: Option<&'static str>) -> Option<Seq<char>> {
    match name {
        Some(text) => Some(text@),
        None => None,
    }
}

/// What a cross build needs to know about its target.
pub trait TripleExt {
    /// The family of the architecture.
    spec fn cpu(&self) -> Cpu;

    /// The operating system.
    spec fn system(&self) -> System;

    /// The environment.
    spec fn abi(&self) -> Abi;

    /// The APT package to install before building for this target, if any.
    fn apt_toolchain(&self) -> (package: Option<&'static str>)
        ensures
            text_of(package) == apt_package(self.cpu(), self.system(), self.abi()),
    ;

    /// The C compiler and linker to build for this target with, if the
    /// default one does not do.
    fn cc_compiler(&self) -> (compiler: Option<&'static str>)
        ensures
            text_of(compiler) == c_compiler(self.cpu(), self.system(), self.abi()),
    ;

    /// Whether the target runs Windows.
    fn is_windows(&self) -> (yes: bool)
        ensures
            yes == (self.system() == System::Windows),
    ;
}

impl TripleExt for Triple {
    open spec fn cpu(&self) -> Cpu {
        triple_cpu(*self)
    }

    open spec fn system(&self) -> System {
        triple_system(*self)
    }

    open spec fn abi(&self) -> Abi {
        triple_abi(*self)
    }

    fn apt_toolchain(&self) -> (package: Option<&'static str>) {
        Some(
            match (cpu_of(self), system_of(self), abi_of(self)) {
                (Cpu::Aarch64, System::Linux, _) => "gcc-aarch64-linux-gnu",
                (Cpu::Arm, System::Linux, Abi::Gnueabi | Abi::Musleabi) => "gcc-arm-linux-gnueabi",
                (Cpu::Arm, System::Linux, Abi::Gnueabihf | Abi::Musleabihf) => {
                    "gcc-arm-linux-gnueabihf"
                },
                (Cpu::Arm, System::Bare, Abi::Eabi) => "gcc-arm-none-eabi",
                (Cpu::X86_32 | Cpu::X86_64, System::Linux, Abi::Musl) => "musl-tools",
                _ => {
                    return None;
                },
            },
        )
    }

    fn cc_compiler(&self) -> (compiler: Option<&'static str>) {
        Some(
            match (cpu_of(self), system_of(self), abi_of(self)) {
                (Cpu::Aarch64, System::Linux, _) => "aarch64-linux-gnu-gcc",
                (Cpu::Arm, System::Linux, Abi::Gnueabi | Abi::Musleabi) => "arm-linux-gnueabi-gcc",
                (Cpu::Arm, System::Linux, Abi::Gnueabihf | Abi::Musleabihf) => {
                    "arm-linux-gnueabihf-gcc"
                },
                (Cpu::Arm, System::Bare, Abi::Eabi) => "arm-none-eabi-gcc",
                (Cpu::X86_32 | Cpu::X86_64, System::Linux, Abi::Musl) => "musl-gcc",
                _ => {
                    return None;
                },
            },
        )
    }

    fn is_windows(&self) -> (yes: bool) {
        match system_of(self) {
            System::Windows => true,
            _ => false,
        }
    }
}

} // verus!
