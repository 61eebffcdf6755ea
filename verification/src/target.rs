//! The compiler target description of x86_64 Open Kernel userspace.
use vstd::prelude::*;

verus! {

/// Operating systems that a target can name.
#[derive(PartialEq, Eq, Structural, Clone, Copy, Debug)]
pub enum Os {
    OpenKernel,
}

/// Target environments (the ABI flavour beside the OS).
#[derive(PartialEq, Eq, Structural, Clone, Copy, Debug)]
pub enum Env {
    Unspecified,
}

/// Whether the linker is driven through a C compiler.
#[derive(PartialEq, Eq, Structural, Clone, Copy, Debug)]
pub enum Cc {
    Yes,
    No,
}

/// Whether the linker is LLD.
#[derive(PartialEq, Eq, Structural, Clone, Copy, Debug)]
pub enum Lld {
    Yes,
    No,
}

/// The kind of linker a target uses.
#[derive(PartialEq, Eq, Structural, Clone, Copy, Debug)]
pub enum LinkerFlavor {
    Gnu(Cc, Lld),
}

/// How much of the relocation table is made read-only.
#[derive(PartialEq, Eq, Structural, Clone, Copy, Debug)]
pub enum RelroLevel {
    Full,
    Partial,
    Off,
}

/// What a panic does.
#[derive(PartialEq, Eq, Structural, Clone, Copy, Debug)]
pub enum PanicStrategy {
    Unwind,
    Abort,
}

/// The code model the compiler generates code for.
#[derive(PartialEq, Eq, Structural, Clone, Copy, Debug)]
pub enum CodeModel {
    Tiny,
    Small,
    Kernel,
    Medium,
    Large,
}

/// Processor architectures.
#[derive(PartialEq, Eq, Structural, Clone, Copy, Debug)]
pub enum Arch {
    X86_64,
}

/// Facts about a target that tools report.
pub struct TargetMetadata {
    pub description: Option<String>,
    pub tier: Option<u64>,
    pub host_tools: Option<bool>,
    pub std: Option<bool>,
}

/// The options of a target that differ from the defaults.
pub struct TargetOptions {
    pub os: Os,
    pub vendor: String,
    pub env: Env,
    pub cpu: String,
    pub max_atomic_width: Option<u64>,
    pub plt_by_default: bool,
    pub position_independent_executables: bool,
    pub static_position_independent_executables: bool,
    pub relro_level: RelroLevel,
    pub linker_flavor: LinkerFlavor,
    pub linker: Option<String>,
    pub executables: bool,
    pub disable_redzone: bool,
    pub panic_strategy: PanicStrategy,
    pub code_model: Option<CodeModel>,
}

/// A compiler target.
pub struct Target {
    pub llvm_target: String,
    pub metadata: TargetMetadata,
    pub pointer_width: u16,
    pub data_layout: String,
    pub arch: Arch,
    pub options: TargetOptions,
}

/// `s` holds exactly the text `t`.
pub open spec fn holds(s: Option<String>, t: &str) -> bool {
    s matches Some(v) && v@ == t@
}

/// The x86_64 Open Kernel userspace target: a freestanding x86_64 ELF target
/// without a red zone, linked by `ld` as a non-PIE executable with the large
/// code model, aborting on panic.
pub fn target() -> (t: Target)
    ensures
        t.llvm_target@ == "x86_64-unknown-none-elf"@,
        holds(t.metadata.description, "x86_64 Open Kernel userspace"),
        t.metadata.tier == Some(3u64),
        t.metadata.host_tools == Some(false),
        t.metadata.std == Some(true),
        t.pointer_width == 64,
        t.data_layout@ == "e-m:e-p270:32:32-p271:32:32-p272:64:64-i64:64-i128:128-f80:128-n8:16:32:64-S128"@,
        t.arch == Arch::X86_64,
        t.options.os == Os::OpenKernel,
        t.options.vendor@ == "unknown"@,
        t.options.env == Env::Unspecified,
        t.options.cpu@ == "x86-64"@,
        t.options.max_atomic_width == Some(64u64),
        !t.options.plt_by_default,
        !t.options.position_independent_executables,
        !t.options.static_position_independent_executables,
        t.options.relro_level == RelroLevel::Off,
        t.options.linker_flavor == LinkerFlavor::Gnu(Cc::No, Lld::No),
        holds(t.options.linker, "ld"),
        t.options.executables,
        t.options.disable_redzone,
        t.options.panic_strategy == PanicStrategy::Abort,
        t.options.code_model == Some(CodeModel::Large),
{
    let options = TargetOptions {
        os: Os::OpenKernel,
        vendor: "unknown".to_owned(),
        env: Env::Unspecified,
        cpu: "x86-64".to_owned(),
        max_atomic_width: Some(64),
        plt_by_default: false,
        position_independent_executables: false,
        static_position_independent_executables: false,
        relro_level: RelroLevel::Off,
        linker_flavor: LinkerFlavor::Gnu(Cc::No, Lld::No),
        linker: Some("ld".to_owned()),
        executables: true,
        disable_redzone: true,
        panic_strategy: PanicStrategy::Abort,
        code_model: Some(CodeModel::Large),
    };
    Target {
        llvm_target: "x86_64-unknown-none-elf".to_owned(),
        metadata: TargetMetadata {
            description: Some("x86_64 Open Kernel userspace".to_owned()),
            tier: Some(3),
            host_tools: Some(false),
            std: Some(true),
        },
        pointer_width: 64,
        data_layout: "e-m:e-p270:32:32-p271:32:32-p272:64:64-i64:64-i128:128-f80:128-n8:16:32:64-S128".to_owned(),
        arch: Arch::X86_64,
        options,
    }
}

} // verus!
