use lib::io_error::IoError;
use lib::pal::{unsupported, unsupported_err};
use lib::target::{target, Arch, Cc, CodeModel, Env, LinkerFlavor, Lld, Os, PanicStrategy, RelroLevel};

#[test]
fn unsupported_fails() {
    assert_eq!(unsupported_err(), IoError::UnsupportedPlatform);
    assert_eq!(unsupported::<u32>(), Err(IoError::UnsupportedPlatform));
    assert_eq!(unsupported::<()>(), Err(IoError::UnsupportedPlatform));
    let error = unsupported_err();
    assert_eq!(error.kind(), lib::io_error::ErrorKind::Unsupported);
    assert_eq!(error.raw_os_error(), None);
    assert_eq!(error.message(), Some("operation not supported on this platform".to_string()));
}

#[test]
fn target_description() {
    let t = target();
    assert_eq!(t.llvm_target, "x86_64-unknown-none-elf");
    assert_eq!(t.metadata.description.as_deref(), Some("x86_64 Open Kernel userspace"));
    assert_eq!(t.metadata.tier, Some(3));
    assert_eq!(t.metadata.host_tools, Some(false));
    assert_eq!(t.metadata.std, Some(true));
    assert_eq!(t.pointer_width, 64);
    assert_eq!(
        t.data_layout,
        "e-m:e-p270:32:32-p271:32:32-p272:64:64-i64:64-i128:128-f80:128-n8:16:32:64-S128"
    );
    assert_eq!(t.arch, Arch::X86_64);
    let o = t.options;
    assert_eq!(o.os, Os::OpenKernel);
    assert_eq!(o.vendor, "unknown");
    assert_eq!(o.env, Env::Unspecified);
    assert_eq!(o.cpu, "x86-64");
    assert_eq!(o.max_atomic_width, Some(64));
    assert!(!o.plt_by_default);
    assert!(!o.position_independent_executables);
    assert!(!o.static_position_independent_executables);
    assert_eq!(o.relro_level, RelroLevel::Off);
    assert_eq!(o.linker_flavor, LinkerFlavor::Gnu(Cc::No, Lld::No));
    assert_eq!(o.linker.as_deref(), Some("ld"));
    assert!(o.executables);
    assert!(o.disable_redzone);
    assert_eq!(o.panic_strategy, PanicStrategy::Abort);
    assert_eq!(o.code_model, Some(CodeModel::Large));
}
