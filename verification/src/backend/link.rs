//! Linking: the name of the executable and what the checks of the linker tools decide.
use vstd::prelude::*;

verus! {

/// The operating system that the compiler builds executables for.
#[derive(Debug, Clone, Copy, PartialEq, Eq, Structural)]
pub enum TargetOs {
    Windows,
    Linux,
}

/// The file extension of executables: `.exe` on Windows, none on Linux.
pub fn getExecutableExtension(target: TargetOs) -> (extension: &'static str)
    ensures
        extension@ == (match target {
            TargetOs::Windows => ".exe"@,
            TargetOs::Linux => ""@,
        }),
{
    proof {
        reveal_strlit(".exe");
        reveal_strlit("");
    }
    match target {
        TargetOs::Windows => ".exe",
        TargetOs::Linux => "",
    }
}

/// The linker program: `lld-link.exe` on Windows, `ld.lld` on Linux.
pub fn getLinkerPath(target: TargetOs) -> (path: &'static str)
    ensures
        path@ == (match target {
            TargetOs::Windows => "lld-link.exe"@,
            TargetOs::Linux => "ld.lld"@,
        }),
{
    proof {
        reveal_strlit("lld-link.exe");
        reveal_strlit("ld.lld");
    }
    match target {
        TargetOs::Windows => "lld-link.exe",
        TargetOs::Linux => "ld.lld",
    }
}

/// The bitcode compiler program: `llc.exe` on Windows, `llc` on Linux.
pub fn getBitcodeCompilerPath(target: TargetOs) -> (path: &'static str)
    ensures
        path@ == (match target {
            TargetOs::Windows => "llc.exe"@,
            TargetOs::Linux => "llc"@,
        }),
{
    proof {
        reveal_strlit("llc.exe");
        reveal_strlit("llc");
    }
    match target {
        TargetOs::Windows => "llc.exe",
        TargetOs::Linux => "llc",
    }
}

/// The exit code with which the program stops after checking a linker tool:
/// 2 when the tool could not be started, 3 when it ran and reported failure,
/// none when it ran successfully.
pub fn toolCheckExitCode(started: bool, succeeded: bool) -> (code: Option<i32>)
    ensures
        code == (if !started {
            Some(2i32)
        } else if !succeeded {
            Some(3i32)
        } else {
            None
        }),
{
    if !started {
        Some(2)
    } else if !succeeded {
        Some(3)
    } else {
        None
    }
}

} // verus!
