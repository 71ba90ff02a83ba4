//! Where installations conventionally live, by platform.
use vstd::prelude::*;
use crate::text::views_of;

verus! {

/// The operating systems whose installation layouts are known.
#[derive(Clone, Copy, Debug, PartialEq, Eq, Structural)]
pub enum TargetOs {
    Haiku,
    Linux,
    FreeBsd,
    MacOs,
    Windows,
    Illumos,
    Other,
}

/// Paths, with wildcards, where `llvm-config` is conventionally installed,
/// most preferred first.
pub open spec fn llvm_config_pattern_list(os: TargetOs) -> Seq<Seq<char>> {
    match os {
        TargetOs::MacOs => seq![
            "/opt/homebrew/opt/llvm/bin/llvm-config"@,
            "/opt/homebrew/opt/llvm@*/bin/llvm-config"@,
            "/usr/local/opt/llvm/bin/llvm-config"@,
            "/usr/local/opt/llvm@*/bin/llvm-config"@,
            "/opt/local/libexec/llvm-*/bin/llvm-config"@,
        ],
        TargetOs::Linux | TargetOs::FreeBsd => seq![
            "/usr/bin/llvm-config-*"@,
            "/usr/lib/llvm-*/bin/llvm-config"@,
            "/usr/local/llvm*/bin/llvm-config"@,
        ],
        TargetOs::Windows => seq![
            "C:\\Program Files\\LLVM\\bin\\llvm-config.exe"@,
            "C:\\Program Files*\\LLVM\\bin\\llvm-config.exe"@,
        ],
        TargetOs::Illumos => seq!["/opt/ooce/llvm-*/bin/llvm-config"@],
        _ => Seq::empty(),
    }
}

/// The patterns where `llvm-config` is looked for on `os`.
pub fn llvm_config_patterns(os: TargetOs) -> (r: Vec<&'static str>)
    ensures
        views_of(r@) == llvm_config_pattern_list(os),
{
    let r = match os {
        TargetOs::MacOs => vec![
            "/opt/homebrew/opt/llvm/bin/llvm-config",
            "/opt/homebrew/opt/llvm@*/bin/llvm-config",
            "/usr/local/opt/llvm/bin/llvm-config",
            "/usr/local/opt/llvm@*/bin/llvm-config",
            "/opt/local/libexec/llvm-*/bin/llvm-config",
        ],
        TargetOs::Linux | TargetOs::FreeBsd => vec![
            "/usr/bin/llvm-config-*",
            "/usr/lib/llvm-*/bin/llvm-config",
            "/usr/local/llvm*/bin/llvm-config",
        ],
        TargetOs::Windows => vec![
            "C:\\Program Files\\LLVM\\bin\\llvm-config.exe",
            "C:\\Program Files*\\LLVM\\bin\\llvm-config.exe",
        ],
        TargetOs::Illumos => vec!["/opt/ooce/llvm-*/bin/llvm-config"],
        _ => Vec::new(),
    };
    assert(views_of(r@) =~= llvm_config_pattern_list(os));
    r
}

/// Directory patterns where `libclang` is conventionally installed, most
/// preferred first; on Windows each with whether it applies to an MSVC
/// target environment.
pub open spec fn libclang_directory_list(os: TargetOs, msvc: bool) -> Seq<Seq<char>> {
    match os {
        TargetOs::Haiku => seq![
            "/boot/home/config/non-packaged/develop/lib"@,
            "/boot/home/config/non-packaged/lib"@,
            "/boot/system/non-packaged/develop/lib"@,
            "/boot/system/non-packaged/lib"@,
            "/boot/system/develop/lib"@,
            "/boot/system/lib"@,
        ],
        TargetOs::Linux | TargetOs::FreeBsd => seq![
            "/usr/local/llvm*/lib*"@,
            "/usr/local/lib*/*/*"@,
            "/usr/local/lib*/*"@,
            "/usr/local/lib*"@,
            "/usr/lib*/*/*"@,
            "/usr/lib*/*"@,
            "/usr/lib*"@,
        ],
        TargetOs::MacOs => seq![
            "/opt/homebrew/opt/llvm*/lib"@,
            "/opt/homebrew/opt/llvm*/lib/llvm*/lib"@,
            "/usr/local/opt/llvm*/lib"@,
            "/usr/local/opt/llvm*/lib/llvm*/lib"@,
            "/Library/Developer/CommandLineTools/usr/lib"@,
            "/Applications/Xcode.app/Contents/Developer/Toolchains/XcodeDefault.xctoolchain/usr/lib"@,
            "/opt/local/libexec/llvm-*/lib"@,
        ],
        TargetOs::Windows => if msvc {
            seq![
                "C:\\Users\\*\\scoop\\apps\\llvm\\current\\lib"@,
                "C:\\Program Files*\\LLVM\\lib"@,
                "C:\\LLVM\\lib"@,
                "C:\\Program Files*\\Microsoft Visual Studio\\*\\VC\\Tools\\Llvm\\**\\lib"@,
            ]
        } else {
            seq![
                "C:\\Users\\*\\scoop\\apps\\llvm\\current\\lib"@,
                "C:\\MSYS*\\MinGW*\\lib"@,
                "C:\\MSYS*\\clang*\\lib"@,
                "C:\\Program Files*\\LLVM\\lib"@,
                "C:\\LLVM\\lib"@,
                "C:\\Program Files*\\Microsoft Visual Studio\\*\\VC\\Tools\\Llvm\\**\\lib"@,
            ]
        },
        TargetOs::Illumos => seq!["/opt/ooce/llvm-*/lib"@, "/opt/ooce/clang-*/lib"@],
        TargetOs::Other => Seq::empty(),
    }
}

/// The directory patterns searched for `libclang` on `os`; `msvc` tells
/// whether the target environment is MSVC, which leaves out the MSYS
/// directories on Windows.
pub fn libclang_directory_patterns(os: TargetOs, msvc: bool) -> (r: Vec<&'static str>)
    ensures
        views_of(r@) == libclang_directory_list(os, msvc),
{
    let r = match os {
        TargetOs::Haiku => vec![
            "/boot/home/config/non-packaged/develop/lib",
            "/boot/home/config/non-packaged/lib",
            "/boot/system/non-packaged/develop/lib",
            "/boot/system/non-packaged/lib",
            "/boot/system/develop/lib",
            "/boot/system/lib",
        ],
        TargetOs::Linux | TargetOs::FreeBsd => vec![
            "/usr/local/llvm*/lib*",
            "/usr/local/lib*/*/*",
            "/usr/local/lib*/*",
            "/usr/local/lib*",
            "/usr/lib*/*/*",
            "/usr/lib*/*",
            "/usr/lib*",
        ],
        TargetOs::MacOs => vec![
            "/opt/homebrew/opt/llvm*/lib",
            "/opt/homebrew/opt/llvm*/lib/llvm*/lib",
            "/usr/local/opt/llvm*/lib",
            "/usr/local/opt/llvm*/lib/llvm*/lib",
            "/Library/Developer/CommandLineTools/usr/lib",
            "/Applications/Xcode.app/Contents/Developer/Toolchains/XcodeDefault.xctoolchain/usr/lib",
            "/opt/local/libexec/llvm-*/lib",
        ],
        TargetOs::Windows => if msvc {
            vec![
                "C:\\Users\\*\\scoop\\apps\\llvm\\current\\lib",
                "C:\\Program Files*\\LLVM\\lib",
                "C:\\LLVM\\lib",
                "C:\\Program Files*\\Microsoft Visual Studio\\*\\VC\\Tools\\Llvm\\**\\lib",
            ]
        } else {
            vec![
                "C:\\Users\\*\\scoop\\apps\\llvm\\current\\lib",
                "C:\\MSYS*\\MinGW*\\lib",
                "C:\\MSYS*\\clang*\\lib",
                "C:\\Program Files*\\LLVM\\lib",
                "C:\\LLVM\\lib",
                "C:\\Program Files*\\Microsoft Visual Studio\\*\\VC\\Tools\\Llvm\\**\\lib",
            ]
        },
        TargetOs::Illumos => vec!["/opt/ooce/llvm-*/lib", "/opt/ooce/clang-*/lib"],
        TargetOs::Other => Vec::new(),
    };
    assert(views_of(r@) =~= libclang_directory_list(os, msvc));
    r
}

} // verus!
