//! The closed set of platform categories: six concrete OS/CPU combinations
//! and one "no restriction" category. Each concrete category maps to a
//! request-query token and every category to a manifest-field name; the
//! mapping is total and the category order is fixed.
use vstd::prelude::*;

use crate::extension::Extensions;
use crate::strings::str_eq;

verus! {

/// One platform category: a concrete OS/CPU pair, or `Universal` for
/// builds without a platform restriction.
#[derive(Debug, Clone, Copy, PartialEq, Eq, Structural)]
pub enum Architecture {
    LinuxX64,
    LinuxArm64,
    DarwinX64,
    DarwinArm64,
    Win32X64,
    Win32Arm64,
    Universal,
}

/// The request-query token of a category; `Universal` has none.
pub open spec fn spec_target_platform(a: Architecture) -> Option<Seq<char>> {
    match a {
        Architecture::LinuxX64 => Some("linux-x64"@),
        Architecture::LinuxArm64 => Some("linux-arm64"@),
        Architecture::DarwinX64 => Some("darwin-x64"@),
        Architecture::DarwinArm64 => Some("darwin-arm64"@),
        Architecture::Win32X64 => Some("win32-x64"@),
        Architecture::Win32Arm64 => Some("win32-arm64"@),
        Architecture::Universal => None,
    }
}

/// The manifest-field name of a category; every category has one.
pub open spec fn spec_field_name(a: Architecture) -> Seq<char> {
    match a {
        Architecture::LinuxX64 => "linux_x64"@,
        Architecture::LinuxArm64 => "linux_arm64"@,
        Architecture::DarwinX64 => "darwin_x64"@,
        Architecture::DarwinArm64 => "darwin_arm64"@,
        Architecture::Win32X64 => "win32_x64"@,
        Architecture::Win32Arm64 => "win32_arm64"@,
        Architecture::Universal => "universal"@,
    }
}

/// The category a manifest-field name denotes, if any.
pub open spec fn spec_arch_from_field(s: Seq<char>) -> Option<Architecture> {
    if s == "linux_x64"@ {
        Some(Architecture::LinuxX64)
    } else if s == "linux_arm64"@ {
        Some(Architecture::LinuxArm64)
    } else if s == "darwin_x64"@ {
        Some(Architecture::DarwinX64)
    } else if s == "darwin_arm64"@ {
        Some(Architecture::DarwinArm64)
    } else if s == "win32_x64"@ {
        Some(Architecture::Win32X64)
    } else if s == "win32_arm64"@ {
        Some(Architecture::Win32Arm64)
    } else if s == "universal"@ {
        Some(Architecture::Universal)
    } else {
        None
    }
}

/// The fixed order of the categories for a batch run: the unrestricted
/// category first, then the six concrete ones; each with its field name and
/// its optional query token.
pub open spec fn spec_categories() -> Seq<(Seq<char>, Option<Seq<char>>)> {
    seq![
        ("universal"@, None),
        ("linux_x64"@, Some("linux-x64"@)),
        ("linux_arm64"@, Some("linux-arm64"@)),
        ("darwin_x64"@, Some("darwin-x64"@)),
        ("darwin_arm64"@, Some("darwin-arm64"@)),
        ("win32_x64"@, Some("win32-x64"@)),
        ("win32_arm64"@, Some("win32-arm64"@)),
    ]
}

/// The manifest list a field name selects, if the name is one of the seven.
pub open spec fn spec_extensions_list(e: Extensions, field: Seq<char>) -> Option<Seq<String>> {
    if field == "universal"@ {
        spec_opt_vec_view(e.universal)
    } else if field == "linux_x64"@ {
        spec_opt_vec_view(e.linux_x64)
    } else if field == "linux_arm64"@ {
        spec_opt_vec_view(e.linux_arm64)
    } else if field == "darwin_x64"@ {
        spec_opt_vec_view(e.darwin_x64)
    } else if field == "darwin_arm64"@ {
        spec_opt_vec_view(e.darwin_arm64)
    } else if field == "win32_x64"@ {
        spec_opt_vec_view(e.win32_x64)
    } else if field == "win32_arm64"@ {
        spec_opt_vec_view(e.win32_arm64)
    } else {
        None
    }
}

/// The sequence a present list holds.
pub open spec fn spec_opt_vec_view(o: Option<Vec<String>>) -> Option<Seq<String>> {
    match o {
        Some(v) => Some(v@),
        None => None,
    }
}

impl Architecture {
    /// The request-query token of this category, or `None` for `Universal`.
    pub fn to_target_platform(&self) -> (r: Option<&'static str>)
        ensures
            (match r {
                Some(s) => spec_target_platform(*self) == Some(s@),
                None => spec_target_platform(*self) is None,
            }),
    {
        match self {
            Architecture::LinuxX64 => Some("linux-x64"),
            Architecture::LinuxArm64 => Some("linux-arm64"),
            Architecture::DarwinX64 => Some("darwin-x64"),
            Architecture::DarwinArm64 => Some("darwin-arm64"),
            Architecture::Win32X64 => Some("win32-x64"),
            Architecture::Win32Arm64 => Some("win32-arm64"),
            Architecture::Universal => None,
        }
    }

    /// The manifest-field name of this category.
    pub fn to_field_name(&self) -> (r: &'static str)
        ensures
            r@ == spec_field_name(*self),
    {
        match self {
            Architecture::LinuxX64 => "linux_x64",
            Architecture::LinuxArm64 => "linux_arm64",
            Architecture::DarwinX64 => "darwin_x64",
            Architecture::DarwinArm64 => "darwin_arm64",
            Architecture::Win32X64 => "win32_x64",
            Architecture::Win32Arm64 => "win32_arm64",
            Architecture::Universal => "universal",
        }
    }

    /// Every category once, the unrestricted one first.
    pub fn all() -> (r: Vec<Architecture>)
        ensures
            r@ == seq![
                Architecture::Universal,
                Architecture::LinuxX64,
                Architecture::LinuxArm64,
                Architecture::DarwinX64,
                Architecture::DarwinArm64,
                Architecture::Win32X64,
                Architecture::Win32Arm64,
            ],
    {
        let mut r: Vec<Architecture> = Vec::new();
        r.push(Architecture::Universal);
        r.push(Architecture::LinuxX64);
        r.push(Architecture::LinuxArm64);
        r.push(Architecture::DarwinX64);
        r.push(Architecture::DarwinArm64);
        r.push(Architecture::Win32X64);
        r.push(Architecture::Win32Arm64);
        proof {
            assert(r@ =~= seq![
                Architecture::Universal,
                Architecture::LinuxX64,
                Architecture::LinuxArm64,
                Architecture::DarwinX64,
                Architecture::DarwinArm64,
                Architecture::Win32X64,
                Architecture::Win32Arm64,
            ]);
        }
        r
    }

    /// The categories in batch order, each as its field name and optional
    /// query token.
    pub fn available_architectures() -> (r: Vec<(&'static str, Option<&'static str>)>)
        ensures
            r@.len() == spec_categories().len(),
            forall|k: int|
                0 <= k < r@.len() ==> (#[trigger] r@[k]).0@ == spec_categories()[k].0 && (match r@[
                    k
                ].1 {
                    Some(t) => spec_categories()[k].1 == Some(t@),
                    None => spec_categories()[k].1 is None,
                }),
    {
        let mut r: Vec<(&'static str, Option<&'static str>)> = Vec::new();
        r.push(("universal", None));
        r.push(("linux_x64", Some("linux-x64")));
        r.push(("linux_arm64", Some("linux-arm64")));
        r.push(("darwin_x64", Some("darwin-x64")));
        r.push(("darwin_arm64", Some("darwin-arm64")));
        r.push(("win32_x64", Some("win32-x64")));
        r.push(("win32_arm64", Some("win32-arm64")));
        r
    }

    /// The manifest list requested for a field name, if the name is known
    /// and the manifest holds a list for it.
    pub fn get_extensions_list<'a>(platform_field: &str, extensions: &'a Extensions) -> (r: Option<
        &'a Vec<String>,
    >)
        ensures
            (match r {
                Some(v) => spec_extensions_list(*extensions, platform_field@) == Some(v@),
                None => spec_extensions_list(*extensions, platform_field@) is None,
            }),
    {
        if str_eq(platform_field, "universal") {
            extensions.universal.as_ref()
        } else if str_eq(platform_field, "linux_x64") {
            extensions.linux_x64.as_ref()
        } else if str_eq(platform_field, "linux_arm64") {
            extensions.linux_arm64.as_ref()
        } else if str_eq(platform_field, "darwin_x64") {
            extensions.darwin_x64.as_ref()
        } else if str_eq(platform_field, "darwin_arm64") {
            extensions.darwin_arm64.as_ref()
        } else if str_eq(platform_field, "win32_x64") {
            extensions.win32_x64.as_ref()
        } else if str_eq(platform_field, "win32_arm64") {
            extensions.win32_arm64.as_ref()
        } else {
            None
        }
    }

    /// The category a command-line argument names, if any.
    pub fn from_cli_arg(arg: &str) -> (r: Option<Architecture>)
        ensures
            r == spec_arch_from_field(arg@),
    {
        if str_eq(arg, "linux_x64") {
            Some(Architecture::LinuxX64)
        } else if str_eq(arg, "linux_arm64") {
            Some(Architecture::LinuxArm64)
        } else if str_eq(arg, "darwin_x64") {
            Some(Architecture::DarwinX64)
        } else if str_eq(arg, "darwin_arm64") {
            Some(Architecture::DarwinArm64)
        } else if str_eq(arg, "win32_x64") {
            Some(Architecture::Win32X64)
        } else if str_eq(arg, "win32_arm64") {
            Some(Architecture::Win32Arm64)
        } else if str_eq(arg, "universal") {
            Some(Architecture::Universal)
        } else {
            None
        }
    }
}

} // verus!
