use vstd::prelude::*;

use crate::strutil::find_char_from;
use vstd::string::StringExecFns;

verus! {

broadcast use vstd::string::group_string_axioms;

/// The fixed list of artifacts one upgrade downloads and installs, in the
/// order they are displayed and installed.
pub fn manifest_items() -> (r: Vec<&'static str>)
    ensures
        r@.len() == 14,
        r@[0]@ == "include/moonbit.h"@,
        r@[1]@ == "include/moonbit-fundamental.h"@,
        r@[2]@ == "lib/libmoonbitrun.o"@,
        r@[3]@ == "lib/libtcc1.a"@,
        r@[4]@ == "bin/moon"@,
        r@[5]@ == "bin/moonc"@,
        r@[6]@ == "bin/moonfmt"@,
        r@[7]@ == "bin/moonrun"@,
        r@[8]@ == "bin/mooninfo"@,
        r@[9]@ == "bin/moondoc"@,
        r@[10]@ == "bin/moon_cove_report"@,
        r@[11]@ == "bin/mooncake"@,
        r@[12]@ == "bin/internal/tcc"@,
        r@[13]@ == "core.zip"@,
{
    let items: Vec<&'static str> = vec![
        "include/moonbit.h",
        "include/moonbit-fundamental.h",
        "lib/libmoonbitrun.o",
        "lib/libtcc1.a",
        "bin/moon",
        "bin/moonc",
        "bin/moonfmt",
        "bin/moonrun",
        "bin/mooninfo",
        "bin/moondoc",
        "bin/moon_cove_report",
        "bin/mooncake",
        "bin/internal/tcc",
        "core.zip",
    ];
    items
}

/// The platform identifier used in artifact URLs, or `None` on a platform the
/// toolchain does not publish artifacts for.
pub fn platform_id(arch: &str, os: &str) -> (r: Option<&'static str>)
    ensures
        arch@ == "x86_64"@ && os@ == "macos"@ ==> (r matches Some(p) && p@ == "macos_intel"@),
        arch@ == "aarch64"@ && os@ == "macos"@ ==> (r matches Some(p) && p@ == "macos_m1"@),
        arch@ == "x86_64"@ && os@ == "linux"@ ==> (r matches Some(p) && p@ == "ubuntu_x86"@),
        arch@ == "x86_64"@ && os@ == "windows"@ ==> (r matches Some(p) && p@ == "windows"@),
        !((arch@ == "x86_64"@ && (os@ == "macos"@ || os@ == "linux"@ || os@ == "windows"@)) || (
        arch@ == "aarch64"@ && os@ == "macos"@)) ==> r is None,
{
    proof {
        reveal_strlit("x86_64");
        reveal_strlit("aarch64");
        reveal_strlit("macos");
        reveal_strlit("linux");
        reveal_strlit("windows");
        // a revealed literal's length and characters decide inequality
        if "macos"@ == "linux"@ {
            assert("macos"@[0] == "linux"@[0]);
        }
        if "macos"@ == "windows"@ {
            assert("macos"@.len() == "windows"@.len());
        }
        if "linux"@ == "windows"@ {
            assert("linux"@.len() == "windows"@.len());
        }
        if "x86_64"@ == "aarch64"@ {
            assert("x86_64"@.len() == "aarch64"@.len());
        }
        assert("macos"@ != "linux"@);
        assert("x86_64"@ != "aarch64"@);
    }
    let x86 = crate::strutil::str_eq(arch, "x86_64");
    let arm = crate::strutil::str_eq(arch, "aarch64");
    if x86 && crate::strutil::str_eq(os, "macos") {
        Some("macos_intel")
    } else if arm && crate::strutil::str_eq(os, "macos") {
        Some("macos_m1")
    } else if x86 && crate::strutil::str_eq(os, "linux") {
        Some("ubuntu_x86")
    } else if x86 && crate::strutil::str_eq(os, "windows") {
        Some("windows")
    } else {
        None
    }
}

pub open spec fn contains_char(s: Seq<char>, c: char) -> bool {
    exists|i: int| 0 <= i < s.len() && s[i] == c
}

/// The URL an item is fetched from: the archive sits at the root, every other
/// item under the platform directory, and on Windows an extensionless item
/// gains `.exe`.
pub open spec fn url_spec(root: Seq<char>, platform: Seq<char>, item: Seq<char>) -> Seq<char> {
    if item == "core.zip"@ {
        root + "/"@ + item
    } else if platform == "windows"@ && !contains_char(item, '.') {
        root + "/"@ + platform + "/"@ + item + ".exe"@
    } else {
        root + "/"@ + platform + "/"@ + item
    }
}

/// Builds the download URL for one manifest item.
pub fn url_for_item(root: &str, platform: &str, item: &str) -> (r: String)
    ensures
        r@ == url_spec(root@, platform@, item@),
{
    let mut out = String::from_str(root);
    out.append("/");
    if crate::strutil::str_eq(item, "core.zip") {
        out.append(item);
        return out;
    }
    out.append(platform);
    out.append("/");
    out.append(item);
    let n = item.unicode_len();
    let dot = find_char_from(item, 0, '.');
    proof {
        if dot < n {
            assert(contains_char(item@, '.'));
        }
    }
    if crate::strutil::str_eq(platform, "windows") && dot == n {
        out.append(".exe");
    }
    out
}

/// The path of the remote version manifest under the chosen root.
pub fn version_url(root: &str) -> (r: String)
    ensures
        r@ == root@ + "/version.json"@,
{
    let mut out = String::from_str(root);
    out.append("/version.json");
    out
}

/// The staging or destination path of an item below a base directory.
pub fn joined_path(base: &str, item: &str) -> (r: String)
    ensures
        r@ == base@ + "/"@ + item@,
{
    let mut out = String::from_str(base);
    out.append("/");
    out.append(item);
    out
}

} // verus!
