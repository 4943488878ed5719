//! Flavor classification and the installed-kernel records built from the
//! names of the module directories.

use vstd::prelude::*;

use crate::model::{InstalledKernel, InstalledModel};
use crate::text::{contains_str, has_substring, str_eq};

verus! {

/// Flavor of an installed kernel, inferred from its module-directory name:
/// the first of `lts`, `rt`, `zen` that occurs as a substring, else `default`.
pub open spec fn module_flavor(name: Seq<char>) -> Seq<char> {
    if has_substring(name, "lts"@) {
        "lts"@
    } else if has_substring(name, "rt"@) {
        "rt"@
    } else if has_substring(name, "zen"@) {
        "zen"@
    } else {
        "default"@
    }
}

/// Flavor of an installable package, inferred from its package name: the
/// first of `lts`, `rt`, `zen` that occurs as a substring, then `main` for
/// the package named exactly `linux`, else `other`.
pub open spec fn package_flavor(name: Seq<char>) -> Seq<char> {
    if has_substring(name, "lts"@) {
        "lts"@
    } else if has_substring(name, "rt"@) {
        "rt"@
    } else if has_substring(name, "zen"@) {
        "zen"@
    } else if name == "linux"@ {
        "main"@
    } else {
        "other"@
    }
}

pub fn flavor_of_module_dir(name: &str) -> (r: String)
    ensures
        r@ == module_flavor(name@),
{
    if contains_str(name, "lts") {
        String::from_str("lts")
    } else if contains_str(name, "rt") {
        String::from_str("rt")
    } else if contains_str(name, "zen") {
        String::from_str("zen")
    } else {
        String::from_str("default")
    }
}

pub fn flavor_of_package(name: &str) -> (r: String)
    ensures
        r@ == package_flavor(name@),
{
    if contains_str(name, "lts") {
        String::from_str("lts")
    } else if contains_str(name, "rt") {
        String::from_str("rt")
    } else if contains_str(name, "zen") {
        String::from_str("zen")
    } else if str_eq(name, "linux") {
        String::from_str("main")
    } else {
        String::from_str("other")
    }
}

/// The record an installed-kernel probe derives from one module directory:
/// the directory name is the version, the flavor is inferred from it, and
/// the package name is guessed as `linux-` plus the flavor.
pub open spec fn installed_record(dir_name: Seq<char>) -> InstalledModel {
    InstalledModel {
        name: "linux-"@ + module_flavor(dir_name),
        version: dir_name,
        flavor: module_flavor(dir_name),
    }
}

pub fn installed_kernel_from_dir(dir_name: &str) -> (k: InstalledKernel)
    ensures
        k@ == installed_record(dir_name@),
{
    let flavor = flavor_of_module_dir(dir_name);
    let name = String::from_str("linux-").concat(flavor.as_str());
    InstalledKernel { name, version: dir_name.to_owned(), flavor }
}

/// Classify every module-directory name of one probe cycle.
pub fn installed_kernels_from_dirs(dir_names: &Vec<String>) -> (ks: Vec<InstalledKernel>)
    ensures
        ks@.len() == dir_names@.len(),
        forall|i: int|
            0 <= i < ks@.len() ==> ks@[i]@ == installed_record(dir_names@[i]@),
{
    let mut out: Vec<InstalledKernel> = Vec::new();
    let mut i: usize = 0;
    while i < dir_names.len()
        invariant
            i <= dir_names@.len(),
            out@.len() == i,
            forall|j: int| 0 <= j < i ==> out@[j]@ == installed_record(dir_names@[j]@),
        decreases dir_names@.len() - i,
    {
        let k = installed_kernel_from_dir(dir_names[i].as_str());
        out.push(k);
        i += 1;
    }
    out
}

} // verus!
