use hoststate::catalog::parse_catalog;
use hoststate::kernels::{flavor_of_module_dir, flavor_of_package, installed_kernels_from_dirs};

#[test]
fn module_flavor_lts() {
    assert_eq!(flavor_of_module_dir("6.6.1-lts"), "lts");
    assert_eq!(flavor_of_module_dir("lts-custom"), "lts");
}

#[test]
fn module_flavor_rt() {
    assert_eq!(flavor_of_module_dir("6.8.2-rt7"), "rt");
}

#[test]
fn module_flavor_zen() {
    assert_eq!(flavor_of_module_dir("6.8.2-zen1-1-zen"), "zen");
}

#[test]
fn module_flavor_default() {
    assert_eq!(flavor_of_module_dir("6.6.1-arch1-1"), "default");
    assert_eq!(flavor_of_module_dir(""), "default");
}

#[test]
fn package_flavor_main_and_other() {
    assert_eq!(flavor_of_package("linux"), "main");
    assert_eq!(flavor_of_package("linux-api-headers"), "other");
    assert_eq!(flavor_of_package("linux-lts"), "lts");
    assert_eq!(flavor_of_package("linux-rt"), "rt");
    assert_eq!(flavor_of_package("linux-zen"), "zen");
}

#[test]
fn installed_kernels_built_from_directory_names() {
    let dirs = vec!["6.6.1-lts".to_string(), "6.8.2-arch1-1".to_string()];
    let ks = installed_kernels_from_dirs(&dirs);
    assert_eq!(ks.len(), 2);
    assert_eq!(ks[0].name, "linux-lts");
    assert_eq!(ks[0].version, "6.6.1-lts");
    assert_eq!(ks[0].flavor, "lts");
    assert_eq!(ks[1].name, "linux-default");
    assert_eq!(ks[1].version, "6.8.2-arch1-1");
    assert_eq!(ks[1].flavor, "default");
}

#[test]
fn catalog_excludes_headers_and_attaches_description() {
    let raw = "core/linux 6.6.1-arch1-1\n    Description: The Linux kernel and modules\ncore/linux-headers 6.6.1-arch1-1\n";
    let out = parse_catalog(raw);
    assert_eq!(out.len(), 1);
    assert_eq!(out[0].package_name, "linux");
    assert_eq!(out[0].version, "6.6.1-arch1-1");
    assert_eq!(out[0].flavor, "main");
    assert_eq!(out[0].description, "The Linux kernel and modules");
}

#[test]
fn catalog_candidate_without_description_keeps_empty_description() {
    let raw = "extra/linux-zen 6.8.2-zen1-1\ncore/linux-lts 6.6.30-1\n    Description: LTS Linux\n";
    let out = parse_catalog(raw);
    assert_eq!(out.len(), 2);
    assert_eq!(out[0].package_name, "linux-zen");
    assert_eq!(out[0].flavor, "zen");
    assert_eq!(out[0].description, "");
    assert_eq!(out[1].package_name, "linux-lts");
    assert_eq!(out[1].description, "LTS Linux");
}

#[test]
fn catalog_malformed_header_is_skipped() {
    let raw = "core/linux\n    Description: orphan text\n";
    let out = parse_catalog(raw);
    assert_eq!(out.len(), 0);
}

#[test]
fn catalog_discarded_package_clears_attach_point() {
    let raw = "core/linux-docs 6.6.1-1\n    Description: documentation\n";
    let out = parse_catalog(raw);
    assert_eq!(out.len(), 0);
}

#[test]
fn catalog_description_attaches_to_last_entry_of_name() {
    let raw = "core/linux 1.0-1\nextra/linux 2.0-1\n    Description: newer one\n";
    let out = parse_catalog(raw);
    assert_eq!(out.len(), 2);
    assert_eq!(out[0].description, "");
    assert_eq!(out[1].version, "2.0-1");
    assert_eq!(out[1].description, "newer one");
}

#[test]
fn catalog_description_keeps_text_after_first_colon() {
    let raw = "core/linux 1.0-1\n    Description: kernel: the core of it\n";
    let out = parse_catalog(raw);
    assert_eq!(out.len(), 1);
    assert_eq!(out[0].description, "kernel: the core of it");
}

#[test]
fn catalog_ignores_unknown_sections_and_noise() {
    let raw = "aur/linux-git 1.0-1\nsome noise line\ncommunity/linux-zen 6.8-1\n";
    let out = parse_catalog(raw);
    assert_eq!(out.len(), 1);
    assert_eq!(out[0].package_name, "linux-zen");
}
