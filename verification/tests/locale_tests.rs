use hoststate::locale::{
    available_locales, build_locale_status, generated_locales, parse_locale_conf,
    serialize_locale_conf,
};
use hoststate::model::LocaleInfo;
use hoststate::reconcile::{plan_locale_generation, plan_set_locale_args};

#[test]
fn conf_parse_reads_categories_and_strips_quotes() {
    let raw = "# system locale\nLANG=\"en_US.UTF-8\"\nLC_TIME=de_DE.UTF-8\n\nmalformed line\nUNKNOWN=x\n";
    let info = parse_locale_conf(raw);
    assert_eq!(info.lang, "en_US.UTF-8");
    assert_eq!(info.lc_time, "de_DE.UTF-8");
    assert_eq!(info.lc_collate, "");
    assert_eq!(info.lc_ctype, "");
}

#[test]
fn conf_parse_later_lines_win() {
    let raw = "LANG=aa\nLANG=\"bb\"\n";
    let info = parse_locale_conf(raw);
    assert_eq!(info.lang, "bb");
}

#[test]
fn conf_round_trip_is_stable() {
    let raw = "LANG=\"en_US.UTF-8\"\nLC_NUMERIC=C\n# noise\nbroken\n";
    let first = parse_locale_conf(raw);
    let serialized = serialize_locale_conf(&first);
    let second = parse_locale_conf(&serialized);
    assert_eq!(first.lang, second.lang);
    assert_eq!(first.lc_collate, second.lc_collate);
    assert_eq!(first.lc_ctype, second.lc_ctype);
    assert_eq!(first.lc_messages, second.lc_messages);
    assert_eq!(first.lc_monetary, second.lc_monetary);
    assert_eq!(first.lc_numeric, second.lc_numeric);
    assert_eq!(first.lc_time, second.lc_time);
}

#[test]
fn conf_serialize_exact_form() {
    let mut info = LocaleInfo::default();
    info.lang = "C".to_string();
    let s = serialize_locale_conf(&info);
    assert_eq!(
        s,
        "LANG=\"C\"\nLC_COLLATE=\"\"\nLC_CTYPE=\"\"\nLC_MESSAGES=\"\"\nLC_MONETARY=\"\"\nLC_NUMERIC=\"\"\nLC_TIME=\"\"\n"
    );
}

#[test]
fn available_locales_filters_comments_and_non_utf8() {
    let manifest = "# list\n#en_US.UTF-8 UTF-8\nen_US.UTF-8 UTF-8\nfr_FR ISO-8859-1\nde_DE.UTF-8 UTF-8\n";
    let got = available_locales(manifest);
    assert_eq!(got, vec!["en_US.UTF-8".to_string(), "de_DE.UTF-8".to_string()]);
}

#[test]
fn generated_locales_normalizes_suffix_casing() {
    let listing = "C.utf8\nen_US.utf8\nPOSIX\nfr_FR.UTF-8\n";
    let got = generated_locales(listing);
    assert_eq!(
        got,
        vec!["C.UTF-8".to_string(), "en_US.UTF-8".to_string(), "fr_FR.UTF-8".to_string()]
    );
}

#[test]
fn set_locale_args_empty_request_is_validation_error() {
    let req = LocaleInfo::default();
    let r = plan_set_locale_args(&req);
    assert_eq!(r.unwrap_err(), "No locale values supplied");
}

#[test]
fn set_locale_args_fixed_order() {
    let mut req = LocaleInfo::default();
    req.lc_time = "de_DE.UTF-8".to_string();
    req.lang = "en_US.UTF-8".to_string();
    let args = plan_set_locale_args(&req).unwrap();
    assert_eq!(
        args,
        vec![
            "set-locale".to_string(),
            "LANG=en_US.UTF-8".to_string(),
            "LC_TIME=de_DE.UTF-8".to_string()
        ]
    );
}

#[test]
fn generation_uncomments_the_target_line() {
    let manifest = "# manifest\n#en_US UTF-8\n#de_DE UTF-8\n";
    let edited = plan_locale_generation(manifest, "en_US.UTF-8").unwrap();
    assert_eq!(edited, "# manifest\nen_US UTF-8\n#de_DE UTF-8\n");
}

#[test]
fn generation_edit_happens_at_most_once() {
    let manifest = "#en_US UTF-8\n#de_DE UTF-8\n";
    let edited = plan_locale_generation(manifest, "en_US").unwrap();
    assert_eq!(edited, "en_US UTF-8\n#de_DE UTF-8\n");
    assert!(plan_locale_generation(&edited, "en_US").is_none());
    assert!(plan_locale_generation(&edited, "en_US.UTF-8").is_none());
}

#[test]
fn generation_without_matching_line_plans_no_edit() {
    let manifest = "#fr_FR UTF-8\n";
    assert!(plan_locale_generation(manifest, "en_US.UTF-8").is_none());
}

#[test]
fn status_reflects_probe_inputs_not_a_cache() {
    let before = build_locale_status("LANG=aa\n", "#x UTF-8\nen_US.UTF-8 UTF-8\n", "C.utf8\n", false);
    assert_eq!(before.current.lang, "aa");
    assert_eq!(before.available_locales, vec!["en_US.UTF-8".to_string()]);
    assert_eq!(before.generated_locales, vec!["C.UTF-8".to_string()]);
    assert!(!before.reboot_required);
    // the host changed; a fresh query sees exactly the new probe data
    let after = build_locale_status(
        "LANG=bb\n",
        "#x UTF-8\nen_US.UTF-8 UTF-8\nde_DE.UTF-8 UTF-8\n",
        "C.utf8\nde_DE.utf8\n",
        true,
    );
    assert_eq!(after.current.lang, "bb");
    assert_eq!(
        after.available_locales,
        vec!["en_US.UTF-8".to_string(), "de_DE.UTF-8".to_string()]
    );
    assert_eq!(after.generated_locales, vec!["C.UTF-8".to_string(), "de_DE.UTF-8".to_string()]);
    assert!(after.reboot_required);
}
