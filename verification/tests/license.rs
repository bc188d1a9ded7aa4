use pynit::error::Error;
use pynit::license::{mit_default_index, select_license, spdx_ids, License, LicenseDetails};

#[test]
fn mit_is_found_in_sorted_candidates() {
    let c = vec!["Apache-2.0".to_string(), "GPL-3.0".to_string(), "MIT".to_string()];
    assert_eq!(mit_default_index(&c), Ok(2));
}

#[test]
fn default_accepted_yields_mit() {
    // candidates as the license service hands them over
    let c = vec!["Apache-2.0".to_string(), "MIT".to_string(), "GPL-3.0".to_string()];
    let d = mit_default_index(&c).unwrap();
    assert_eq!(d, 1);
    assert_eq!(select_license(&c, d), Ok("MIT".to_string()));
}

#[test]
fn missing_mit_is_an_error() {
    let c = vec!["Apache-2.0".to_string(), "BSD-3-Clause".to_string()];
    assert_eq!(mit_default_index(&c), Err(Error::LicenseNotFound));
}

#[test]
fn empty_candidates_are_an_error() {
    let c: Vec<String> = Vec::new();
    assert_eq!(mit_default_index(&c), Err(Error::LicenseNotFound));
}

#[test]
fn out_of_range_choice_is_an_error() {
    let c = vec!["MIT".to_string()];
    assert_eq!(select_license(&c, 5), Err(Error::LicenseNotFound));
}

#[test]
fn chosen_entry_is_returned() {
    let c = vec!["Apache-2.0".to_string(), "GPL-3.0".to_string(), "MIT".to_string()];
    assert_eq!(select_license(&c, 0), Ok("Apache-2.0".to_string()));
}

#[test]
fn spdx_ids_keep_order() {
    let ls = vec![
        License { spdx_id: "MIT".to_string() },
        License { spdx_id: "Apache-2.0".to_string() },
    ];
    assert_eq!(spdx_ids(&ls), vec!["MIT".to_string(), "Apache-2.0".to_string()]);
}

#[test]
fn license_details_keeps_its_parts() {
    let d = LicenseDetails::new("MIT".to_string(), "Permission is hereby granted".to_string());
    assert_eq!(d.spdx_id().as_str(), "MIT");
    assert_eq!(d.body, "Permission is hereby granted");
}

#[test]
fn error_messages_name_the_failure() {
    assert_eq!(Error::InvalidProjectRoot.message(), "invalid project root");
    assert_eq!(Error::LicenseNotFound.message(), "license not found");
}
