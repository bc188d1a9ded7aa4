use pynit::contributor::Contributor;
use pynit::error::Error;
use pynit::pyproject::{Answers, Pyproject};

fn collect(folder_name: Option<&str>, minimum: bool, answers: Answers) -> Pyproject {
    let mut p = Pyproject::new(folder_name.map(|s| s.to_string()), minimum);
    p.ask_inputs(&answers).unwrap();
    p
}

#[test]
fn minimal_mode_all_defaults() {
    let p = collect(Some("myapp"), true, Answers::default());
    let out = p.to_toml();
    assert_eq!(
        out,
        "[build-system]\n\
         requires = [\"setuptools\", \"wheel\"]\n\
         build-backend = \"setuptools.build_meta\"\n\
         \n\
         [project]\n\
         name = \"myapp\"\n\
         version = \"0.1.0\"\n"
    );
}

#[test]
fn complete_mode_authors_parse() {
    let mut answers = Answers::default();
    answers.authors = "\"Ann\";name=\"Bo\",email=\"bo@x.io\"\"".to_string();
    let p = collect(Some("myapp"), false, answers);
    // the first token carries no capture and is kept verbatim, quotes and all
    assert_eq!(
        p.project.authors,
        vec![
            Contributor::Flat("\"Ann\"".to_string()),
            Contributor::Complex { name: "Bo".to_string(), email: "bo@x.io".to_string() },
        ]
    );
}

#[test]
fn complete_mode_plain_authors_parse() {
    let mut answers = Answers::default();
    answers.authors = "Ann;name=\"Bo\",email=\"bo@x.io\"".to_string();
    let p = collect(Some("myapp"), false, answers);
    assert_eq!(
        p.project.authors,
        vec![
            Contributor::Flat("Ann".to_string()),
            Contributor::Complex { name: "Bo".to_string(), email: "bo@x.io".to_string() },
        ]
    );
}

#[test]
fn rootless_folder_and_no_typed_name_fail() {
    let mut p = Pyproject::new(None, false);
    assert_eq!(p.ask_inputs(&Answers::default()), Err(Error::InvalidProjectRoot));
}

#[test]
fn typed_name_rescues_rootless_folder() {
    let mut answers = Answers::default();
    answers.name = "proj".to_string();
    let mut p = Pyproject::new(None, true);
    assert_eq!(p.ask_inputs(&answers), Ok(()));
    assert_eq!(p.get_project_name(), "proj");
}

#[test]
fn typed_answers_override_defaults() {
    let mut answers = Answers::default();
    answers.build_requires = "a,,b".to_string();
    answers.build_backend = "flit_core.buildapi".to_string();
    answers.name = "proj".to_string();
    answers.version = "2.0".to_string();
    let p = collect(Some("myapp"), true, answers);
    assert_eq!(p.build_system.requires, vec!["a".to_string(), "b".to_string()]);
    assert_eq!(p.build_system.build_backend, "flit_core.buildapi");
    assert_eq!(p.project.name, "proj");
    assert_eq!(p.project.version, "2.0");
}

#[test]
fn empty_optional_fields_leave_no_keys() {
    let mut answers = Answers::default();
    answers.readme = "README.md".to_string();
    let p = collect(Some("myapp"), false, answers);
    let out = p.to_toml();
    assert!(out.contains("readme = \"README.md\"\n"));
    assert!(!out.contains("description = "));
    assert!(!out.contains("requires-python = "));
    assert!(!out.contains("license = "));
    assert!(!out.contains("authors = "));
    assert!(out.contains("name = \"myapp\"\n"));
    assert!(out.contains("version = \"0.1.0\"\n"));
    assert!(out.contains("requires = [\"setuptools\", \"wheel\"]\n"));
    assert!(out.contains("build-backend = \"setuptools.build_meta\"\n"));
}

#[test]
fn minimal_mode_ignores_later_answers() {
    let mut answers = Answers::default();
    answers.description = "ignored".to_string();
    answers.keywords = "k1;k2".to_string();
    let p = collect(Some("myapp"), true, answers);
    assert_eq!(p.project.description, "");
    assert!(p.project.keywords.is_empty());
    assert!(!p.to_toml().contains("keywords"));
}

#[test]
fn contributors_serialize_as_string_or_inline_table() {
    let mut answers = Answers::default();
    answers.authors = "Ann;name=\"Bo\",email=\"bo@x.io\"".to_string();
    let p = collect(Some("myapp"), false, answers);
    let out = p.to_toml();
    assert!(out.contains("authors = [\"Ann\", { name = \"Bo\", email = \"bo@x.io\" }]\n"));
}

#[test]
fn keywords_and_classifiers_serialize_in_order() {
    let mut answers = Answers::default();
    answers.keywords = "cli;;scaffold".to_string();
    answers.classifiers = "Programming Language :: Python :: 3".to_string();
    let p = collect(Some("myapp"), false, answers);
    let out = p.to_toml();
    assert!(out.contains("keywords = [\"cli\", \"scaffold\"]\n"));
    assert!(out.contains("classifiers = [\"Programming Language :: Python :: 3\"]\n"));
}

#[test]
fn special_characters_are_escaped() {
    let mut answers = Answers::default();
    answers.description = "he said \"hi\" \\ done".to_string();
    let p = collect(Some("myapp"), false, answers);
    let out = p.to_toml();
    assert!(out.contains("description = \"he said \\\"hi\\\" \\\\ done\"\n"));
}

#[test]
fn output_is_well_formed_toml() {
    let mut answers = Answers::default();
    answers.description = "a tool".to_string();
    answers.license = "MIT".to_string();
    answers.authors = "Ann;name=\"Bo\",email=\"bo@x.io\"".to_string();
    answers.keywords = "cli;scaffold".to_string();
    let p = collect(Some("myapp"), false, answers);
    let out = p.to_toml();
    let doc: toml::Table = toml::from_str(&out).unwrap();
    assert_eq!(doc["project"]["name"].as_str(), Some("myapp"));
    assert_eq!(doc["project"]["version"].as_str(), Some("0.1.0"));
    assert_eq!(doc["project"]["license"].as_str(), Some("MIT"));
    assert_eq!(doc["build-system"]["build-backend"].as_str(), Some("setuptools.build_meta"));
    let reqs: Vec<&str> =
        doc["build-system"]["requires"].as_array().unwrap().iter().map(|v| {
            v.as_str().unwrap()
        }).collect();
    assert_eq!(reqs, vec!["setuptools", "wheel"]);
    let authors = doc["project"]["authors"].as_array().unwrap();
    assert_eq!(authors[0].as_str(), Some("Ann"));
    assert_eq!(authors[1]["name"].as_str(), Some("Bo"));
    assert_eq!(authors[1]["email"].as_str(), Some("bo@x.io"));
    assert!(doc["project"].get("description").is_some());
    assert!(doc["project"].get("readme").is_none());
}

#[test]
fn version_default_applies_only_on_empty() {
    let mut answers = Answers::default();
    answers.version = "1.2.3".to_string();
    let p = collect(Some("myapp"), true, answers);
    let out = p.to_toml();
    assert!(out.contains("version = \"1.2.3\"\n"));
}

#[test]
fn one_call_collection_matches_the_method_flow() {
    let p = pynit::pyproject::ask_user_inputs(true, Some("myapp".to_string()), &Answers::default())
        .unwrap();
    assert_eq!(p.get_project_name(), "myapp");
    assert_eq!(p.project.version, "0.1.0");
    assert_eq!(
        p.build_system.requires,
        vec!["setuptools".to_string(), "wheel".to_string()]
    );
    assert_eq!(p.build_system.build_backend, "setuptools.build_meta");
}

#[test]
fn one_call_collection_fails_without_any_name() {
    let r = pynit::pyproject::ask_user_inputs(false, None, &Answers::default());
    assert!(matches!(r, Err(Error::InvalidProjectRoot)));
}

#[test]
fn fresh_manifest_is_empty() {
    let p = Pyproject::new(Some("myapp".to_string()), false);
    assert_eq!(p.project.name, "");
    assert_eq!(p.project.version, "");
    assert_eq!(p.project.description, "");
    assert_eq!(p.project.readme, "");
    assert_eq!(p.project.requires_python, "");
    assert_eq!(p.project.license, "");
    assert!(p.project.authors.is_empty());
    assert!(p.project.maintainers.is_empty());
    assert!(p.project.keywords.is_empty());
    assert!(p.project.classifiers.is_empty());
    assert!(p.build_system.requires.is_empty());
    assert_eq!(p.build_system.build_backend, "");
}

#[test]
fn control_characters_are_escaped_as_unicode() {
    let mut answers = Answers::default();
    answers.description = "a\u{1}b\u{7f}c\nd".to_string();
    let p = collect(Some("myapp"), false, answers);
    let out = p.to_toml();
    assert!(out.contains("description = \"a\\u0001b\\u007fc\\nd\"\n"));
    let doc: toml::Table = toml::from_str(&out).unwrap();
    assert_eq!(doc["project"]["description"].as_str(), Some("a\u{1}b\u{7f}c\nd"));
}
