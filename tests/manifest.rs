use rustilities::manifest::{
    manifest_ends_search, ManifestDependencyConfig, ManifestDependencyOrigin, ManifestProbe,
    ManifestSearch,
};
use rustilities::manifest_edit::{
    add_crate_to_dependencies_document, add_crate_to_manifest_text, add_crate_to_root_table,
    add_dependency_to_dependencies_table, dependency_declaration, dependency_placement,
    DependencyPlacement,
};

#[test]
fn manifest_dependency_config_new_works() {
    let feature1 = "feature1";
    let feature2 = "feature2";
    let version = "1.0.0";
    let dependency_config = ManifestDependencyConfig::new(
        ManifestDependencyOrigin::crates_io(version),
        false,
        vec![feature1, feature2],
        true,
    );
    assert_eq!(dependency_config.origin, ManifestDependencyOrigin::crates_io(version));
    assert_eq!(dependency_config.default_features, false);
    assert_eq!(dependency_config.features, vec![feature1, feature2]);
    assert_eq!(dependency_config.optional, true);
}

#[test]
fn manifest_dependency_config_add_features_works() {
    let feature1 = "feature1";
    let feature2 = "feature2";
    let feature3 = "feature3";

    let mut dependency_config = ManifestDependencyConfig::new(
        ManifestDependencyOrigin::workspace(),
        false,
        vec![feature1],
        true,
    );
    assert_eq!(dependency_config.features, vec![feature1]);

    dependency_config.add_features(&[feature2, feature3]);
    assert_eq!(dependency_config.features, vec![feature1, feature2, feature3]);
}

#[test]
fn manifest_dependency_origin_crates_io_works() {
    let version = "1.0.0";
    let origin = ManifestDependencyOrigin::crates_io(version);
    assert_eq!(origin, ManifestDependencyOrigin::CratesIO { version });
}

#[test]
fn manifest_dependency_origin_git_works() {
    let url = "https:://some_url.com";
    let branch = "somestablebranch";
    let origin = ManifestDependencyOrigin::git(url, branch);
    assert_eq!(origin, ManifestDependencyOrigin::Git { url, branch });
}

#[test]
fn manifest_dependency_origin_local_works() {
    let relative_path = "../some/path";
    let origin = ManifestDependencyOrigin::local(relative_path);
    assert_eq!(origin, ManifestDependencyOrigin::Local { relative_path })
}

#[test]
fn manifest_dependency_origin_workspace_works() {
    assert_eq!(ManifestDependencyOrigin::workspace(), ManifestDependencyOrigin::Workspace);
}

#[test]
fn add_features_to_an_empty_list_keeps_the_rest() {
    let mut config =
        ManifestDependencyConfig::new(ManifestDependencyOrigin::crates_io("2"), true, vec![], false);
    config.add_features(&[]);
    assert!(config.features.is_empty());
    config.add_features(&["a"]);
    assert_eq!(config.features, vec!["a"]);
    assert_eq!(config.origin, ManifestDependencyOrigin::crates_io("2"));
    assert!(config.default_features);
    assert!(!config.optional);
}

#[test]
fn declaration_of_a_workspace_dependency() {
    let config =
        ManifestDependencyConfig::new(ManifestDependencyOrigin::workspace(), false, vec![], false);
    let declaration = dependency_declaration(&config);
    assert_eq!(declaration.to_string(), "{ workspace = true, default-features = false }");
}

#[test]
fn declaration_with_every_entry() {
    let config = ManifestDependencyConfig::new(
        ManifestDependencyOrigin::git("https://example.com/repo", "main"),
        false,
        vec!["derive", "std"],
        true,
    );
    let declaration = dependency_declaration(&config);
    assert_eq!(
        declaration.to_string(),
        "{ git = \"https://example.com/repo\", branch = \"main\", default-features = false, features = [\"derive\", \"std\"], optional = true }"
    );
}

#[test]
fn declaration_of_crates_io_and_local_dependencies() {
    let config = ManifestDependencyConfig::new(
        ManifestDependencyOrigin::crates_io("1.0.0"),
        true,
        vec!["derive"],
        false,
    );
    assert_eq!(
        dependency_declaration(&config).to_string(),
        "{ version = \"1.0.0\", features = [\"derive\"] }"
    );
    let config =
        ManifestDependencyConfig::new(ManifestDependencyOrigin::local("../x"), true, vec![], false);
    assert_eq!(dependency_declaration(&config).to_string(), "{ path = \"../x\" }");
}

#[test]
fn dependency_added_to_a_table_replaces_the_earlier_one() {
    let mut table = toml_edit::Table::new();
    let first =
        ManifestDependencyConfig::new(ManifestDependencyOrigin::crates_io("1"), true, vec![], false);
    let second =
        ManifestDependencyConfig::new(ManifestDependencyOrigin::crates_io("2"), true, vec![], true);
    add_dependency_to_dependencies_table(&mut table, "serde", &first);
    add_dependency_to_dependencies_table(&mut table, "serde", &second);
    assert_eq!(table.len(), 1);
    assert_eq!(
        table.get("serde").unwrap().as_inline_table().unwrap().to_string().trim(),
        "{ version = \"2\", optional = true }"
    );
}

const CRATE_MANIFEST: &str = "
[package]
name = \"test\"
version = \"0.1.0\"
edition = \"2021\"

[dependencies]
";

#[test]
fn crate_manifest_receives_dependencies_in_order() {
    let syn_config =
        ManifestDependencyConfig::new(ManifestDependencyOrigin::workspace(), false, vec![], false);
    let text = add_crate_to_manifest_text(CRATE_MANIFEST, "syn", &syn_config).unwrap();
    let serde_config = ManifestDependencyConfig::new(
        ManifestDependencyOrigin::crates_io("1.0.0"),
        true,
        vec!["derive"],
        false,
    );
    let text = add_crate_to_manifest_text(&text, "serde", &serde_config).unwrap();
    assert_eq!(
        text,
        "
[package]
name = \"test\"
version = \"0.1.0\"
edition = \"2021\"

[dependencies]
syn = { workspace = true, default-features = false }
serde = { version = \"1.0.0\", features = [\"derive\"] }
"
    );
}

#[test]
fn workspace_manifest_receives_workspace_dependencies() {
    let manifest = "[workspace]\nmembers = [\"a\"]\n";
    let config =
        ManifestDependencyConfig::new(ManifestDependencyOrigin::crates_io("1"), true, vec![], false);
    let text = add_crate_to_manifest_text(manifest, "log", &config).unwrap();
    let doc = text.parse::<toml_edit::DocumentMut>().unwrap();
    let log = doc["workspace"]["dependencies"]["log"].as_inline_table().unwrap();
    assert_eq!(log.to_string().trim(), "{ version = \"1\" }");
    assert!(doc.get("dependencies").is_none());
}

#[test]
fn empty_manifest_receives_a_dependencies_table() {
    let config =
        ManifestDependencyConfig::new(ManifestDependencyOrigin::crates_io("1"), true, vec![], true);
    let text = add_crate_to_manifest_text("", "log", &config).unwrap();
    let doc = text.parse::<toml_edit::DocumentMut>().unwrap();
    let log = doc["dependencies"]["log"].as_inline_table().unwrap();
    assert_eq!(log.to_string().trim(), "{ version = \"1\", optional = true }");
}

#[test]
fn invalid_manifest_is_refused() {
    let config =
        ManifestDependencyConfig::new(ManifestDependencyOrigin::workspace(), true, vec![], false);
    assert!(add_crate_to_manifest_text("[dependencies", "log", &config).is_err());
}

#[test]
fn manifest_search_stops_where_it_should() {
    let crate_manifest = Some(ManifestProbe { has_package: true, has_workspace: false });
    let workspace_manifest = Some(ManifestProbe { has_package: false, has_workspace: true });
    let empty_manifest = Some(ManifestProbe { has_package: false, has_workspace: false });
    assert!(manifest_ends_search(ManifestSearch::Innermost, crate_manifest));
    assert!(manifest_ends_search(ManifestSearch::Innermost, workspace_manifest));
    assert!(!manifest_ends_search(ManifestSearch::Innermost, empty_manifest));
    assert!(!manifest_ends_search(ManifestSearch::Innermost, None));
    assert!(!manifest_ends_search(ManifestSearch::Workspace, crate_manifest));
    assert!(manifest_ends_search(ManifestSearch::Workspace, workspace_manifest));
    assert!(!manifest_ends_search(ManifestSearch::Workspace, None));
}

#[test]
fn placement_follows_the_tables_present() {
    for has_workspace in [false, true] {
        for workspace_has_dependencies in [false, true] {
            assert_eq!(
                dependency_placement(true, has_workspace, workspace_has_dependencies),
                DependencyPlacement::Dependencies
            );
        }
    }
    assert_eq!(dependency_placement(false, true, true), DependencyPlacement::WorkspaceDependencies);
    assert_eq!(
        dependency_placement(false, true, false),
        DependencyPlacement::NewWorkspaceDependencies
    );
    assert_eq!(dependency_placement(false, false, false), DependencyPlacement::NewDependencies);
}

#[test]
fn root_table_reports_where_the_dependency_went() {
    let config =
        ManifestDependencyConfig::new(ManifestDependencyOrigin::crates_io("1"), true, vec![], false);
    let mut doc = "[workspace]\n[workspace.dependencies]\n"
        .parse::<toml_edit::DocumentMut>()
        .unwrap();
    assert_eq!(
        add_crate_to_root_table(doc.as_table_mut(), "log", &config),
        DependencyPlacement::WorkspaceDependencies
    );
    assert_eq!(
        doc["workspace"]["dependencies"]["log"].as_inline_table().unwrap().to_string().trim(),
        "{ version = \"1\" }"
    );
    let mut doc = "[package]\nname = \"a\"\n".parse::<toml_edit::DocumentMut>().unwrap();
    assert_eq!(
        add_crate_to_dependencies_document(&mut doc, "log", &config),
        Some(DependencyPlacement::NewDependencies)
    );
    assert_eq!(
        add_crate_to_dependencies_document(&mut doc, "serde", &config),
        Some(DependencyPlacement::Dependencies)
    );
    assert_eq!(doc["dependencies"].as_table().unwrap().len(), 2);
}

#[test]
fn inline_dependencies_entry_is_replaced_by_a_table() {
    let config =
        ManifestDependencyConfig::new(ManifestDependencyOrigin::workspace(), true, vec![], false);
    let mut doc = "dependencies = { a = \"1\" }\n".parse::<toml_edit::DocumentMut>().unwrap();
    assert_eq!(
        add_crate_to_dependencies_document(&mut doc, "log", &config),
        Some(DependencyPlacement::NewDependencies)
    );
    let dependencies = doc["dependencies"].as_table().unwrap();
    assert_eq!(dependencies.len(), 1);
    assert_eq!(
        dependencies["log"].as_inline_table().unwrap().to_string().trim(),
        "{ workspace = true }"
    );
}

#[test]
fn document_whose_root_is_no_table_is_left_alone() {
    let config =
        ManifestDependencyConfig::new(ManifestDependencyOrigin::workspace(), true, vec![], false);
    let mut doc = toml_edit::DocumentMut::new();
    *doc.as_item_mut() = toml_edit::Item::None;
    assert_eq!(add_crate_to_dependencies_document(&mut doc, "log", &config), None);
    assert!(doc.as_item().is_none());
}

#[test]
fn other_entries_of_the_table_are_kept() {
    let mut doc = "[dependencies]\nserde = \"1\"\nlog = { version = \"0.4\" }\n[dependencies.rand]\nversion = \"0.8\"\n"
        .parse::<toml_edit::DocumentMut>()
        .unwrap();
    let config =
        ManifestDependencyConfig::new(ManifestDependencyOrigin::workspace(), true, vec![], false);
    add_dependency_to_dependencies_table(
        doc["dependencies"].as_table_mut().unwrap(),
        "log",
        &config,
    );
    assert_eq!(
        doc.to_string(),
        "[dependencies]\nserde = \"1\"\nlog = { workspace = true }\n[dependencies.rand]\nversion = \"0.8\"\n"
    );
}

fn table_after_adding(config: ManifestDependencyConfig) -> String {
    let mut dependencies = toml_edit::Table::new();
    add_dependency_to_dependencies_table(&mut dependencies, "dependency", &config);
    dependencies.to_string()
}

#[test]
fn add_dependency_to_dependencies_table_workspace_dependency() {
    let text = table_after_adding(ManifestDependencyConfig::new(
        ManifestDependencyOrigin::workspace(),
        true,
        vec![],
        false,
    ));
    assert_eq!(text, "dependency = { workspace = true }\n");
}

#[test]
fn add_dependency_to_dependencies_table_crates_io_dependency() {
    let text = table_after_adding(ManifestDependencyConfig::new(
        ManifestDependencyOrigin::crates_io("1.0.0"),
        true,
        vec![],
        false,
    ));
    assert_eq!(text, "dependency = { version = \"1.0.0\" }\n");
}

#[test]
fn add_dependency_to_dependencies_table_git_dependency() {
    let text = table_after_adding(ManifestDependencyConfig::new(
        ManifestDependencyOrigin::git("https://some_url.com", "stable"),
        true,
        vec![],
        false,
    ));
    assert_eq!(text, "dependency = { git = \"https://some_url.com\", branch = \"stable\" }\n");
}

#[test]
fn add_dependency_to_dependencies_table_local_dependency() {
    let text = table_after_adding(ManifestDependencyConfig::new(
        ManifestDependencyOrigin::local("../path"),
        true,
        vec![],
        false,
    ));
    assert_eq!(text, "dependency = { path = \"../path\" }\n");
}

#[test]
fn add_dependency_to_dependencies_table_dependency_no_default_features() {
    let text = table_after_adding(ManifestDependencyConfig::new(
        ManifestDependencyOrigin::local("../path"),
        false,
        vec![],
        false,
    ));
    assert_eq!(text, "dependency = { path = \"../path\", default-features = false }\n");
}

#[test]
fn add_dependency_to_dependencies_table_dependency_with_features() {
    let text = table_after_adding(ManifestDependencyConfig::new(
        ManifestDependencyOrigin::local("../path"),
        true,
        vec!["feature_a", "feature_b"],
        false,
    ));
    assert_eq!(
        text,
        "dependency = { path = \"../path\", features = [\"feature_a\", \"feature_b\"] }\n"
    );
}

#[test]
fn add_dependency_to_dependencies_table_optional_dependency() {
    let text = table_after_adding(ManifestDependencyConfig::new(
        ManifestDependencyOrigin::local("../path"),
        true,
        vec![],
        true,
    ));
    assert_eq!(text, "dependency = { path = \"../path\", optional = true }\n");
}

const BUILT_CRATE_MANIFEST: &str = r#"
[package]
name = "test"
version = "0.1.0"
edition = "2021"

[dependencies]
        "#;

const BUILT_WORKSPACE_MANIFEST: &str = r#"
[workspace]
resolver = "2"
members = ["crate"]

[workspace.dependencies]
        "#;

#[test]
fn add_crate_to_dependencies_crate_manifest_with_dependencies_section() {
    let config =
        ManifestDependencyConfig::new(ManifestDependencyOrigin::local("../path"), true, vec![], false);
    let text = add_crate_to_manifest_text(BUILT_CRATE_MANIFEST, "dependency", &config).unwrap();
    assert_eq!(
        text,
        r#"
[package]
name = "test"
version = "0.1.0"
edition = "2021"

[dependencies]
dependency = { path = "../path" }
        "#
    );
}

#[test]
fn add_crate_to_dependencies_workspace_manifest_with_dependencies_section() {
    let config =
        ManifestDependencyConfig::new(ManifestDependencyOrigin::local("../path"), true, vec![], false);
    let text = add_crate_to_manifest_text(BUILT_WORKSPACE_MANIFEST, "dependency", &config).unwrap();
    assert_eq!(
        text,
        r#"
[workspace]
resolver = "2"
members = ["crate"]

[workspace.dependencies]
dependency = { path = "../path" }
        "#
    );
}

#[test]
fn add_crate_to_dependencies_crate_manifest_without_dependencies_section() {
    let manifest = r#"
[package]
name = "test"
version = "0.1.0"
edition = "2021"
"#;
    let config =
        ManifestDependencyConfig::new(ManifestDependencyOrigin::workspace(), true, vec![], false);
    let text = add_crate_to_manifest_text(manifest, "dependency", &config).unwrap();
    assert_eq!(
        text,
        r#"
[package]
name = "test"
version = "0.1.0"
edition = "2021"

[dependencies]
dependency = { workspace = true }
"#
    );
}

#[test]
fn add_crate_to_dependencies_workspace_manifest_without_dependencies_section() {
    let manifest = r#"
[workspace]
resolver = "2"
members = ["crate"]
"#;
    let config =
        ManifestDependencyConfig::new(ManifestDependencyOrigin::crates_io("0.1.0"), true, vec![], false);
    let text = add_crate_to_manifest_text(manifest, "dependency", &config).unwrap();
    assert_eq!(
        text,
        r#"
[workspace]
resolver = "2"
members = ["crate"]

[workspace.dependencies]
dependency = { version = "0.1.0" }
"#
    );
}

#[test]
fn add_crate_to_dependencies_works_for_empty_manifest() {
    let config =
        ManifestDependencyConfig::new(ManifestDependencyOrigin::workspace(), true, vec![], false);
    let text = add_crate_to_manifest_text("", "dependency", &config).unwrap();
    assert_eq!(
        text,
        r#"[dependencies]
dependency = { workspace = true }
"#
    );
}

#[test]
fn add_crate_to_dependencies_fails_if_manifest_path_cannot_be_parsed() {
    let config =
        ManifestDependencyConfig::new(ManifestDependencyOrigin::workspace(), false, vec![], false);
    assert!(add_crate_to_manifest_text("use std::fs;", "dependency", &config).is_err());
}

#[test]
fn plain_values_of_a_manifest_are_kept() {
    let manifest = "[package]\nname = \"x\"\n\n[dependencies]\nserde = \"1\"\n";
    let config =
        ManifestDependencyConfig::new(ManifestDependencyOrigin::crates_io("2"), true, vec![], false);
    let text = add_crate_to_manifest_text(manifest, "log", &config).unwrap();
    assert_eq!(
        text,
        "[package]\nname = \"x\"\n\n[dependencies]\nserde = \"1\"\nlog = { version = \"2\" }\n"
    );
}
