use finder::document::{Outline, TomlDocument, TomlValue, TopKey};
use finder::names::NameMap;
use finder::open::{OpenFinder, OpenFinderList};
use finder::{open_finder, open_finder_list, FinderListEntry, FinderLookup, FinderRegistry};

const ONE_FINDER: &str = r#"
    [finder.project-files]
    source = { type = "command", command = "git", args = ["ls-files"] }
    outcome = { type = "open_path" }
"#;

const BROKEN_FINDER: &str = r#"
    [finder.project-files]
    source = { type = "command" }
    outcome = { type = "open_path" }
"#;

fn registry_over(contents: &str) -> FinderRegistry {
    let mut registry = FinderRegistry::new();
    registry.apply(contents);
    registry
}

#[test]
fn loads_finders_from_the_config_file() {
    let registry = registry_over(ONE_FINDER);
    assert!(matches!(
        registry.lookup("project-files"),
        FinderLookup::Found(_)
    ));
}

#[test]
fn reports_an_unknown_finder_as_missing() {
    let registry = registry_over(ONE_FINDER);
    assert!(matches!(
        registry.lookup("nonexistent"),
        FinderLookup::Missing
    ));
}

#[test]
fn distinguishes_a_broken_finder_from_a_missing_one() {
    let registry = registry_over(
        r#"
        [finder.broken]
        source = { type = "command" }
        outcome = { type = "open_path" }
        "#,
    );
    assert!(matches!(
        registry.lookup("broken"),
        FinderLookup::Broken { .. }
    ));
    assert!(matches!(registry.lookup("absent"), FinderLookup::Missing));
}

#[test]
fn a_broken_finder_leaves_its_siblings_usable() {
    let registry = registry_over(
        r#"
        [finder.good]
        source = { type = "command", command = "git" }
        outcome = { type = "open_path" }

        [finder.bad]
        source = { type = "command" }
        outcome = { type = "open_path" }
        "#,
    );
    assert!(matches!(registry.lookup("good"), FinderLookup::Found(_)));
    assert!(matches!(
        registry.lookup("bad"),
        FinderLookup::Broken { .. }
    ));
    assert_eq!(registry.entries().len(), 2);
}

#[test]
fn picks_up_edits_without_a_restart() {
    let mut registry = registry_over(ONE_FINDER);
    registry.apply(
        r#"
        [finder.renamed]
        source = { type = "command", command = "git" }
        outcome = { type = "open_path" }
        "#,
    );
    assert!(matches!(registry.lookup("renamed"), FinderLookup::Found(_)));
    assert!(matches!(
        registry.lookup("project-files"),
        FinderLookup::Missing
    ));
}

#[test]
fn a_finder_recovers_once_its_config_is_fixed() {
    let mut registry = registry_over(BROKEN_FINDER);
    assert!(matches!(
        registry.lookup("project-files"),
        FinderLookup::Broken { .. }
    ));

    registry.apply(ONE_FINDER);
    assert!(matches!(
        registry.lookup("project-files"),
        FinderLookup::Found(_)
    ));
}

#[test]
fn a_malformed_file_is_reported_as_a_file_error() {
    let registry = registry_over("this is not toml {{{");
    assert!(registry.file_error().is_some());
    assert!(registry.entries().is_empty());
}

#[test]
fn a_malformed_file_clears_what_was_loaded_and_a_good_one_clears_the_error() {
    let mut registry = registry_over(ONE_FINDER);
    registry.apply("{{{");
    assert!(registry.file_error().is_some());
    assert!(matches!(registry.lookup("project-files"), FinderLookup::Missing));
    registry.apply(ONE_FINDER);
    assert!(registry.file_error().is_none());
    assert_eq!(registry.entries().len(), 1);
}

#[test]
fn a_found_finder_is_the_one_of_that_name() {
    let registry = registry_over(ONE_FINDER);
    let FinderLookup::Found(config) = registry.lookup("project-files") else {
        panic!("expected the finder");
    };
    assert_eq!(config.name, "project-files");
    assert_eq!(config.source.args(), ["ls-files".to_string()]);
}

#[test]
fn rows_come_by_name_with_the_failed_ones_last() {
    let registry = registry_over(
        r#"
        [finder.zeta]
        label = "A label"
        source = { type = "command", command = "git" }
        outcome = { type = "open_path" }
        [finder.beta]
        [finder.alpha]
        [finder.gamma]
        source = { type = "command", command = "git" }
        outcome = { type = "open_path" }
        "#,
    );
    let rows = registry.entries();
    let names: Vec<&str> = rows.iter().map(|row| row.name()).collect();
    assert_eq!(names, vec!["gamma", "zeta", "alpha", "beta"]);
    let labels: Vec<String> = rows.iter().map(|row| row.label()).collect();
    assert_eq!(labels, vec!["gamma", "A label", "alpha", "beta"]);
    assert!(matches!(
        &rows[2],
        FinderListEntry::Broken { error, .. } if error == "missing field `source`\n"
    ));
    for row in &rows {
        match row {
            FinderListEntry::Finder(config) => {
                assert!(matches!(
                    registry.lookup(row.name()),
                    FinderLookup::Found(found) if found.name == config.name
                ));
            }
            FinderListEntry::Broken { name, error } => {
                assert!(matches!(
                    registry.lookup(name),
                    FinderLookup::Broken { error: found } if &found == error
                ));
            }
        }
    }
}

#[test]
fn a_registry_starts_without_finders() {
    let registry = FinderRegistry::new();
    assert!(registry.entries().is_empty());
    assert!(registry.file_error().is_none());
    assert!(matches!(registry.lookup("x"), FinderLookup::Missing));
}

#[test]
fn a_document_that_was_parsed_can_be_applied() {
    let mut registry = FinderRegistry::new();
    let document = TomlDocument {
        keys: vec![TopKey {
            key: "finder".to_string(),
            start: 0,
            end: 6,
            outline: Outline::Table(vec![("x".to_string(), Outline::Scalar)]),
        }],
        tables: Ok(vec![(
            "finder".to_string(),
            TomlValue::Table(vec![("x".to_string(), TomlValue::Integer(1))]),
        )]),
    };
    registry.apply_document("finder = { x = 1 }", Ok(document));
    assert!(matches!(registry.lookup("x"), FinderLookup::Broken { .. }));
    registry.apply_document("", Err("no TOML".to_string()));
    assert_eq!(registry.file_error(), Some("parsing finder config: no TOML"));
}

fn message(opened: OpenFinder) -> String {
    match opened {
        OpenFinder::ShowError(message) => message,
        other => panic!("expected an error, got {other:?}"),
    }
}

#[test]
fn an_unknown_finder_opens_nothing() {
    let registry = registry_over(ONE_FINDER);
    let opened = open_finder(Some(&registry), "nonexistent", Some("/project"));
    assert_eq!(message(opened), "No finder named `nonexistent`");
}

#[test]
fn a_broken_finder_opens_nothing() {
    let registry = registry_over(
        r#"
        [finder.demo]
        source = { type = "command" }
        outcome = { type = "open_path" }
        "#,
    );
    let opened = open_finder(Some(&registry), "demo", Some("/project"));
    assert_eq!(
        message(opened),
        "Finder `demo` failed to load: missing field `command`\nin `source`\n"
    );
}

#[test]
fn a_finder_needs_an_open_project() {
    let registry = registry_over(ONE_FINDER);
    assert_eq!(
        message(open_finder(Some(&registry), "project-files", None)),
        "Finder `project-files` needs an open project to run in"
    );
    let OpenFinder::Show { config, cwd } =
        open_finder(Some(&registry), "project-files", Some("/project"))
    else {
        panic!("expected the finder to open");
    };
    assert_eq!((config.name.as_str(), cwd.as_str()), ("project-files", "/project"));
    assert!(matches!(open_finder(None, "project-files", Some("/p")), OpenFinder::Nothing));
}

#[test]
fn the_list_opens_unless_the_file_could_not_be_read() {
    let registry = registry_over(ONE_FINDER);
    assert!(matches!(
        open_finder_list(Some(&registry)),
        OpenFinderList::Show(rows) if rows.len() == 1
    ));
    let mut registry = FinderRegistry::new();
    registry.apply_document("", Err("broken".to_string()));
    assert!(matches!(
        open_finder_list(Some(&registry)),
        OpenFinderList::ShowError(message)
            if message == "finders.toml could not be read: parsing finder config: broken"
    ));
    assert!(matches!(open_finder_list(None), OpenFinderList::Nothing));
}

#[test]
fn names_come_out_in_the_order_of_their_characters() {
    let mut map: NameMap<u64> = NameMap::new();
    assert!(map.is_empty());
    let names = ["b", "", "ab", "ä", "a", "B", "aa", "\u{1f600}", "\u{fffd}"];
    for (i, name) in names.iter().enumerate() {
        map.insert(name.to_string(), i as u64);
    }
    map.insert("a".to_string(), 100);
    let listed: Vec<&str> = (0..map.len()).map(|i| map.at(i).0).collect();
    let mut sorted = names.to_vec();
    sorted.sort();
    assert_eq!(listed, sorted);
    assert_eq!(map.get("a"), Some(&100));
    assert_eq!(map.get("ab"), Some(&2));
    assert_eq!(map.get("c"), None);
    assert!(map.contains_key("") && !map.contains_key("zz"));
}
