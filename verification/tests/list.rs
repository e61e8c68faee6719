use finder::delegate::StringMatch;
use finder::list::{ListPlan, LIST_PLACEHOLDER, MAX_LIST_MATCHES};
use finder::{FinderListDelegate, FinderListEntry, FinderRegistry};

const CONFIG: &str = r#"
    [finder.branches]
    label = "Git Branches"
    source = { type = "command", command = "git" }
    outcome = { type = "open_path" }
    [finder.bad]
"#;

fn list() -> FinderListDelegate {
    let mut registry = FinderRegistry::new();
    registry.apply(CONFIG);
    FinderListDelegate::new(registry.entries())
}

#[test]
fn without_a_query_every_row_is_listed() {
    let mut list = list();
    assert_eq!(list.candidates(), vec!["Git Branches", "bad"]);
    let ListPlan::List(matches) = list.update_matches("") else {
        panic!("expected all rows");
    };
    list.install_matches(matches);
    assert_eq!(list.match_count(), 2);
    assert_eq!(list.selected_index(), 0);
    assert_eq!(list.confirm().as_deref(), Some("branches"));
    list.set_selected_index(1);
    assert_eq!(list.confirm().as_deref(), Some("bad"));
    assert!(matches!(list.entry_at(1), Some(FinderListEntry::Broken { .. })));
    assert_eq!(list.match_at(1).map(|found| found.string.as_str()), Some("bad"));
    list.set_selected_index(2);
    assert!(list.confirm().is_none());
    assert!(list.selected_entry().is_none());
}

#[test]
fn a_query_is_matched_against_the_labels() {
    let mut list = list();
    assert_eq!(
        list.update_matches("ba"),
        ListPlan::Match { query: "ba".into(), limit: MAX_LIST_MATCHES }
    );
    list.set_selected_index(1);
    list.install_matches(vec![StringMatch {
        candidate_id: 1,
        positions: vec![0, 1],
        string: "bad".into(),
    }]);
    assert_eq!(list.selected_index(), 0);
    assert_eq!(list.confirm().as_deref(), Some("bad"));
}

#[test]
fn an_empty_list_says_why() {
    assert_eq!(list().no_matches_text(), "No matches");
    assert_eq!(FinderListDelegate::new(Vec::new()).no_matches_text(), "No finders configured");
    assert_eq!(LIST_PLACEHOLDER, "Open a finder…");
}
