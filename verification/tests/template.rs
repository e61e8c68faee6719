use finder::template::{fields, substitute, substitute_args, MissingField, WHOLE_ENTRY};

#[test]
fn fields_default_to_splitting_on_whitespace_runs() {
    assert_eq!(fields("  M   src/main.rs ", None), vec!["M", "src/main.rs"]);
}

#[test]
fn an_explicit_delimiter_keeps_empty_fields() {
    assert_eq!(fields("a::b", Some(":")), vec!["a", "", "b"]);
}

#[test]
fn an_empty_delimiter_counts_as_none() {
    assert_eq!(fields("a  b", Some("")), vec!["a", "b"]);
}

#[test]
fn a_longer_delimiter_is_found_from_the_left() {
    assert_eq!(fields("a:::b", Some("::")), vec!["a", ":b"]);
    assert_eq!(fields("", Some("::")), vec![""]);
    assert_eq!(fields("::", Some("::")), vec!["", ""]);
}

#[test]
fn fields_split_on_every_kind_of_whitespace() {
    assert_eq!(fields("a\u{3000}b\u{a0}c\t\r\nd", None), vec!["a", "b", "c", "d"]);
    assert!(fields(" \t ", None).is_empty());
}

#[test]
fn fields_joined_by_their_delimiter_give_the_entry_back() {
    for entry in ["", ":", "a:b", "::a::", "no delimiter", "ä:ö:ü"] {
        assert_eq!(fields(entry, Some(":")).join(":"), entry);
    }
}

#[test]
fn a_numbered_placeholder_names_a_field_from_one() {
    assert_eq!(
        substitute("{2}", "abc1234 Fix the crash", None),
        Ok("Fix".to_string())
    );
}

#[test]
fn the_bare_placeholder_still_means_the_whole_entry() {
    assert_eq!(
        substitute("{}", "abc1234 Fix the crash", None),
        Ok("abc1234 Fix the crash".to_string())
    );
    assert_eq!(WHOLE_ENTRY, "{}");
}

#[test]
fn placeholders_mix_with_surrounding_text() {
    assert_eq!(
        substitute("{1}:{2}", "src/a.rs:12:3:text", Some(":")),
        Ok("src/a.rs:12".to_string())
    );
}

#[test]
fn naming_a_field_that_is_not_there_is_an_error() {
    assert_eq!(
        substitute("{4}", "one two", None),
        Err(MissingField {
            index: 4,
            entry: "one two".into(),
            available: 2,
        })
    );
}

#[test]
fn a_missing_field_says_what_it_needs() {
    let error = substitute("{4}", "one two", None).expect_err("no fourth field");
    assert_eq!(error.to_string(), "`{4}` needs field 4 but `one two` has 2");
}

#[test]
fn the_first_missing_field_is_the_error() {
    let error = substitute("{5} {4}", "one", None).expect_err("one field only");
    assert_eq!(error.index, 5);
}

#[test]
fn unrecognised_braces_are_left_alone() {
    assert_eq!(
        substitute("stash@{0} {1}", "stash@{0}: WIP", Some(": ")),
        Ok("stash@{0} stash@{0}".to_string())
    );
}

#[test]
fn braces_around_anything_but_a_number_are_left_alone() {
    for template in ["{0}", "{-1}", "{ 1}", "{1 }", "{x}", "{99999999999999999999999}", "{{}"] {
        assert_eq!(substitute(template, "one", None), Ok(template.to_string()));
    }
}

#[test]
fn a_number_may_carry_a_sign_and_leading_zeros() {
    assert_eq!(substitute("{+1}{001}", "one", None), Ok("oneone".to_string()));
}

#[test]
fn an_unclosed_brace_is_left_alone() {
    assert_eq!(substitute("{1", "one two", None), Ok("{1".to_string()));
}

#[test]
fn an_unclosed_brace_keeps_what_was_replaced_before_it() {
    assert_eq!(substitute("{}-{1", "a b", None), Ok("a b-{1".to_string()));
}

#[test]
fn a_template_without_a_brace_is_left_alone() {
    assert_eq!(substitute("plain } text", "x", None), Ok("plain } text".to_string()));
}

#[test]
fn a_replacement_is_not_read_for_placeholders_again() {
    assert_eq!(substitute("{}", "{1} {2}", None), Ok("{1} {2}".to_string()));
    assert_eq!(substitute("{1}", "{2} x", None), Ok("{2}".to_string()));
}

#[test]
fn substitution_replaces_every_placeholder_in_args() {
    assert_eq!(
        substitute_args(
            &["log".into(), "{}".into(), "{}..HEAD".into()],
            "main",
            None
        )
        .expect("no fields named"),
        vec![
            "log".to_string(),
            "main".to_string(),
            "main..HEAD".to_string()
        ]
    );
}

#[test]
fn substitution_leaves_args_without_a_placeholder_alone() {
    assert_eq!(
        substitute_args(&["ls-files".into()], "main", None).expect("no fields named"),
        vec!["ls-files".to_string()]
    );
}

#[test]
fn a_missing_field_in_any_argument_is_the_error() {
    let error = substitute_args(&["{1}".into(), "{2}".into(), "{3}".into()], "main", None)
        .expect_err("one field only");
    assert_eq!(error.index, 2);
}
