use finder::config::{
    has_query_placeholder, substitute_query, Outcome, Preview, RunOn, Source, QUERY_PLACEHOLDER,
};
use finder::document::{is_table, Outline, TomlDocument, TomlValue, TopKey};
use finder::json::{substitute_json, Json, JsonNumber};
use finder::parse::{load_finder, parse_config, read_document, ParsedConfig};
use finder::template::WHOLE_ENTRY;

fn parse_ok(contents: &str) -> ParsedConfig {
    parse_config(contents).expect("expected the file itself to be valid TOML")
}

fn text(text: &str) -> Json {
    Json::Text(text.to_string())
}

fn object(members: Vec<(&str, Json)>) -> Json {
    Json::Object(members.into_iter().map(|(key, value)| (key.to_string(), value)).collect())
}

fn member<'a>(value: &'a Json, name: &str) -> Option<&'a Json> {
    match value {
        Json::Object(members) => members.iter().find(|(key, _)| key == name).map(|(_, value)| value),
        _ => None,
    }
}

fn finder_error(body: &str) -> String {
    let parsed = parse_ok(&format!("[finder.x]\n{body}\n"));
    assert!(parsed.finders.is_empty());
    parsed.errors.get("x").expect("the finder is broken").clone()
}

const OK_SOURCE: &str = r#"source = { type = "command", command = "git" }"#;
const OK_OUTCOME: &str = r#"outcome = { type = "open_path" }"#;

#[test]
fn parses_a_minimal_finder() {
    let parsed = parse_ok(
        r#"
        [finder.project-files]
        source = { type = "command", command = "git", args = ["ls-files"] }
        outcome = { type = "open_path" }
        "#,
    );

    assert!(parsed.errors.is_empty());
    let finder = parsed.finders.get("project-files").expect("finder present");
    assert_eq!(finder.name, "project-files");
    assert_eq!(
        finder.source,
        Source::Command {
            command: "git".into(),
            args: vec!["ls-files".into()],
        }
    );
    assert_eq!(finder.outcome, Outcome::OpenPath { path: None });
}

#[test]
fn label_defaults_to_the_table_key_and_placeholder_follows_the_label() {
    let parsed = parse_ok(
        r#"
        [finder.git-branches]
        source = { type = "command", command = "git" }
        outcome = { type = "open_path" }
        "#,
    );

    let finder = parsed.finders.get("git-branches").expect("finder present");
    assert_eq!(finder.label, "git-branches");
    assert_eq!(finder.placeholder, "Search git-branches…");
}

#[test]
fn explicit_label_and_placeholder_win() {
    let parsed = parse_ok(
        r#"
        [finder.git-branches]
        label = "Git Branches"
        placeholder = "Switch branch…"
        source = { type = "command", command = "git" }
        outcome = { type = "open_path" }
        "#,
    );

    let finder = parsed.finders.get("git-branches").expect("finder present");
    assert_eq!(finder.label, "Git Branches");
    assert_eq!(finder.placeholder, "Switch branch…");
}

#[test]
fn placeholder_derives_from_an_explicit_label() {
    let parsed = parse_ok(
        r#"
        [finder.git-branches]
        label = "Git Branches"
        source = { type = "command", command = "git" }
        outcome = { type = "open_path" }
        "#,
    );

    let finder = parsed.finders.get("git-branches").expect("finder present");
    assert_eq!(finder.placeholder, "Search Git Branches…");
}

#[test]
fn an_unknown_key_is_rejected() {
    let parsed = parse_ok(
        r#"
        [finder.typo]
        lable = "Misspelled"
        source = { type = "command", command = "git" }
        outcome = { type = "open_path" }
        "#,
    );

    assert!(parsed.finders.is_empty());
    assert!(parsed.errors.contains_key("typo"));
    assert_eq!(
        parsed.errors.get("typo").expect("present"),
        "unknown field `lable`, expected one of `label`, `placeholder`, `source`, `outcome`, \
         `preview`, `delimiter`, `run_on`\n"
    );
}

#[test]
fn a_missing_source_is_rejected() {
    let parsed = parse_ok(
        r#"
        [finder.incomplete]
        outcome = { type = "open_path" }
        "#,
    );

    assert!(parsed.finders.is_empty());
    assert!(parsed.errors.contains_key("incomplete"));
}

#[test]
fn an_unknown_source_type_is_rejected() {
    let parsed = parse_ok(
        r#"
        [finder.futuristic]
        source = { type = "futuristic", command = "rg" }
        outcome = { type = "open_path" }
        "#,
    );

    assert!(parsed.finders.is_empty());
    assert!(parsed.errors.contains_key("futuristic"));
}

#[test]
fn one_broken_finder_leaves_its_siblings_working() {
    let parsed = parse_ok(
        r#"
        [finder.good]
        source = { type = "command", command = "git" }
        outcome = { type = "open_path" }

        [finder.bad]
        source = { type = "command" }
        outcome = { type = "open_path" }
        "#,
    );

    assert!(parsed.finders.contains_key("good"));
    assert!(parsed.errors.contains_key("bad"));
    assert!(!parsed.finders.contains_key("bad"));
    assert!(!parsed.errors.contains_key("good"));
}

#[test]
fn a_duplicate_finder_name_is_rejected_by_toml_itself() {
    let error = parse_config(
        r#"
        [finder.repeated]
        source = { type = "command", command = "git" }
        outcome = { type = "open_path" }

        [finder.repeated]
        source = { type = "command", command = "ls" }
        outcome = { type = "open_path" }
        "#,
    );

    assert!(error.is_err());
}

#[test]
fn an_empty_file_yields_no_finders() {
    let parsed = parse_ok("");
    assert!(parsed.finders.is_empty());
    assert!(parsed.errors.is_empty());
}

#[test]
fn run_command_carries_its_executable_and_arguments() {
    let parsed = parse_ok(
        r#"
        [finder.checkout]
        source = { type = "command", command = "git", args = ["branch", "--format=%(refname:short)"] }
        outcome = { type = "run_command", command = "git", args = ["checkout", "{1}"] }
        "#,
    );

    let finder = parsed.finders.get("checkout").expect("finder present");
    assert_eq!(
        finder.outcome,
        Outcome::RunCommand {
            command: "git".into(),
            args: vec!["checkout".into(), "{1}".into()],
        }
    );
}

#[test]
fn run_command_defaults_to_no_arguments() {
    let parsed = parse_ok(
        r#"
        [finder.refresh]
        source = { type = "command", command = "git" }
        outcome = { type = "run_command", command = "refresh-index" }
        "#,
    );

    let finder = parsed.finders.get("refresh").expect("finder present");
    assert_eq!(
        finder.outcome,
        Outcome::RunCommand {
            command: "refresh-index".into(),
            args: Vec::new(),
        }
    );
}

#[test]
fn run_command_rejects_execution_policy_fields() {
    let parsed = parse_ok(
        r#"
        [finder.checkout]
        source = { type = "command", command = "git" }
        outcome = { type = "run_command", command = "git", timeout = 5 }
        "#,
    );

    assert!(parsed.finders.is_empty());
    let error = parsed.errors.get("checkout").expect("finder error present");
    assert!(error.contains("timeout"), "unexpected error: {error}");
}

#[test]
fn dispatch_action_carries_its_arguments() {
    let parsed = parse_ok(
        r#"
        [finder.tasks]
        source = { type = "command", command = "git" }
        outcome = { type = "dispatch_action", action = "task::Spawn", args = { task_name = "checkout-{}" } }
        "#,
    );

    let finder = parsed.finders.get("tasks").expect("finder present");
    let Outcome::DispatchAction { action, args } = &finder.outcome else {
        panic!("expected a dispatch_action outcome");
    };
    assert_eq!(action, "task::Spawn");
    assert_eq!(
        args.as_ref().and_then(|args| member(args, "task_name")),
        Some(&text("checkout-{}"))
    );
}

/// TOML forbids bare newlines inside an inline table, but permits them
/// inside an array that the inline table contains.
#[test]
fn a_multi_line_argument_array_inside_an_inline_table_parses() {
    let parsed = parse_ok(
        r#"
        [finder.git-files]
        source = { type = "command", command = "git", args = [
          "ls-files",
          "--cached",
          "--others",
        ] }
        outcome = { type = "open_path" }
        "#,
    );

    assert!(parsed.errors.is_empty(), "errors: {:?}", parsed.errors);
    let finder = parsed.finders.get("git-files").expect("finder present");
    assert_eq!(
        finder.source,
        Source::Command {
            command: "git".into(),
            args: vec!["ls-files".into(), "--cached".into(), "--others".into()],
        }
    );
}

#[test]
fn a_finder_has_no_preview_unless_it_asks_for_one() {
    let parsed = parse_ok(
        r#"
        [finder.plain]
        source = { type = "command", command = "git" }
        outcome = { type = "open_path" }
        "#,
    );

    let finder = parsed.finders.get("plain").expect("finder present");
    assert_eq!(finder.preview, None);
}

#[test]
fn a_path_preview_is_declared_explicitly() {
    let parsed = parse_ok(
        r#"
        [finder.files]
        source = { type = "command", command = "git" }
        outcome = { type = "open_path" }
        preview = { type = "path" }
        "#,
    );

    let finder = parsed.finders.get("files").expect("finder present");
    assert_eq!(finder.preview, Some(Preview::Path));
}

#[test]
fn an_unknown_preview_type_is_rejected() {
    let parsed = parse_ok(
        r#"
        [finder.futuristic]
        source = { type = "command", command = "git" }
        outcome = { type = "open_path" }
        preview = { type = "command", command = "bat" }
        "#,
    );

    assert!(parsed.finders.is_empty());
    assert!(parsed.errors.contains_key("futuristic"));
}

#[test]
fn a_delimiter_and_a_path_template_round_trip() {
    let parsed = parse_ok(
        r#"
        [finder.grep]
        delimiter = ":"
        source = { type = "command", command = "rg" }
        outcome = { type = "open_path_at_position", path = "{1}:{2}:{3}" }
        "#,
    );

    let finder = parsed.finders.get("grep").expect("finder present");
    assert_eq!(finder.delimiter.as_deref(), Some(":"));
    assert_eq!(
        finder.outcome,
        Outcome::OpenPathAtPosition {
            path: Some("{1}:{2}:{3}".into()),
        }
    );
    assert!(finder.outcome.path_carries_position());
}

#[test]
fn an_outcome_without_a_path_template_defaults_to_the_whole_entry() {
    assert_eq!(
        Outcome::OpenPath { path: None }.path_template(),
        Some(WHOLE_ENTRY)
    );
    assert_eq!(
        Outcome::DispatchAction {
            action: "zed::OpenBrowser".into(),
            args: None,
        }
        .path_template(),
        None
    );
}

#[test]
fn a_missing_field_in_action_arguments_is_reported() {
    let value = object(vec![("name", text("{9}"))]);
    assert!(substitute_json(&value, "one two", None).is_err());
}

#[test]
fn substitution_reaches_string_leaves_at_any_depth() {
    let nested = |leaf: &str| {
        object(vec![
            ("name", text(leaf)),
            (
                "nested",
                object(vec![(
                    "deep",
                    Json::Array(vec![
                        text(leaf),
                        Json::Number(JsonNumber::PosInt(7)),
                        Json::Bool(true),
                    ]),
                )]),
            ),
        ])
    };

    assert_eq!(
        substitute_json(&nested("{}"), "main", None).expect("no fields named"),
        nested("main")
    );
}

#[test]
fn substitution_leaves_keys_and_scalars_alone() {
    let value = object(vec![
        ("{}", Json::Null),
        ("n", Json::Number(JsonNumber::NegInt(-3))),
    ]);
    assert_eq!(substitute_json(&value, "main", None).expect("no fields named"), value);
    assert_eq!(value.clone(), value);
}

#[test]
fn the_first_missing_field_in_action_arguments_is_the_error() {
    let value = Json::Array(vec![text("{1}"), object(vec![("a", text("{7}"))]), text("{8}")]);
    let error = substitute_json(&value, "one", None).expect_err("one field only");
    assert_eq!(error.index, 7);
}

#[test]
fn parses_a_query_driven_finder() {
    let parsed = parse_ok(
        r#"
        [finder.demo]
        source = { type = "query", command = "rg", args = ["--line-number", "{query}"] }
        outcome = { type = "open_path" }
        "#,
    );

    assert!(parsed.errors.is_empty());
    let finder = parsed.finders.get("demo").expect("finder present");
    assert_eq!(
        finder.source,
        Source::Query {
            command: "rg".into(),
            args: vec!["--line-number".into(), "{query}".into()],
        }
    );
    assert!(finder.source.is_query_driven());
}

#[test]
fn a_query_source_without_the_placeholder_is_rejected() {
    let parsed = parse_ok(
        r#"
        [finder.demo]
        source = { type = "query", command = "rg", args = ["--files"] }
        outcome = { type = "open_path" }
        "#,
    );

    assert!(parsed.finders.is_empty());
    let error = parsed.errors.get("demo").expect("the finder is broken");
    assert!(
        error.contains("{query}"),
        "expected the error to name the placeholder, got {error}"
    );
}

#[test]
fn substitute_query_replaces_every_placeholder() {
    assert_eq!(
        substitute_query(
            &["rg".into(), "{query}".into(), "--glob=!{query}".into()],
            "foo",
        ),
        vec!["rg", "foo", "--glob=!foo"],
    );
}

#[test]
fn substitute_query_leaves_args_without_the_placeholder_alone() {
    assert_eq!(
        substitute_query(&["rg".into(), "--files".into()], "foo"),
        vec!["rg", "--files"],
    );
}

#[test]
fn a_query_is_not_read_for_the_placeholder_again() {
    assert_eq!(
        substitute_query(&["{query}{query}".into()], "{query}"),
        vec!["{query}{query}"],
    );
    assert_eq!(substitute_query(&["{{query}}".into()], "x"), vec!["{x}"]);
}

#[test]
fn the_query_placeholder_is_found_in_any_argument() {
    assert!(has_query_placeholder(&["-e".into(), format!("--x={QUERY_PLACEHOLDER}")]));
    assert!(!has_query_placeholder(&["{quer".into(), "y}".into()]));
    assert!(!has_query_placeholder(&[]));
}

#[test]
fn a_source_names_its_command_and_arguments() {
    for source in [
        Source::Command { command: "rg".into(), args: vec!["a".into()] },
        Source::Query { command: "rg".into(), args: vec!["a".into()] },
    ] {
        assert_eq!(source.command(), "rg");
        assert_eq!(source.args(), ["a".to_string()]);
    }
}

#[test]
fn run_on_defaults_to_auto_when_omitted() {
    let parsed = parse_ok(
        r#"
        [finder.plain]
        source = { type = "command", command = "git" }
        outcome = { type = "open_path" }
        "#,
    );

    let finder = parsed.finders.get("plain").expect("finder present");
    assert_eq!(finder.run_on, RunOn::Auto);
    assert_eq!(RunOn::default(), RunOn::Auto);
}

#[test]
fn run_on_local_parses() {
    let parsed = parse_ok(
        r#"
        [finder.local-only]
        run_on = "local"
        source = { type = "command", command = "rg" }
        outcome = { type = "open_path" }
        "#,
    );

    let finder = parsed.finders.get("local-only").expect("finder present");
    assert_eq!(finder.run_on, RunOn::Local);
}

#[test]
fn an_unknown_run_on_value_is_rejected() {
    let parsed = parse_ok(
        r#"
        [finder.futuristic]
        run_on = "mars"
        source = { type = "command", command = "git" }
        outcome = { type = "open_path" }
        "#,
    );

    assert!(parsed.finders.is_empty());
    let error = parsed.errors.get("futuristic").expect("finder error present");
    assert!(error.contains("run_on"), "unexpected error: {error}");
    assert_eq!(
        error,
        "unknown variant `mars`, expected `auto` or `local`\nin `run_on`\n"
    );
}

#[test]
fn a_missing_outcome_is_rejected_after_a_missing_source() {
    assert_eq!(finder_error(OK_SOURCE), "missing field `outcome`\n");
    assert_eq!(finder_error(""), "missing field `source`\n");
}

#[test]
fn a_key_of_another_type_is_rejected() {
    assert_eq!(
        finder_error(&format!("label = 5\n{OK_SOURCE}\n{OK_OUTCOME}")),
        "invalid type: integer `5`, expected a string\nin `label`\n"
    );
    assert_eq!(
        finder_error(&format!("delimiter = true\n{OK_SOURCE}\n{OK_OUTCOME}")),
        "invalid type: boolean `true`, expected a string\nin `delimiter`\n"
    );
    assert_eq!(
        finder_error(&format!("placeholder = 1.0\n{OK_SOURCE}\n{OK_OUTCOME}")),
        "invalid type: floating point `1.0`, expected a string\nin `placeholder`\n"
    );
    assert_eq!(
        finder_error(&format!("source = []\n{OK_OUTCOME}")),
        "missing field `type`\nin `source`\n"
    );
    assert_eq!(
        finder_error(&format!("outcome = \"a\\\"b\"\n{OK_SOURCE}")),
        "invalid type: string \"a\\\"b\", expected internally tagged enum Outcome\nin `outcome`\n"
    );
    assert_eq!(
        finder_error(&format!("run_on = 3\n{OK_SOURCE}\n{OK_OUTCOME}")),
        "invalid type: unit variant, expected string only\nin `run_on`\n"
    );
    assert_eq!(
        finder_error(&format!("preview = -1\n{OK_SOURCE}\n{OK_OUTCOME}")),
        "invalid type: integer `-1`, expected internally tagged enum Preview\nin `preview`\n"
    );
}

#[test]
fn what_is_wrong_inside_a_source_is_said() {
    let error = |source: &str| finder_error(&format!("source = {source}\n{OK_OUTCOME}"));
    assert_eq!(error("{}"), "missing field `type`\nin `source`\n");
    assert_eq!(error("{ type = \"command\" }"), "missing field `command`\nin `source`\n");
    assert_eq!(
        error("{ type = \"command\", command = \"a\", cwd = \"b\" }"),
        "unknown field `cwd`, expected `command` or `args`\nin `source`\n"
    );
    assert_eq!(
        error("{ type = \"command\", command = \"a\", args = \"b\" }"),
        "invalid type: string \"b\", expected a sequence\nin `source`\n"
    );
    assert_eq!(
        error("{ type = \"command\", command = \"a\", args = [\"b\", 2, 3] }"),
        "invalid type: integer `2`, expected a string\nin `source`\n"
    );
    assert_eq!(
        error("{ type = 1 }"),
        "invalid type: integer `1`, expected variant identifier\nin `source.type`\n"
    );
    assert_eq!(
        error("{ type = \"static\" }"),
        "unknown variant `static`, expected `command` or `query`\nin `source.type`\n"
    );
}

#[test]
fn what_is_wrong_inside_an_outcome_is_said() {
    let error = |outcome: &str| finder_error(&format!("{OK_SOURCE}\noutcome = {outcome}"));
    assert_eq!(
        error("{ type = \"open_path\", command = \"a\" }"),
        "unknown field `command`, expected `path`\nin `outcome`\n"
    );
    assert_eq!(
        error("{ type = \"dispatch_action\", name = \"a\" }"),
        "unknown field `name`, expected `action` or `args`\nin `outcome`\n"
    );
    assert_eq!(
        error("{ type = \"dispatch_action\" }"),
        "missing field `action`\nin `outcome`\n"
    );
    assert_eq!(
        error("{ type = \"explode\" }"),
        "unknown variant `explode`, expected one of `open_path`, `open_path_at_position`, \
         `dispatch_action`, `run_command`\nin `outcome.type`\n"
    );
}

#[test]
fn what_is_wrong_inside_a_preview_is_said() {
    let error =
        |preview: &str| finder_error(&format!("{OK_SOURCE}\n{OK_OUTCOME}\npreview = {preview}"));
    assert_eq!(
        error("{ type = \"path\", wide = true }"),
        "unknown field `wide`, there are no fields\nin `preview`\n"
    );
    assert_eq!(
        error("{ type = \"command\" }"),
        "unknown variant `command`, expected `path`\nin `preview.type`\n"
    );
}

#[test]
fn the_first_wrong_key_in_order_is_the_error() {
    assert_eq!(
        finder_error("zzz = 1\nlabel = 2\naaa = 3"),
        "unknown field `aaa`, expected one of `label`, `placeholder`, `source`, `outcome`, \
         `preview`, `delimiter`, `run_on`\n"
    );
}

#[test]
fn a_finder_that_is_no_table_is_rejected() {
    let parsed = parse_ok("[finder]\nx = 5");
    assert_eq!(
        parsed.errors.get("x").expect("the finder is broken"),
        "invalid type: integer `5`, expected struct FinderBody\n"
    );
}

#[test]
fn action_arguments_keep_every_kind_of_value() {
    let parsed = parse_ok(
        r#"
        [finder.x]
        source = { type = "command", command = "git" }
        [finder.x.outcome]
        type = "dispatch_action"
        action = "a"
        [finder.x.outcome.args]
        array = [1, -2]
        bool = false
        date = 2024-05-01
        float = 0.5
        infinite = inf
        text = "t"
        "#,
    );

    let finder = parsed.finders.get("x").expect("finder present");
    let Outcome::DispatchAction { args, .. } = &finder.outcome else {
        panic!("expected a dispatch_action outcome");
    };
    assert_eq!(
        args,
        &Some(object(vec![
            (
                "array",
                Json::Array(vec![
                    Json::Number(JsonNumber::PosInt(1)),
                    Json::Number(JsonNumber::NegInt(-2)),
                ]),
            ),
            ("bool", Json::Bool(false)),
            ("date", text("2024-05-01")),
            ("float", Json::Number(JsonNumber::Float(0.5f64.to_bits()))),
            ("infinite", Json::Null),
            ("text", text("t")),
        ]))
    );
}

#[test]
fn a_file_that_is_no_toml_is_an_error() {
    let error = parse_config("this is not toml {{{").expect_err("no TOML");
    assert!(error.starts_with("parsing finder config: TOML parse error at line 1"), "{error}");
}

#[test]
fn a_file_with_anything_but_finders_is_an_error() {
    let error = parse_config("# the finders\n\nfinders = 1\n").expect_err("an unknown key");
    assert_eq!(
        error,
        "parsing finder config: TOML parse error at line 3, column 1\n  |\n3 | finders = 1\n  \
         | ^^^^^^^\nunknown field `finders`, expected `finder`\n"
    );
    let error = parse_config("  finder = 1").expect_err("no table");
    assert_eq!(
        error,
        "parsing finder config: TOML parse error at line 1, column 12\n  |\n1 |   finder = 1\n  \
         |            ^\ninvalid type: integer `1`, expected a map\n"
    );
    let error = parse_config("[[finder]]\na = 1").expect_err("no table");
    assert!(error.contains("line 1, column 1"), "{error}");
    assert!(error.ends_with("\ninvalid type: sequence, expected a map\n"), "{error}");
}

#[test]
fn the_first_wrong_key_of_the_file_is_the_error() {
    let error = parse_config("zzz = 1\naaa = 2").expect_err("two unknown keys");
    assert!(error.contains("unknown field `zzz`"), "{error}");
    let error = parse_config("finder = 1\naaa = 2").expect_err("no table first");
    assert!(error.contains("invalid type: integer `1`, expected a map"), "{error}");
    let error = parse_config("aaa = 2\nfinder = 1").expect_err("an unknown key first");
    assert!(error.contains("unknown field `aaa`"), "{error}");
    let error = parse_config("[finder.x]\n\n[ other.y ]\na = 1").expect_err("an unknown table");
    assert_eq!(
        error,
        "parsing finder config: TOML parse error at line 3, column 3\n  |\n3 | [ other.y ]\n  \
         |   ^^^^^\nunknown field `other`, expected `finder`\n"
    );
    let error = parse_config("finder = {}\nb = [1]\na = 1").expect_err("an unknown key");
    assert!(error.contains("unknown field `b`"), "{error}");
}

#[test]
fn an_unknown_key_is_shown_where_toml_itself_shows_it() {
    let toml_says = |contents: &str| {
        let error = toml::from_str::<std::collections::BTreeMap<u8, toml::Value>>(contents)
            .expect_err("no number");
        format!("parsing finder config: {error}")
    };
    let place = |text: &str| {
        let lines: Vec<String> = text.lines().take(4).map(|line| line.to_string()).collect();
        lines
    };
    let many = "\n".repeat(120);
    for contents in [
        "key = 1".to_string(),
        "\u{feff}key = 1".to_string(),
        "# über\n\t  \"schlüssel\" = [1,\n2]".to_string(),
        "'a.b'.c = 1\r\nd = 2\r\n".to_string(),
        "\"\" = true".to_string(),
        "\n\n[key]\nx = 1\n".to_string(),
        "[[ key ]]\n".to_string(),
        "[key.x]\n[key]\ny = 2\n".to_string(),
        "# \u{1f600}\nkey.x = \"\u{1f600}\" # \u{1f600}".to_string(),
        format!("{many}key = 1"),
    ] {
        let error = parse_config(&contents).expect_err("an unknown key");
        assert!(error.contains("unknown field `"), "{error}");
        assert_eq!(place(&error), place(&toml_says(&contents)));
    }
}

#[test]
fn a_date_in_place_of_the_finders_is_a_finder_that_is_no_table() {
    let parsed = parse_ok("finder = 1979-05-27");
    assert!(parsed.finders.is_empty());
    assert_eq!(parsed.errors.len(), 1);
    assert_eq!(
        parsed.errors.get("$__toml_private_datetime").map(|error| error.as_str()),
        Some("invalid type: string \"1979-05-27\", expected struct FinderBody\n")
    );
}

#[test]
fn a_finder_can_have_the_name_that_dates_are_read_by() {
    let body = format!("{OK_SOURCE}\n{OK_OUTCOME}");
    let parsed = parse_ok(&format!(
        "[finder.\"$__toml_private_datetime\"]\n{body}\n[finder.b]\n{body}"
    ));
    assert!(parsed.errors.is_empty());
    assert_eq!(
        parsed.finders.get("$__toml_private_datetime").expect("loaded").name,
        "$__toml_private_datetime"
    );
    assert!(parsed.finders.contains_key("b"));
    let parsed =
        parse_ok(&format!("[finder.b]\n{body}\n[finder.\"$__toml_private_datetime\"]\n{body}"));
    assert_eq!(parsed.finders.len(), 2);
    let parsed = parse_ok("[finder]\nx = { \"$__toml_private_datetime\" = \"1979-05-27\" }");
    assert_eq!(
        parsed.errors.get("x").map(|error| error.as_str()),
        Some("invalid type: string \"1979-05-27\", expected struct FinderBody\n")
    );
}

#[test]
fn a_date_that_cannot_be_read_is_an_error_of_the_file() {
    let bad = "[finder.x]\n\"$__toml_private_datetime\" = \"never\"\n";
    let toml_says = toml::from_str::<toml::Value>(bad).expect_err("no date").to_string();
    assert_eq!(
        parse_config(bad).expect_err("no date"),
        format!("parsing finder config: {toml_says}")
    );
    let error = parse_config(&format!("{bad}[other]\n")).expect_err("no date first");
    assert!(!error.contains("unknown field"), "{error}");
    let error = parse_config(&format!("[other]\n{bad}")).expect_err("an unknown key first");
    assert!(error.contains("unknown field `other`"), "{error}");
    let error = parse_config("[finder.x]\n[other]\n\"$__toml_private_datetime\" = \"never\"\n")
        .expect_err("an unknown key");
    assert!(error.contains("unknown field `other`"), "{error}");
    let error =
        parse_config("finder.\"$__toml_private_datetime\" = \"never\"\nother = 1").expect_err("");
    assert!(error.contains("unknown field `other`"), "{error}");
    let error = parse_config("[finder]\nx = [[nan, 1979-05-27]]\n[other]\n").expect_err("unknown");
    assert!(error.contains("unknown field `other`"), "{error}");
}

#[test]
fn a_table_is_told_by_its_outline() {
    let date = |text: &str| {
        let text = Outline::Text(text.to_string());
        Outline::Table(vec![("$__toml_private_datetime".to_string(), text)])
    };
    let table = |value: Outline| Outline::Table(vec![("x".to_string(), value)]);
    assert!(!is_table(&Outline::Scalar));
    assert!(!is_table(&Outline::List(Vec::new())));
    assert!(is_table(&Outline::Table(Vec::new())));
    assert!(is_table(&date("never")), "its one pair can be read");
    assert!(is_table(&table(date("1979-05-27"))));
    assert!(!is_table(&table(date("never"))));
    assert!(!is_table(&table(Outline::List(vec![Outline::Scalar, table(date("never"))]))));
    assert!(!is_table(&table(Outline::Table(vec![(
        "$__toml_private_datetime".to_string(),
        Outline::Scalar
    )]))));
}

#[test]
fn a_source_can_be_a_list() {
    let source = |source: &str| {
        let parsed = parse_ok(&format!("[finder.x]\n{OK_OUTCOME}\nsource = {source}"));
        parsed.finders.get("x").map(|config| config.source.clone())
    };
    assert_eq!(
        source("[\"command\", \"git\", [\"ls-files\"]]"),
        Some(Source::Command { command: "git".into(), args: vec!["ls-files".into()] })
    );
    assert_eq!(
        source("[\"command\", \"ls\"]"),
        Some(Source::Command { command: "ls".into(), args: vec![] })
    );
    assert_eq!(
        source("[\"query\", \"rg\", [\"{query}\"]]"),
        Some(Source::Query { command: "rg".into(), args: vec!["{query}".into()] })
    );
    let error = |source: &str| finder_error(&format!("source = {source}\n{OK_OUTCOME}"));
    assert_eq!(
        error("[\"command\"]"),
        "invalid length 0, expected struct variant Source::Command with 2 elements\nin `source`\n"
    );
    assert_eq!(
        error("[\"query\"]"),
        "invalid length 0, expected struct variant Source::Query with 2 elements\nin `source`\n"
    );
    assert_eq!(
        error("[\"command\", \"a\", [], 3, 4]"),
        "invalid length 4, expected 2 elements in sequence\nin `source`\n"
    );
    assert_eq!(
        error("[\"command\", \"a\", 1, 2]"),
        "invalid type: integer `1`, expected a sequence\nin `source`\n"
    );
    assert_eq!(
        error("[7, \"a\"]"),
        "invalid type: integer `7`, expected variant identifier\nin `source`\n"
    );
    assert_eq!(
        error("[\"static\"]"),
        "unknown variant `static`, expected `command` or `query`\nin `source`\n"
    );
}

#[test]
fn an_outcome_can_be_a_list() {
    let outcome = |outcome: &str| {
        let parsed = parse_ok(&format!("[finder.x]\n{OK_SOURCE}\noutcome = {outcome}"));
        parsed.finders.get("x").map(|config| config.outcome.clone())
    };
    assert_eq!(outcome("[\"open_path\"]"), Some(Outcome::OpenPath { path: None }));
    assert_eq!(
        outcome("[\"open_path_at_position\", \"{1}\"]"),
        Some(Outcome::OpenPathAtPosition { path: Some("{1}".into()) })
    );
    assert_eq!(
        outcome("[\"dispatch_action\", \"a::B\", { x = \"y\" }]"),
        Some(Outcome::DispatchAction {
            action: "a::B".into(),
            args: Some(object(vec![("x", text("y"))])),
        })
    );
    assert_eq!(
        outcome("[\"dispatch_action\", \"a::B\"]"),
        Some(Outcome::DispatchAction { action: "a::B".into(), args: None })
    );
    assert_eq!(
        outcome("[\"run_command\", \"a\", [\"b\"]]"),
        Some(Outcome::RunCommand { command: "a".into(), args: vec!["b".into()] })
    );
    let error = |outcome: &str| finder_error(&format!("{OK_SOURCE}\noutcome = {outcome}"));
    assert_eq!(error("[]"), "missing field `type`\nin `outcome`\n");
    assert_eq!(
        error("[\"open_path\", \"a\", \"b\"]"),
        "invalid length 2, expected 1 element in sequence\nin `outcome`\n"
    );
    assert_eq!(
        error("[\"dispatch_action\"]"),
        "invalid length 0, expected struct variant Outcome::DispatchAction with 2 elements\n\
         in `outcome`\n"
    );
    assert_eq!(
        error("[\"dispatch_action\", \"a\", 1, 2]"),
        "invalid length 3, expected 2 elements in sequence\nin `outcome`\n"
    );
    assert_eq!(
        error("[\"run_command\"]"),
        "invalid length 0, expected struct variant Outcome::RunCommand with 2 elements\n\
         in `outcome`\n"
    );
    assert_eq!(
        error("[\"explode\"]"),
        "unknown variant `explode`, expected one of `open_path`, `open_path_at_position`, \
         `dispatch_action`, `run_command`\nin `outcome`\n"
    );
}

#[test]
fn a_preview_can_be_a_list() {
    let preview =
        |preview: &str| parse_ok(&format!("[finder.x]\n{OK_SOURCE}\n{OK_OUTCOME}\npreview = {preview}"));
    let parsed = preview("[\"path\"]");
    assert_eq!(parsed.finders.get("x").expect("loaded").preview, Some(Preview::Path));
    let parsed = preview("[\"path\", 1, 2]");
    assert_eq!(
        parsed.errors.get("x").expect("refused"),
        "invalid length 2, expected 0 elements in sequence\nin `preview`\n"
    );
    let parsed = preview("[\"wide\"]");
    assert_eq!(
        parsed.errors.get("x").expect("refused"),
        "unknown variant `wide`, expected `path`\nin `preview`\n"
    );
}

#[test]
fn a_finder_can_be_a_list() {
    let parsed = parse_ok(
        "[finder]\nx = [\"Files\", \"Which?\", [\"command\", \"ls\"], { type = \"open_path\" }, \
         [\"path\"], \":\", \"local\"]\ny = [\"Y\", \"Y?\", [\"command\", \"ls\"], [\"open_path\"]]",
    );
    let config = parsed.finders.get("x").expect("loaded");
    assert_eq!(config.name, "x");
    assert_eq!(config.label, "Files");
    assert_eq!(config.placeholder, "Which?");
    assert_eq!(config.source, Source::Command { command: "ls".into(), args: vec![] });
    assert_eq!(config.outcome, Outcome::OpenPath { path: None });
    assert_eq!(config.preview, Some(Preview::Path));
    assert_eq!(config.delimiter, Some(":".to_string()));
    assert_eq!(config.run_on, RunOn::Local);
    let config = parsed.finders.get("y").expect("loaded");
    assert_eq!(config.preview, None);
    assert_eq!(config.delimiter, None);
    assert_eq!(config.run_on, RunOn::Auto);
    let error = |list: &str| {
        let parsed = parse_ok(&format!("[finder]\nx = {list}"));
        parsed.errors.get("x").expect("refused").to_string()
    };
    assert_eq!(error("[]"), "invalid length 0, expected struct FinderBody with 7 elements\n");
    assert_eq!(
        error("[\"a\", \"b\", [\"command\", \"ls\"]]"),
        "invalid length 3, expected struct FinderBody with 7 elements\n"
    );
    assert_eq!(error("[\"a\", 2]"), "invalid type: integer `2`, expected a string\n");
    assert_eq!(
        error("[\"a\", \"b\", { type = \"static\" }]"),
        "unknown variant `static`, expected `command` or `query`\nin `type`\n"
    );
    assert_eq!(
        error(
            "[\"a\", \"b\", [\"command\", \"ls\"], [\"open_path\"], [\"path\"], \":\", \"auto\", 8]"
        ),
        "invalid length 8, expected fewer elements in array\n"
    );
}

#[test]
fn a_policy_can_be_a_table_with_its_name() {
    let run_on =
        |run_on: &str| parse_ok(&format!("[finder.x]\n{OK_SOURCE}\n{OK_OUTCOME}\nrun_on = {run_on}"));
    for (written, policy) in [
        ("{ local = {} }", RunOn::Local),
        ("{ local = [] }", RunOn::Local),
        ("{ auto = {} }", RunOn::Auto),
    ] {
        assert_eq!(run_on(written).finders.get("x").expect("loaded").run_on, policy);
    }
    let error = |written: &str| run_on(written).errors.get("x").expect("refused").to_string();
    assert_eq!(error("{}"), "wanted exactly 1 element, found 0 elements\nin `run_on`\n");
    assert_eq!(
        error("{ auto = {}, local = {} }"),
        "wanted exactly 1 element, more than 1 element\nin `run_on`\n"
    );
    assert_eq!(
        error("{ host = {} }"),
        "unknown variant `host`, expected `auto` or `local`\nin `run_on`\n"
    );
    assert_eq!(error("{ local = [1] }"), "expected empty array\nin `run_on`\n");
    assert_eq!(error("{ local = { a = 1 } }"), "expected empty table\nin `run_on`\n");
    for (value, name) in [
        ("\"a\"", "string"),
        ("1", "integer"),
        ("1.5", "float"),
        ("true", "boolean"),
        ("1979-05-27", "datetime"),
    ] {
        assert_eq!(
            error(&format!("{{ local = {value} }}")),
            format!("expected table, found {name}\nin `run_on`\n")
        );
    }
    assert_eq!(
        error("[\"local\"]"),
        "invalid type: unit variant, expected string only\nin `run_on`\n"
    );
}

#[test]
fn a_document_is_read_from_its_tree() {
    let pair = |key: &str, value: TomlValue| (key.to_string(), value);
    let word = |word: &str| TomlValue::Text(word.to_string());
    let tree = TomlValue::Table(vec![pair(
        "finder",
        TomlValue::Table(vec![
            pair("b", TomlValue::Boolean(true)),
            pair(
                "a",
                TomlValue::Table(vec![
                    pair(
                        "outcome",
                        TomlValue::Table(vec![pair("type", word("open_path"))]),
                    ),
                    pair(
                        "source",
                        TomlValue::Table(vec![
                            pair("command", word("ls")),
                            pair("type", word("command")),
                        ]),
                    ),
                ]),
            ),
        ]),
    )]);
    let TomlValue::Table(mut pairs) = tree else { panic!("a table") };
    let (key, value) = pairs.remove(0);
    let document = TomlDocument {
        keys: vec![TopKey { key, start: 1, end: 7, outline: Outline::Table(Vec::new()) }],
        tables: Ok(vec![("finder".to_string(), value)]),
    };
    let parsed = read_document("[finder]", Ok(document)).expect("a configuration");
    assert_eq!(parsed.finders.get("a").expect("loaded").name, "a");
    assert_eq!(
        parsed.errors.get("b").expect("broken"),
        "invalid type: boolean `true`, expected struct FinderBody\n"
    );
    assert!(parsed.finders.get("b").is_none());

    let error = read_document("", Err("no TOML".to_string())).expect_err("no tree");
    assert_eq!(error, "parsing finder config: no TOML");
}

#[test]
fn a_finder_is_loaded_from_its_own_table_alone() {
    let error = load_finder("x", &TomlValue::Integer(-7)).expect_err("not a table");
    assert_eq!(error, "invalid type: integer `-7`, expected struct FinderBody\n");
    let error = load_finder("x", &TomlValue::Datetime("1979-05-27".into())).expect_err("no table");
    assert_eq!(error, "invalid type: string \"1979-05-27\", expected struct FinderBody\n");
}

#[test]
fn a_wrong_type_reads_as_toml_itself_says_it() {
    let toml_says = |line: &str| {
        toml::from_str::<toml::Value>(line)
            .expect("valid TOML")
            .try_into::<std::collections::BTreeMap<String, String>>()
            .expect_err("not a string")
            .to_string()
    };
    for line in [
        "label = 5",
        "label = false",
        "label = 2.5",
        "label = 3.0",
        "label = -0.0",
        "label = 1e30",
        "label = 1.5e-9",
        "label = -inf",
        "label = nan",
        "label = {}",
    ] {
        assert_eq!(
            finder_error(&format!("{line}\n{OK_SOURCE}\n{OK_OUTCOME}")),
            toml_says(line)
        );
    }
}

#[test]
fn a_name_that_holds_something_reads_as_toml_itself_says_it() {
    let toml_says = |value: &str| {
        toml::from_str::<toml::Value>(&format!("run_on = {{ Unbounded = {value} }}"))
            .expect("valid TOML")
            .try_into::<std::collections::BTreeMap<String, std::ops::Bound<u8>>>()
            .err()
            .map(|error| error.to_string())
    };
    for value in ["{}", "[]", "[1]", "{ a = 1 }", "\"a\"", "1", "1.5", "true", "1979-05-27"] {
        let parsed = parse_ok(&format!(
            "[finder.x]\n{OK_SOURCE}\n{OK_OUTCOME}\nrun_on = {{ local = {value} }}"
        ));
        assert_eq!(parsed.errors.get("x").cloned(), toml_says(value));
    }
}

#[test]
fn a_string_is_quoted_as_serde_quotes_it() {
    for name in ["plain", "qu\\\"ote", "tab\\t", "ä…"] {
        let error = finder_error(&format!("source = \"{name}\"\n{OK_OUTCOME}"));
        let toml_says = toml::from_str::<toml::Value>(&format!("source = \"{name}\""))
            .expect("valid TOML")
            .try_into::<std::collections::BTreeMap<String, u8>>()
            .expect_err("not a number")
            .to_string();
        assert_eq!(
            error.replace("internally tagged enum Source", "u8"),
            toml_says
        );
    }
}
