use codex_git_bash::tool_arguments::rewrite_git_bash_path_arguments;
use codex_git_bash::tool_arguments::rewrite_git_bash_path_arguments_value;
use codex_git_bash::tool_arguments::rewrite_value;
use codex_git_bash::tool_arguments::JsonMember;
use codex_git_bash::tool_arguments::JsonValue;
use codex_git_bash::tool_arguments::PathField;

fn s(text: &str) -> JsonValue {
    JsonValue::Str(text.to_string())
}

fn arr(items: Vec<JsonValue>) -> JsonValue {
    JsonValue::Array(items)
}

fn obj(members: Vec<(&str, JsonValue)>) -> JsonValue {
    JsonValue::Object(
        members
            .into_iter()
            .map(|(key, value)| JsonMember { key: key.to_string(), value })
            .collect(),
    )
}

fn arguments(
    workdir: &str,
    read: &str,
    write: &str,
    entry_path: &str,
    glob: &str,
) -> JsonValue {
    obj(vec![
        ("cmd", s("printf /c/Users/Alice")),
        ("workdir", s(workdir)),
        (
            "additional_permissions",
            obj(vec![(
                "file_system",
                obj(vec![
                    ("read", arr(vec![s(read)])),
                    ("write", arr(vec![s(write)])),
                    (
                        "entries",
                        arr(vec![
                            obj(vec![
                                ("path", obj(vec![("type", s("path")), ("path", s(entry_path))])),
                                ("access", s("read")),
                            ]),
                            obj(vec![
                                (
                                    "path",
                                    obj(vec![("type", s("glob_pattern")), ("pattern", s(glob))]),
                                ),
                                ("access", s("deny")),
                            ]),
                        ]),
                    ),
                ]),
            )]),
        ),
    ])
}

#[test]
fn rewrites_known_tool_path_arguments_in_a_value() {
    let mut value = arguments(
        "/c/Users/Alice/project",
        "/c/Users/Alice/read",
        "/d/work",
        "/c/Users/Alice/entry",
        "/c/Users/Alice/**/*.env",
    );

    rewrite_git_bash_path_arguments_value(&mut value);

    assert_eq!(
        value,
        arguments(
            r"C:\Users\Alice\project",
            r"C:\Users\Alice\read",
            r"D:\work",
            r"C:\Users\Alice\entry",
            r"C:\Users\Alice\**\*.env",
        )
    );
}

#[test]
fn rewriting_twice_changes_nothing_more() {
    let mut value = arguments("/c/a", "/c/b", "/d/c", "/c/d", "/c/e/*");
    rewrite_git_bash_path_arguments_value(&mut value);
    let once = arguments(r"C:\a", r"C:\b", r"D:\c", r"C:\d", r"C:\e\*");
    assert_eq!(value, once);
    rewrite_git_bash_path_arguments_value(&mut value);
    assert_eq!(value, once);
}

#[test]
fn other_values_are_left_alone() {
    let mut value = obj(vec![
        ("workdir", s("/usr/bin")),
        ("permissions", obj(vec![("file_system", obj(vec![("entries", s("/c/x"))]))])),
        ("other", s("/c/x")),
        ("count", JsonValue::Number("3".to_string())),
    ]);
    rewrite_git_bash_path_arguments_value(&mut value);
    assert_eq!(
        value,
        obj(vec![
            ("workdir", s("/usr/bin")),
            ("permissions", obj(vec![("file_system", obj(vec![("entries", s("/c/x"))]))])),
            ("other", s("/c/x")),
            ("count", JsonValue::Number("3".to_string())),
        ])
    );
    let mut not_object = arr(vec![s("/c/x")]);
    rewrite_git_bash_path_arguments_value(&mut not_object);
    assert_eq!(not_object, arr(vec![s("/c/x")]));
}

#[test]
fn special_entries_and_numbers_in_path_lists() {
    let entry = obj(vec![("path", obj(vec![("type", s("special")), ("path", s("/c/x"))]))]);
    assert_eq!(
        rewrite_value(PathField::Entry, entry),
        obj(vec![("path", obj(vec![("type", s("special")), ("path", s("/c/x"))]))])
    );
    let list = arr(vec![s("/e/1"), JsonValue::Bool(true), JsonValue::Null, s("rel")]);
    assert_eq!(
        rewrite_value(PathField::PathStringArray, list),
        arr(vec![s(r"E:\1"), JsonValue::Bool(true), JsonValue::Null, s("rel")])
    );
}

#[test]
fn only_the_first_member_of_a_name_is_rewritten() {
    let value = obj(vec![("workdir", s("/c/one")), ("workdir", s("/c/two"))]);
    assert_eq!(
        rewrite_value(PathField::Arguments, value),
        obj(vec![("workdir", s(r"C:\one")), ("workdir", s("/c/two"))])
    );
}

fn parse(text: &str) -> serde_json::Value {
    serde_json::from_str(text).unwrap()
}

#[test]
fn rewrites_known_tool_path_arguments_only() {
    let arguments = r#"{
        "cmd": "printf /c/Users/Alice",
        "workdir": "/c/Users/Alice/project",
        "additional_permissions": {
            "file_system": {
                "read": ["/c/Users/Alice/read"],
                "write": ["/d/work"],
                "entries": [
                    {"path": {"type": "path", "path": "/c/Users/Alice/entry"}, "access": "read"},
                    {"path": {"type": "glob_pattern", "pattern": "/c/Users/Alice/**/*.env"}, "access": "deny"}
                ]
            }
        }
    }"#;

    let rewritten = parse(&rewrite_git_bash_path_arguments(arguments).unwrap());

    assert_eq!(
        rewritten,
        parse(
            r#"{
        "cmd": "printf /c/Users/Alice",
        "workdir": "C:\\Users\\Alice\\project",
        "additional_permissions": {
            "file_system": {
                "read": ["C:\\Users\\Alice\\read"],
                "write": ["D:\\work"],
                "entries": [
                    {"path": {"type": "path", "path": "C:\\Users\\Alice\\entry"}, "access": "read"},
                    {"path": {"type": "glob_pattern", "pattern": "C:\\Users\\Alice\\**\\*.env"}, "access": "deny"}
                ]
            }
        }
    }"#
        )
    );
}

#[test]
fn arguments_that_are_not_json_are_an_error() {
    let err = rewrite_git_bash_path_arguments("{\"workdir\": ").unwrap_err();
    assert!(!err.to_string().is_empty());
    assert!(rewrite_git_bash_path_arguments("not json").is_err());
}

#[test]
fn json_text_keeps_numbers_and_other_members() {
    let out = rewrite_git_bash_path_arguments(r#"{"workdir":"/usr/bin","yield_time_ms":1000,"ok":true,"n":null,"x":[1.5,"/c/x"]}"#)
        .unwrap();
    assert_eq!(
        parse(&out),
        parse(r#"{"workdir":"/usr/bin","yield_time_ms":1000,"ok":true,"n":null,"x":[1.5,"/c/x"]}"#)
    );
    let out = rewrite_git_bash_path_arguments(r#"{"workdir":"/c/x"}"#).unwrap();
    assert_eq!(out, r#"{"workdir":"C:\\x"}"#);
    assert_eq!(rewrite_git_bash_path_arguments("[\"/c/x\"]").unwrap(), "[\"/c/x\"]");
}
