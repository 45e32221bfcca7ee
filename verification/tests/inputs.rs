use trypanophobe::inputs::{collect_check_items, literal_item_name, ArgInput, CheckItem, InputError};

fn literal(text: &str) -> ArgInput {
    ArgInput::Literal(text.to_string())
}

#[test]
fn literal_args() {
    let items = collect_check_items(&vec![literal("hello world")]).unwrap();
    assert_eq!(items.len(), 1);
    assert_eq!(items[0].name, "literal:1");
    assert_eq!(items[0].text, "hello world");
}

#[test]
fn collects_file_and_directory_prompts() {
    let file_items = collect_check_items(&vec![ArgInput::File {
        path: "/tmp/t/a.prompt".to_string(),
        text: "alpha".to_string(),
    }])
    .unwrap();
    assert_eq!(file_items[0].text, "alpha");

    let dir_items = collect_check_items(&vec![ArgInput::Directory {
        path: "/tmp/t".to_string(),
        files: vec![
            CheckItem { name: "/tmp/t/a.prompt".to_string(), text: "alpha".to_string() },
            CheckItem { name: "/tmp/t/sub/b.PROMPT".to_string(), text: "beta".to_string() },
        ],
    }])
    .unwrap();
    assert_eq!(dir_items.len(), 2);
    assert!(dir_items.iter().any(|i| i.text == "alpha"));
    assert!(dir_items.iter().any(|i| i.text == "beta"));
}

#[test]
fn empty_directory_errors() {
    let err = collect_check_items(&vec![ArgInput::Directory {
        path: "/tmp/empty".to_string(),
        files: vec![],
    }])
    .unwrap_err();
    assert!(err.message().contains("no .prompt files"));
    assert_eq!(err.message(), "no .prompt files under /tmp/empty");
}

#[test]
fn no_inputs_errors() {
    let err = collect_check_items(&vec![]).unwrap_err();
    assert!(err.message().contains("no inputs"));
    assert_eq!(err, InputError::NoInputs);
}

#[test]
fn batch_literals_numbered() {
    let items = collect_check_items(&vec![literal("one"), literal("two")]).unwrap();
    assert_eq!(items[0].name, "literal:1");
    assert_eq!(items[1].name, "literal:2");
}

#[test]
fn literals_are_numbered_among_literals_only() {
    let items = collect_check_items(&vec![
        literal("one"),
        ArgInput::File { path: "p.prompt".to_string(), text: "file text".to_string() },
        literal("two"),
    ])
    .unwrap();
    assert_eq!(items.len(), 3);
    assert_eq!(items[0].name, "literal:1");
    assert_eq!(items[1].name, "p.prompt");
    assert_eq!(items[1].text, "file text");
    assert_eq!(items[2].name, "literal:2");
    assert_eq!(items[2].text, "two");
}

#[test]
fn first_failing_argument_decides() {
    let err = collect_check_items(&vec![
        literal("fine"),
        ArgInput::Other { path: "/dev/null".to_string() },
        ArgInput::Directory { path: "/tmp/empty".to_string(), files: vec![] },
    ])
    .unwrap_err();
    assert_eq!(err, InputError::NotFileOrDirectory { path: "/dev/null".to_string() });
    assert_eq!(err.message(), "not a file or directory: /dev/null");

    let err = collect_check_items(&vec![ArgInput::Unreadable { message: "read file x".to_string() }])
        .unwrap_err();
    assert_eq!(err.message(), "read file x");
}

#[test]
fn literal_names_render_in_decimal() {
    assert_eq!(literal_item_name(0), "literal:0");
    assert_eq!(literal_item_name(9), "literal:9");
    assert_eq!(literal_item_name(10), "literal:10");
    assert_eq!(literal_item_name(1234), "literal:1234");
}
