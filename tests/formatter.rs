use std::path::PathBuf;

use tree_sitter_tests_formatter::{format_fixture_file, format_s_expr, parse_fixtures, Fixture, TestFile};

#[test]
fn test_parse_test_file_1() {
    let fixture = "===\ntest 1\n===\n\nvoid\n\n---\n\n(source_file)";
    assert_eq!(
        format_fixture_file(fixture),
        "======\ntest 1\n======\n\nvoid\n\n---\n\n(source_file)\n"
    );
}

#[test]
fn test_parse_test_file_2() {
    let fixture = "===\ntest 1\n===\n\nvoid\n\n---\n\n(source_file\n    (function_declaration)\n)";
    assert_eq!(
        format_fixture_file(fixture),
        "======\ntest 1\n======\n\nvoid\n\n---\n\n(source_file\n  (function_declaration)\n)\n"
    );
}

#[test]
fn test_parse_test_file_3() {
    let fixture = r#"===
test 1
===

void MyFunc() {}

---

(source_file
  (function_declaration
    returnType: (type
      (builtin_type)
    )
    name: (symbol)
    arguments: (argument_declarations)
    body: (block)
  )
)"#;
    assert_eq!(
        format_fixture_file(fixture),
        "======\ntest 1\n======\n\nvoid MyFunc() {}\n\n---\n\n(source_file\n  (function_declaration\n    returnType: (type\n      (builtin_type)\n    )\n    name: (symbol)\n    arguments: (argument_declarations)\n    body: (block)\n  )\n)\n"
    );
}

const TWO_FIXTURES: &str = "================
hardcoded symbol
================

using __intrinsics__.Handle;

---

(source_file
\t(hardcoded_symbol
\t))

======
assert
======

assert(true, \"This is an assertion error\");
static_assert(true, \"This is an assertion error\");

---

(source_file
    (assertion
        (function_call_arguments
        \t(bool_literal)
            (bool_literal)
          \t(string_literal)))
    (assertion
        (function_call_arguments
        \t(bool_literal)
            (bool_literal)
          \t(string_literal))))";

const TWO_FIXTURES_FORMATTED: &str = "================\nhardcoded symbol\n================\n\nusing __intrinsics__.Handle;\n\n---\n\n(source_file\n  (hardcoded_symbol)\n)\n\n\n======\nassert\n======\n\nassert(true, \"This is an assertion error\");\nstatic_assert(true, \"This is an assertion error\");\n\n---\n\n(source_file\n  (assertion\n    (function_call_arguments\n      (bool_literal)\n      (bool_literal)\n      (string_literal)\n    )\n  )\n  (assertion\n    (function_call_arguments\n      (bool_literal)\n      (bool_literal)\n      (string_literal)\n    )\n  )\n)\n";

#[test]
fn test_parse_test_file_4() {
    assert_eq!(format_fixture_file(TWO_FIXTURES), TWO_FIXTURES_FORMATTED);
}

#[test]
fn leaf_node_on_one_line() {
    assert_eq!(format_s_expr("(source_file)"), "(source_file)\n");
}

#[test]
fn branch_children_indented() {
    assert_eq!(
        format_s_expr("(source_file (function_declaration))"),
        "(source_file\n  (function_declaration)\n)\n"
    );
}

#[test]
fn field_labels_precede_their_child() {
    assert_eq!(
        format_s_expr(
            "(source_file (function_declaration returnType: (type (builtin_type)) name: (symbol)))"
        ),
        "(source_file\n  (function_declaration\n    returnType: (type\n      (builtin_type)\n    )\n    name: (symbol)\n  )\n)\n"
    );
}

#[test]
fn field_label_after_atom_gets_no_spaces() {
    assert_eq!(format_s_expr("(a b c: (d))"), "(a\n  b\n  c: (d)\n)\n");
}

#[test]
fn empty_and_malformed_trees_do_not_panic() {
    assert_eq!(format_s_expr(""), "");
    assert_eq!(format_s_expr("   \n\t "), "");
    assert_eq!(format_s_expr("("), "(");
    assert_eq!(format_s_expr(")"), ")\n");
    assert_eq!(format_s_expr("a"), "a\n");
    assert_eq!(format_s_expr("x:"), "x: ");
}

#[test]
fn already_formatted_tree_is_kept() {
    let once = format_s_expr("(source_file (function_declaration returnType: (type (builtin_type))))");
    assert_eq!(format_s_expr(&once), once);
}

#[test]
fn formatting_a_file_twice_changes_nothing() {
    let once = format_fixture_file(TWO_FIXTURES);
    assert_eq!(format_fixture_file(&once), once);
}

#[test]
fn single_fixture_without_trailing_delimiter_is_kept() {
    let text = "====name====\nignored\n";
    let fixtures = parse_fixtures("=====\nname\n=====\nint x;\n---\n(source_file)\n");
    assert_eq!(fixtures.len(), 1);
    assert_eq!(fixtures[0].name, "name");
    assert_eq!(fixtures[0].input, "int x;\n");
    assert_eq!(fixtures[0].expected, "(source_file)\n");
    // A line holding other characters than `=` is no delimiter.
    let loose = parse_fixtures(text);
    assert_eq!(loose.len(), 1);
    assert_eq!(loose[0].name, "");
    assert_eq!(
        format_fixture_file("=====\nname\n=====\nint x;\n---\n(source_file)\n"),
        "====\nname\n====\n\nint x;\n\n---\n\n(source_file)\n"
    );
}

#[test]
fn fixtures_keep_their_order() {
    let fixtures = parse_fixtures(TWO_FIXTURES);
    assert_eq!(fixtures.len(), 2);
    assert_eq!(fixtures[0].name, "hardcoded symbol");
    assert_eq!(fixtures[1].name, "assert");
    let out = format_fixture_file(TWO_FIXTURES);
    let first = out.find("hardcoded symbol").unwrap();
    let second = out.find("\nassert\n").unwrap();
    assert!(first < second);
    assert!(out.contains("(hardcoded_symbol)\n)\n\n\n======\nassert\n======"));
}

#[test]
fn input_trimmed_but_inner_blank_lines_kept() {
    let f = Fixture {
        name: "  t  ".to_string(),
        input: "\n\n  a\n\n\nb  \n\n".to_string(),
        expected: "(x)".to_string(),
    };
    assert_eq!(f.format_input(), "a\n\n\nb");
    assert_eq!(f.format(), "===\nt\n===\n\na\n\n\nb\n\n---\n\n(x)\n");
}

#[test]
fn name_delimiter_width() {
    let short = Fixture { name: " ab ".to_string(), ..Fixture::default() };
    assert_eq!(short.format_name(), "===\nab\n===");
    let long = Fixture { name: "a longer name".to_string(), ..Fixture::default() };
    assert_eq!(long.format_name(), "=============\na longer name\n=============");
    let empty = Fixture::default();
    assert_eq!(empty.format_name(), "===\n\n===");
    // The width counts UTF-8 bytes: two characters of two bytes each.
    let wide = Fixture { name: "éé".to_string(), ..Fixture::default() };
    assert_eq!(wide.format_name(), "====\néé\n====");
}

#[test]
fn segmenter_rules() {
    // Lines before the first delimiter are dropped; the last name line wins.
    let fs = parse_fixtures("comment\n===\nfirst\nsecond\n===\nin\n---\nout\n");
    assert_eq!(fs.len(), 1);
    assert_eq!(fs[0].name, "second");
    assert_eq!(fs[0].input, "in\n");
    assert_eq!(fs[0].expected, "out\n");
    // No delimiter at all: one empty fixture.
    let none = parse_fixtures("just text\n");
    assert_eq!(none, vec![Fixture::default()]);
    // Two characters are not a delimiter, and `\r\n` endings are handled.
    let crlf = parse_fixtures("===\r\nn\r\n===\r\n==\r\n---\r\ne\r\n");
    assert_eq!(crlf[0].name, "n");
    assert_eq!(crlf[0].input, "==\n");
    assert_eq!(crlf[0].expected, "e\n");
}

#[test]
fn test_file_formats_all_fixtures() {
    let tf = TestFile::from_text(PathBuf::from("corpus/a.txt"), TWO_FIXTURES);
    assert_eq!(tf.fixtures.len(), 2);
    assert_eq!(tf.path(), std::path::Path::new("corpus/a.txt"));
    assert_eq!(tf.format(), TWO_FIXTURES_FORMATTED);
}
