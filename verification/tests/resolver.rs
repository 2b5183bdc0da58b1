use cmd_lib::error::ShellError;
use cmd_lib::resolve::{resolve_name, SymbolTable};
use cmd_lib::token::tokenize;

fn table(entries: &[(&str, &str)]) -> SymbolTable {
    let mut st = SymbolTable::new();
    for (name, value) in entries {
        st.insert(name.to_string(), value.to_string());
    }
    st
}

#[test]
fn resolve_inside_double_quotes_splices_raw() {
    let st = table(&[("name", "world")]);
    assert_eq!(resolve_name("echo \"hello ${name}\"", &st).unwrap(), "echo \"hello world\"");
}

#[test]
fn resolve_bare_reference_gets_quoted() {
    let st = table(&[("f", "a b")]);
    assert_eq!(resolve_name("ls ${f}", &st).unwrap(), "ls \"a b\"");
}

#[test]
fn resolve_missing_name_is_undefined_variable() {
    let st = SymbolTable::new();
    match resolve_name("ls ${missing}", &st) {
        Err(ShellError::UndefinedVariable { name }) => assert_eq!(name, "missing"),
        other => panic!("unexpected: {:?}", other),
    }
}

#[test]
fn resolve_leaves_single_quoted_reference_alone() {
    let st = table(&[("x", "1")]);
    assert_eq!(resolve_name("echo '${x}' ${x}", &st).unwrap(), "echo '${x}' \"1\"");
    // Nothing is looked up inside single quotes, so nothing can be missing.
    assert_eq!(resolve_name("echo '${nope}'", &SymbolTable::new()).unwrap(), "echo '${nope}'");
}

#[test]
fn resolve_single_quote_inside_double_quotes_does_not_protect() {
    let st = table(&[("x", "1")]);
    assert_eq!(resolve_name("echo \"'${x}'\"", &st).unwrap(), "echo \"'1'\"");
}

#[test]
fn resolve_text_without_reference_is_unchanged() {
    let st = table(&[("x", "1")]);
    for s in ["", "ls -l | wc", "cost: $5 {x} $ {x} $x", "a 'b' \"c\"", "tail $"] {
        assert_eq!(resolve_name(s, &st).unwrap(), s);
    }
}

#[test]
fn resolve_several_references() {
    let st = table(&[("a", "1"), ("b", "two words")]);
    assert_eq!(
        resolve_name("${a}${b} \"${a}-${b}\" ${a}", &st).unwrap(),
        "\"1\"\"two words\" \"1-two words\" \"1\""
    );
}

#[test]
fn resolve_unclosed_reference_at_end_is_malformed() {
    let st = table(&[("x", "1")]);
    match resolve_name("ls ${x", &st) {
        Err(ShellError::MalformedReference { name }) => assert_eq!(name, "x"),
        other => panic!("unexpected: {:?}", other),
    }
    match resolve_name("ls ${", &st) {
        Err(ShellError::MalformedReference { name }) => assert_eq!(name, ""),
        other => panic!("unexpected: {:?}", other),
    }
}

#[test]
fn resolve_semicolon_before_brace_is_malformed() {
    let st = table(&[("x", "1")]);
    match resolve_name("ls ${x; echo }", &st) {
        Err(ShellError::MalformedReference { name }) => assert_eq!(name, "x"),
        other => panic!("unexpected: {:?}", other),
    }
}

#[test]
fn resolve_line_feed_before_brace_is_malformed() {
    let st = table(&[("x", "1")]);
    match resolve_name("ls ${x\n}", &st) {
        Err(ShellError::MalformedReference { name }) => assert_eq!(name, "x"),
        other => panic!("unexpected: {:?}", other),
    }
}

#[test]
fn resolve_first_failure_decides() {
    let st = table(&[("x", "1")]);
    match resolve_name("${x} ${gone} ${open", &st) {
        Err(ShellError::UndefinedVariable { name }) => assert_eq!(name, "gone"),
        other => panic!("unexpected: {:?}", other),
    }
    match resolve_name("${open; ${gone}", &st) {
        Err(ShellError::MalformedReference { name }) => assert_eq!(name, "open"),
        other => panic!("unexpected: {:?}", other),
    }
}

#[test]
fn resolve_empty_name_is_looked_up() {
    match resolve_name("${}", &SymbolTable::new()) {
        Err(ShellError::UndefinedVariable { name }) => assert_eq!(name, ""),
        other => panic!("unexpected: {:?}", other),
    }
    let st = table(&[("", "void")]);
    assert_eq!(resolve_name("${}", &st).unwrap(), "\"void\"");
}

#[test]
fn resolve_quote_inside_name_belongs_to_the_name() {
    let st = table(&[("a\"b", "v")]);
    // The quote inside the braces toggles nothing: the second reference is
    // still outside quotes.
    assert_eq!(resolve_name("${a\"b} ${a\"b}", &st).unwrap(), "\"v\" \"v\"");
}

#[test]
fn symbol_table_later_insert_overwrites() {
    let mut st = SymbolTable::new();
    assert!(st.get("k").is_none());
    st.insert("k".to_string(), "old".to_string());
    st.insert("other".to_string(), "o".to_string());
    assert_eq!(st.get("k").unwrap(), "old");
    st.insert("k".to_string(), "new".to_string());
    assert_eq!(st.get("k").unwrap(), "new");
    assert_eq!(st.get("other").unwrap(), "o");
    assert_eq!(resolve_name("${k}", &st).unwrap(), "\"new\"");
}

#[test]
fn resolved_bare_value_with_spaces_is_one_token() {
    let st = table(&[("f", "my file.txt"), ("d", "dir with  gaps")]);
    let line = resolve_name("cp ${f} ${d}", &st).unwrap();
    assert_eq!(tokenize(&line), vec!["cp", "my file.txt", "dir with  gaps"]);
}
