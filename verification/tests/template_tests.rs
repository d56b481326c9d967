use lang_judge::template::{render, str_eq, TemplateError};

fn strings(items: &[&str]) -> Vec<String> {
    items.iter().map(|s| s.to_string()).collect()
}

#[test]
fn render_substitutes_single_placeholder() {
    let keys = strings(&["file"]);
    let vals = strings(&["a.out"]);
    let r = render("./{file}", &keys, &vals);
    assert_eq!(r, Ok("./a.out".to_string()));
}

#[test]
fn render_substitutes_two_placeholders() {
    let keys = strings(&["infile", "outfile"]);
    let vals = strings(&["main.c", "main"]);
    let r = render("gcc {infile} -o {outfile}", &keys, &vals);
    assert_eq!(r, Ok("gcc main.c -o main".to_string()));
}

#[test]
fn render_keeps_literal_text_and_leaves_no_placeholder_syntax() {
    let keys = strings(&["file"]);
    let vals = strings(&["prog.bin"]);
    let r = render("run {file} now", &keys, &vals).unwrap();
    assert!(r.contains("prog.bin"));
    assert!(!r.contains('{'));
    assert!(!r.contains('}'));
    assert_eq!(r, "run prog.bin now");
}

#[test]
fn render_empty_template_gives_empty_string() {
    let keys = strings(&["file"]);
    let vals = strings(&["x"]);
    assert_eq!(render("", &keys, &vals), Ok(String::new()));
}

#[test]
fn render_unknown_placeholder_is_reported() {
    let keys = strings(&["file"]);
    let vals = strings(&["x"]);
    let r = render("run {nope}", &keys, &vals);
    assert_eq!(r, Err(TemplateError::UnknownPlaceholder));
}

#[test]
fn render_unclosed_placeholder_is_reported() {
    let keys = strings(&["file"]);
    let vals = strings(&["x"]);
    assert_eq!(render("run {file", &keys, &vals), Err(TemplateError::UnclosedPlaceholder));
}

#[test]
fn render_stray_closing_brace_is_reported() {
    let keys = strings(&["file"]);
    let vals = strings(&["x"]);
    assert_eq!(render("a}b", &keys, &vals), Err(TemplateError::UnexpectedBrace));
}

#[test]
fn render_brace_inside_placeholder_is_reported() {
    let keys = strings(&["file"]);
    let vals = strings(&["x"]);
    assert_eq!(render("{fi{le}", &keys, &vals), Err(TemplateError::UnexpectedBrace));
}

#[test]
fn render_first_binding_wins() {
    let keys = strings(&["file", "file"]);
    let vals = strings(&["first", "second"]);
    assert_eq!(render("{file}", &keys, &vals), Ok("first".to_string()));
}

#[test]
fn str_eq_agrees_with_equality() {
    assert!(str_eq("abc", "abc"));
    assert!(!str_eq("abc", "abd"));
    assert!(!str_eq("abc", "abcd"));
    assert!(str_eq("", ""));
}
