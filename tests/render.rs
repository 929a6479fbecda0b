use hackgproject::render::{is_supported, make_literal, render, RenderError, Value, Vars};

fn demo_vars() -> Vars {
    let mut v = Vars::new();
    v.insert("app_name", Value::Text("demo".to_string()));
    v.insert("app_repo", Value::Text("hackgt/demo".to_string()));
    v.insert("source_rev", Value::Text("abcdef".to_string()));
    v
}

#[test]
fn render_substitutes_each_variable() {
    let out = render("App: {{app_name}} ({{app_repo}}) @ {{source_rev}}", &demo_vars());
    assert_eq!(out, Ok("App: demo (hackgt/demo) @ abcdef".to_string()));
}

#[test]
fn render_missing_variable_is_empty() {
    let out = render("[{{nothing}}]", &demo_vars());
    assert_eq!(out, Ok("[]".to_string()));
}

#[test]
fn render_flag_gates_section() {
    let mut v = Vars::new();
    v.insert("use_docker", Value::Flag(true));
    v.insert("static_site", Value::Flag(false));
    let out = render("a{{#use_docker}}D{{/use_docker}}{{#static_site}}S{{/static_site}}b", &v);
    assert_eq!(out, Ok("aDb".to_string()));
}

#[test]
fn render_substitutes_text_without_escaping() {
    let mut v = Vars::new();
    v.insert("x", Value::Text("<a&b> \"q\"".to_string()));
    assert_eq!(render("{{x}}", &v), Ok("<a&b> \"q\"".to_string()));
    assert_eq!(render("{{ x }}", &v), Ok("<a&b> \"q\"".to_string()));
    assert_eq!(render("{{&x}}", &v), Ok("<a&b> \"q\"".to_string()));
}

#[test]
fn plain_tags_become_literal() {
    assert_eq!(
        make_literal("a {{b}} {{#c}}{{/c}} {{ d }} {{^e}}{{/e}} {{&f}}"),
        "a {{&b}} {{#c}}{{/c}} {{& d }} {{^e}}{{/e}} {{&f}}"
    );
    assert_eq!(make_literal(""), "");
    assert_eq!(make_literal("{{"), "{{");
    assert_eq!(make_literal("{{{x}}}"), "{{{&x}}}");
}

#[test]
fn render_later_entry_replaces_earlier() {
    let mut v = Vars::new();
    v.insert("n", Value::Text("one".to_string()));
    v.insert("n", Value::Text("two".to_string()));
    assert_eq!(render("{{n}}", &v), Ok("two".to_string()));
}

#[test]
fn render_without_tags_is_identity() {
    assert_eq!(render("plain text", &Vars::new()), Ok("plain text".to_string()));
}

#[test]
fn render_refuses_partial_and_comment_tags() {
    let v = demo_vars();
    assert_eq!(render("{{> other}}", &v), Err(RenderError::UnsupportedTag));
    assert_eq!(render("{{!note}}", &v), Err(RenderError::UnsupportedTag));
    assert_eq!(render("{{{x}}}", &v), Err(RenderError::UnsupportedTag));
    assert_eq!(render("end {{", &v), Err(RenderError::UnsupportedTag));
}

#[test]
fn supported_templates() {
    assert!(is_supported(""));
    assert!(is_supported("{{a}} {{#b}}{{/b}} {{^c}}{{/c}} {{&d}} {{ e }}"));
    assert!(is_supported("{ {x} }"));
    assert!(!is_supported("{{}}"));
    assert!(!is_supported("{{é}}"));
}
