use hackgproject::materialize::{materialize, FileTree};
use hackgproject::profile::{
    app_name_of, app_repo, build_vars, post_branch, profile_descriptors, select_kind, Kind,
    ProfileError, Templates,
};
use hackgproject::render::{render, Value};

fn templates() -> Templates {
    Templates {
        build_script: "b".to_string(),
        ci_config: "c".to_string(),
        gitignore: "g".to_string(),
        license: "l".to_string(),
        readme: "r".to_string(),
        cname: "n".to_string(),
        index_html: "i".to_string(),
    }
}

#[test]
fn kind_from_flags() {
    assert_eq!(select_kind(false, false, false), Kind::Deployment);
    assert_eq!(select_kind(true, false, false), Kind::Static);
    assert_eq!(select_kind(true, true, true), Kind::Static);
    assert_eq!(select_kind(false, true, true), Kind::Jekyll);
    assert_eq!(select_kind(false, false, true), Kind::Node);
}

#[test]
fn deployment_file_set() {
    let ds = profile_descriptors(Kind::Deployment, &templates()).unwrap();
    let paths: Vec<&str> = ds.iter().map(|d| d.path.as_str()).collect();
    assert_eq!(paths, vec![".travis.d/build.sh", ".travis.yml", ".gitignore", "LICENSE", "README.md"]);
    assert_eq!(ds[0].mode, 0o775);
    assert!(ds[0].overwrite && ds[1].overwrite);
    assert!(!ds[2].overwrite && !ds[3].overwrite && !ds[4].overwrite);
    assert_eq!(ds[4].mode, 0o664);
    assert_eq!(ds[0].text, "b");
}

#[test]
fn static_file_set() {
    let ds = profile_descriptors(Kind::Static, &templates()).unwrap();
    assert_eq!(ds.len(), 7);
    assert_eq!(ds[5].path, "CNAME");
    assert_eq!(ds[6].path, "index.html");
    assert_eq!(ds[6].text, "i");
    assert!(!ds[5].overwrite && !ds[6].overwrite);
}

#[test]
fn unimplemented_kinds_not_supported() {
    assert_eq!(
        profile_descriptors(Kind::Jekyll, &templates()).unwrap_err(),
        ProfileError::NotSupported(Kind::Jekyll)
    );
    assert_eq!(
        profile_descriptors(Kind::Node, &templates()).unwrap_err(),
        ProfileError::NotSupported(Kind::Node)
    );
}

#[test]
fn branch_after_static() {
    assert_eq!(post_branch(Kind::Static), Some("gh-pages"));
    assert_eq!(post_branch(Kind::Deployment), None);
}

#[test]
fn repo_joins_org_and_name() {
    assert_eq!(app_repo("demo"), "hackgt/demo");
}

#[test]
fn name_is_last_component() {
    assert_eq!(app_name_of(&vec!["home".to_string(), "demo".to_string()]), Some("demo".to_string()));
    assert_eq!(app_name_of(&Vec::new()), None);
}

#[test]
fn deployment_vars() {
    let v = build_vars(Kind::Deployment, "demo", "abcdef");
    let expect = vec![
        ("project_type", Value::Text("deployment".to_string())),
        ("use_docker", Value::Flag(true)),
        ("org_name", Value::Text("hackgt".to_string())),
        ("namespace", Value::Text("static".to_string())),
        ("root_domain", Value::Text("hack.gt".to_string())),
        ("source_rev", Value::Text("abcdef".to_string())),
        ("app_name", Value::Text("demo".to_string())),
        ("app_repo", Value::Text("hackgt/demo".to_string())),
    ];
    let got: Vec<(&str, Value)> = v.entries.iter().map(|(k, x)| (k.as_str(), x.clone())).collect();
    assert_eq!(got, expect);
}

#[test]
fn static_vars_render() {
    let v = build_vars(Kind::Static, "site", "0123");
    let out = render("{{project_type}} {{namespace}} {{#use_docker}}docker{{/use_docker}}{{app_repo}}", &v);
    assert_eq!(out, Ok("static dev hackgt/site".to_string()));
}

#[test]
fn catalog_rerun_keeps_edits_and_refreshes_build_files() {
    let t = Templates {
        build_script: "#!/bin/sh\n# {{app_repo}}\n".to_string(),
        ci_config: "rev: {{source_rev}}\n".to_string(),
        gitignore: "target/\n".to_string(),
        license: "MIT\n".to_string(),
        readme: "# {{app_name}}\n".to_string(),
        cname: "{{app_name}}.{{root_domain}}\n".to_string(),
        index_html: "<h1>{{app_name}}</h1>\n".to_string(),
    };
    let ds = profile_descriptors(Kind::Static, &t).unwrap();
    let v = build_vars(Kind::Static, "site", "abc");
    let mut tree = FileTree::new();
    assert_eq!(materialize(&mut tree, &ds, &v), Ok(()));
    assert_eq!(tree.read("CNAME"), Some("site.hack.gt\n".to_string()));
    assert_eq!(tree.read("index.html"), Some("<h1>site</h1>\n".to_string()));
    tree.write("README.md", "edited".to_string());
    tree.write(".travis.yml", "edited".to_string());
    assert_eq!(materialize(&mut tree, &ds, &v), Ok(()));
    assert_eq!(tree.read("README.md"), Some("edited".to_string()));
    assert_eq!(tree.read(".travis.yml"), Some("rev: abc\n".to_string()));
    assert_eq!(tree.read(".travis.d/build.sh"), Some("#!/bin/sh\n# hackgt/site\n".to_string()));
}
