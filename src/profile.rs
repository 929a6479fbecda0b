//! Project kinds, their file sets, and the variables that their templates
//! are rendered with.
use crate::materialize::Descriptor;
use crate::render::{Value, ValueView, Vars};
use vstd::prelude::*;
use vstd::string::StringExecFns;

verus! {

/// The organisation that generated projects belong to.
pub const ORG_NAME: &'static str = "hackgt";

/// The domain under which generated projects are served.
pub const ROOT_DOMAIN: &'static str = "hack.gt";

/// The directory, at the project root, that holds the build script. Its
/// presence marks a generated project.
pub const BUILD_DIR: &'static str = ".travis.d";

/// The build script's name inside `BUILD_DIR`.
pub const BUILD_SCRIPT: &'static str = "build.sh";

/// The version-control metadata directory.
pub const VCS_DIR: &'static str = ".git";

/// The branch that a static site is published from.
pub const STATIC_BRANCH: &'static str = "gh-pages";

/// The kinds of project that `init` can be asked for.
#[derive(Clone, Copy, Debug, PartialEq, Eq, Structural)]
pub enum Kind {
    Deployment,
    Static,
    Jekyll,
    Node,
}

/// A kind that has no profile yet.
#[derive(Clone, Copy, Debug, PartialEq, Eq, Structural)]
pub enum ProfileError {
    NotSupported(Kind),
}

/// The kind chosen by the command-line flags: the first flag set, in the
/// order static, jekyll, node; a deployment project when none is.
pub fn select_kind(static_site: bool, jekyll: bool, node: bool) -> (r: Kind)
    ensures
        static_site ==> r == Kind::Static,
        !static_site && jekyll ==> r == Kind::Jekyll,
        !static_site && !jekyll && node ==> r == Kind::Node,
        !static_site && !jekyll && !node ==> r == Kind::Deployment,
{
    if static_site {
        Kind::Static
    } else if jekyll {
        Kind::Jekyll
    } else if node {
        Kind::Node
    } else {
        Kind::Deployment
    }
}

/// The template texts, one per generated file.
#[derive(Clone, Debug)]
pub struct Templates {
    pub build_script: String,
    pub ci_config: String,
    pub gitignore: String,
    pub license: String,
    pub readme: String,
    pub cname: String,
    pub index_html: String,
}

/// One catalog entry: a template, its path, its mode and its overwrite
/// policy, in contracts.
pub open spec fn entry(text: Seq<char>, path: Seq<char>, mode: u32, overwrite: bool) -> crate::materialize::DescriptorView {
    crate::materialize::DescriptorView { text, path, mode, overwrite }
}

/// The files shared by every profile, in generation order: the build
/// script (executable) and the CI configuration, both refreshed on every
/// run, then the ignore file, the license and the README, which are kept
/// once they exist.
pub open spec fn common_files(t: Templates) -> Seq<crate::materialize::DescriptorView> {
    seq![
        entry(t.build_script@, ".travis.d/build.sh"@, 0o775, true),
        entry(t.ci_config@, ".travis.yml"@, 0o664, true),
        entry(t.gitignore@, ".gitignore"@, 0o664, false),
        entry(t.license@, "LICENSE"@, 0o664, false),
        entry(t.readme@, "README.md"@, 0o664, false),
    ]
}

/// The files of a kind's profile, in generation order.
pub open spec fn profile_files(kind: Kind, t: Templates) -> Seq<crate::materialize::DescriptorView> {
    match kind {
        Kind::Static => common_files(t) + seq![
            entry(t.cname@, "CNAME"@, 0o664, false),
            entry(t.index_html@, "index.html"@, 0o664, false),
        ],
        _ => common_files(t),
    }
}

fn descriptor(text: &String, path: &str, mode: u32, overwrite: bool) -> (r: Descriptor)
    ensures
        r@ == entry(text@, path@, mode, overwrite),
{
    Descriptor { text: text.clone(), path: path.to_string(), mode, overwrite }
}

/// The file set of a kind, or `NotSupported` for a kind without one.
pub fn profile_descriptors(kind: Kind, t: &Templates) -> (r: Result<Vec<Descriptor>, ProfileError>)
    ensures
        (kind == Kind::Deployment || kind == Kind::Static) ==> (r matches Ok(ds)
            && crate::materialize::descriptors_view(ds@) == profile_files(kind, *t)),
        (kind == Kind::Jekyll || kind == Kind::Node) ==> r == Err::<Vec<Descriptor>, ProfileError>(
            ProfileError::NotSupported(kind),
        ),
{
    match kind {
        Kind::Jekyll | Kind::Node => {
            return Err(ProfileError::NotSupported(kind));
        },
        _ => {},
    }
    let mut ds: Vec<Descriptor> = Vec::new();
    ds.push(descriptor(&t.build_script, ".travis.d/build.sh", 0o775, true));
    ds.push(descriptor(&t.ci_config, ".travis.yml", 0o664, true));
    ds.push(descriptor(&t.gitignore, ".gitignore", 0o664, false));
    ds.push(descriptor(&t.license, "LICENSE", 0o664, false));
    ds.push(descriptor(&t.readme, "README.md", 0o664, false));
    if kind == Kind::Static {
        ds.push(descriptor(&t.cname, "CNAME", 0o664, false));
        ds.push(descriptor(&t.index_html, "index.html", 0o664, false));
    }
    assert(crate::materialize::descriptors_view(ds@) =~= profile_files(kind, *t));
    Ok(ds)
}

/// Every profile names each file once, so that the laws of generation
/// (`lemma_edit_survives_rerun`, `lemma_regeneration_identical`) hold of
/// the file sets that `init` uses.
pub proof fn lemma_profile_paths_distinct(kind: Kind, t: Templates)
    ensures
        crate::materialize::distinct_paths(profile_files(kind, t)),
{
    reveal_strlit(".travis.d/build.sh");
    reveal_strlit(".travis.yml");
    reveal_strlit(".gitignore");
    reveal_strlit("LICENSE");
    reveal_strlit("README.md");
    reveal_strlit("CNAME");
    reveal_strlit("index.html");
    let ds = profile_files(kind, t);
    assert(ds.len() == 5 || ds.len() == 7);
    assert(ds[0].path.len() == 18);
    assert(ds[1].path.len() == 11);
    assert(ds[2].path.len() == 10 && ds[2].path[0] == '.');
    assert(ds[3].path.len() == 7);
    assert(ds[4].path.len() == 9);
    if kind == Kind::Static {
        assert(ds[5].path.len() == 5);
        assert(ds[6].path.len() == 10 && ds[6].path[0] == 'i');
    }
}

/// The branch that a kind switches to after its files are written.
pub fn post_branch(kind: Kind) -> (r: Option<&'static str>)
    ensures
        kind == Kind::Static ==> (r matches Some(b) && b@ == STATIC_BRANCH@),
        kind != Kind::Static ==> r is None,
{
    if kind == Kind::Static {
        Some(STATIC_BRANCH)
    } else {
        None
    }
}

/// The repository of a project: the organisation, a slash, the name.
pub open spec fn repo_of(app_name: Seq<char>) -> Seq<char> {
    ORG_NAME@ + "/"@ + app_name
}

/// The repository of the project named `app_name`.
pub fn app_repo(app_name: &str) -> (r: String)
    ensures
        r@ == repo_of(app_name@),
{
    ORG_NAME.to_string().concat("/").concat(app_name)
}

/// A project's name: the last component of its directory's path; none
/// for the filesystem root.
pub fn app_name_of(dir: &Vec<String>) -> (r: Option<String>)
    ensures
        dir@.len() == 0 ==> r is None,
        dir@.len() > 0 ==> (r matches Some(n) && n@ == dir@.last()@),
{
    if dir.len() == 0 {
        None
    } else {
        Some(dir[dir.len() - 1].clone())
    }
}

/// The variables of a project of the given kind, named `app_name` (the
/// basename of its directory), at revision `source_rev`, in contracts.
pub open spec fn project_vars(kind: Kind, app_name: Seq<char>, source_rev: Seq<char>) -> Seq<(Seq<char>, ValueView)> {
    let is_static = kind == Kind::Static;
    seq![
        ("project_type"@, ValueView::Text(if is_static { "static"@ } else { "deployment"@ })),
        ("use_docker"@, ValueView::Flag(!is_static)),
        ("org_name"@, ValueView::Text(ORG_NAME@)),
        ("namespace"@, ValueView::Text(if is_static { "dev"@ } else { "static"@ })),
        ("root_domain"@, ValueView::Text(ROOT_DOMAIN@)),
        ("source_rev"@, ValueView::Text(source_rev)),
        ("app_name"@, ValueView::Text(app_name)),
        ("app_repo"@, ValueView::Text(repo_of(app_name))),
    ]
}

/// The variables that a project's templates are rendered with.
pub fn build_vars(kind: Kind, app_name: &str, source_rev: &str) -> (r: Vars)
    ensures
        r@ == project_vars(kind, app_name@, source_rev@),
{
    let is_static = kind == Kind::Static;
    let mut v = Vars::new();
    v.insert("project_type", Value::Text(if is_static { "static".to_string() } else { "deployment".to_string() }));
    v.insert("use_docker", Value::Flag(!is_static));
    v.insert("org_name", Value::Text(ORG_NAME.to_string()));
    v.insert("namespace", Value::Text(if is_static { "dev".to_string() } else { "static".to_string() }));
    v.insert("root_domain", Value::Text(ROOT_DOMAIN.to_string()));
    v.insert("source_rev", Value::Text(source_rev.to_string()));
    v.insert("app_name", Value::Text(app_name.to_string()));
    v.insert("app_repo", Value::Text(app_repo(app_name)));
    assert(v@ =~= project_vars(kind, app_name@, source_rev@));
    v
}

} // verus!
