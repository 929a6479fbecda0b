//! Generating files from template descriptors.
//!
//! A descriptor whose file already exists is skipped unless it is marked
//! to be overwritten: re-running generation refreshes the build files and
//! never clobbers files that the user may have edited. The first failure
//! stops the run; files written before it stay.
use crate::render::{render, render_spec, RenderError, ValueView, Vars};
use vstd::prelude::*;

verus! {

/// One file to generate: its template text, its path relative to the
/// project root, its permission bits, and whether an existing file is
/// replaced.
#[derive(Clone, Debug)]
pub struct Descriptor {
    pub text: String,
    pub path: String,
    pub mode: u32,
    pub overwrite: bool,
}

/// What a `Descriptor` means in contracts.
pub struct DescriptorView {
    pub text: Seq<char>,
    pub path: Seq<char>,
    pub mode: u32,
    pub overwrite: bool,
}

impl View for Descriptor {
    type V = DescriptorView;

    open spec fn view(&self) -> DescriptorView {
        DescriptorView {
            text: self.text@,
            path: self.path@,
            mode: self.mode,
            overwrite: self.overwrite,
        }
    }
}

/// What to do for one descriptor.
#[derive(Clone, Debug)]
pub enum FileAction {
    /// Leave the existing file alone.
    Skip,
    /// Create the parent directories, write `contents` in place of what is
    /// there, then set the permission bits to `mode`.
    Write { path: String, contents: String, mode: u32 },
}

/// Whether a descriptor's file is written on this run.
pub open spec fn writes(overwrite: bool, present: bool) -> bool {
    overwrite || !present
}

/// Whether a descriptor's output file is (re)written on this run.
pub fn should_write(overwrite: bool, present: bool) -> (r: bool)
    ensures
        r == writes(overwrite, present),
{
    overwrite || !present
}

/// The decision for one descriptor, given whether its file exists. The
/// template is rendered only where the file is to be written.
pub fn plan_file(d: &Descriptor, present: bool, vars: &Vars) -> (r: Result<FileAction, RenderError>)
    ensures
        !writes(d.overwrite, present) ==> r matches Ok(FileAction::Skip),
        writes(d.overwrite, present) ==> match render_spec(d.text@, vars@) {
            Ok(s) => r matches Ok(FileAction::Write { path, contents, mode }) && path@ == d.path@
                && contents@ == s && mode == d.mode,
            Err(e) => r == Err::<FileAction, RenderError>(e),
        },
{
    if !should_write(d.overwrite, present) {
        return Ok(FileAction::Skip);
    }
    match render(d.text.as_str(), vars) {
        Ok(contents) => Ok(FileAction::Write { path: d.path.clone(), contents, mode: d.mode }),
        Err(e) => Err(e),
    }
}

/// The contents of the file at `p`: the last write to it.
pub open spec fn file_at(fs: Seq<(Seq<char>, Seq<char>)>, p: Seq<char>) -> Option<Seq<char>>
    decreases fs.len(),
{
    if fs.len() == 0 {
        None
    } else if fs.last().0 == p {
        Some(fs.last().1)
    } else {
        file_at(fs.drop_last(), p)
    }
}

/// One descriptor's effect on the files, or the error that stops the run.
pub open spec fn step(
    fs: Seq<(Seq<char>, Seq<char>)>,
    d: DescriptorView,
    vars: Seq<(Seq<char>, ValueView)>,
) -> (Seq<(Seq<char>, Seq<char>)>, Option<RenderError>) {
    if !writes(d.overwrite, file_at(fs, d.path) is Some) {
        (fs, None)
    } else {
        match render_spec(d.text, vars) {
            Ok(s) => (fs.push((d.path, s)), None),
            Err(e) => (fs, Some(e)),
        }
    }
}

/// The files after the first `n` descriptors, with the error that stopped
/// the run, if one did.
pub open spec fn run(
    fs: Seq<(Seq<char>, Seq<char>)>,
    ds: Seq<DescriptorView>,
    vars: Seq<(Seq<char>, ValueView)>,
    n: nat,
) -> (Seq<(Seq<char>, Seq<char>)>, Option<RenderError>)
    decreases n,
{
    if n == 0 {
        (fs, None)
    } else {
        let prev = run(fs, ds, vars, (n - 1) as nat);
        if prev.1 is Some {
            prev
        } else {
            step(prev.0, ds[n - 1], vars)
        }
    }
}

/// A set of files held in memory: a log of writes, where the last write to
/// a path gives its contents.
#[derive(Clone, Debug)]
pub struct FileTree {
    pub writes: Vec<(String, String)>,
}

impl View for FileTree {
    type V = Seq<(Seq<char>, Seq<char>)>;

    open spec fn view(&self) -> Seq<(Seq<char>, Seq<char>)> {
        self.writes@.map_values(|w: (String, String)| (w.0@, w.1@))
    }
}

impl FileTree {
    pub fn new() -> (r: FileTree)
        ensures
            r@ == Seq::<(Seq<char>, Seq<char>)>::empty(),
    {
        let r = FileTree { writes: Vec::new() };
        assert(r@ =~= Seq::<(Seq<char>, Seq<char>)>::empty());
        r
    }

    /// The contents of the file at `path`, if there is one.
    pub fn read(&self, path: &str) -> (r: Option<String>)
        ensures
            match file_at(self@, path@) {
                Some(c) => r matches Some(s) && s@ == c,
                None => r is None,
            },
    {
        let p: String = path.to_owned();
        let mut i: usize = self.writes.len();
        assert(self@.take(i as int) =~= self@);
        while i > 0
            invariant
                i <= self.writes@.len(),
                p@ == path@,
                file_at(self@, path@) == file_at(self@.take(i as int), path@),
            decreases i,
        {
            let ghost v = self@.take(i as int);
            assert(v.drop_last() =~= self@.take(i - 1));
            assert(v.last() == (self.writes@[i - 1].0@, self.writes@[i - 1].1@));
            if self.writes[i - 1].0 == p {
                return Some(self.writes[i - 1].1.clone());
            }
            i = i - 1;
        }
        None
    }

    /// Whether a file exists at `path`.
    pub fn has_file(&self, path: &str) -> (r: bool)
        ensures
            r == (file_at(self@, path@) is Some),
    {
        self.read(path).is_some()
    }

    /// Writes `contents` to `path`, in place of what was there.
    pub fn write(&mut self, path: &str, contents: String)
        ensures
            final(self)@ == old(self)@.push((path@, contents@)),
    {
        self.writes.push((path.to_owned(), contents));
        assert(final(self)@ =~= old(self)@.push((path@, contents@)));
    }
}

pub open spec fn descriptors_view(ds: Seq<Descriptor>) -> Seq<DescriptorView> {
    ds.map_values(|d: Descriptor| d@)
}

/// Generates the descriptors' files, in order, into `tree`.
pub fn materialize(tree: &mut FileTree, ds: &Vec<Descriptor>, vars: &Vars) -> (r: Result<
    (),
    RenderError,
>)
    ensures
        final(tree)@ == run(old(tree)@, descriptors_view(ds@), vars@, ds@.len()).0,
        match run(old(tree)@, descriptors_view(ds@), vars@, ds@.len()).1 {
            Some(e) => r == Err::<(), RenderError>(e),
            None => r is Ok,
        },
{
    let ghost start = tree@;
    let ghost dv = descriptors_view(ds@);
    let mut i: usize = 0;
    while i < ds.len()
        invariant
            i <= ds@.len(),
            dv == descriptors_view(ds@),
            start == old(tree)@,
            run(start, dv, vars@, i as nat) == (tree@, None::<RenderError>),
        decreases ds.len() - i,
    {
        let present = tree.has_file(ds[i].path.as_str());
        assert(dv[i as int] == ds@[i as int]@);
        match plan_file(&ds[i], present, vars) {
            Ok(FileAction::Skip) => {},
            Ok(FileAction::Write { path, contents, mode: _ }) => {
                tree.write(path.as_str(), contents);
            },
            Err(e) => {
                proof {
                    assert(run(start, dv, vars@, (i + 1) as nat) == (tree@, Some(e)));
                    lemma_run_stays_stopped(start, dv, vars@, (i + 1) as nat, ds@.len());
                    assert(start == old(tree)@);
                    assert(run(start, dv, vars@, ds@.len()) == (tree@, Some(e)));
                }
                return Err(e);
            },
        }
        i = i + 1;
    }
    Ok(())
}

/// Once a run has stopped, later descriptors change nothing.
proof fn lemma_run_stays_stopped(
    fs: Seq<(Seq<char>, Seq<char>)>,
    ds: Seq<DescriptorView>,
    vars: Seq<(Seq<char>, ValueView)>,
    n: nat,
    m: nat,
)
    requires
        n <= m,
        run(fs, ds, vars, n).1 is Some,
    ensures
        run(fs, ds, vars, m) == run(fs, ds, vars, n),
    decreases m - n,
{
    if n < m {
        lemma_run_stays_stopped(fs, ds, vars, n, (m - 1) as nat);
    }
}

/// No two descriptors name the same file.
pub open spec fn distinct_paths(ds: Seq<DescriptorView>) -> bool {
    forall|i: int, j: int| 0 <= i < j < ds.len() ==> ds[i].path != ds[j].path
}

proof fn lemma_file_at_push(fs: Seq<(Seq<char>, Seq<char>)>, q: Seq<char>, c: Seq<char>, p: Seq<char>)
    ensures
        file_at(fs.push((q, c)), p) == (if q == p {
            Some(c)
        } else {
            file_at(fs, p)
        }),
{
    assert(fs.push((q, c)).drop_last() =~= fs);
}

/// A file that some descriptor's step leaves in place stays in place.
proof fn lemma_step_keeps_present(
    fs: Seq<(Seq<char>, Seq<char>)>,
    d: DescriptorView,
    vars: Seq<(Seq<char>, ValueView)>,
    p: Seq<char>,
)
    requires
        file_at(fs, p) is Some,
    ensures
        file_at(step(fs, d, vars).0, p) is Some,
{
    if writes(d.overwrite, file_at(fs, d.path) is Some) {
        if let Ok(s) = render_spec(d.text, vars) {
            lemma_file_at_push(fs, d.path, s, p);
        }
    }
}

/// A step for another path leaves the file at `p` as it was.
proof fn lemma_step_other_path(
    fs: Seq<(Seq<char>, Seq<char>)>,
    d: DescriptorView,
    vars: Seq<(Seq<char>, ValueView)>,
    p: Seq<char>,
)
    requires
        d.path != p,
    ensures
        file_at(step(fs, d, vars).0, p) == file_at(fs, p),
{
    if writes(d.overwrite, file_at(fs, d.path) is Some) {
        if let Ok(s) = render_spec(d.text, vars) {
            lemma_file_at_push(fs, d.path, s, p);
        }
    }
}

/// Files present after `k` descriptors are still present after `n`.
proof fn lemma_run_keeps_present(
    fs: Seq<(Seq<char>, Seq<char>)>,
    ds: Seq<DescriptorView>,
    vars: Seq<(Seq<char>, ValueView)>,
    k: nat,
    n: nat,
    p: Seq<char>,
)
    requires
        k <= n <= ds.len(),
        file_at(run(fs, ds, vars, k).0, p) is Some,
    ensures
        file_at(run(fs, ds, vars, n).0, p) is Some,
    decreases n,
{
    if k < n {
        lemma_run_keeps_present(fs, ds, vars, k, (n - 1) as nat, p);
        let prev = run(fs, ds, vars, (n - 1) as nat);
        if prev.1 is None {
            lemma_step_keeps_present(prev.0, ds[n - 1], vars, p);
        }
    }
}

/// A file that no overwritable descriptor names keeps its contents.
proof fn lemma_run_keeps_existing(
    fs: Seq<(Seq<char>, Seq<char>)>,
    ds: Seq<DescriptorView>,
    vars: Seq<(Seq<char>, ValueView)>,
    p: Seq<char>,
    n: nat,
)
    requires
        n <= ds.len(),
        forall|k: int| 0 <= k < ds.len() && #[trigger] ds[k].path == p ==> !ds[k].overwrite,
        file_at(fs, p) is Some,
    ensures
        file_at(run(fs, ds, vars, n).0, p) == file_at(fs, p),
    decreases n,
{
    if n > 0 {
        lemma_run_keeps_existing(fs, ds, vars, p, (n - 1) as nat);
        let prev = run(fs, ds, vars, (n - 1) as nat);
        if prev.1 is None && ds[n - 1].path != p {
            lemma_step_other_path(prev.0, ds[n - 1], vars, p);
        }
    }
}

/// After a run without error, an overwritable descriptor's file holds its
/// rendered template.
proof fn lemma_run_writes_overwritable(
    fs: Seq<(Seq<char>, Seq<char>)>,
    ds: Seq<DescriptorView>,
    vars: Seq<(Seq<char>, ValueView)>,
    j: int,
    n: nat,
)
    requires
        0 <= j < n <= ds.len(),
        ds[j].overwrite,
        forall|k: int| j < k < ds.len() ==> #[trigger] ds[k].path != ds[j].path,
        run(fs, ds, vars, n).1 is None,
    ensures
        render_spec(ds[j].text, vars) is Ok,
        file_at(run(fs, ds, vars, n).0, ds[j].path) == Some(render_spec(ds[j].text, vars)->Ok_0),
    decreases n,
{
    let prev = run(fs, ds, vars, (n - 1) as nat);
    assert(prev.1 is None);
    if n - 1 == j {
        if let Ok(s) = render_spec(ds[j].text, vars) {
            lemma_file_at_push(prev.0, ds[j].path, s, ds[j].path);
        }
    } else {
        lemma_run_writes_overwritable(fs, ds, vars, j, (n - 1) as nat);
        lemma_step_other_path(prev.0, ds[n - 1], vars, ds[j].path);
    }
}

/// After a run without error, each descriptor either had its file present
/// when its turn came and was not overwritable, or rendered without error.
proof fn lemma_run_ok_steps(
    fs: Seq<(Seq<char>, Seq<char>)>,
    ds: Seq<DescriptorView>,
    vars: Seq<(Seq<char>, ValueView)>,
    k: int,
    n: nat,
)
    requires
        0 <= k < n <= ds.len(),
        run(fs, ds, vars, n).1 is None,
    ensures
        (!ds[k].overwrite && file_at(run(fs, ds, vars, k as nat).0, ds[k].path) is Some)
            || render_spec(ds[k].text, vars) is Ok,
    decreases n,
{
    let prev = run(fs, ds, vars, (n - 1) as nat);
    assert(prev.1 is None);
    if n - 1 != k {
        lemma_run_ok_steps(fs, ds, vars, k, (n - 1) as nat);
    }
}

/// A second run over the output of an error-free first run is error-free.
proof fn lemma_rerun_ok(
    fs: Seq<(Seq<char>, Seq<char>)>,
    ds: Seq<DescriptorView>,
    vars: Seq<(Seq<char>, ValueView)>,
    n: nat,
)
    requires
        n <= ds.len(),
        run(fs, ds, vars, ds.len()).1 is None,
    ensures
        run(run(fs, ds, vars, ds.len()).0, ds, vars, n).1 is None,
    decreases n,
{
    if n > 0 {
        let first = run(fs, ds, vars, ds.len()).0;
        let k = n - 1;
        lemma_rerun_ok(fs, ds, vars, (n - 1) as nat);
        lemma_run_ok_steps(fs, ds, vars, k, ds.len());
        if !ds[k].overwrite && file_at(run(fs, ds, vars, k as nat).0, ds[k].path) is Some {
            lemma_run_keeps_present(fs, ds, vars, k as nat, ds.len(), ds[k].path);
            lemma_run_keeps_present(first, ds, vars, 0, k as nat, ds[k].path);
        }
    }
}

/// Re-running generation after the user edited a file that is not
/// overwritten leaves the edit in place. (Where an overwritable descriptor
/// names the same file, it is regenerated: that case is left out.)
pub proof fn lemma_edit_survives_rerun(
    fs: Seq<(Seq<char>, Seq<char>)>,
    ds: Seq<DescriptorView>,
    vars: Seq<(Seq<char>, ValueView)>,
    j: int,
    edit: Seq<char>,
)
    requires
        0 <= j < ds.len(),
        forall|k: int| 0 <= k < ds.len() && #[trigger] ds[k].path == ds[j].path ==> !ds[k].overwrite,
    ensures
        ({
            let first = run(fs, ds, vars, ds.len()).0;
            let edited = first.push((ds[j].path, edit));
            file_at(run(edited, ds, vars, ds.len()).0, ds[j].path) == Some(edit)
        }),
{
    let first = run(fs, ds, vars, ds.len()).0;
    let edited = first.push((ds[j].path, edit));
    lemma_file_at_push(first, ds[j].path, edit, ds[j].path);
    lemma_run_keeps_existing(edited, ds, vars, ds[j].path, ds.len());
}

/// Running generation twice with the same variables gives an overwritable
/// file the same contents after both runs: its rendered template. The
/// second run succeeds whenever the first did. (Stated of the last
/// descriptor that names the file.)
pub proof fn lemma_regeneration_identical(
    fs: Seq<(Seq<char>, Seq<char>)>,
    ds: Seq<DescriptorView>,
    vars: Seq<(Seq<char>, ValueView)>,
    j: int,
)
    requires
        0 <= j < ds.len(),
        ds[j].overwrite,
        forall|k: int| j < k < ds.len() ==> #[trigger] ds[k].path != ds[j].path,
    ensures
        ({
            let first = run(fs, ds, vars, ds.len());
            let second = run(first.0, ds, vars, ds.len());
            first.1 is None ==> {
                &&& second.1 is None
                &&& file_at(first.0, ds[j].path) == Some(render_spec(ds[j].text, vars)->Ok_0)
                &&& file_at(second.0, ds[j].path) == file_at(first.0, ds[j].path)
            }
        }),
{
    let first = run(fs, ds, vars, ds.len());
    if first.1 is None {
        lemma_run_writes_overwritable(fs, ds, vars, j, ds.len());
        lemma_rerun_ok(fs, ds, vars, ds.len());
        lemma_run_writes_overwritable(first.0, ds, vars, j, ds.len());
    }
}

} // verus!
