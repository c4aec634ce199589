use vstd::prelude::*;
use crate::plan::{CommandLine, CommandView, command_views, utf8, bytes_of};

verus! {

/// A strategy that fills the empty, already created directory of a new
/// release. It gives the subprocesses to run, in order; each must succeed
/// before the next runs.
pub trait InstallationMethod {
    /// The subprocesses that install into `path`, for the project at
    /// `base_dir`.
    spec fn commands(&self, base_dir: Seq<u8>, path: Seq<u8>) -> Seq<CommandView>;

    fn install_to(&self, base_dir: &[u8], path: &[u8]) -> (r: Vec<CommandLine>)
        ensures
            command_views(r@) == self.commands(base_dir@, path@),
    ;
}

/// A subprocess description with the given parts.
pub open spec fn command(program: Seq<char>, args: Seq<Seq<u8>>, dir: Seq<u8>, step: Seq<char>) -> CommandView {
    CommandView { program: utf8(program), args, dir, step }
}

/// Installs nothing: for releases that are filled by other means.
#[derive(Debug, Clone, Copy)]
pub struct NoopInstallationMethod {}

impl InstallationMethod for NoopInstallationMethod {
    open spec fn commands(&self, base_dir: Seq<u8>, path: Seq<u8>) -> Seq<CommandView> {
        Seq::empty()
    }

    fn install_to(&self, base_dir: &[u8], path: &[u8]) -> (r: Vec<CommandLine>) {
        let r: Vec<CommandLine> = Vec::new();
        assert(command_views(r@) =~= Seq::empty());
        r
    }
}

/// Clones a branch of a local repository into the release and strips the
/// version-control metadata from it.
#[derive(Debug, Clone)]
pub struct GitInstallationMethod {
    source_dir: String,
    branch: String,
}

/// The source repository and the branch of a `GitInstallationMethod`.
pub struct GitView {
    pub source_dir: Seq<char>,
    pub branch: Seq<char>,
}

impl View for GitInstallationMethod {
    type V = GitView;

    closed spec fn view(&self) -> GitView {
        GitView { source_dir: self.source_dir@, branch: self.branch@ }
    }
}

/// The three steps of a git installation: fetch `origin` in the source
/// repository; clone the branch, one commit deep and with its submodules,
/// into `path`; remove every `.git` under `path`.
pub open spec fn git_commands(g: GitView, base_dir: Seq<u8>, path: Seq<u8>) -> Seq<CommandView> {
    seq![
        command(
            "git"@,
            seq![utf8("fetch"@), utf8("origin"@)],
            utf8(g.source_dir),
            "Error running git fetch"@,
        ),
        command(
            "git"@,
            seq![
                utf8("clone"@),
                utf8("--no-local"@),
                utf8("--depth"@),
                utf8("1"@),
                utf8("--recurse-submodules"@),
                utf8("--branch"@),
                utf8(g.branch),
                utf8(g.source_dir),
                path,
            ],
            base_dir,
            "Error running git clone"@,
        ),
        command(
            "find"@,
            seq![
                path,
                utf8("-name"@),
                utf8(".git"@),
                utf8("-exec"@),
                utf8("rm"@),
                utf8("-rf"@),
                utf8("{}"@),
                utf8("+"@),
            ],
            base_dir,
            "Error running rm .git"@,
        ),
    ]
}

impl GitInstallationMethod {
    pub fn new(source_dir: &str, branch: &str) -> (r: GitInstallationMethod)
        ensures
            r@.source_dir == source_dir@,
            r@.branch == branch@,
    {
        GitInstallationMethod { source_dir: source_dir.to_owned(), branch: branch.to_owned() }
    }
}

/// Appends the bytes of `s` to `args`.
fn push_arg(args: &mut Vec<Vec<u8>>, s: &str)
    ensures
        final(args)@.map_values(|a: Vec<u8>| a@) == old(args)@.map_values(|a: Vec<u8>| a@).push(
            utf8(s@),
        ),
{
    args.push(bytes_of(s));
    assert(final(args)@.map_values(|a: Vec<u8>| a@) =~= old(args)@.map_values(|a: Vec<u8>| a@).push(
        utf8(s@),
    ));
}

/// Appends a copy of `b` to `args`.
fn push_bytes(args: &mut Vec<Vec<u8>>, b: &[u8])
    ensures
        final(args)@.map_values(|a: Vec<u8>| a@) == old(args)@.map_values(|a: Vec<u8>| a@).push(
            b@,
        ),
{
    args.push(vstd::slice::slice_to_vec(b));
    assert(final(args)@.map_values(|a: Vec<u8>| a@) =~= old(args)@.map_values(|a: Vec<u8>| a@).push(
        b@,
    ));
}

/// A subprocess description.
fn command_line(program: &str, args: Vec<Vec<u8>>, dir: Vec<u8>, step: &str) -> (r: CommandLine)
    ensures
        r@ == command(program@, args@.map_values(|a: Vec<u8>| a@), dir@, step@),
{
    CommandLine { program: bytes_of(program), args, dir, step: step.to_owned() }
}

impl InstallationMethod for GitInstallationMethod {
    open spec fn commands(&self, base_dir: Seq<u8>, path: Seq<u8>) -> Seq<CommandView> {
        git_commands(self@, base_dir, path)
    }

    fn install_to(&self, base_dir: &[u8], path: &[u8]) -> (r: Vec<CommandLine>) {
        let source = self.source_dir.as_str();
        let mut fetch: Vec<Vec<u8>> = Vec::new();
        push_arg(&mut fetch, "fetch");
        push_arg(&mut fetch, "origin");
        let mut clone: Vec<Vec<u8>> = Vec::new();
        push_arg(&mut clone, "clone");
        push_arg(&mut clone, "--no-local");
        push_arg(&mut clone, "--depth");
        push_arg(&mut clone, "1");
        push_arg(&mut clone, "--recurse-submodules");
        push_arg(&mut clone, "--branch");
        push_arg(&mut clone, self.branch.as_str());
        push_arg(&mut clone, source);
        push_bytes(&mut clone, path);
        let mut strip: Vec<Vec<u8>> = Vec::new();
        push_bytes(&mut strip, path);
        push_arg(&mut strip, "-name");
        push_arg(&mut strip, ".git");
        push_arg(&mut strip, "-exec");
        push_arg(&mut strip, "rm");
        push_arg(&mut strip, "-rf");
        push_arg(&mut strip, "{}");
        push_arg(&mut strip, "+");
        assert(fetch@.map_values(|a: Vec<u8>| a@) =~= seq![utf8("fetch"@), utf8("origin"@)]);
        assert(clone@.map_values(|a: Vec<u8>| a@) =~= seq![
            utf8("clone"@),
            utf8("--no-local"@),
            utf8("--depth"@),
            utf8("1"@),
            utf8("--recurse-submodules"@),
            utf8("--branch"@),
            utf8(self@.branch),
            utf8(self@.source_dir),
            path@,
        ]);
        assert(strip@.map_values(|a: Vec<u8>| a@) =~= seq![
            path@,
            utf8("-name"@),
            utf8(".git"@),
            utf8("-exec"@),
            utf8("rm"@),
            utf8("-rf"@),
            utf8("{}"@),
            utf8("+"@),
        ]);
        let mut r: Vec<CommandLine> = Vec::new();
        r.push(command_line("git", fetch, bytes_of(source), "Error running git fetch"));
        r.push(
            command_line(
                "git",
                clone,
                vstd::slice::slice_to_vec(base_dir),
                "Error running git clone",
            ),
        );
        r.push(
            command_line("find", strip, vstd::slice::slice_to_vec(base_dir), "Error running rm .git"),
        );
        assert(command_views(r@) =~= git_commands(self@, base_dir@, path@));
        r
    }
}

/// Extracts an archive into the release.
#[derive(Debug, Clone)]
pub struct TarInstallationMethod {
    filename: String,
}

impl View for TarInstallationMethod {
    type V = Seq<char>;

    closed spec fn view(&self) -> Seq<char> {
        self.filename@
    }
}

/// The one step of a tar installation: extract the archive into `path`.
pub open spec fn tar_commands(filename: Seq<char>, base_dir: Seq<u8>, path: Seq<u8>) -> Seq<CommandView> {
    seq![
        command(
            "tar"@,
            seq![utf8("xf"@), utf8(filename), utf8("-C"@), path],
            base_dir,
            "Error running tar extract"@,
        ),
    ]
}

impl TarInstallationMethod {
    pub fn new(filename: &str) -> (r: TarInstallationMethod)
        ensures
            r@ == filename@,
    {
        TarInstallationMethod { filename: filename.to_owned() }
    }
}

impl InstallationMethod for TarInstallationMethod {
    open spec fn commands(&self, base_dir: Seq<u8>, path: Seq<u8>) -> Seq<CommandView> {
        tar_commands(self@, base_dir, path)
    }

    fn install_to(&self, base_dir: &[u8], path: &[u8]) -> (r: Vec<CommandLine>) {
        let mut args: Vec<Vec<u8>> = Vec::new();
        push_arg(&mut args, "xf");
        push_arg(&mut args, self.filename.as_str());
        push_arg(&mut args, "-C");
        push_bytes(&mut args, path);
        assert(args@.map_values(|a: Vec<u8>| a@) =~= seq![
            utf8("xf"@),
            utf8(self@),
            utf8("-C"@),
            path@,
        ]);
        let mut r: Vec<CommandLine> = Vec::new();
        r.push(
            command_line("tar", args, vstd::slice::slice_to_vec(base_dir), "Error running tar extract"),
        );
        assert(command_views(r@) =~= tar_commands(self@, base_dir@, path@));
        r
    }
}

/// How a project installs its releases, as its configuration names it.
#[derive(Debug, Clone)]
pub enum InstallationMethodConfig {
    Noop,
    Git { source_dir: String, branch: String },
    Tar { filename: String },
}

/// The installation method that a configuration selects.
#[derive(Debug, Clone)]
pub enum SelectedMethod {
    Noop(NoopInstallationMethod),
    Git(GitInstallationMethod),
    Tar(TarInstallationMethod),
}

impl InstallationMethod for SelectedMethod {
    open spec fn commands(&self, base_dir: Seq<u8>, path: Seq<u8>) -> Seq<CommandView> {
        match self {
            SelectedMethod::Noop(m) => m.commands(base_dir, path),
            SelectedMethod::Git(m) => m.commands(base_dir, path),
            SelectedMethod::Tar(m) => m.commands(base_dir, path),
        }
    }

    fn install_to(&self, base_dir: &[u8], path: &[u8]) -> (r: Vec<CommandLine>) {
        match self {
            SelectedMethod::Noop(m) => m.install_to(base_dir, path),
            SelectedMethod::Git(m) => m.install_to(base_dir, path),
            SelectedMethod::Tar(m) => m.install_to(base_dir, path),
        }
    }
}

/// The method that `config` selects, with the parameters it gives.
pub open spec fn selects(config: InstallationMethodConfig, m: SelectedMethod) -> bool {
    match config {
        InstallationMethodConfig::Noop => m is Noop,
        InstallationMethodConfig::Git { source_dir, branch } => m is Git && m->Git_0@
            == (GitView { source_dir: source_dir@, branch: branch@ }),
        InstallationMethodConfig::Tar { filename } => m is Tar && m->Tar_0@ == filename@,
    }
}

/// Builds the installation method that a configuration names.
pub fn installation_method_from_config(config: &InstallationMethodConfig) -> (r: SelectedMethod)
    ensures
        selects(*config, r),
{
    match config {
        InstallationMethodConfig::Noop => SelectedMethod::Noop(NoopInstallationMethod {}),
        InstallationMethodConfig::Git { source_dir, branch } => SelectedMethod::Git(
            GitInstallationMethod::new(source_dir.as_str(), branch.as_str()),
        ),
        InstallationMethodConfig::Tar { filename } => SelectedMethod::Tar(
            TarInstallationMethod::new(filename.as_str()),
        ),
    }
}

} // verus!
