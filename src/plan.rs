use vstd::prelude::*;
use crate::error::{Error, Result, is_runtime_error};

verus! {

/// A subprocess to run: the program, its arguments, the directory it runs
/// in, and the message that names the step when it exits with a failure.
#[derive(Debug, Clone, PartialEq, Eq)]
pub struct CommandLine {
    pub program: Vec<u8>,
    pub args: Vec<Vec<u8>>,
    pub dir: Vec<u8>,
    pub step: String,
}

/// The path separator.
pub const SLASH: u8 = 47;

/// `b` appended to the path `a` as one more component.
pub open spec fn path_join(a: Seq<u8>, b: Seq<u8>) -> Seq<u8> {
    if a.len() == 0 || a.last() == SLASH {
        a + b
    } else {
        a + seq![SLASH] + b
    }
}

/// The UTF-8 bytes of a text.
pub open spec fn utf8(s: Seq<char>) -> Seq<u8> {
    vstd::utf8::encode_utf8(s)
}

/// The UTF-8 bytes of a text, as a vector.
pub fn bytes_of(s: &str) -> (r: Vec<u8>)
    ensures
        r@ == utf8(s@),
{
    vstd::slice::slice_to_vec(s.as_bytes())
}

/// Appends the path component `b` to the path `a`.
pub fn join(a: &[u8], b: &[u8]) -> (r: Vec<u8>)
    ensures
        r@ == path_join(a@, b@),
{
    let mut out = vstd::slice::slice_to_vec(a);
    if a.len() > 0 && a[a.len() - 1] != SLASH {
        out.push(SLASH);
    }
    let mut i: usize = 0;
    while i < b.len()
        invariant
            i <= b@.len(),
            out@ == (if a@.len() == 0 || a@.last() == SLASH {
                a@
            } else {
                a@ + seq![SLASH]
            }) + b@.take(i as int),
        decreases b@.len() - i,
    {
        out.push(b[i]);
        i = i + 1;
        assert(out@ =~= (if a@.len() == 0 || a@.last() == SLASH {
            a@
        } else {
            a@ + seq![SLASH]
        }) + b@.take(i as int));
    }
    assert(b@.take(b@.len() as int) =~= b@);
    out
}

/// What a `CommandLine` holds, as plain values.
pub struct CommandView {
    pub program: Seq<u8>,
    pub args: Seq<Seq<u8>>,
    pub dir: Seq<u8>,
    pub step: Seq<char>,
}

impl View for CommandLine {
    type V = CommandView;

    open spec fn view(&self) -> CommandView {
        CommandView {
            program: self.program@,
            args: self.args@.map_values(|a: Vec<u8>| a@),
            dir: self.dir@,
            step: self.step@,
        }
    }
}

/// One unit of work on the deployment target. Release names are the names
/// of directories under `releases/`.
#[derive(Debug, Clone, PartialEq, Eq)]
pub enum Action {
    /// Create the directory of a release, with its parents.
    CreateRelease(Vec<u8>),
    /// Run an installation step.
    Run(CommandLine),
    /// In release `release`, create the parents of `dest` and a symbolic link
    /// at `dest` to `shared/<source>`.
    Link { release: Vec<u8>, source: Vec<u8>, dest: Vec<u8> },
    /// Report a malformed line of the link manifest; nothing is linked.
    ReportBadLink(Vec<u8>),
    /// Run the hook `deployer.<hook>`, if it exists, inside release `release`.
    Hook { release: Vec<u8>, hook: String },
    /// Rename the directory of a release.
    Rename { from: Vec<u8>, to: Vec<u8> },
    /// Remove the `current` link if it exists, then point it at a release.
    SwitchCurrent(Vec<u8>),
    /// Apply the retention policy to the releases as they then stand.
    Clean,
    /// Remove the directory of a release with all it holds.
    Remove(Vec<u8>),
}

/// What an `Action` holds, as plain values.
pub enum ActionView {
    CreateRelease(Seq<u8>),
    Run(CommandView),
    Link { release: Seq<u8>, source: Seq<u8>, dest: Seq<u8> },
    ReportBadLink(Seq<u8>),
    Hook { release: Seq<u8>, hook: Seq<char> },
    Rename { from: Seq<u8>, to: Seq<u8> },
    SwitchCurrent(Seq<u8>),
    Clean,
    Remove(Seq<u8>),
}

impl View for Action {
    type V = ActionView;

    open spec fn view(&self) -> ActionView {
        match self {
            Action::CreateRelease(n) => ActionView::CreateRelease(n@),
            Action::Run(c) => ActionView::Run(c@),
            Action::Link { release, source, dest } => ActionView::Link {
                release: release@,
                source: source@,
                dest: dest@,
            },
            Action::ReportBadLink(l) => ActionView::ReportBadLink(l@),
            Action::Hook { release, hook } => ActionView::Hook { release: release@, hook: hook@ },
            Action::Rename { from, to } => ActionView::Rename { from: from@, to: to@ },
            Action::SwitchCurrent(n) => ActionView::SwitchCurrent(n@),
            Action::Clean => ActionView::Clean,
            Action::Remove(n) => ActionView::Remove(n@),
        }
    }
}

/// The views of a sequence of actions.
pub open spec fn views(s: Seq<Action>) -> Seq<ActionView> {
    s.map_values(|a: Action| a@)
}

/// The views of a sequence of commands.
pub open spec fn command_views(s: Seq<CommandLine>) -> Seq<CommandView> {
    s.map_values(|c: CommandLine| c@)
}

/// The installation steps as actions.
pub open spec fn runs(s: Seq<CommandView>) -> Seq<ActionView> {
    s.map_values(|c: CommandView| ActionView::Run(c))
}

/// Appends to `plan` a `Run` of each command of `cmds`, in order.
pub fn append_runs(plan: &mut Vec<Action>, cmds: Vec<CommandLine>)
    ensures
        views(final(plan)@) == views(old(plan)@) + runs(command_views(cmds@)),
{
    let mut cmds = cmds;
    let ghost all = command_views(cmds@);
    let ghost head = views(plan@);
    let ghost mut k: int = 0;
    assert(head + runs(all.take(0)) =~= head);
    assert(all.skip(0) =~= all);
    while cmds.len() > 0
        invariant
            0 <= k <= all.len(),
            command_views(cmds@) == all.skip(k),
            views(plan@) == head + runs(all.take(k)),
        decreases cmds@.len(),
    {
        assert(command_views(cmds@).len() == cmds@.len());
        assert(k < all.len());
        let ghost cv = command_views(cmds@);
        let c = cmds.remove(0);
        assert(c@ == cv[0]);
        assert(command_views(cmds@) =~= cv.skip(1));
        assert(cv.skip(1) =~= all.skip(k + 1));
        let ghost before = views(plan@);
        plan.push(Action::Run(c));
        assert(views(plan@) =~= before.push(ActionView::Run(all[k])));
        assert(all.take(k + 1) =~= all.take(k).push(all[k]));
        assert(runs(all.take(k + 1)) =~= runs(all.take(k)).push(ActionView::Run(all[k])));
        assert(views(plan@) =~= head + runs(all.take(k + 1)));
        proof {
            k = k + 1;
        }
    }
    assert(command_views(cmds@).len() == cmds@.len());
    assert(all.take(k) =~= all);
}

/// How the work of one action ended.
#[derive(Debug)]
pub enum Outcome {
    /// The work was done, or there was nothing to do (a missing hook).
    Done,
    /// A subprocess ran and exited, with success or not.
    Exited(bool),
    /// The filesystem or the process launcher failed.
    Failed(std::io::Error),
}

/// The message of the error that a failed exit of the action gives.
pub open spec fn exit_failure(a: ActionView) -> Seq<char> {
    match a {
        ActionView::Run(c) => c.step,
        _ => "Hook failed"@,
    }
}

impl Action {
    /// Decides whether the deployment goes on after this action ended with
    /// `outcome`: only a failed launch or operation and a failed exit stop it.
    pub fn step_result(&self, outcome: Outcome) -> (r: Result<()>)
        ensures
            outcome is Done ==> r is Ok,
            outcome == Outcome::Exited(true) ==> r is Ok,
            outcome == Outcome::Exited(false) ==> r is Err && is_runtime_error(
                r->Err_0,
                exit_failure(self@),
            ),
            outcome is Failed ==> r is Err && r->Err_0 == Error::IoError(outcome->Failed_0),
    {
        match outcome {
            Outcome::Done => Ok(()),
            Outcome::Exited(true) => Ok(()),
            Outcome::Exited(false) => match self {
                Action::Run(c) => Err(Error::RuntimeError(c.step.clone())),
                _ => Err(crate::error::runtime_error("Hook failed")),
            },
            Outcome::Failed(e) => Err(Error::IoError(e)),
        }
    }
}

} // verus!
