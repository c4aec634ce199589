use vstd::prelude::*;
use crate::error::{Result, is_runtime_error, runtime_error};
use crate::links::{
    lines_of, tokens_of, line_text, split_lines, split_tokens, CARRIAGE_RETURN,
};
use crate::plan::{Action, ActionView, views, path_join, utf8, join, bytes_of};

verus! {

/// The lifecycle state of a release, encoded as a one-byte prefix of its
/// directory name: none for `Normal`, `i` for `Installing`, `r` for
/// `Rollbacked`.
#[derive(Debug, Clone, Copy, PartialEq, Eq, Structural)]
pub enum ReleaseState {
    Normal,
    Installing,
    Rollbacked,
}

/// The prefix byte of `Installing` names.
pub const INSTALLING_TAG: u8 = 0x69;

/// The prefix byte of `Rollbacked` names.
pub const ROLLBACKED_TAG: u8 = 0x72;

/// The state that a directory name encodes.
pub open spec fn state_of(name: Seq<u8>) -> ReleaseState {
    if name.len() > 0 && name[0] == INSTALLING_TAG {
        ReleaseState::Installing
    } else if name.len() > 0 && name[0] == ROLLBACKED_TAG {
        ReleaseState::Rollbacked
    } else {
        ReleaseState::Normal
    }
}

/// The name without its state prefix, if it has one.
pub open spec fn untagged(name: Seq<u8>) -> Seq<u8> {
    if name.len() > 0 && (name[0] == INSTALLING_TAG || name[0] == ROLLBACKED_TAG) {
        name.drop_first()
    } else {
        name
    }
}

/// The prefix that marks `state`: empty for `Normal`.
pub open spec fn tag_of(state: ReleaseState) -> Seq<u8> {
    match state {
        ReleaseState::Normal => Seq::empty(),
        ReleaseState::Installing => seq![INSTALLING_TAG],
        ReleaseState::Rollbacked => seq![ROLLBACKED_TAG],
    }
}

/// The name that `name` takes when its release moves to `state`.
pub open spec fn renamed_for(state: ReleaseState, name: Seq<u8>) -> Seq<u8> {
    tag_of(state) + untagged(name)
}

impl ReleaseState {
    /// Reads the state that a directory name encodes.
    pub fn from_path(path: &[u8]) -> (r: ReleaseState)
        ensures
            r == state_of(path@),
    {
        if path.len() > 0 && path[0] == INSTALLING_TAG {
            ReleaseState::Installing
        } else if path.len() > 0 && path[0] == ROLLBACKED_TAG {
            ReleaseState::Rollbacked
        } else {
            ReleaseState::Normal
        }
    }

    /// The directory name that `path` takes in this state: an existing
    /// state prefix is replaced by the one of `self`.
    pub fn new_path_for(&self, path: &[u8]) -> (r: Vec<u8>)
        ensures
            r@ == renamed_for(*self, path@),
    {
        let mut out: Vec<u8> = Vec::new();
        match self {
            ReleaseState::Normal => {},
            ReleaseState::Installing => out.push(INSTALLING_TAG),
            ReleaseState::Rollbacked => out.push(ROLLBACKED_TAG),
        }
        let start: usize = if path.len() > 0 && (path[0] == INSTALLING_TAG || path[0]
            == ROLLBACKED_TAG) {
            1
        } else {
            0
        };
        let mut i: usize = start;
        while i < path.len()
            invariant
                start <= i <= path@.len(),
                out@ == tag_of(*self) + path@.subrange(start as int, i as int),
            decreases path@.len() - i,
        {
            out.push(path[i]);
            i = i + 1;
        }
        assert(path@.subrange(start as int, path@.len() as int) =~= untagged(path@));
        out
    }
}

/// The name starts with a state prefix.
pub open spec fn is_tagged(name: Seq<u8>) -> bool {
    name.len() > 0 && (name[0] == INSTALLING_TAG || name[0] == ROLLBACKED_TAG)
}

/// Renaming a release to a state gives a name that encodes that state. Only
/// one prefix is ever stripped, so a name that carries two prefixes keeps
/// the second when it is renamed to `Normal`.
pub proof fn lemma_renamed_state(state: ReleaseState, name: Seq<u8>)
    requires
        state == ReleaseState::Normal ==> !is_tagged(untagged(name)),
    ensures
        state_of(renamed_for(state, name)) == state,
{
    let r = renamed_for(state, name);
    match state {
        ReleaseState::Normal => {
            assert(r =~= untagged(name));
        },
        ReleaseState::Installing => {
            assert(r[0] == INSTALLING_TAG);
        },
        ReleaseState::Rollbacked => {
            assert(r[0] == ROLLBACKED_TAG);
        },
    }
}

/// Renaming twice to the same state gives the name of the first renaming,
/// for every name that does not carry two prefixes when the state is
/// `Normal`.
pub proof fn lemma_renamed_idempotent(state: ReleaseState, name: Seq<u8>)
    requires
        state == ReleaseState::Normal ==> !is_tagged(untagged(name)),
    ensures
        renamed_for(state, renamed_for(state, name)) == renamed_for(state, name),
{
    let u = untagged(name);
    let r = renamed_for(state, name);
    match state {
        ReleaseState::Normal => {
            assert(r =~= u);
            assert(untagged(r) =~= u);
        },
        _ => {
            assert(untagged(r) =~= u);
        },
    }
    assert(renamed_for(state, r) =~= r);
}

/// The path of the directory of release `name` under the base directory.
pub open spec fn release_path(base_dir: Seq<u8>, name: Seq<u8>) -> Seq<u8> {
    path_join(path_join(base_dir, utf8("releases"@)), name)
}

/// The link that a manifest line asks for, or its report when it is
/// malformed; a blank line asks for nothing.
pub open spec fn line_actions(release: Seq<u8>, line: Seq<u8>) -> Seq<ActionView> {
    let t = tokens_of(line);
    if t.len() == 0 {
        Seq::empty()
    } else if t.len() == 1 {
        seq![ActionView::Link { release, source: t[0], dest: t[0] }]
    } else if t.len() == 2 {
        seq![ActionView::Link { release, source: t[0], dest: t[1] }]
    } else {
        seq![ActionView::ReportBadLink(line_text(line))]
    }
}

/// The actions of the lines `lines`, in order.
pub open spec fn lines_actions(release: Seq<u8>, lines: Seq<Seq<u8>>) -> Seq<ActionView>
    decreases lines.len(),
{
    if lines.len() == 0 {
        Seq::empty()
    } else {
        lines_actions(release, lines.drop_last()) + line_actions(release, lines.last())
    }
}

/// The actions that the link manifest `manifest` asks for in `release`.
pub open spec fn links_actions(release: Seq<u8>, manifest: Seq<u8>) -> Seq<ActionView> {
    lines_actions(release, lines_of(manifest))
}

/// The actions of consecutive runs of lines are those of each run in turn.
pub proof fn lemma_lines_actions_split(release: Seq<u8>, a: Seq<Seq<u8>>, b: Seq<Seq<u8>>)
    ensures
        lines_actions(release, a + b) == lines_actions(release, a) + lines_actions(release, b),
    decreases b.len(),
{
    if b.len() == 0 {
        assert(a + b =~= a);
        assert(lines_actions(release, a) + lines_actions(release, b) =~= lines_actions(
            release,
            a,
        ));
    } else {
        lemma_lines_actions_split(release, a, b.drop_last());
        assert((a + b).drop_last() =~= a + b.drop_last());
        assert(lines_actions(release, a) + lines_actions(release, b) =~= lines_actions(
            release,
            a,
        ) + lines_actions(release, b.drop_last()) + line_actions(release, b.last()));
    }
}

/// A manifest line of more than two tokens is reported and links nothing,
/// and the lines after it are handled as if it were absent.
pub proof fn lemma_bad_line_skipped(release: Seq<u8>, lines: Seq<Seq<u8>>, i: int)
    requires
        0 <= i < lines.len(),
        tokens_of(lines[i]).len() > 2,
    ensures
        lines_actions(release, lines) == lines_actions(release, lines.take(i)) + seq![
            ActionView::ReportBadLink(line_text(lines[i])),
        ] + lines_actions(release, lines.skip(i + 1)),
        line_actions(release, lines[i]) == seq![ActionView::ReportBadLink(line_text(lines[i]))],
{
    assert(lines =~= lines.take(i) + (seq![lines[i]] + lines.skip(i + 1)));
    lemma_lines_actions_split(release, lines.take(i), seq![lines[i]] + lines.skip(i + 1));
    lemma_lines_actions_split(release, seq![lines[i]], lines.skip(i + 1));
    let one = seq![lines[i]];
    assert(one.drop_last() =~= Seq::<Seq<u8>>::empty());
    assert(one.last() == lines[i]);
    assert(lines_actions(release, one.drop_last()) == Seq::<ActionView>::empty());
    assert(lines_actions(release, one) =~= line_actions(release, lines[i]));
}

/// What a release is: the name of its directory and its state.
pub struct ReleaseView {
    pub name: Seq<u8>,
    pub state: ReleaseState,
}

/// One versioned deployment on disk, known by the name of its directory
/// under `releases/`.
#[derive(Debug)]
pub struct Release {
    release: Vec<u8>,
    state: ReleaseState,
}

impl View for Release {
    type V = ReleaseView;

    closed spec fn view(&self) -> ReleaseView {
        ReleaseView { name: self.release@, state: self.state }
    }
}

impl Release {
    /// The release whose directory is named `release`, in the state that the
    /// name encodes. Its directory is made by `Action::CreateRelease`.
    pub fn new(release: Vec<u8>) -> (r: Release)
        ensures
            r@.name == release@,
            r@.state == state_of(release@),
    {
        let state = ReleaseState::from_path(release.as_slice());
        Release { release, state }
    }

    /// The name of the release's directory.
    pub fn name(&self) -> (r: &Vec<u8>)
        ensures
            r@ == self@.name,
    {
        &self.release
    }

    /// The state of the release.
    pub fn state(&self) -> (r: ReleaseState)
        ensures
            r == self@.state,
    {
        self.state
    }

    /// The path of the release's directory under `base_dir`.
    pub fn get_release_path(&self, base_dir: &[u8]) -> (r: Vec<u8>)
        ensures
            r@ == release_path(base_dir@, self@.name),
    {
        let releases = bytes_of("releases");
        let dir = join(base_dir, releases.as_slice());
        join(dir.as_slice(), self.release.as_slice())
    }

    /// Points `current` at this release and runs the `switch` hook. Only a
    /// `Normal` release can become current.
    pub fn do_switch(&self) -> (r: Result<Vec<Action>>)
        ensures
            r is Err <==> self@.state != ReleaseState::Normal,
            r is Err ==> is_runtime_error(r->Err_0, "Cannot switch release"@),
            r is Ok ==> views(r->Ok_0@) == seq![
                ActionView::SwitchCurrent(self@.name),
                ActionView::Hook { release: self@.name, hook: "switch"@ },
            ],
    {
        if self.state != ReleaseState::Normal {
            return Err(runtime_error("Cannot switch release"));
        }
        let mut v: Vec<Action> = Vec::new();
        v.push(Action::SwitchCurrent(self.release.clone()));
        v.push(self.do_hook("switch"));
        assert(views(v@) =~= seq![
            ActionView::SwitchCurrent(self@.name),
            ActionView::Hook { release: self@.name, hook: "switch"@ },
        ]);
        Ok(v)
    }

    /// The links that the manifest `manifest` asks for in this release: for
    /// each line of one token `p`, a link `p` to the shared `p`; of two
    /// tokens `s d`, a link `d` to the shared `s`; a line of more tokens is
    /// reported and skipped; a blank line is ignored.
    pub fn do_links(&self, manifest: &[u8]) -> (r: Vec<Action>)
        ensures
            views(r@) == links_actions(self@.name, manifest@),
    {
        let lines = split_lines(manifest);
        let mut out: Vec<Action> = Vec::new();
        let mut i: usize = 0;
        while i < lines.len()
            invariant
                i <= lines@.len(),
                lines@.map_values(|l: Vec<u8>| l@) == lines_of(manifest@),
                views(out@) == lines_actions(
                    self@.name,
                    lines@.map_values(|l: Vec<u8>| l@).take(i as int),
                ),
            decreases lines@.len() - i,
        {
            let line = &lines[i];
            let toks = split_tokens(line.as_slice());
            let ghost before = views(out@);
            let ghost ls = lines@.map_values(|l: Vec<u8>| l@);
            assert(ls.take(i + 1).drop_last() =~= ls.take(i as int));
            assert(ls.take(i + 1).last() == line@);
            if toks.len() == 0 {
            } else if toks.len() == 1 {
                out.push(
                    Action::Link {
                        release: self.release.clone(),
                        source: toks[0].clone(),
                        dest: toks[0].clone(),
                    },
                );
            } else if toks.len() == 2 {
                out.push(
                    Action::Link {
                        release: self.release.clone(),
                        source: toks[0].clone(),
                        dest: toks[1].clone(),
                    },
                );
            } else {
                let mut text = line.clone();
                if text.len() > 0 && text[text.len() - 1] == CARRIAGE_RETURN {
                    text.pop();
                }
                out.push(Action::ReportBadLink(text));
            }
            assert(views(out@) =~= before + line_actions(self@.name, line@));
            i = i + 1;
        }
        assert(lines@.map_values(|l: Vec<u8>| l@).take(lines@.len() as int) =~= lines@.map_values(
            |l: Vec<u8>| l@,
        ));
        out
    }

    /// Runs the hook named `hook` in this release, if the hook exists.
    pub fn do_hook(&self, hook: &str) -> (r: Action)
        ensures
            r@ == (ActionView::Hook { release: self@.name, hook: hook@ }),
    {
        Action::Hook { release: self.release.clone(), hook: hook.to_owned() }
    }

    /// Moves the release to `state` by renaming its directory. `current` is
    /// the name of the release that the `current` link points at, if any:
    /// that release cannot change state.
    pub fn change_state(&mut self, current: Option<&[u8]>, state: ReleaseState) -> (r: Result<
        Action,
    >)
        ensures
            r is Err <==> (current is Some && current->Some_0@ == old(self)@.name),
            r is Err ==> is_runtime_error(r->Err_0, "Cannot change state of current release"@)
                && final(self)@ == old(self)@,
            r is Ok ==> r->Ok_0@ == (ActionView::Rename {
                from: old(self)@.name,
                to: renamed_for(state, old(self)@.name),
            }) && final(self)@ == (ReleaseView {
                name: renamed_for(state, old(self)@.name),
                state,
            }),
    {
        match current {
            Some(c) => {
                if slice_eq(c, self.release.as_slice()) {
                    return Err(runtime_error("Cannot change state of current release"));
                }
            },
            None => {},
        }
        let new_name = state.new_path_for(self.release.as_slice());
        let from = self.release.clone();
        assert(from@ =~= old(self)@.name);
        let to = new_name.clone();
        assert(to@ =~= new_name@);
        self.release = new_name;
        self.state = state;
        Ok(Action::Rename { from, to })
    }
}

/// Decides whether two byte strings are equal.
pub fn slice_eq(a: &[u8], b: &[u8]) -> (r: bool)
    ensures
        r == (a@ == b@),
{
    if a.len() != b.len() {
        return false;
    }
    let mut i: usize = 0;
    while i < a.len()
        invariant
            i <= a@.len() == b@.len(),
            a@.take(i as int) == b@.take(i as int),
        decreases a@.len() - i,
    {
        if a[i] != b[i] {
            return false;
        }
        assert(a@.take(i + 1) =~= a@.take(i as int).push(a@[i as int]));
        assert(b@.take(i + 1) =~= b@.take(i as int).push(b@[i as int]));
        i = i + 1;
    }
    assert(a@.take(i as int) =~= a@);
    assert(b@.take(i as int) =~= b@);
    true
}

} // verus!
