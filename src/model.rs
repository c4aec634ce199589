use vstd::prelude::*;
use crate::links::{lines_of, tokens_of};
use crate::installation_method::InstallationMethod;
use crate::plan::{ActionView, CommandView, runs};
use crate::project::{ProjectView, deploy_steps};
use crate::release::{
    ReleaseState, state_of, renamed_for, untagged, is_tagged, line_actions, lines_actions,
    links_actions, lemma_renamed_state,
};

verus! {

/// The deployment target as the actions see it: each release directory
/// with the paths of the links made in it, and the release that `current`
/// points at.
pub struct Tree {
    pub releases: Map<Seq<u8>, Set<Seq<u8>>>,
    pub current: Option<Seq<u8>>,
}

/// The target after `a` succeeded on `t`. Subprocesses, hooks, reports and
/// cleans leave the model as it is.
pub open spec fn apply(t: Tree, a: ActionView) -> Tree {
    match a {
        ActionView::CreateRelease(n) => if t.releases.contains_key(n) {
            t
        } else {
            Tree { releases: t.releases.insert(n, Set::empty()), current: t.current }
        },
        ActionView::Link { release, source, dest } => if t.releases.contains_key(release) {
            Tree {
                releases: t.releases.insert(release, t.releases[release].insert(dest)),
                current: t.current,
            }
        } else {
            t
        },
        ActionView::Rename { from, to } => if t.releases.contains_key(from) {
            Tree {
                releases: t.releases.remove(from).insert(to, t.releases[from]),
                current: t.current,
            }
        } else {
            t
        },
        ActionView::SwitchCurrent(n) => Tree { releases: t.releases, current: Some(n) },
        ActionView::Remove(n) => Tree { releases: t.releases.remove(n), current: t.current },
        _ => t,
    }
}

/// The target after every action of `s` succeeded, in order.
pub open spec fn apply_all(t: Tree, s: Seq<ActionView>) -> Tree
    decreases s.len(),
{
    if s.len() == 0 {
        t
    } else {
        apply(apply_all(t, s.drop_last()), s.last())
    }
}

/// The path that a manifest line of one or two tokens links.
pub open spec fn link_dest(line: Seq<u8>) -> Seq<u8> {
    let t = tokens_of(line);
    if t.len() == 1 {
        t[0]
    } else {
        t[1]
    }
}

pub proof fn lemma_apply_all_split(t: Tree, a: Seq<ActionView>, b: Seq<ActionView>)
    ensures
        apply_all(t, a + b) == apply_all(apply_all(t, a), b),
    decreases b.len(),
{
    if b.len() == 0 {
        assert(a + b =~= a);
    } else {
        lemma_apply_all_split(t, a, b.drop_last());
        assert((a + b).drop_last() =~= a + b.drop_last());
        assert((a + b).last() == b.last());
    }
}

proof fn lemma_apply_all_push(t: Tree, s: Seq<ActionView>, a: ActionView)
    ensures
        apply_all(t, s.push(a)) == apply(apply_all(t, s), a),
{
    assert(s.push(a).drop_last() =~= s);
}

proof fn lemma_apply_one(t: Tree, a: ActionView)
    ensures
        apply_all(t, seq![a]) == apply(t, a),
{
    lemma_apply_all_push(t, Seq::empty(), a);
    assert(Seq::<ActionView>::empty().push(a) =~= seq![a]);
}

proof fn lemma_runs_keep(t: Tree, s: Seq<CommandView>)
    ensures
        apply_all(t, runs(s)) == t,
    decreases s.len(),
{
    if s.len() > 0 {
        lemma_runs_keep(t, s.drop_last());
        assert(runs(s).drop_last() =~= runs(s.drop_last()));
    }
}

proof fn lemma_links_made(t: Tree, n: Seq<u8>, lines: Seq<Seq<u8>>)
    requires
        t.releases.contains_key(n),
    ensures
        apply_all(t, lines_actions(n, lines)).current == t.current,
        apply_all(t, lines_actions(n, lines)).releases.contains_key(n),
        t.releases[n].subset_of(apply_all(t, lines_actions(n, lines)).releases[n]),
        forall|i: int|
            0 <= i < lines.len() && 1 <= tokens_of(#[trigger] lines[i]).len() <= 2
                ==> apply_all(t, lines_actions(n, lines)).releases[n].contains(link_dest(lines[i])),
    decreases lines.len(),
{
    if lines.len() > 0 {
        let d = lines.drop_last();
        let l = lines.last();
        lemma_links_made(t, n, d);
        let mid = apply_all(t, lines_actions(n, d));
        lemma_apply_all_split(t, lines_actions(n, d), line_actions(n, l));
        let la = line_actions(n, l);
        let k = tokens_of(l).len();
        let fin = apply_all(t, lines_actions(n, lines));
        assert(fin == apply_all(mid, la));
        if k == 0 {
            assert(la =~= Seq::<ActionView>::empty());
            assert(fin == mid);
        } else {
            lemma_apply_one(mid, la[0]);
            assert(la =~= seq![la[0]]);
            assert(fin == apply(mid, la[0]));
        }
        assert(mid.releases[n].subset_of(fin.releases[n]));
        assert forall|i: int|
            0 <= i < lines.len() && 1 <= tokens_of(#[trigger] lines[i]).len() <= 2 implies fin.releases[n].contains(
            link_dest(lines[i]),
        ) by {
            if i < d.len() {
                assert(d[i] == lines[i]);
            }
        }
    }
}

/// After the steps of a deploy have succeeded, `current` points at the new
/// release, whose name carries no state prefix, and that release holds a
/// link for every manifest line of one or two tokens. A stamp that carries
/// a state prefix after its first one is left out: renaming only strips one.
pub proof fn lemma_deploy_switches_to_linked_release(
    p: ProjectView,
    date: Seq<u8>,
    manifest: Seq<u8>,
    t: Tree,
)
    requires
        !is_tagged(untagged(date)),
    ensures
        ({
            let m = renamed_for(ReleaseState::Normal, renamed_for(ReleaseState::Installing, date));
            let done = apply_all(t, deploy_steps(p, date, manifest));
            &&& done.current == Some(m)
            &&& state_of(m) == ReleaseState::Normal
            &&& done.releases.contains_key(m)
            &&& forall|i: int|
                0 <= i < lines_of(manifest).len() && 1 <= tokens_of(
                    #[trigger] lines_of(manifest)[i],
                ).len() <= 2 ==> done.releases[m].contains(link_dest(lines_of(manifest)[i]))
        }),
{
    let n = renamed_for(ReleaseState::Installing, date);
    let m = renamed_for(ReleaseState::Normal, n);
    assert(untagged(n) =~= untagged(date));
    lemma_renamed_state(ReleaseState::Normal, n);
    let path = crate::release::release_path(p.base_dir, n);
    let cmds = p.installation_method.commands(p.base_dir, path);
    let create = seq![ActionView::CreateRelease(n)];
    let install = runs(cmds);
    let links = links_actions(n, manifest);
    let h1 = ActionView::Hook { release: n, hook: "install"@ };
    let rn = ActionView::Rename { from: n, to: m };
    let sw = ActionView::SwitchCurrent(m);
    let h2 = ActionView::Hook { release: m, hook: "switch"@ };
    let tail = seq![h1, rn, sw, h2];
    assert(deploy_steps(p, date, manifest) == create + install + links + tail);
    lemma_apply_all_split(t, create + install + links, tail);
    lemma_apply_all_split(t, create + install, links);
    lemma_apply_all_split(t, create, install);
    lemma_apply_one(t, ActionView::CreateRelease(n));
    let t1 = apply_all(t, create);
    lemma_runs_keep(t1, cmds);
    lemma_links_made(t1, n, lines_of(manifest));
    let t3 = apply_all(t1, links);
    assert(tail =~= Seq::empty().push(h1).push(rn).push(sw).push(h2));
    lemma_apply_all_push(t3, Seq::empty().push(h1).push(rn).push(sw), h2);
    lemma_apply_all_push(t3, Seq::empty().push(h1).push(rn), sw);
    lemma_apply_all_push(t3, Seq::empty().push(h1), rn);
    lemma_apply_one(t3, h1);
    assert(Seq::<ActionView>::empty().push(h1) =~= seq![h1]);
    let done = apply_all(t, deploy_steps(p, date, manifest));
    assert(done.releases =~= t3.releases.remove(n).insert(m, t3.releases[n]));
}

} // verus!
