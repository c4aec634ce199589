use vstd::prelude::*;
use crate::error::{Result, is_runtime_error, runtime_error};
use crate::installation_method::{
    InstallationMethod, InstallationMethodConfig, SelectedMethod, selects,
    installation_method_from_config,
};
use crate::order::{lex_lt, lex_less, names, sort_desc, sort_names_desc, lemma_sort_desc};
use crate::plan::{Action, ActionView, views, runs, append_runs};
use crate::release::{
    Release, ReleaseState, state_of, renamed_for, release_path, links_actions, slice_eq,
};

verus! {

/// The retention policy: whether a deploy ends with a clean, and how many
/// `Normal` releases a clean keeps besides the current one.
#[derive(Debug, Clone, Copy)]
pub struct CleanConfig {
    auto_clean: bool,
    keep_releases: usize,
}

impl View for CleanConfig {
    type V = (bool, nat);

    closed spec fn view(&self) -> (bool, nat) {
        (self.auto_clean, self.keep_releases as nat)
    }
}

impl CleanConfig {
    pub fn new(auto_clean: bool, keep_releases: usize) -> (r: CleanConfig)
        ensures
            r@ == (auto_clean, keep_releases as nat),
    {
        CleanConfig { auto_clean, keep_releases }
    }

    /// Whether a deploy ends with a clean.
    pub fn auto_clean(&self) -> (r: bool)
        ensures
            r == self@.0,
    {
        self.auto_clean
    }

    /// How many `Normal` releases a clean keeps.
    pub fn keep_releases(&self) -> (r: usize)
        ensures
            r == self@.1,
    {
        self.keep_releases
    }
}

impl Default for CleanConfig {
    /// No clean after a deploy; five releases kept.
    fn default() -> (r: CleanConfig)
        ensures
            r@ == (false, 5nat),
    {
        CleanConfig { auto_clean: false, keep_releases: 5 }
    }
}

/// The configuration of a project.
#[derive(Debug, Clone)]
pub struct ProjectConfig {
    pub clean: CleanConfig,
    pub installation_method: InstallationMethodConfig,
}

/// A deployment target: its base directory, how it installs releases, and
/// its retention policy.
#[derive(Debug)]
pub struct Project {
    base_dir: Vec<u8>,
    installation_method: SelectedMethod,
    clean_config: CleanConfig,
}

/// What a project is.
pub struct ProjectView {
    pub base_dir: Seq<u8>,
    pub installation_method: SelectedMethod,
    pub clean: (bool, nat),
}

impl View for Project {
    type V = ProjectView;

    closed spec fn view(&self) -> ProjectView {
        ProjectView {
            base_dir: self.base_dir@,
            installation_method: self.installation_method,
            clean: self.clean_config@,
        }
    }
}

/// `name` is not the release that `current` names.
pub open spec fn not_current(name: Seq<u8>, current: Option<Seq<u8>>) -> bool {
    !(current is Some && current->Some_0 == name)
}

/// A release that a rollback may switch to: `Normal` and not current.
pub open spec fn is_candidate(name: Seq<u8>, current: Option<Seq<u8>>) -> bool {
    state_of(name) == ReleaseState::Normal && not_current(name, current)
}

/// The view of an optional byte string.
pub open spec fn opt_view(o: Option<&[u8]>) -> Option<Seq<u8>> {
    match o {
        Some(s) => Some(s@),
        None => None,
    }
}

/// The `Normal` entries that are not current, in listing order.
pub open spec fn normal_entries(entries: Seq<Seq<u8>>, current: Option<Seq<u8>>) -> Seq<Seq<u8>>
    decreases entries.len(),
{
    if entries.len() == 0 {
        Seq::empty()
    } else {
        let p = normal_entries(entries.drop_last(), current);
        if is_candidate(entries.last(), current) {
            p.push(entries.last())
        } else {
            p
        }
    }
}

/// The entries that are neither `Normal` nor current, in listing order.
pub open spec fn other_entries(entries: Seq<Seq<u8>>, current: Option<Seq<u8>>) -> Seq<Seq<u8>>
    decreases entries.len(),
{
    if entries.len() == 0 {
        Seq::empty()
    } else {
        let p = other_entries(entries.drop_last(), current);
        if state_of(entries.last()) != ReleaseState::Normal && not_current(
            entries.last(),
            current,
        ) {
            p.push(entries.last())
        } else {
            p
        }
    }
}

/// The releases that a clean removes: every entry that is neither current
/// nor `Normal`, then the `Normal` ones past the `keep` greatest.
pub open spec fn clean_removals(entries: Seq<Seq<u8>>, current: Option<Seq<u8>>, keep: nat) -> Seq<
    Seq<u8>,
> {
    let sorted = sort_desc(normal_entries(entries, current));
    other_entries(entries, current) + if sorted.len() > keep {
        sorted.skip(keep as int)
    } else {
        Seq::empty()
    }
}

/// The removal of each release in `s`, in order.
pub open spec fn removals(s: Seq<Seq<u8>>) -> Seq<ActionView> {
    s.map_values(|n: Seq<u8>| ActionView::Remove(n))
}

/// The work of a deploy of the release stamped `date`, up to its switch:
/// create the release tagged `Installing`, install into it, link the shared
/// resources, run the `install` hook, rename it to `Normal`, point `current`
/// at it and run the `switch` hook.
pub open spec fn deploy_steps(p: ProjectView, date: Seq<u8>, manifest: Seq<u8>) -> Seq<ActionView> {
    let n = renamed_for(ReleaseState::Installing, date);
    let m = renamed_for(ReleaseState::Normal, n);
    seq![ActionView::CreateRelease(n)] + runs(
        p.installation_method.commands(p.base_dir, release_path(p.base_dir, n)),
    ) + links_actions(n, manifest) + seq![
        ActionView::Hook { release: n, hook: "install"@ },
        ActionView::Rename { from: n, to: m },
        ActionView::SwitchCurrent(m),
        ActionView::Hook { release: m, hook: "switch"@ },
    ]
}

/// The whole work of a deploy: its steps, then a clean when the policy
/// asks for one.
pub open spec fn deploy_plan(p: ProjectView, date: Seq<u8>, manifest: Seq<u8>) -> Seq<ActionView> {
    deploy_steps(p, date, manifest) + if p.clean.0 {
        seq![ActionView::Clean]
    } else {
        Seq::empty()
    }
}

/// The work of a rollback to `target`: point `current` at it, run the
/// `switch` hook, and mark the release that was current `Rollbacked`.
pub open spec fn rollback_plan(target: Seq<u8>, current: Option<Seq<u8>>) -> Seq<ActionView> {
    seq![
        ActionView::SwitchCurrent(target),
        ActionView::Hook { release: target, hook: "switch"@ },
    ] + match current {
        Some(c) => seq![
            ActionView::Rename { from: c, to: renamed_for(ReleaseState::Rollbacked, c) },
        ],
        None => Seq::empty(),
    }
}

/// `target` is the greatest rollback candidate among `entries`.
pub open spec fn is_rollback_target(
    target: Seq<u8>,
    entries: Seq<Seq<u8>>,
    current: Option<Seq<u8>>,
) -> bool {
    &&& entries.contains(target)
    &&& is_candidate(target, current)
    &&& forall|j: int|
        0 <= j < entries.len() && is_candidate(#[trigger] entries[j], current) ==> !lex_lt(
            target,
            entries[j],
        )
}

/// Some entry is a rollback candidate.
pub open spec fn has_candidate(entries: Seq<Seq<u8>>, current: Option<Seq<u8>>) -> bool {
    exists|j: int| 0 <= j < entries.len() && is_candidate(#[trigger] entries[j], current)
}

proof fn lemma_normal_entries(entries: Seq<Seq<u8>>, current: Option<Seq<u8>>)
    ensures
        forall|x: Seq<u8>|
            #[trigger] normal_entries(entries, current).contains(x) <==> (entries.contains(x)
                && is_candidate(x, current)),
    decreases entries.len(),
{
    broadcast use vstd::seq_lib::lemma_seq_contains_after_push;

    if entries.len() > 0 {
        let d = entries.drop_last();
        lemma_normal_entries(d, current);
        assert(entries =~= d.push(entries.last()));
        let y = entries.last();
        assert forall|x: Seq<u8>| #[trigger] entries.contains(x) == (d.contains(x) || x == y) by {
            vstd::seq_lib::lemma_seq_contains_after_push(d, y, x);
        }
        assert forall|x: Seq<u8>| #[trigger] normal_entries(entries, current).contains(x) == (normal_entries(d, current).contains(x) || (x == y && normal_entries(entries, current).len() > normal_entries(d, current).len())) by {
            vstd::seq_lib::lemma_seq_contains_after_push(normal_entries(d, current), y, x);
        }
    } else {
        assert forall|x: Seq<u8>| !#[trigger] entries.contains(x) by {}
        assert forall|x: Seq<u8>| !#[trigger] normal_entries(entries, current).contains(x) by {}
    }
}

proof fn lemma_other_entries(entries: Seq<Seq<u8>>, current: Option<Seq<u8>>)
    ensures
        forall|x: Seq<u8>|
            #[trigger] other_entries(entries, current).contains(x) <==> (entries.contains(x)
                && state_of(x) != ReleaseState::Normal && not_current(x, current)),
    decreases entries.len(),
{
    broadcast use vstd::seq_lib::lemma_seq_contains_after_push;

    if entries.len() > 0 {
        let d = entries.drop_last();
        lemma_other_entries(d, current);
        assert(entries =~= d.push(entries.last()));
        let y = entries.last();
        assert forall|x: Seq<u8>| #[trigger] entries.contains(x) == (d.contains(x) || x == y) by {
            vstd::seq_lib::lemma_seq_contains_after_push(d, y, x);
        }
        assert forall|x: Seq<u8>| #[trigger] other_entries(entries, current).contains(x) == (other_entries(d, current).contains(x) || (x == y && other_entries(entries, current).len() > other_entries(d, current).len())) by {
            vstd::seq_lib::lemma_seq_contains_after_push(other_entries(d, current), y, x);
        }
    } else {
        assert forall|x: Seq<u8>| !#[trigger] entries.contains(x) by {}
        assert forall|x: Seq<u8>| !#[trigger] other_entries(entries, current).contains(x) by {}
    }
}

/// A clean removes only listed releases, never the current one, and every
/// listed release that is neither current nor `Normal`, whatever the number
/// of releases kept.
pub proof fn lemma_clean_spares_current(
    entries: Seq<Seq<u8>>,
    current: Option<Seq<u8>>,
    keep: nat,
)
    ensures
        forall|x: Seq<u8>|
            #[trigger] clean_removals(entries, current, keep).contains(x) ==> entries.contains(x)
                && not_current(x, current),
        forall|x: Seq<u8>|
            entries.contains(x) && state_of(x) != ReleaseState::Normal && not_current(x, current)
                ==> #[trigger] clean_removals(entries, current, keep).contains(x),
{
    broadcast use vstd::seq_lib::group_to_multiset_ensures;

    lemma_normal_entries(entries, current);
    lemma_other_entries(entries, current);
    let normals = normal_entries(entries, current);
    let others = other_entries(entries, current);
    let sorted = sort_desc(normals);
    lemma_sort_desc(normals);
    let tail: Seq<Seq<u8>> = if sorted.len() > keep {
        sorted.skip(keep as int)
    } else {
        Seq::empty()
    };
    let all = clean_removals(entries, current, keep);
    assert(all == others + tail);
    assert forall|x: Seq<u8>| #[trigger] all.contains(x) implies entries.contains(x)
        && not_current(x, current) by {
        let j = choose|j: int| 0 <= j < all.len() && all[j] == x;
        if j < others.len() {
            assert(others[j] == x);
            assert(others.contains(x));
        } else {
            assert(tail[j - others.len()] == x);
            assert(sorted[j - others.len() + keep] == x);
            assert(sorted.contains(x));
            assert(sorted.to_multiset().count(x) > 0);
            assert(normals.to_multiset().count(x) > 0);
            assert(normals.contains(x));
        }
    }
    assert forall|x: Seq<u8>|
        entries.contains(x) && state_of(x) != ReleaseState::Normal && not_current(
            x,
            current,
        ) implies #[trigger] all.contains(x) by {
        assert(others.contains(x));
        let j = choose|j: int| 0 <= j < others.len() && others[j] == x;
        assert(all[j] == x);
    }
}

/// Copies an optional byte string.
fn copy_opt(o: Option<&[u8]>) -> (r: Option<Vec<u8>>)
    ensures
        r is Some <==> o is Some,
        r is Some ==> r->Some_0@ == o->Some_0@,
{
    match o {
        Some(s) => Some(vstd::slice::slice_to_vec(s)),
        None => None,
    }
}

/// Whether `name` is the release that `current` names.
fn is_current(name: &[u8], current: Option<&[u8]>) -> (r: bool)
    ensures
        r == !not_current(name@, opt_view(current)),
{
    match current {
        Some(c) => slice_eq(c, name),
        None => false,
    }
}

impl Project {
    /// The project at `base_dir` with the configuration `config`.
    pub fn new(base_dir: Vec<u8>, config: &ProjectConfig) -> (r: Project)
        ensures
            r@.base_dir == base_dir@,
            selects(config.installation_method, r@.installation_method),
            r@.clean == config.clean@,
    {
        Project {
            base_dir,
            installation_method: installation_method_from_config(&config.installation_method),
            clean_config: config.clean,
        }
    }

    /// The base directory.
    pub fn base_dir(&self) -> (r: &Vec<u8>)
        ensures
            r@ == self@.base_dir,
    {
        &self.base_dir
    }

    /// The greatest `Normal` release among `entries` that `current` does
    /// not name, if there is one.
    pub fn find_rollback(&self, entries: &Vec<Vec<u8>>, current: Option<&[u8]>) -> (r: Option<
        Vec<u8>,
    >)
        ensures
            r is None <==> !has_candidate(names(entries@), opt_view(current)),
            r is Some ==> is_rollback_target(r->Some_0@, names(entries@), opt_view(current)),
    {
        let ghost es = names(entries@);
        let ghost cur = opt_view(current);
        let mut best: Option<usize> = None;
        let mut i: usize = 0;
        while i < entries.len()
            invariant
                i <= entries@.len(),
                es == names(entries@),
                cur == opt_view(current),
                best is None <==> !exists|j: int| 0 <= j < i && is_candidate(#[trigger] es[j], cur),
                best is Some ==> best->Some_0 < i && is_candidate(es[best->Some_0 as int], cur)
                    && forall|j: int|
                    0 <= j < i && is_candidate(#[trigger] es[j], cur) ==> !lex_lt(
                        es[best->Some_0 as int],
                        es[j],
                    ),
            decreases entries@.len() - i,
        {
            let name = entries[i].as_slice();
            if ReleaseState::from_path(name) == ReleaseState::Normal && !is_current(name, current) {
                match best {
                    None => {
                        proof {
                            crate::order::lemma_lex_irreflexive(es[i as int]);
                        }
                        best = Some(i);
                    },
                    Some(b) => {
                        if lex_less(entries[b].as_slice(), name) {
                            proof {
                                assert forall|j: int|
                                    0 <= j <= i && is_candidate(#[trigger] es[j], cur) implies !lex_lt(
                                    es[i as int],
                                    es[j],
                                ) by {
                                    if j < i {
                                        crate::order::lemma_lex_total(es[b as int], es[j]);
                                        if lex_lt(es[i as int], es[j]) {
                                            if es[b as int] != es[j] {
                                                crate::order::lemma_lex_transitive(
                                                    es[b as int],
                                                    es[i as int],
                                                    es[j],
                                                );
                                            }
                                            crate::order::lemma_lex_total(es[i as int], es[j]);
                                        }
                                    } else {
                                        crate::order::lemma_lex_irreflexive(es[i as int]);
                                    }
                                }
                            }
                            best = Some(i);
                        }
                    },
                }
            }
            i = i + 1;
        }
        match best {
            None => None,
            Some(b) => {
                let r = entries[b].clone();
                assert(r@ =~= es[b as int]);
                Some(r)
            },
        }
    }

    /// The work of a deploy of a new release stamped `date` (the time
    /// `YYYY-MM-DD-HH-MM-SS`): `current` names the release that the
    /// `current` link points at, and `manifest` holds the link manifest
    /// (empty when there is none). It fails, asking for no work, only when
    /// the new release would be the current one.
    pub fn deploy(&self, date: &[u8], current: Option<&[u8]>, manifest: &[u8]) -> (r: Result<
        Vec<Action>,
    >)
        ensures
            r is Err <==> !not_current(
                renamed_for(ReleaseState::Installing, date@),
                opt_view(current),
            ),
            r is Err ==> is_runtime_error(r->Err_0, "Cannot change state of current release"@),
            r is Ok ==> views(r->Ok_0@) == deploy_plan(self@, date@, manifest@),
    {
        let name = ReleaseState::Installing.new_path_for(date);
        let mut release = Release::new(name);
        let ghost n = release@.name;
        let ghost m = renamed_for(ReleaseState::Normal, n);
        let ghost cmds_view = self@.installation_method.commands(
            self@.base_dir,
            release_path(self@.base_dir, n),
        );
        let mut plan: Vec<Action> = Vec::new();
        plan.push(Action::CreateRelease(vstd::slice::slice_to_vec(release.name().as_slice())));
        assert(views(plan@) =~= seq![ActionView::CreateRelease(n)]);
        let path = release.get_release_path(self.base_dir.as_slice());
        let cmds = self.installation_method.install_to(self.base_dir.as_slice(), path.as_slice());
        append_runs(&mut plan, cmds);
        let ghost stage1 = seq![ActionView::CreateRelease(n)] + runs(cmds_view);
        assert(views(plan@) == stage1);
        let mut links = release.do_links(manifest);
        let ghost link_views = views(links@);
        plan.append(&mut links);
        let ghost stage2 = stage1 + links_actions(n, manifest@);
        assert(views(plan@) =~= stage2);
        plan.push(release.do_hook("install"));
        let step = release.change_state(current, ReleaseState::Normal);
        let a = match step {
            Err(e) => {
                return Err(e);
            },
            Ok(a) => a,
        };
        plan.push(a);
        let ghost stage3 = stage2 + seq![
            ActionView::Hook { release: n, hook: "install"@ },
            ActionView::Rename { from: n, to: m },
        ];
        assert(views(plan@) =~= stage3);
        let switch = release.do_switch();
        let mut v = match switch {
            Err(e) => {
                return Err(e);
            },
            Ok(v) => v,
        };
        let ghost switch_views = views(v@);
        plan.append(&mut v);
        let ghost stage4 = stage3 + seq![
            ActionView::SwitchCurrent(m),
            ActionView::Hook { release: m, hook: "switch"@ },
        ];
        assert(views(plan@) =~= stage4);
        assert(stage4 =~= deploy_steps(self@, date@, manifest@));
        if self.clean_config.auto_clean {
            plan.push(Action::Clean);
        }
        assert(views(plan@) =~= deploy_plan(self@, date@, manifest@));
        Ok(plan)
    }

    /// Switches `current` back to the greatest `Normal` release that is not
    /// current, among the releases `entries`, and marks the release that
    /// was current `Rollbacked`. Without such a release it fails and asks
    /// for no work.
    pub fn rollback(&self, entries: &Vec<Vec<u8>>, current: Option<&[u8]>) -> (r: Result<
        Vec<Action>,
    >)
        ensures
            r is Err <==> !has_candidate(names(entries@), opt_view(current)),
            r is Err ==> is_runtime_error(r->Err_0, "Cannot rollback"@),
            r is Ok ==> exists|t: Seq<u8>|
                is_rollback_target(t, names(entries@), opt_view(current)) && views(r->Ok_0@)
                    == #[trigger] rollback_plan(t, opt_view(current)),
    {
        let target = self.find_rollback(entries, current);
        match target {
            None => Err(runtime_error("Cannot rollback")),
            Some(t) => {
                let ghost tv = t@;
                let release = Release::new(t);
                let switch = release.do_switch();
                match switch {
                    Err(e) => Err(e),
                    Ok(mut plan) => {
                        match current {
                            Some(c) => {
                                let mut old = Release::new(vstd::slice::slice_to_vec(c));
                                let step = old.change_state(
                                    Some(release.name().as_slice()),
                                    ReleaseState::Rollbacked,
                                );
                                match step {
                                    Err(e) => {
                                        return Err(e);
                                    },
                                    Ok(a) => {
                                        plan.push(a);
                                    },
                                }
                            },
                            None => {},
                        }
                        assert(views(plan@) =~= rollback_plan(tv, opt_view(current)));
                        Ok(plan)
                    },
                }
            },
        }
    }

    /// The removals that the retention policy asks for among the releases
    /// `entries`: the current release is kept; every other release that is
    /// not `Normal` is removed; of the `Normal` ones, the `keep_releases`
    /// greatest are kept and the rest removed, greatest first.
    pub fn clean(&self, entries: &Vec<Vec<u8>>, current: Option<&[u8]>) -> (r: Vec<Action>)
        ensures
            views(r@) == removals(
                clean_removals(names(entries@), opt_view(current), self@.clean.1),
            ),
    {
        let ghost es = names(entries@);
        let ghost cur = opt_view(current);
        let mut to_clean: Vec<Vec<u8>> = Vec::new();
        let mut keepable: Vec<Vec<u8>> = Vec::new();
        let mut i: usize = 0;
        while i < entries.len()
            invariant
                i <= entries@.len(),
                es == names(entries@),
                cur == opt_view(current),
                names(to_clean@) == other_entries(es.take(i as int), cur),
                names(keepable@) == normal_entries(es.take(i as int), cur),
            decreases entries@.len() - i,
        {
            let name = entries[i].as_slice();
            assert(es.take(i + 1).drop_last() =~= es.take(i as int));
            assert(es.take(i + 1).last() == name@);
            if !is_current(name, current) {
                let copy = vstd::slice::slice_to_vec(name);
                if ReleaseState::from_path(name) == ReleaseState::Normal {
                    keepable.push(copy);
                    assert(names(keepable@) =~= normal_entries(es.take(i + 1), cur));
                } else {
                    to_clean.push(copy);
                    assert(names(to_clean@) =~= other_entries(es.take(i + 1), cur));
                }
            }
            i = i + 1;
        }
        assert(es.take(entries@.len() as int) =~= es);
        let sorted = sort_names_desc(keepable);
        let ghost tail: Seq<Seq<u8>> = if names(sorted@).len() > self@.clean.1 {
            names(sorted@).skip(self@.clean.1 as int)
        } else {
            Seq::empty()
        };
        let keep = self.clean_config.keep_releases;
        let ghost start = names(to_clean@);
        if sorted.len() > keep {
            let mut j: usize = keep;
            while j < sorted.len()
                invariant
                    keep <= j <= sorted@.len(),
                    names(to_clean@) == start + names(sorted@).subrange(keep as int, j as int),
                decreases sorted@.len() - j,
            {
                let c = sorted[j].clone();
                assert(c@ =~= sorted@[j as int]@);
                let ghost before = names(to_clean@);
                to_clean.push(c);
                assert(names(to_clean@) =~= before.push(names(sorted@)[j as int]));
                assert(names(to_clean@) =~= start + names(sorted@).subrange(keep as int, j + 1));
                j = j + 1;
            }
            assert(names(sorted@).subrange(keep as int, j as int) =~= tail);
        } else {
            assert(names(to_clean@) =~= start + tail);
        }
        let mut out: Vec<Action> = Vec::new();
        let mut k: usize = 0;
        while k < to_clean.len()
            invariant
                k <= to_clean@.len(),
                views(out@) == removals(names(to_clean@).take(k as int)),
            decreases to_clean@.len() - k,
        {
            let c = to_clean[k].clone();
            assert(c@ =~= to_clean@[k as int]@);
            let ghost before = views(out@);
            out.push(Action::Remove(c));
            assert(views(out@) =~= before.push(ActionView::Remove(names(to_clean@)[k as int])));
            assert(views(out@) =~= removals(names(to_clean@).take(k + 1)));
            k = k + 1;
        }
        assert(names(to_clean@).take(k as int) =~= names(to_clean@));
        out
    }
}

} // verus!
