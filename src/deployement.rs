use vstd::prelude::*;
use crate::error::{Result, is_runtime_error};
use crate::installation_method::InstallationMethod;
use crate::plan::{Action, ActionView, views, runs, append_runs};
use crate::release::{Release, ReleaseView, ReleaseState, release_path, links_actions};

verus! {

/// One installation of a release that already exists, by a given method,
/// up to making it current.
pub struct Deployement<IM: InstallationMethod> {
    release: Release,
    installation_method: IM,
}

/// The work of installing `release` and making it current: install, link
/// the shared resources, run the `install` hook, point `current` at it and
/// run the `switch` hook.
pub open spec fn deployement_plan(
    install: Seq<ActionView>,
    release: Seq<u8>,
    manifest: Seq<u8>,
) -> Seq<ActionView> {
    install + links_actions(release, manifest) + seq![
        ActionView::Hook { release, hook: "install"@ },
        ActionView::SwitchCurrent(release),
        ActionView::Hook { release, hook: "switch"@ },
    ]
}

impl<IM: InstallationMethod> Deployement<IM> {
    /// The release that this installation makes current.
    pub closed spec fn release(&self) -> ReleaseView {
        self.release@
    }

    /// The method that installs it.
    pub closed spec fn method(&self) -> IM {
        self.installation_method
    }

    pub fn new(release: Release, installation_method: IM) -> (r: Deployement<IM>)
        ensures
            r.release() == release@,
            r.method() == installation_method,
    {
        Deployement { release, installation_method }
    }

    /// The work of this installation in the project at `base_dir`, whose
    /// link manifest is `manifest`. Only a `Normal` release can be made
    /// current: for another, it fails and asks for no work.
    pub fn run(&self, base_dir: &[u8], manifest: &[u8]) -> (r: Result<Vec<Action>>)
        ensures
            r is Err <==> self.release().state != ReleaseState::Normal,
            r is Err ==> is_runtime_error(r->Err_0, "Cannot switch release"@),
            r is Ok ==> views(r->Ok_0@) == deployement_plan(
                runs(
                    self.method().commands(
                        base_dir@,
                        release_path(base_dir@, self.release().name),
                    ),
                ),
                self.release().name,
                manifest@,
            ),
    {
        let switch = self.release.do_switch();
        let mut tail = match switch {
            Err(e) => {
                return Err(e);
            },
            Ok(v) => v,
        };
        let path = self.release.get_release_path(base_dir);
        let cmds = self.installation_method.install_to(base_dir, path.as_slice());
        let mut plan: Vec<Action> = Vec::new();
        append_runs(&mut plan, cmds);
        assert(views(plan@) =~= runs(
            self.installation_method.commands(base_dir@, release_path(base_dir@, self.release@.name)),
        ));
        let mut links = self.release.do_links(manifest);
        let ghost before_links = views(plan@);
        let ghost link_views = views(links@);
        plan.append(&mut links);
        assert(views(plan@) =~= before_links + link_views);
        plan.push(self.release.do_hook("install"));
        let ghost before_switch = views(plan@);
        let ghost switch_views = views(tail@);
        plan.append(&mut tail);
        assert(views(plan@) =~= before_switch + switch_views);
        assert(views(plan@) =~= deployement_plan(
            runs(
                self.installation_method.commands(
                    base_dir@,
                    release_path(base_dir@, self.release@.name),
                ),
            ),
            self.release@.name,
            manifest@,
        ));
        Ok(plan)
    }
}

} // verus!
