use vstd::prelude::*;

verus! {

/// One of the things that the package manager needs in place: its
/// directories and its database.
#[derive(Clone, Copy, Debug, PartialEq, Eq)]
pub enum SetupTarget {
    AppDir,
    BinDir,
    BuildDir,
    RepoDir,
    ScriptsDir,
    Database,
}

/// Which of the directories and the database exist.
#[derive(Clone, Copy, Debug, PartialEq, Eq)]
pub struct SetupState {
    pub app_dir: bool,
    pub bin_dir: bool,
    pub build_dir: bool,
    pub repo_dir: bool,
    pub scripts_dir: bool,
    pub database: bool,
}

impl SetupState {
    /// `t` exists.
    pub open spec fn has(self, t: SetupTarget) -> bool {
        match t {
            SetupTarget::AppDir => self.app_dir,
            SetupTarget::BinDir => self.bin_dir,
            SetupTarget::BuildDir => self.build_dir,
            SetupTarget::RepoDir => self.repo_dir,
            SetupTarget::ScriptsDir => self.scripts_dir,
            SetupTarget::Database => self.database,
        }
    }

    /// Everything exists.
    pub open spec fn complete(self) -> bool {
        self.app_dir && self.bin_dir && self.build_dir && self.repo_dir && self.scripts_dir
            && self.database
    }

    /// The state once `t` has been created.
    pub open spec fn with(self, t: SetupTarget) -> SetupState {
        match t {
            SetupTarget::AppDir => SetupState { app_dir: true, ..self },
            SetupTarget::BinDir => SetupState { bin_dir: true, ..self },
            SetupTarget::BuildDir => SetupState { build_dir: true, ..self },
            SetupTarget::RepoDir => SetupState { repo_dir: true, ..self },
            SetupTarget::ScriptsDir => SetupState { scripts_dir: true, ..self },
            SetupTarget::Database => SetupState { database: true, ..self },
        }
    }
}

/// `t` when it is missing in `state`, else nothing.
pub open spec fn missing_one(state: SetupState, t: SetupTarget) -> Seq<SetupTarget> {
    if state.has(t) {
        seq![]
    } else {
        seq![t]
    }
}

/// What is missing in `state`, in the order in which it is created: the
/// application directory, then the binary, build, repository and scripts
/// directories, then the database.
pub open spec fn spec_missing(state: SetupState) -> Seq<SetupTarget> {
    missing_one(state, SetupTarget::AppDir) + missing_one(state, SetupTarget::BinDir)
        + missing_one(state, SetupTarget::BuildDir) + missing_one(state, SetupTarget::RepoDir)
        + missing_one(state, SetupTarget::ScriptsDir) + missing_one(state, SetupTarget::Database)
}

/// The state after creating each of `steps` in turn.
pub open spec fn apply_steps(state: SetupState, steps: Seq<SetupTarget>) -> SetupState
    decreases steps.len(),
{
    if steps.len() == 0 {
        state
    } else {
        apply_steps(state.with(steps[0]), steps.drop_first())
    }
}

/// Whether everything the package manager needs exists. Where this is false,
/// the missing parts are created (see `db_init`) before any command other
/// than `init` runs.
pub fn db_dirs_exist(state: &SetupState) -> (b: bool)
    ensures
        b == state.complete(),
{
    state.app_dir && state.bin_dir && state.build_dir && state.repo_dir && state.scripts_dir
        && state.database
}

/// What initialisation creates: each directory and the database that does
/// not exist yet, in order. What exists is left as it is.
pub fn db_init(state: &SetupState) -> (steps: Vec<SetupTarget>)
    ensures
        steps@ == spec_missing(*state),
{
    let mut steps: Vec<SetupTarget> = Vec::new();
    if !state.app_dir {
        steps.push(SetupTarget::AppDir);
    }
    assert(steps@ =~= missing_one(*state, SetupTarget::AppDir));
    let ghost s1 = steps@;
    if !state.bin_dir {
        steps.push(SetupTarget::BinDir);
    }
    assert(steps@ =~= s1 + missing_one(*state, SetupTarget::BinDir));
    let ghost s2 = steps@;
    if !state.build_dir {
        steps.push(SetupTarget::BuildDir);
    }
    assert(steps@ =~= s2 + missing_one(*state, SetupTarget::BuildDir));
    let ghost s3 = steps@;
    if !state.repo_dir {
        steps.push(SetupTarget::RepoDir);
    }
    assert(steps@ =~= s3 + missing_one(*state, SetupTarget::RepoDir));
    let ghost s4 = steps@;
    if !state.scripts_dir {
        steps.push(SetupTarget::ScriptsDir);
    }
    assert(steps@ =~= s4 + missing_one(*state, SetupTarget::ScriptsDir));
    let ghost s5 = steps@;
    if !state.database {
        steps.push(SetupTarget::Database);
    }
    assert(steps@ =~= s5 + missing_one(*state, SetupTarget::Database));
    steps
}

/// After the steps, a target exists exactly where it existed before or is
/// one of the steps.
proof fn lemma_apply_steps_has(state: SetupState, steps: Seq<SetupTarget>, t: SetupTarget)
    ensures
        apply_steps(state, steps).has(t) <==> (state.has(t) || steps.contains(t)),
    decreases steps.len(),
{
    if steps.len() > 0 {
        lemma_apply_steps_has(state.with(steps[0]), steps.drop_first(), t);
        if steps.drop_first().contains(t) {
            let k = choose|k: int| 0 <= k < steps.drop_first().len() && steps.drop_first()[k] == t;
            assert(steps[k + 1] == t);
        }
        if steps.contains(t) && steps[0] != t {
            let k = choose|k: int| 0 <= k < steps.len() && steps[k] == t;
            assert(steps.drop_first()[k - 1] == t);
        }
        assert(steps[0] == t ==> steps.contains(t));
    }
}

/// Initialisation completes the setup: creating what `db_init` lists leaves
/// everything in place, it lists nothing exactly when everything already
/// exists, and it lists only what is missing.
pub proof fn law_init_completes_setup(state: SetupState)
    ensures
        apply_steps(state, spec_missing(state)).complete(),
        spec_missing(state).len() == 0 <==> state.complete(),
        forall|t: SetupTarget| spec_missing(state).contains(t) ==> !state.has(t),
{
    let m = spec_missing(state);
    let a = missing_one(state, SetupTarget::AppDir);
    let b = missing_one(state, SetupTarget::BinDir);
    let c = missing_one(state, SetupTarget::BuildDir);
    let d = missing_one(state, SetupTarget::RepoDir);
    let e = missing_one(state, SetupTarget::ScriptsDir);
    let f = missing_one(state, SetupTarget::Database);
    assert forall|t: SetupTarget| !state.has(t) implies m.contains(t) by {
        let k: int = match t {
            SetupTarget::AppDir => 0,
            SetupTarget::BinDir => a.len() as int,
            SetupTarget::BuildDir => (a.len() + b.len()) as int,
            SetupTarget::RepoDir => (a.len() + b.len() + c.len()) as int,
            SetupTarget::ScriptsDir => (a.len() + b.len() + c.len() + d.len()) as int,
            SetupTarget::Database => (a.len() + b.len() + c.len() + d.len() + e.len()) as int,
        };
        assert(m[k] == t);
    }
    assert forall|t: SetupTarget| m.contains(t) implies !state.has(t) by {
        let k = choose|k: int| 0 <= k < m.len() && m[k] == t;
        assert(m[k] == t);
    }
    lemma_apply_steps_has(state, m, SetupTarget::AppDir);
    lemma_apply_steps_has(state, m, SetupTarget::BinDir);
    lemma_apply_steps_has(state, m, SetupTarget::BuildDir);
    lemma_apply_steps_has(state, m, SetupTarget::RepoDir);
    lemma_apply_steps_has(state, m, SetupTarget::ScriptsDir);
    lemma_apply_steps_has(state, m, SetupTarget::Database);
    if m.len() == 0 {
        assert(state.has(SetupTarget::AppDir));
        assert(state.has(SetupTarget::BinDir));
        assert(state.has(SetupTarget::BuildDir));
        assert(state.has(SetupTarget::RepoDir));
        assert(state.has(SetupTarget::ScriptsDir));
        assert(state.has(SetupTarget::Database));
    }
}

/// Initialising twice does nothing the second time: once what `db_init`
/// lists has been created, it lists nothing.
pub proof fn law_init_idempotent(state: SetupState)
    ensures
        spec_missing(apply_steps(state, spec_missing(state))).len() == 0,
{
    law_init_completes_setup(state);
    law_init_completes_setup(apply_steps(state, spec_missing(state)));
}

} // verus!
