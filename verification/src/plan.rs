use vstd::prelude::*;
use vstd::string::*;

use crate::paths::AppPaths;
use crate::types::PData;
use crate::order::{
    law_release_order_antisymmetric, law_release_order_reflexive, release_order,
    spec_release_order, VersionOrder,
};
use crate::version::{spec_version_to_int, VersionError};

verus! {

/// What `install` does for a package.
#[derive(Debug)]
pub enum InstallPlan {
    /// No repository folder holds the package: nothing is done.
    NotInRepo,
    /// The package is not installed: its build script is run.
    Build(PData),
    /// The package is installed, and the repository holds a greater version:
    /// it is left as it is, and the user is told to update.
    RepoNewer { repo_ver: String, installed_ver: String },
    /// The package is installed in the version that the repository holds.
    UpToDate { ver: String },
    /// The package is installed in a greater version than the repository
    /// holds: downgrades are not done.
    RepoOlder { repo_ver: String, installed_ver: String },
}

/// What `update` does for a package.
#[derive(Debug)]
pub enum UpdatePlan {
    /// The package is not installed: nothing is done.
    NotInstalled,
    /// The package is installed but no repository folder holds it.
    NotInRepo,
    /// The repository holds a greater version than the installed one: the
    /// installed binary is removed and the repository's version is built.
    Rebuild(PData),
    /// The installed version is the one the repository holds.
    UpToDate { ver: String },
    /// The repository holds a smaller version: downgrades are not done.
    RepoOlder { repo_ver: String, installed_ver: String },
}

/// What `delete` does for a package.
#[derive(Debug)]
pub enum DeletePlan {
    /// The package is not installed: nothing is done.
    NotInstalled,
    /// The package's record is deleted, then its binary at `binary`.
    Remove { binary: String },
}

/// How a package is recorded as installed.
#[derive(Debug)]
pub enum EntryWrite {
    /// No record under the package's name: a new one is added.
    Insert(PData),
    /// A record under the package's name: its version is set.
    Update(PData),
}

/// What `install` does, given the package found in the repository (if any)
/// and the record of it in the database (if any). Versions are compared as
/// `release_order` does; a version that does not read as a number through
/// `version_to_int` makes the comparison fail.
pub open spec fn spec_install(repo: Option<PData>, installed: Option<PData>) -> Result<
    InstallPlan,
    VersionError,
> {
    match repo {
        None => Ok(InstallPlan::NotInRepo),
        Some(rp) => match installed {
            None => Ok(InstallPlan::Build(rp)),
            Some(ip) => match spec_release_order(ip.ver@, rp.ver@) {
                Some(VersionOrder::Newer) => Ok(
                    InstallPlan::RepoNewer { repo_ver: rp.ver, installed_ver: ip.ver },
                ),
                Some(VersionOrder::Same) => Ok(InstallPlan::UpToDate { ver: rp.ver }),
                Some(VersionOrder::Older) => Ok(
                    InstallPlan::RepoOlder { repo_ver: rp.ver, installed_ver: ip.ver },
                ),
                None => Err(VersionError),
            },
        },
    }
}

/// What `update` does, given the record of the package in the database (if
/// any) and the package found in the repository (if any).
pub open spec fn spec_update(installed: Option<PData>, repo: Option<PData>) -> Result<
    UpdatePlan,
    VersionError,
> {
    match installed {
        None => Ok(UpdatePlan::NotInstalled),
        Some(ip) => match repo {
            None => Ok(UpdatePlan::NotInRepo),
            Some(rp) => match spec_release_order(ip.ver@, rp.ver@) {
                Some(VersionOrder::Newer) => Ok(UpdatePlan::Rebuild(rp)),
                Some(VersionOrder::Same) => Ok(UpdatePlan::UpToDate { ver: rp.ver }),
                Some(VersionOrder::Older) => Ok(
                    UpdatePlan::RepoOlder { repo_ver: rp.ver, installed_ver: ip.ver },
                ),
                None => Err(VersionError),
            },
        },
    }
}

/// Decides what installing a package does. `repo` is the package as the
/// repository holds it; `installed` is its record in the database, looked up
/// by name where the repository holds it. A package that is not installed is
/// built; an installed one is never built again here.
pub fn install(repo: Option<PData>, installed: Option<PData>) -> (r: Result<
    InstallPlan,
    VersionError,
>)
    ensures
        r == spec_install(repo, installed),
{
    match repo {
        None => Ok(InstallPlan::NotInRepo),
        Some(rp) => match installed {
            None => Ok(InstallPlan::Build(rp)),
            Some(ip) => match release_order(ip.ver.as_str(), rp.ver.as_str()) {
                Ok(VersionOrder::Newer) => Ok(
                    InstallPlan::RepoNewer { repo_ver: rp.ver, installed_ver: ip.ver },
                ),
                Ok(VersionOrder::Same) => Ok(InstallPlan::UpToDate { ver: rp.ver }),
                Ok(VersionOrder::Older) => Ok(
                    InstallPlan::RepoOlder { repo_ver: rp.ver, installed_ver: ip.ver },
                ),
                Err(e) => Err(e),
            },
        },
    }
}

/// Decides what updating a package does. `installed` is its record in the
/// database; `repo` is the package as the repository holds it, looked up
/// where it is installed. Only a strictly greater version in the repository
/// is built.
pub fn update(installed: Option<PData>, repo: Option<PData>) -> (r: Result<
    UpdatePlan,
    VersionError,
>)
    ensures
        r == spec_update(installed, repo),
{
    match installed {
        None => Ok(UpdatePlan::NotInstalled),
        Some(ip) => match repo {
            None => Ok(UpdatePlan::NotInRepo),
            Some(rp) => match release_order(ip.ver.as_str(), rp.ver.as_str()) {
                Ok(VersionOrder::Newer) => Ok(UpdatePlan::Rebuild(rp)),
                Ok(VersionOrder::Same) => Ok(UpdatePlan::UpToDate { ver: rp.ver }),
                Ok(VersionOrder::Older) => Ok(
                    UpdatePlan::RepoOlder { repo_ver: rp.ver, installed_ver: ip.ver },
                ),
                Err(e) => Err(e),
            },
        },
    }
}

/// Decides what deleting the package `package` does: where it is installed,
/// its record and then its binary in the binary directory are removed; its
/// repository folder stays.
pub fn delete(paths: &AppPaths, package: &str, is_installed: bool) -> (r: DeletePlan)
    ensures
        !is_installed ==> r is NotInstalled,
        is_installed ==> (r matches DeletePlan::Remove { binary } && binary@ == paths.bin_dir@
            + "/"@ + package@),
{
    if is_installed {
        DeletePlan::Remove { binary: paths.binary_path(package) }
    } else {
        DeletePlan::NotInstalled
    }
}

/// How a built package is recorded: its version is set where a record under
/// its name exists, else a record is added.
pub fn add_or_update_entry(entry: PData, is_recorded: bool) -> (w: EntryWrite)
    ensures
        w == spec_entry_write(entry, is_recorded),
        is_recorded ==> w == EntryWrite::Update(entry),
        !is_recorded ==> w == EntryWrite::Insert(entry),
{
    if is_recorded {
        EntryWrite::Update(entry)
    } else {
        EntryWrite::Insert(entry)
    }
}

/// For a package that is installed and held by the repository, `install` and
/// `update` agree: both fail on the same versions; `install` reports a greater
/// repository version exactly where `update` rebuilds; both report up to date,
/// and both report a smaller repository version, in the same cases.
pub proof fn law_install_update_agree(repo: PData, installed: PData)
    ensures
        spec_install(Some(repo), Some(installed)) is Err <==> spec_update(
            Some(installed),
            Some(repo),
        ) is Err,
        spec_install(Some(repo), Some(installed)) == Ok::<InstallPlan, VersionError>(
            InstallPlan::RepoNewer { repo_ver: repo.ver, installed_ver: installed.ver },
        ) <==> spec_update(Some(installed), Some(repo)) == Ok::<UpdatePlan, VersionError>(
            UpdatePlan::Rebuild(repo),
        ),
        spec_install(Some(repo), Some(installed)) == Ok::<InstallPlan, VersionError>(
            InstallPlan::UpToDate { ver: repo.ver },
        ) <==> spec_update(Some(installed), Some(repo)) == Ok::<UpdatePlan, VersionError>(
            UpdatePlan::UpToDate { ver: repo.ver },
        ),
        spec_install(Some(repo), Some(installed)) == Ok::<InstallPlan, VersionError>(
            InstallPlan::RepoOlder { repo_ver: repo.ver, installed_ver: installed.ver },
        ) <==> spec_update(Some(installed), Some(repo)) == Ok::<UpdatePlan, VersionError>(
            UpdatePlan::RepoOlder { repo_ver: repo.ver, installed_ver: installed.ver },
        ),
{
}

/// A package that is not installed is built by `install` and left alone by
/// `update`; one that is installed is never built by `install`.
pub proof fn law_install_builds_only_missing(repo: PData, installed: Option<PData>)
    ensures
        installed is None <==> spec_install(Some(repo), installed) == Ok::<
            InstallPlan,
            VersionError,
        >(InstallPlan::Build(repo)),
        installed is None ==> spec_update(installed, Some(repo)) == Ok::<
            UpdatePlan,
            VersionError,
        >(UpdatePlan::NotInstalled),
{
}

/// `update` never goes back to an older release: it rebuilds exactly where
/// the repository's version is the newer release, and then the installed one
/// is the older release seen from the repository's.
pub proof fn law_update_never_downgrades(installed: PData, repo: PData)
    ensures
        spec_update(Some(installed), Some(repo)) == Ok::<UpdatePlan, VersionError>(
            UpdatePlan::Rebuild(repo),
        ) <==> spec_release_order(installed.ver@, repo.ver@) == Some(VersionOrder::Newer),
        spec_release_order(installed.ver@, repo.ver@) == Some(VersionOrder::Newer)
            ==> spec_release_order(repo.ver@, installed.ver@) == Some(VersionOrder::Older),
{
    law_release_order_antisymmetric(installed.ver@, repo.ver@);
}

/// Once a package is installed in the repository's version (after a build
/// or a rebuild), installing or updating it again reports it up to date,
/// where its version reads as a number.
pub proof fn law_up_to_date_after_build(package: PData)
    requires
        spec_version_to_int(package.ver@) is Some,
    ensures
        spec_install(Some(package), Some(package)) == Ok::<InstallPlan, VersionError>(
            InstallPlan::UpToDate { ver: package.ver },
        ),
        spec_update(Some(package), Some(package)) == Ok::<UpdatePlan, VersionError>(
            UpdatePlan::UpToDate { ver: package.ver },
        ),
{
    law_release_order_reflexive(package.ver@);
}

/// What `install` reports for an installed package held by the repository
/// follows the release order of the two versions: a newer release in the
/// repository is reported as such, the same release as up to date, an older
/// one as older; and it fails exactly where a version does not read as a
/// number. An installed package is never built by `install`.
pub proof fn law_install_reports_release_order(repo: PData, installed: PData)
    ensures
        spec_install(Some(repo), Some(installed)) is Err <==> spec_release_order(
            installed.ver@,
            repo.ver@,
        ) is None,
        spec_install(Some(repo), Some(installed)) == Ok::<InstallPlan, VersionError>(
            InstallPlan::RepoNewer { repo_ver: repo.ver, installed_ver: installed.ver },
        ) <==> spec_release_order(installed.ver@, repo.ver@) == Some(VersionOrder::Newer),
        spec_install(Some(repo), Some(installed)) == Ok::<InstallPlan, VersionError>(
            InstallPlan::UpToDate { ver: repo.ver },
        ) <==> spec_release_order(installed.ver@, repo.ver@) == Some(VersionOrder::Same),
        spec_install(Some(repo), Some(installed)) == Ok::<InstallPlan, VersionError>(
            InstallPlan::RepoOlder { repo_ver: repo.ver, installed_ver: installed.ver },
        ) <==> spec_release_order(installed.ver@, repo.ver@) == Some(VersionOrder::Older),
        !(spec_install(Some(repo), Some(installed)) matches Ok(InstallPlan::Build(_))),
{
}

/// What `update` does for an installed package held by the repository
/// follows the release order: it rebuilds a newer release, reports the same
/// release up to date and an older one as older, and fails exactly where a
/// version does not read as a number. A package that is not installed is
/// never built by `update`, and one missing from the repository neither.
pub proof fn law_update_follows_release_order(installed: PData, repo: PData)
    ensures
        spec_update(Some(installed), Some(repo)) is Err <==> spec_release_order(
            installed.ver@,
            repo.ver@,
        ) is None,
        spec_update(Some(installed), Some(repo)) == Ok::<UpdatePlan, VersionError>(
            UpdatePlan::UpToDate { ver: repo.ver },
        ) <==> spec_release_order(installed.ver@, repo.ver@) == Some(VersionOrder::Same),
        spec_update(Some(installed), Some(repo)) == Ok::<UpdatePlan, VersionError>(
            UpdatePlan::RepoOlder { repo_ver: repo.ver, installed_ver: installed.ver },
        ) <==> spec_release_order(installed.ver@, repo.ver@) == Some(VersionOrder::Older),
        spec_update(None, Some(repo)) == Ok::<UpdatePlan, VersionError>(UpdatePlan::NotInstalled),
        spec_update(Some(installed), None) == Ok::<UpdatePlan, VersionError>(UpdatePlan::NotInRepo),
{
}

/// What `add_or_update_entry` decides, as a spec function.
pub open spec fn spec_entry_write(entry: PData, is_recorded: bool) -> EntryWrite {
    if is_recorded {
        EntryWrite::Update(entry)
    } else {
        EntryWrite::Insert(entry)
    }
}

/// The table of installed packages, from name to version, after a write:
/// an insert adds a record, and is refused (the table is left as it is) where
/// a record of that name exists, the name being the table's primary key; an
/// update sets the version of the record of that name.
pub open spec fn apply_entry_write(table: Map<Seq<char>, Seq<char>>, w: EntryWrite) -> Map<
    Seq<char>,
    Seq<char>,
> {
    match w {
        EntryWrite::Insert(p) => if table.dom().contains(p.name@) {
            table
        } else {
            table.insert(p.name@, p.ver@)
        },
        EntryWrite::Update(p) => if table.dom().contains(p.name@) {
            table.insert(p.name@, p.ver@)
        } else {
            table
        },
    }
}

/// Recording a built package in the table: the write that
/// `add_or_update_entry` decides, applied.
pub open spec fn spec_record(table: Map<Seq<char>, Seq<char>>, entry: PData) -> Map<
    Seq<char>,
    Seq<char>,
> {
    apply_entry_write(table, spec_entry_write(entry, table.dom().contains(entry.name@)))
}

/// After recording a package, the table holds it under its name with its
/// version, and every other record is as it was; recording it again
/// changes nothing.
pub proof fn law_record_entry(table: Map<Seq<char>, Seq<char>>, entry: PData)
    ensures
        spec_record(table, entry) == table.insert(entry.name@, entry.ver@),
        spec_record(spec_record(table, entry), entry) == spec_record(table, entry),
{
    let t1 = table.insert(entry.name@, entry.ver@);
    assert(t1.insert(entry.name@, entry.ver@) =~= t1);
}

/// Install, delete, install again: a package that is not installed is built
/// and recorded; deleting it (it is recorded, so `delete` removes it) gives
/// back the table as it was before the install, without the package, so the
/// next install builds it again.
pub proof fn law_install_delete_install(table: Map<Seq<char>, Seq<char>>, repo: PData)
    requires
        !table.dom().contains(repo.name@),
    ensures
        spec_install(Some(repo), None) == Ok::<InstallPlan, VersionError>(
            InstallPlan::Build(repo),
        ),
        spec_record(table, repo).dom().contains(repo.name@),
        spec_record(table, repo)[repo.name@] == repo.ver@,
        spec_record(table, repo).remove(repo.name@) == table,
        !spec_record(table, repo).remove(repo.name@).dom().contains(repo.name@),
{
    assert(table.insert(repo.name@, repo.ver@).remove(repo.name@) =~= table);
}

} // verus!
