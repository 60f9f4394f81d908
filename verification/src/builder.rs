use vstd::prelude::*;
use vstd::string::*;

use crate::paths::AppPaths;
use crate::types::{spec_folder_name, PData};

verus! {

/// How a package's build script is run: `sh <script>` in `current_dir`, with
/// the variables `envs` exported.
pub struct BuildCommand {
    /// `<repo_dir>/<name>-<ver>/build.sh`
    pub script: String,
    /// The build directory.
    pub current_dir: String,
    /// The variables exported to the script, as (name, value).
    pub envs: Vec<(String, String)>,
}

/// The variables that a build script of the package `name`, `ver` sees.
pub open spec fn spec_build_envs(paths: AppPaths, name: Seq<char>, ver: Seq<char>) -> Seq<
    (Seq<char>, Seq<char>),
> {
    seq![
        ("BUILD_DIR"@, paths.build_dir@),
        ("BIN_DIR"@, paths.bin_dir@),
        ("SCRIPTS_DIR"@, paths.scripts_dir@),
        ("V"@, ver),
        ("P"@, name),
        ("PV"@, spec_folder_name(name, ver)),
    ]
}

/// The command that builds `package`: its `build.sh` in its repository
/// folder, run in the build directory with `BUILD_DIR`, `BIN_DIR`,
/// `SCRIPTS_DIR`, `V` (the version), `P` (the name) and `PV` (the folder
/// name) exported.
pub fn build_command(paths: &AppPaths, package: &PData) -> (c: BuildCommand)
    ensures
        c.script@ == paths.repo_dir@ + "/"@ + spec_folder_name(package.name@, package.ver@)
            + "/build.sh"@,
        c.current_dir@ == paths.build_dir@,
        c.envs.deep_view() == spec_build_envs(*paths, package.name@, package.ver@),
        c.envs@.len() == 6,
        c.envs@[0].0@ == "BUILD_DIR"@ && c.envs@[0].1@ == paths.build_dir@,
        c.envs@[1].0@ == "BIN_DIR"@ && c.envs@[1].1@ == paths.bin_dir@,
        c.envs@[2].0@ == "SCRIPTS_DIR"@ && c.envs@[2].1@ == paths.scripts_dir@,
        c.envs@[3].0@ == "V"@ && c.envs@[3].1@ == package.ver@,
        c.envs@[4].0@ == "P"@ && c.envs@[4].1@ == package.name@,
        c.envs@[5].0@ == "PV"@ && c.envs@[5].1@ == package.name@ + "-"@ + package.ver@,
{
    let folder = package.folder_name();
    proof {
        reveal_strlit("-");
        assert(spec_folder_name(package.name@, package.ver@) =~= package.name@ + "-"@
            + package.ver@);
    }
    let script = paths.repo_dir.clone().concat("/").concat(folder.as_str()).concat("/build.sh");
    let mut envs: Vec<(String, String)> = Vec::new();
    envs.push((String::from_str("BUILD_DIR"), paths.build_dir.clone()));
    envs.push((String::from_str("BIN_DIR"), paths.bin_dir.clone()));
    envs.push((String::from_str("SCRIPTS_DIR"), paths.scripts_dir.clone()));
    envs.push((String::from_str("V"), package.ver.clone()));
    envs.push((String::from_str("P"), package.name.clone()));
    envs.push((String::from_str("PV"), folder));
    assert(envs.deep_view() =~= spec_build_envs(*paths, package.name@, package.ver@));
    BuildCommand { script, current_dir: paths.build_dir.clone(), envs }
}

/// The variables a build script sees, each under its own name: `P` is the
/// package's name (the binary it installs), `V` its version, `PV` the folder
/// name `<name>-<ver>`, and the three directories; no name is given twice.
pub proof fn law_build_envs(paths: AppPaths, name: Seq<char>, ver: Seq<char>)
    ensures
        spec_build_envs(paths, name, ver).len() == 6,
        spec_build_envs(paths, name, ver).contains(("P"@, name)),
        spec_build_envs(paths, name, ver).contains(("V"@, ver)),
        spec_build_envs(paths, name, ver).contains(("PV"@, name + "-"@ + ver)),
        spec_build_envs(paths, name, ver).contains(("BUILD_DIR"@, paths.build_dir@)),
        spec_build_envs(paths, name, ver).contains(("BIN_DIR"@, paths.bin_dir@)),
        spec_build_envs(paths, name, ver).contains(("SCRIPTS_DIR"@, paths.scripts_dir@)),
        forall|i: int, j: int|
            0 <= i < j < 6 ==> #[trigger] spec_build_envs(paths, name, ver)[i].0
                != #[trigger] spec_build_envs(paths, name, ver)[j].0,
{
    reveal_strlit("P");
    reveal_strlit("V");
    reveal_strlit("PV");
    reveal_strlit("-");
    reveal_strlit("BUILD_DIR");
    reveal_strlit("BIN_DIR");
    reveal_strlit("SCRIPTS_DIR");
    let e = spec_build_envs(paths, name, ver);
    assert(e[4] == ("P"@, name));
    assert(e[3] == ("V"@, ver));
    assert(spec_folder_name(name, ver) =~= name + "-"@ + ver);
    assert(e[5] == ("PV"@, name + "-"@ + ver));
    assert(e[0] == ("BUILD_DIR"@, paths.build_dir@));
    assert(e[1] == ("BIN_DIR"@, paths.bin_dir@));
    assert(e[2] == ("SCRIPTS_DIR"@, paths.scripts_dir@));
    assert forall|i: int, j: int| 0 <= i < j < 6 implies #[trigger] e[i].0 != #[trigger] e[j].0 by {
        if e[i].0 == e[j].0 {
            assert(e[i].0.len() == e[j].0.len());
            assert(e[i].0[0] == e[j].0[0]);
        }
    }
}

/// A build failed when its script wrote anything to standard error.
pub fn build_failed(stderr: &Vec<u8>) -> (b: bool)
    ensures
        b == (stderr@.len() > 0),
{
    stderr.len() > 0
}

} // verus!
