use vstd::prelude::*;
use vstd::string::*;

verus! {

/// Where the package manager keeps its files, all under `<home>/.jkl`.
pub struct AppPaths {
    /// `<home>/.jkl`
    pub app_dir: String,
    /// `<home>/.jkl/bin`: where builds put the installed binaries.
    pub bin_dir: String,
    /// `<home>/.jkl/build`: where build scripts run.
    pub build_dir: String,
    /// `<home>/.jkl/repo`: one `<name>-<version>` folder per package.
    pub repo_dir: String,
    /// `<home>/.jkl/scripts`: scripts that build scripts may use.
    pub scripts_dir: String,
    /// `sqlite:<home>/.jkl/packages.db`: the database of installed packages.
    pub db_url: String,
}

/// The application directory under a home directory.
pub open spec fn spec_app_dir(home: Seq<char>) -> Seq<char> {
    home + "/"@ + ".jkl"@
}

impl AppPaths {
    /// What the paths under `home` are.
    pub open spec fn under(self, home: Seq<char>) -> bool {
        let app = spec_app_dir(home);
        &&& self.app_dir@ == app
        &&& self.bin_dir@ == app + "/bin"@
        &&& self.build_dir@ == app + "/build"@
        &&& self.repo_dir@ == app + "/repo"@
        &&& self.scripts_dir@ == app + "/scripts"@
        &&& self.db_url@ == "sqlite:"@ + app + "/"@ + "packages.db"@
    }

    /// The paths of the package manager for the home directory `home`.
    pub fn from_home(home: &str) -> (p: AppPaths)
        ensures
            p.under(home@),
            p.app_dir@ == home@ + "/"@ + ".jkl"@,
            p.bin_dir@ == home@ + "/"@ + ".jkl"@ + "/bin"@,
            p.build_dir@ == home@ + "/"@ + ".jkl"@ + "/build"@,
            p.repo_dir@ == home@ + "/"@ + ".jkl"@ + "/repo"@,
            p.scripts_dir@ == home@ + "/"@ + ".jkl"@ + "/scripts"@,
            p.db_url@ == "sqlite:"@ + (home@ + "/"@ + ".jkl"@) + "/"@ + "packages.db"@,
    {
        let app_dir = home.to_owned().concat("/").concat(".jkl");
        let bin_dir = app_dir.clone().concat("/bin");
        let build_dir = app_dir.clone().concat("/build");
        let repo_dir = app_dir.clone().concat("/repo");
        let scripts_dir = app_dir.clone().concat("/scripts");
        let db_url = String::from_str("sqlite:").concat(app_dir.as_str()).concat("/").concat(
            "packages.db",
        );
        AppPaths { app_dir, bin_dir, build_dir, repo_dir, scripts_dir, db_url }
    }

    /// Where the binary named `name` is installed: `<bin_dir>/<name>`.
    pub fn binary_path(&self, name: &str) -> (s: String)
        ensures
            s@ == self.bin_dir@ + "/"@ + name@,
    {
        self.bin_dir.clone().concat("/").concat(name)
    }
}

} // verus!
