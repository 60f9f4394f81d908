use std::collections::HashMap;
use jkl::plan::{add_or_update_entry, delete, install, update};
use jkl::{
    compare_versions, decimal, list_report, release_order, VersionOrder,
    build_command, build_failed, db_dirs_exist, db_init, get_repo_data, repo_entry_lacks_version,
    version_to_int, AppPaths, Command, DeletePlan, EntryWrite, InstallPlan, PData, SetupState,
    SetupTarget, UpdatePlan, VersionError,
};

fn names(v: &[&str]) -> Vec<String> {
    v.iter().map(|s| s.to_string()).collect()
}

fn pkg(n: &str, v: &str) -> PData {
    PData::new(n, v)
}

// ---- version_to_int ----

#[test]
fn version_dots_are_removed() {
    assert_eq!(version_to_int("1.0.20"), Ok(1020));
    assert_eq!(version_to_int("1.0.21"), Ok(1021));
    assert_eq!(version_to_int("10"), Ok(10));
    assert_eq!(version_to_int("0.0.1"), Ok(1));
}

#[test]
fn version_signs_are_read_as_by_parse() {
    assert_eq!(version_to_int("-1.2"), Ok(-12));
    assert_eq!(version_to_int("+5"), Ok(5));
    assert_eq!(version_to_int("-.5"), Ok(-5));
    assert_eq!(version_to_int("-"), Err(VersionError));
    assert_eq!(version_to_int("+"), Err(VersionError));
    assert_eq!(version_to_int("1-2"), Err(VersionError));
}

#[test]
fn version_refuses_what_is_not_a_number() {
    assert_eq!(version_to_int(""), Err(VersionError));
    assert_eq!(version_to_int("."), Err(VersionError));
    assert_eq!(version_to_int("abc"), Err(VersionError));
    assert_eq!(version_to_int("1.a"), Err(VersionError));
    assert_eq!(version_to_int(" 1"), Err(VersionError));
    assert_eq!(version_to_int("1 "), Err(VersionError));
    assert_eq!(version_to_int("v1.0"), Err(VersionError));
}

#[test]
fn version_range_of_i32() {
    assert_eq!(version_to_int("2147483647"), Ok(i32::MAX));
    assert_eq!(version_to_int("2.147.483.647"), Ok(i32::MAX));
    assert_eq!(version_to_int("2147483648"), Err(VersionError));
    assert_eq!(version_to_int("-2147483648"), Ok(i32::MIN));
    assert_eq!(version_to_int("-2147483649"), Err(VersionError));
    assert_eq!(version_to_int("99999999999999999999"), Err(VersionError));
    assert_eq!(version_to_int("00012"), Ok(12));
}

#[test]
fn version_agrees_with_std_parse() {
    let samples = [
        "1.0.20", "-1", "+1", "", ".", "1..2", "a", "9.9.9.9.9.9.9.9.9.9", "2147483648", "-0",
        "+-1", "--1", "1.2.3-beta", "٣", "1.٣",
    ];
    for s in samples {
        let expected = s.split('.').collect::<String>().parse::<i32>().ok();
        assert_eq!(version_to_int(s).ok(), expected, "{}", s);
    }
}

#[test]
fn version_to_int_drops_the_dots() {
    // the dots are dropped, so "1.10" stands for 110 and "2.0" for 20
    assert_eq!(version_to_int("1.10"), Ok(110));
    assert_eq!(version_to_int("2.0"), Ok(20));
    assert_eq!(version_to_int("1.0.beta"), Err(VersionError));
    assert_eq!(version_to_int("..."), Err(VersionError));
}

#[test]
fn version_error_message() {
    assert_eq!(VersionError.message(), "Error converting version from string to int");
    assert_eq!(version_to_int("").unwrap_err().message(), "Error converting version from string to int");
}

// ---- compare_versions ----

#[test]
fn compare_part_by_part() {
    assert_eq!(compare_versions("1.10.0", "2.0.0"), Ok(VersionOrder::Newer));
    assert_eq!(compare_versions("2.0.0", "1.10.0"), Ok(VersionOrder::Older));
    assert_eq!(compare_versions("1.9", "1.10"), Ok(VersionOrder::Newer));
    assert_eq!(compare_versions("1.0.20", "1.0.21"), Ok(VersionOrder::Newer));
    assert_eq!(compare_versions("1.0.20", "1.0.20"), Ok(VersionOrder::Same));
    assert_eq!(compare_versions("10.20", "1.0.20"), Ok(VersionOrder::Older));
}

#[test]
fn compare_missing_parts_count_as_zero() {
    assert_eq!(compare_versions("1.0", "1.0.0"), Ok(VersionOrder::Same));
    assert_eq!(compare_versions("1", "1.0.0.0"), Ok(VersionOrder::Same));
    assert_eq!(compare_versions("1.0", "1.0.1"), Ok(VersionOrder::Newer));
    assert_eq!(compare_versions("1.0.1", "1"), Ok(VersionOrder::Older));
}

#[test]
fn compare_parts_as_numbers() {
    assert_eq!(compare_versions("1.01", "1.1"), Ok(VersionOrder::Same));
    assert_eq!(compare_versions("1.009", "1.10"), Ok(VersionOrder::Newer));
    assert_eq!(
        compare_versions("99999999999999999999999.1", "99999999999999999999999.2"),
        Ok(VersionOrder::Newer)
    );
    assert_eq!(
        compare_versions("100000000000000000000000", "99999999999999999999999"),
        Ok(VersionOrder::Older)
    );
}

#[test]
fn compare_refuses_parts_that_are_not_numbers() {
    for bad in ["", ".", "1.", ".1", "1..2", "1.a", "1.0-beta", "-1", "+1", " 1", "v1"] {
        assert_eq!(compare_versions(bad, "1"), Err(VersionError), "{}", bad);
        assert_eq!(compare_versions("1", bad), Err(VersionError), "{}", bad);
    }
}

#[test]
fn compare_is_antisymmetric() {
    let vs = ["1", "1.0", "1.2", "1.10", "2.0.0", "0.9.9", "10"];
    for a in vs {
        for b in vs {
            let ab = compare_versions(a, b).unwrap();
            let ba = compare_versions(b, a).unwrap();
            let flipped = match ab {
                VersionOrder::Newer => VersionOrder::Older,
                VersionOrder::Older => VersionOrder::Newer,
                VersionOrder::Same => VersionOrder::Same,
            };
            assert_eq!(ba, flipped, "{} {}", a, b);
        }
        assert_eq!(compare_versions(a, a), Ok(VersionOrder::Same));
    }
}

// ---- release_order ----

#[test]
fn release_order_needs_numbers() {
    assert_eq!(release_order("2147.483.648", "1"), Err(VersionError));
    assert_eq!(release_order("1", "2147.483.648"), Err(VersionError));
    assert_eq!(release_order("1.a", "1"), Err(VersionError));
    assert_eq!(release_order("", "1"), Err(VersionError));
}

#[test]
fn release_order_by_parts_where_they_differ() {
    assert_eq!(release_order("1.10.0", "2.0.0"), Ok(VersionOrder::Newer));
    assert_eq!(release_order("2.0.0", "1.10.0"), Ok(VersionOrder::Older));
    assert_eq!(release_order("1.0.20", "1.0.21"), Ok(VersionOrder::Newer));
}

#[test]
fn release_order_by_numbers_otherwise() {
    // "1..0" has an empty part; both read as 10
    assert_eq!(release_order("1..0", "10"), Ok(VersionOrder::Same));
    // the parts are the same; the numbers are 10 and 100
    assert_eq!(release_order("1.0", "1.0.0"), Ok(VersionOrder::Newer));
    assert_eq!(release_order("1.0.0", "1.0"), Ok(VersionOrder::Older));
    // the parts are the same; the numbers are 101 and 11
    assert_eq!(release_order("1.01", "1.1"), Ok(VersionOrder::Older));
    assert_eq!(release_order("1.0.20", "1.0.20"), Ok(VersionOrder::Same));
}

#[test]
fn install_and_update_follow_release_order() {
    assert!(matches!(install(Some(pkg("p", "10")), Some(pkg("p", "1..0"))), Ok(InstallPlan::UpToDate { .. })));
    assert!(matches!(update(Some(pkg("p", "1..0")), Some(pkg("p", "10"))), Ok(UpdatePlan::UpToDate { .. })));
    assert!(matches!(install(Some(pkg("p", "1")), Some(pkg("p", "2147.483.648"))), Err(VersionError)));
    assert!(matches!(update(Some(pkg("p", "1.0")), Some(pkg("p", "1.0.0"))), Ok(UpdatePlan::Rebuild(_))));
    let p = pkg("p", "1..0");
    assert!(matches!(install(Some(p.clone()), Some(p)), Ok(InstallPlan::UpToDate { .. })));
}

fn record(table: &mut HashMap<String, String>, p: PData) {
    let recorded = table.contains_key(&p.name);
    match add_or_update_entry(p, recorded) {
        EntryWrite::Insert(p) => {
            table.insert(p.name, p.ver);
        }
        EntryWrite::Update(p) => {
            if let Some(v) = table.get_mut(&p.name) {
                *v = p.ver;
            }
        }
    }
}

#[test]
fn table_install_delete_install() {
    let mut table: HashMap<String, String> = HashMap::new();
    table.insert("deno".to_string(), "1.2".to_string());
    let before = table.clone();
    let p = pkg("bun", "1.0.20");
    assert!(matches!(install(Some(p.clone()), None), Ok(InstallPlan::Build(_))));
    record(&mut table, p.clone());
    let after = table.clone();
    record(&mut table, p.clone());
    assert_eq!(table, after);
    assert_eq!(table.get("bun"), Some(&"1.0.20".to_string()));
    let paths = AppPaths::from_home("/h");
    assert!(matches!(delete(&paths, "bun", table.contains_key("bun")), DeletePlan::Remove { .. }));
    table.remove("bun");
    assert_eq!(table, before);
    assert!(matches!(install(Some(p), None), Ok(InstallPlan::Build(_))));
}

// ---- list_report ----

#[test]
fn decimal_numbers() {
    assert_eq!(decimal(0), "0");
    assert_eq!(decimal(7), "7");
    assert_eq!(decimal(10), "10");
    assert_eq!(decimal(1020), "1020");
    assert_eq!(decimal(usize::MAX), usize::MAX.to_string());
}

#[test]
fn list_report_empty() {
    assert_eq!(list_report(&vec![]), vec!["Package count: 0", "No packages to list!"]);
}

#[test]
fn list_report_packages() {
    let lines = list_report(&vec![pkg("bun", "1.0.20"), pkg("deno", "1.2")]);
    assert_eq!(
        lines,
        vec!["Package count: 2", "Installed:", "\tbun [1.0.20]", "\tdeno [1.2]"]
    );
}

// ---- PData ----

#[test]
fn pdata_new_and_folder_name() {
    let p = PData::new("bun", "1.0.20");
    assert_eq!(p.name, "bun");
    assert_eq!(p.ver, "1.0.20");
    assert_eq!(p.folder_name(), "bun-1.0.20");
    assert_eq!(PData::new("", "").folder_name(), "-");
}

// ---- get_repo_data ----

#[test]
fn repo_finds_package_by_name() {
    let f = names(&["node-20.1", "bun-1.0.20", "deno-1.2"]);
    assert_eq!(get_repo_data(&f, "bun"), Some(pkg("bun", "1.0.20")));
    assert_eq!(get_repo_data(&f, "deno"), Some(pkg("deno", "1.2")));
    assert_eq!(get_repo_data(&f, "go"), None);
    assert_eq!(get_repo_data(&names(&[]), "bun"), None);
}

#[test]
fn repo_takes_the_first_matching_folder() {
    let f = names(&["bun-1.0.20", "bun-1.0.21"]);
    assert_eq!(get_repo_data(&f, "bun"), Some(pkg("bun", "1.0.20")));
}

#[test]
fn repo_splits_at_every_dash() {
    let f = names(&["tool-1.0-beta", "my-tool-2.0"]);
    assert_eq!(get_repo_data(&f, "tool"), Some(pkg("tool", "1.0")));
    assert_eq!(get_repo_data(&f, "my"), Some(pkg("my", "tool")));
    assert_eq!(get_repo_data(&f, "my-tool"), None);
    assert_eq!(get_repo_data(&names(&["x-"]), "x"), Some(pkg("x", "")));
    assert_eq!(get_repo_data(&names(&["-1.0"]), ""), Some(pkg("", "1.0")));
}

#[test]
fn repo_folder_without_version() {
    let f = names(&["bun", "bun-1.0"]);
    assert!(repo_entry_lacks_version(&f, "bun"));
    let g = names(&["bun-1.0", "bun"]);
    assert!(!repo_entry_lacks_version(&g, "bun"));
    assert_eq!(get_repo_data(&g, "bun"), Some(pkg("bun", "1.0")));
    assert!(!repo_entry_lacks_version(&f, "deno"));
}

#[test]
fn repo_round_trips_folder_name() {
    let p = pkg("bun", "1.0.20");
    let f = vec![p.folder_name()];
    assert!(!repo_entry_lacks_version(&f, "bun"));
    assert_eq!(get_repo_data(&f, "bun"), Some(p));
}

// ---- paths and builds ----

#[test]
fn paths_under_home() {
    let p = AppPaths::from_home("/home/ann");
    assert_eq!(p.app_dir, "/home/ann/.jkl");
    assert_eq!(p.bin_dir, "/home/ann/.jkl/bin");
    assert_eq!(p.build_dir, "/home/ann/.jkl/build");
    assert_eq!(p.repo_dir, "/home/ann/.jkl/repo");
    assert_eq!(p.scripts_dir, "/home/ann/.jkl/scripts");
    assert_eq!(p.db_url, "sqlite:/home/ann/.jkl/packages.db");
    assert_eq!(p.binary_path("bun"), "/home/ann/.jkl/bin/bun");
}

#[test]
fn build_command_for_package() {
    let p = AppPaths::from_home("/h");
    let c = build_command(&p, &pkg("bun", "1.0.20"));
    assert_eq!(c.script, "/h/.jkl/repo/bun-1.0.20/build.sh");
    assert_eq!(c.current_dir, "/h/.jkl/build");
    let envs: Vec<(&str, &str)> = c.envs.iter().map(|(a, b)| (a.as_str(), b.as_str())).collect();
    assert_eq!(
        envs,
        vec![
            ("BUILD_DIR", "/h/.jkl/build"),
            ("BIN_DIR", "/h/.jkl/bin"),
            ("SCRIPTS_DIR", "/h/.jkl/scripts"),
            ("V", "1.0.20"),
            ("P", "bun"),
            ("PV", "bun-1.0.20"),
        ]
    );
}

#[test]
fn build_fails_on_stderr_output() {
    assert!(!build_failed(&vec![]));
    assert!(build_failed(&b"error".to_vec()));
}

// ---- install / update / delete ----

#[test]
fn install_not_in_repo() {
    assert!(matches!(install(None, None), Ok(InstallPlan::NotInRepo)));
    assert!(matches!(install(None, Some(pkg("bun", "1"))), Ok(InstallPlan::NotInRepo)));
}

#[test]
fn install_builds_missing_package() {
    match install(Some(pkg("bun", "1.0.20")), None) {
        Ok(InstallPlan::Build(p)) => assert_eq!(p, pkg("bun", "1.0.20")),
        other => panic!("{:?}", other),
    }
    // versions are not read when nothing is installed
    assert!(matches!(install(Some(pkg("bun", "x")), None), Ok(InstallPlan::Build(_))));
}

#[test]
fn install_compares_versions() {
    match install(Some(pkg("bun", "1.0.21")), Some(pkg("bun", "1.0.20"))) {
        Ok(InstallPlan::RepoNewer { repo_ver, installed_ver }) => {
            assert_eq!(repo_ver, "1.0.21");
            assert_eq!(installed_ver, "1.0.20");
        }
        other => panic!("{:?}", other),
    }
    match install(Some(pkg("bun", "1.0.20")), Some(pkg("bun", "1.0.20"))) {
        Ok(InstallPlan::UpToDate { ver }) => assert_eq!(ver, "1.0.20"),
        other => panic!("{:?}", other),
    }
    match install(Some(pkg("bun", "2.0.0")), Some(pkg("bun", "1.10.0"))) {
        Ok(InstallPlan::RepoNewer { repo_ver, installed_ver }) => {
            assert_eq!(repo_ver, "2.0.0");
            assert_eq!(installed_ver, "1.10.0");
        }
        other => panic!("{:?}", other),
    }
    match install(Some(pkg("bun", "1.0.19")), Some(pkg("bun", "1.0.20"))) {
        Ok(InstallPlan::RepoOlder { repo_ver, installed_ver }) => {
            assert_eq!(repo_ver, "1.0.19");
            assert_eq!(installed_ver, "1.0.20");
        }
        other => panic!("{:?}", other),
    }
}

#[test]
fn install_fails_on_unreadable_version() {
    assert!(matches!(install(Some(pkg("bun", "1.x")), Some(pkg("bun", "1"))), Err(VersionError)));
    assert!(matches!(install(Some(pkg("bun", "1")), Some(pkg("bun", "x"))), Err(VersionError)));
}

#[test]
fn update_plans() {
    assert!(matches!(update(None, Some(pkg("bun", "1"))), Ok(UpdatePlan::NotInstalled)));
    assert!(matches!(update(Some(pkg("bun", "1")), None), Ok(UpdatePlan::NotInRepo)));
    match update(Some(pkg("bun", "1.0.20")), Some(pkg("bun", "1.0.21"))) {
        Ok(UpdatePlan::Rebuild(p)) => assert_eq!(p, pkg("bun", "1.0.21")),
        other => panic!("{:?}", other),
    }
    match update(Some(pkg("bun", "1.0.20")), Some(pkg("bun", "1.0.20"))) {
        Ok(UpdatePlan::UpToDate { ver }) => assert_eq!(ver, "1.0.20"),
        other => panic!("{:?}", other),
    }
    match update(Some(pkg("bun", "1.0.21")), Some(pkg("bun", "1.0.20"))) {
        Ok(UpdatePlan::RepoOlder { repo_ver, installed_ver }) => {
            assert_eq!(repo_ver, "1.0.20");
            assert_eq!(installed_ver, "1.0.21");
        }
        other => panic!("{:?}", other),
    }
    assert!(matches!(update(Some(pkg("bun", "?")), Some(pkg("bun", "1"))), Err(VersionError)));
}

#[test]
fn install_and_update_agree() {
    let cases = [("1.0.21", "1.0.20"), ("1.0.20", "1.0.20"), ("1.0.19", "1.0.20"), ("a", "1")];
    for (r, i) in cases {
        let ins = install(Some(pkg("bun", r)), Some(pkg("bun", i)));
        let upd = update(Some(pkg("bun", i)), Some(pkg("bun", r)));
        let agree = match (&ins, &upd) {
            (Err(_), Err(_)) => true,
            (Ok(InstallPlan::RepoNewer { .. }), Ok(UpdatePlan::Rebuild(_))) => true,
            (Ok(InstallPlan::UpToDate { .. }), Ok(UpdatePlan::UpToDate { .. })) => true,
            (Ok(InstallPlan::RepoOlder { .. }), Ok(UpdatePlan::RepoOlder { .. })) => true,
            _ => false,
        };
        assert!(agree, "{:?} {:?}", ins, upd);
    }
}

#[test]
fn delete_plans() {
    let p = AppPaths::from_home("/h");
    assert!(matches!(delete(&p, "bun", false), DeletePlan::NotInstalled));
    match delete(&p, "bun", true) {
        DeletePlan::Remove { binary } => assert_eq!(binary, "/h/.jkl/bin/bun"),
        other => panic!("{:?}", other),
    }
}

#[test]
fn entry_write_plans() {
    match add_or_update_entry(pkg("bun", "2"), true) {
        EntryWrite::Update(p) => assert_eq!(p, pkg("bun", "2")),
        other => panic!("{:?}", other),
    }
    match add_or_update_entry(pkg("bun", "2"), false) {
        EntryWrite::Insert(p) => assert_eq!(p, pkg("bun", "2")),
        other => panic!("{:?}", other),
    }
}

// ---- setup ----

fn state(bits: [bool; 6]) -> SetupState {
    SetupState {
        app_dir: bits[0],
        bin_dir: bits[1],
        build_dir: bits[2],
        repo_dir: bits[3],
        scripts_dir: bits[4],
        database: bits[5],
    }
}

#[test]
fn setup_check_and_init_plan() {
    assert!(db_dirs_exist(&state([true; 6])));
    assert!(db_init(&state([true; 6])).is_empty());
    assert!(!db_dirs_exist(&state([true, true, false, true, true, true])));
    assert_eq!(
        db_init(&state([true, false, true, false, true, false])),
        vec![SetupTarget::BinDir, SetupTarget::RepoDir, SetupTarget::Database]
    );
    assert_eq!(
        db_init(&state([false; 6])),
        vec![
            SetupTarget::AppDir,
            SetupTarget::BinDir,
            SetupTarget::BuildDir,
            SetupTarget::RepoDir,
            SetupTarget::ScriptsDir,
            SetupTarget::Database
        ]
    );
}

#[test]
fn init_completes_setup() {
    for n in 0..64u32 {
        let mut bits = [false; 6];
        for (i, b) in bits.iter_mut().enumerate() {
            *b = n & (1 << i) != 0;
        }
        let mut s = state(bits);
        for t in db_init(&s) {
            match t {
                SetupTarget::AppDir => s.app_dir = true,
                SetupTarget::BinDir => s.bin_dir = true,
                SetupTarget::BuildDir => s.build_dir = true,
                SetupTarget::RepoDir => s.repo_dir = true,
                SetupTarget::ScriptsDir => s.scripts_dir = true,
                SetupTarget::Database => s.database = true,
            }
        }
        assert!(db_dirs_exist(&s));
    }
}

#[test]
fn commands_check_setup_except_init() {
    assert!(!Command::Init.checks_setup_first());
    assert!(Command::List.checks_setup_first());
    assert!(Command::Install("bun".to_string()).checks_setup_first());
    assert!(Command::Update("bun".to_string()).checks_setup_first());
    assert!(Command::Delete("bun".to_string()).checks_setup_first());
}

// ---- scenarios of the README ----

#[test]
fn readme_install_bun() {
    let paths = AppPaths::from_home("/home/u");
    let repo = get_repo_data(&names(&["bun-1.0.20"]), "bun");
    let plan = install(repo, None).unwrap();
    let p = match plan {
        InstallPlan::Build(p) => p,
        other => panic!("{:?}", other),
    };
    let c = build_command(&paths, &p);
    assert_eq!(c.script, "/home/u/.jkl/repo/bun-1.0.20/build.sh");
    assert!(c.envs.contains(&("V".to_string(), "1.0.20".to_string())));
    assert!(c.envs.contains(&("P".to_string(), "bun".to_string())));
    assert!(c.envs.contains(&("PV".to_string(), "bun-1.0.20".to_string())));
    assert_eq!(paths.binary_path(&p.name), "/home/u/.jkl/bin/bun");
}

#[test]
fn readme_update_after_renaming_folder() {
    // bun 1.0.20 is installed; its folder is renamed to bun-1.0.21
    let repo = get_repo_data(&names(&["bun-1.0.21"]), "bun");
    match update(Some(pkg("bun", "1.0.20")), repo) {
        Ok(UpdatePlan::Rebuild(p)) => assert_eq!(p, pkg("bun", "1.0.21")),
        other => panic!("{:?}", other),
    }
}

#[test]
fn readme_update_to_a_newer_release() {
    // bun 1.10.0 is installed; its folder is renamed to bun-2.0.0
    let repo = get_repo_data(&names(&["bun-2.0.0"]), "bun");
    match update(Some(pkg("bun", "1.10.0")), repo) {
        Ok(UpdatePlan::Rebuild(p)) => assert_eq!(p, pkg("bun", "2.0.0")),
        other => panic!("{:?}", other),
    }
}

#[test]
fn up_to_date_after_build() {
    let p = pkg("bun", "2.0.0");
    assert!(matches!(install(Some(p.clone()), Some(p.clone())), Ok(InstallPlan::UpToDate { .. })));
    assert!(matches!(update(Some(p.clone()), Some(p)), Ok(UpdatePlan::UpToDate { .. })));
}

#[test]
fn readme_delete_keeps_repo_folder() {
    let paths = AppPaths::from_home("/home/u");
    match delete(&paths, "bun", true) {
        DeletePlan::Remove { binary } => {
            assert_eq!(binary, "/home/u/.jkl/bin/bun");
            assert!(!binary.starts_with(&paths.repo_dir));
        }
        other => panic!("{:?}", other),
    }
}
