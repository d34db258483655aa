use launcher_mc::archive::LocalLibEntry;
use launcher_mc::classpath::JarSearchStep;
use launcher_mc::http::{is_success, replacement_status_verdict};
use launcher_mc::launcher::Launcher;
use launcher_mc::session::{PrepareNext, PrepareStage};
use launcher_mc::release::{ArtifactKind, Release, ReleaseAsset};
use launcher_mc::updater::{after_attempt, argument, NextStep};

fn strings(items: &[&str]) -> Vec<String> {
    items.iter().map(|s| s.to_string()).collect()
}

fn asset(name: Option<&str>, url: Option<&str>) -> ReleaseAsset {
    ReleaseAsset {
        name: name.map(|s| s.to_string()),
        download_url: url.map(|s| s.to_string()),
    }
}

#[test]
fn classpath_on_unix() {
    let l = Launcher::new("1.0");
    let found = strings(&["/p/a.jar", "/p/b.jar"]);
    assert_eq!(
        l.build_classpath("/p/minecraft.jar", true, &found, false),
        Ok("/p/a.jar:/p/b.jar:/p/minecraft.jar".to_string())
    );
}

#[test]
fn classpath_on_windows() {
    let l = Launcher::new("1.0");
    let found = strings(&["C:\\p\\a.jar"]);
    assert_eq!(
        l.build_classpath("C:\\p\\minecraft.jar", true, &found, true),
        Ok("C:\\p\\a.jar;C:\\p\\minecraft.jar".to_string())
    );
}

#[test]
fn classpath_of_game_jar_alone() {
    let l = Launcher::new("1.0");
    assert_eq!(
        l.build_classpath("mc.jar", true, &Vec::new(), false),
        Ok("mc.jar".to_string())
    );
}

#[test]
fn classpath_without_game_jar() {
    let l = Launcher::new("1.0");
    assert_eq!(
        l.build_classpath("/p/minecraft.jar", false, &strings(&["/p/a.jar"]), false),
        Err("Не найден Minecraft JAR:\n/p/minecraft.jar".to_string())
    );
}

#[test]
fn classpath_splits_back_into_entries() {
    let l = Launcher::new("1.0");
    let found = strings(&["x.jar", "y/z.jar"]);
    let cp = l.build_classpath("m.jar", true, &found, false).unwrap();
    let back: Vec<&str> = cp.split(':').collect();
    assert_eq!(back, vec!["x.jar", "y/z.jar", "m.jar"]);
}

#[test]
fn jar_search_decisions() {
    assert_eq!(Launcher::jar_search_step(true, "lib.jar"), JarSearchStep::Descend);
    assert_eq!(Launcher::jar_search_step(false, "lib.jar"), JarSearchStep::Collect);
    assert_eq!(Launcher::jar_search_step(false, "LIB.JaR"), JarSearchStep::Collect);
    assert_eq!(Launcher::jar_search_step(false, "a.b.jar"), JarSearchStep::Collect);
    assert_eq!(Launcher::jar_search_step(false, ".jar"), JarSearchStep::Skip);
    assert_eq!(Launcher::jar_search_step(false, "lib.jar.bak"), JarSearchStep::Skip);
    assert_eq!(Launcher::jar_search_step(false, "lib.jars"), JarSearchStep::Skip);
    assert_eq!(Launcher::jar_search_step(false, "jar"), JarSearchStep::Skip);
    assert_eq!(Launcher::jar_search_step(false, "lib."), JarSearchStep::Skip);
    assert!(Launcher::is_jar_file_name("..jar"));
}

#[test]
fn native_entries() {
    assert_eq!(
        Launcher::native_entry_target("windows/x64/org/lwjgl/lwjgl.dll", false, false),
        Some("lwjgl.dll".to_string())
    );
    assert_eq!(
        Launcher::native_entry_target("liblwjgl_opengl.so", false, false),
        Some("liblwjgl_opengl.so".to_string())
    );
    assert_eq!(
        Launcher::native_entry_target("macos/arm64/liblwjgl.dylib", false, false),
        Some("liblwjgl.dylib".to_string())
    );
    assert_eq!(Launcher::native_entry_target("META-INF/MANIFEST.MF", false, false), None);
    assert_eq!(Launcher::native_entry_target("linux/x64/", true, false), None);
    assert_eq!(Launcher::native_entry_target("odd.so", true, false), None);
    assert_eq!(Launcher::native_entry_target("lib.so.1", false, false), None);
}

#[test]
fn native_file_names_have_no_separator() {
    for name in ["a/b/c.dll", "c.so", "/x/.so", "d/e.dylib"] {
        let f = Launcher::native_entry_target(name, false, false).unwrap();
        assert!(!f.is_empty());
        assert!(!f.contains('/'));
        assert!(name.ends_with(f.as_str()));
    }
}

#[test]
fn local_lib_entries() {
    assert_eq!(Launcher::local_lib_entry("lib/a.jar", false), LocalLibEntry::WriteFile);
    assert_eq!(Launcher::local_lib_entry("lib/", true), LocalLibEntry::CreateDir);
    assert_eq!(Launcher::local_lib_entry("../evil.jar", false), LocalLibEntry::Skip);
    assert_eq!(Launcher::local_lib_entry("a/../../b", true), LocalLibEntry::Skip);
    assert_eq!(Launcher::local_lib_entry("a..b.jar", false), LocalLibEntry::Skip);
    assert_eq!(Launcher::local_lib_entry("/etc/passwd", false), LocalLibEntry::Skip);
    assert_eq!(Launcher::local_lib_entry("a.b/c.jar", false), LocalLibEntry::WriteFile);
    assert_eq!(Launcher::local_lib_entry("", false), LocalLibEntry::WriteFile);
}

#[test]
fn username_checks() {
    assert_eq!(Launcher::check_username("  Steve \t\n"), Ok("Steve"));
    assert_eq!(Launcher::check_username("Player_01"), Ok("Player_01"));
    assert_eq!(Launcher::check_username(""), Err("Введите ник".to_string()));
    assert_eq!(Launcher::check_username(" \u{3000} "), Err("Введите ник".to_string()));
    assert_eq!(Launcher::check_username("abcdefghijklmnop"), Ok("abcdefghijklmnop"));
    assert_eq!(
        Launcher::check_username("abcdefghijklmnopq"),
        Err("Ник не должен быть длиннее 16 символов".to_string())
    );
    assert_eq!(
        Launcher::check_username("Стив"),
        Err("Ник может содержать только A-Z, 0-9 и _".to_string())
    );
    assert_eq!(
        Launcher::check_username("ÀÀÀÀÀÀÀÀÀ"),
        Err("Ник не должен быть длиннее 16 символов".to_string())
    );
    assert_eq!(
        Launcher::check_username("a b"),
        Err("Ник может содержать только A-Z, 0-9 и _".to_string())
    );
    assert_eq!(
        Launcher::check_username("steve-1"),
        Err("Ник может содержать только A-Z, 0-9 и _".to_string())
    );
}

#[test]
fn accepted_name_is_accepted_again() {
    let name = Launcher::check_username("  Alex_2 ").unwrap();
    assert_eq!(Launcher::check_username(name), Ok(name));
}

#[test]
fn launch_refused_for_bad_name() {
    let mut l = Launcher::new("1.0");
    l.username = "   ".to_string();
    assert_eq!(l.begin_launch(), None);
    assert_eq!(l.status, "Введите ник");
    assert_eq!(l.username, "   ");
}

#[test]
fn launch_flow_success() {
    let mut l = Launcher::new("1.0");
    l.username = " Steve ".to_string();
    let name = l.begin_launch().unwrap();
    assert_eq!(name, "Steve");
    assert_eq!(l.status, "Подготовка Minecraft...");
    let args = l
        .finish_prepare(Ok("a.jar:m.jar".to_string()), &name, "/g/natives", "/g", "/g/assets")
        .unwrap();
    assert_eq!(l.status, "Подготовка Minecraft...");
    assert_eq!(
        args,
        strings(&[
            "-Xms512M",
            "-Xmx2G",
            "-Dorg.lwjgl.librarypath=/g/natives",
            "-cp",
            "a.jar:m.jar",
            "net.minecraft.client.main.Main",
            "--username",
            "Steve",
            "--version",
            "1.16.5",
            "--gameDir",
            "/g",
            "--assetsDir",
            "/g/assets",
            "--assetIndex",
            "1.16",
            "--uuid",
            "00000000-0000-0000-0000-000000000000",
            "--accessToken",
            "0",
        ])
    );
    l.finish_launch(Ok(()));
    assert_eq!(l.status, "Minecraft запущен");
}

#[test]
fn launch_flow_failures() {
    let mut l = Launcher::new("1.0");
    assert!(l
        .finish_prepare(Err("нет сети".to_string()), "Steve", "n", "g", "a")
        .is_none());
    assert_eq!(l.status, "нет сети");
    l.finish_launch(Err("not found".to_string()));
    assert_eq!(l.status, "Не удалось запустить Minecraft:\nnot found");
}

#[test]
fn game_jar_and_java_checks() {
    assert_eq!(Launcher::require_game_jar("/g/minecraft.jar", true), Ok(()));
    assert_eq!(
        Launcher::require_game_jar("/g/minecraft.jar", false),
        Err("Не найден:\n/g/minecraft.jar".to_string())
    );
    assert_eq!(Launcher::java_check_verdict(Ok(true)), Ok(()));
    assert_eq!(
        Launcher::java_check_verdict(Ok(false)),
        Err("Java установлена, но не запускается.".to_string())
    );
    assert_eq!(
        Launcher::java_check_verdict(Err("No such file".to_string())),
        Err("Java не найдена.\nУстанови Java и добавь её в PATH.\n\nОшибка: No such file"
            .to_string())
    );
}

#[test]
fn update_check_flow() {
    let mut l = Launcher::new("2.0");
    l.begin_update_check();
    assert_eq!(l.status, "Проверка обновлений...");
    assert_eq!(l.finish_update_check(Ok(None), "2.0"), None);
    assert_eq!(l.status, "Launcher v2.0 — обновлений нет");
    assert_eq!(
        l.finish_update_check(Ok(Some("https://x/new".to_string())), "2.0"),
        Some("https://x/new".to_string())
    );
    assert_eq!(l.status, "Доступно обновление");
    assert!(!l.updater_started(Err("Updater not found: /x".to_string())));
    assert_eq!(l.status, "Ошибка обновления: Updater not found: /x");
    assert_eq!(l.finish_update_check(Err("offline".to_string()), "2.0"), None);
    assert_eq!(l.status, "Не удалось проверить обновления: offline");
    assert!(l.updater_started(Ok(())));
    assert_eq!(l.status, "Не удалось проверить обновления: offline");
}

#[test]
fn release_api_url_is_latest_release() {
    assert_eq!(
        Launcher::release_api_url(),
        "https://api.github.com/repos/cactus-spike1/LauncherMC/releases/latest"
    );
}

#[test]
fn update_verdicts() {
    let same = Release { tag_name: Some("1.0".to_string()), assets: None };
    assert_eq!(Launcher::update_from_release(&same, "1.0"), Ok(None));
    let newer = Release {
        tag_name: Some("1.1".to_string()),
        assets: Some(vec![
            asset(Some("notes.txt"), None),
            asset(Some("launcher"), Some("https://x/1")),
            asset(Some("other"), Some("https://x/2")),
        ]),
    };
    assert_eq!(
        Launcher::update_from_release(&newer, "1.0"),
        Ok(Some("https://x/1".to_string()))
    );
    let no_assets = Release { tag_name: Some("1.1".to_string()), assets: None };
    assert_eq!(
        Launcher::update_from_release(&no_assets, "1.0"),
        Err("No assets in release".to_string())
    );
    let no_urls = Release {
        tag_name: None,
        assets: Some(vec![asset(Some("a"), None)]),
    };
    assert_eq!(Launcher::update_from_release(&no_urls, "1.0"), Ok(None));
    let untagged = Release { tag_name: None, assets: None };
    assert_eq!(Launcher::update_from_release(&untagged, ""), Ok(None));
}

#[test]
fn artifact_plans() {
    let release = Release {
        tag_name: None,
        assets: Some(vec![
            asset(Some("local-libs.zip"), Some("https://x/libs")),
            asset(Some("minecraft.jar"), Some("https://x/jar1")),
            asset(Some("minecraft.jar"), Some("https://x/jar2")),
            asset(None, Some("https://x/none")),
            asset(Some("local-libs.zip"), None),
        ]),
    };
    let steps = Launcher::artifact_plan(&release, false).unwrap();
    let seen: Vec<(ArtifactKind, &str)> = steps.iter().map(|s| (s.kind, s.url.as_str())).collect();
    assert_eq!(
        seen,
        vec![
            (ArtifactKind::LocalLibs, "https://x/libs"),
            (ArtifactKind::GameJar, "https://x/jar1"),
            (ArtifactKind::LocalLibs, ""),
        ]
    );
    let steps = Launcher::artifact_plan(&release, true).unwrap();
    let seen: Vec<(ArtifactKind, &str)> = steps.iter().map(|s| (s.kind, s.url.as_str())).collect();
    assert_eq!(
        seen,
        vec![(ArtifactKind::LocalLibs, "https://x/libs"), (ArtifactKind::LocalLibs, "")]
    );
    let bare = Release { tag_name: None, assets: None };
    match Launcher::artifact_plan(&bare, false) {
        Err(e) => assert_eq!(e, "No assets in release"),
        Ok(_) => panic!("a release without assets gave a plan"),
    }
    let zip_path = Launcher::local_libs_archive();
    assert_eq!(zip_path.parts, strings(&["minecraft", "local-libs.zip"]));
}

#[test]
fn updater_name_and_arguments() {
    assert_eq!(Launcher::updater_file_name(true), "LauncherMCupdater.exe");
    assert_eq!(Launcher::updater_file_name(false), "LauncherMCupdater");
    assert_eq!(
        Launcher::updater_arguments("https://x/new", "/opt/launcher"),
        strings(&["--url", "https://x/new", "--target", "/opt/launcher"])
    );
}

#[test]
fn http_status_verdicts() {
    assert!(is_success(200));
    assert!(is_success(299));
    assert!(!is_success(300));
    assert!(!is_success(199));
    assert_eq!(Launcher::download_status_verdict(200, "https://x/a.jar"), Ok(()));
    assert_eq!(
        Launcher::download_status_verdict(404, "https://x/a.jar"),
        Err("HTTP 404 Not Found: https://x/a.jar".to_string())
    );
    assert_eq!(Launcher::api_status_verdict(204), Ok(()));
    assert_eq!(
        Launcher::api_status_verdict(403),
        Err("GitHub API error: 403 Forbidden".to_string())
    );
    assert_eq!(
        replacement_status_verdict(500),
        Err("HTTP 500 Internal Server Error".to_string())
    );
    assert_eq!(
        replacement_status_verdict(599),
        Err("HTTP 599 <unknown status code>".to_string())
    );
}

#[test]
fn updater_arguments_are_read() {
    let args = strings(&["updater", "--url", "https://x/new", "--target", "/opt/l"]);
    assert_eq!(argument(&args, "--url"), Some("https://x/new".to_string()));
    assert_eq!(argument(&args, "--target"), Some("/opt/l".to_string()));
    assert_eq!(argument(&args, "--other"), None);
    let dangling = strings(&["updater", "--url"]);
    assert_eq!(argument(&dangling, "--url"), None);
    let twice = strings(&["updater", "--url", "a", "--url", "b"]);
    assert_eq!(argument(&twice, "--url"), Some("a".to_string()));
    assert_eq!(argument(&Vec::new(), "--url"), None);
    let value_as_name = strings(&["--url", "--url", "x"]);
    assert_eq!(argument(&value_as_name, "--url"), Some("--url".to_string()));
}

#[test]
fn updater_retries_ten_times() {
    assert_eq!(after_attempt(0, true), NextStep::StartLauncher);
    assert_eq!(after_attempt(0, false), NextStep::Retry);
    assert_eq!(after_attempt(8, false), NextStep::Retry);
    assert_eq!(after_attempt(9, false), NextStep::GiveUp);
    assert_eq!(after_attempt(9, true), NextStep::StartLauncher);
    let mut attempts = 0;
    let mut attempt = 0;
    loop {
        attempts += 1;
        match after_attempt(attempt, false) {
            NextStep::Retry => attempt += 1,
            _ => break,
        }
    }
    assert_eq!(attempts, 10);
}

#[test]
fn native_entries_on_windows() {
    assert_eq!(
        Launcher::native_entry_target("sub\\..\\..\\evil.dll", false, true),
        Some("evil.dll".to_string())
    );
    assert_eq!(
        Launcher::native_entry_target("a\\b.dll", false, true),
        Some("b.dll".to_string())
    );
    assert_eq!(
        Launcher::native_entry_target("a/b\\c.dll", false, true),
        Some("c.dll".to_string())
    );
    assert_eq!(
        Launcher::native_entry_target("C:lwjgl.dll", false, true),
        Some("lwjgl.dll".to_string())
    );
    assert_eq!(
        Launcher::native_entry_target("windows/x64/lwjgl.dll", false, true),
        Some("lwjgl.dll".to_string())
    );
    // Elsewhere `\` is an ordinary character and `C:` no prefix.
    assert_eq!(
        Launcher::native_entry_target("a\\b.so", false, false),
        Some("a\\b.so".to_string())
    );
    assert_eq!(
        Launcher::native_entry_target("C:lwjgl.so", false, false),
        Some("C:lwjgl.so".to_string())
    );
    assert_eq!(Launcher::native_entry_target("a\\b.txt", false, true), None);
}

#[test]
fn windows_native_names_hold_no_separator() {
    for name in ["x\\y/z.dll", "\\\\srv\\share\\q.dll", "D:\\w.dylib", "plain.so"] {
        let f = Launcher::native_entry_target(name, false, true).unwrap();
        assert!(!f.is_empty());
        assert!(!f.contains('/') && !f.contains('\\'));
        assert!(name.ends_with(f.as_str()));
    }
}

fn run_stages(failing: Option<PrepareStage>) -> Result<Vec<PrepareStage>, String> {
    let mut seen = Vec::new();
    let mut stage = Launcher::first_prepare_stage();
    loop {
        seen.push(stage);
        if stage == PrepareStage::BuildClasspath {
            return Ok(seen);
        }
        let outcome = if Some(stage) == failing {
            Err(format!("{:?} failed", stage))
        } else {
            Ok(())
        };
        match Launcher::after_prepare_stage(stage, outcome) {
            PrepareNext::Run(next) => stage = next,
            PrepareNext::Fail(e) => return Err(e),
        }
    }
}

#[test]
fn prepare_stages_in_order() {
    assert_eq!(
        run_stages(None),
        Ok(vec![
            PrepareStage::CreateDirectories,
            PrepareStage::BuildClient,
            PrepareStage::FetchReleaseArtifacts,
            PrepareStage::RequireGameJar,
            PrepareStage::CheckJava,
            PrepareStage::DownloadLibraries,
            PrepareStage::DownloadNatives,
            PrepareStage::ExtractNatives,
            PrepareStage::BuildClasspath,
        ])
    );
}

#[test]
fn prepare_failures() {
    assert_eq!(
        run_stages(Some(PrepareStage::CheckJava)),
        Err("CheckJava failed".to_string())
    );
    assert_eq!(
        run_stages(Some(PrepareStage::CreateDirectories)),
        Err("CreateDirectories failed".to_string())
    );
    // A failed release download is passed over.
    assert_eq!(run_stages(Some(PrepareStage::FetchReleaseArtifacts)).unwrap().len(), 9);
}

#[test]
fn updater_presence() {
    assert_eq!(Launcher::require_updater("/opt/LauncherMCupdater", true), Ok(()));
    assert_eq!(
        Launcher::require_updater("/opt/LauncherMCupdater", false),
        Err("Updater not found: /opt/LauncherMCupdater".to_string())
    );
}
