use launcher_mc::launcher::{Launcher, Platform, RelPath};
use launcher_mc::maven::Download;

fn parts(p: &RelPath) -> Vec<&str> {
    p.parts.iter().map(|s| s.as_str()).collect()
}

#[test]
fn new_launcher_shows_version() {
    let l = Launcher::new("1.2.3");
    assert_eq!(l.username, "");
    assert_eq!(l.status, "Launcher v1.2.3");
}

#[test]
fn directories_below_project_dir() {
    assert_eq!(parts(&Launcher::minecraft_dir()), vec!["minecraft"]);
    assert_eq!(parts(&Launcher::minecraft_jar()), vec!["minecraft", "minecraft.jar"]);
    assert_eq!(parts(&Launcher::libraries_dir()), vec!["minecraft", "libraries"]);
    assert_eq!(parts(&Launcher::local_libraries_dir()), vec!["minecraft", "local-libs"]);
    assert_eq!(parts(&Launcher::natives_dir()), vec!["minecraft", "natives"]);
    assert_eq!(parts(&Launcher::assets_dir()), vec!["minecraft", "assets"]);
}

#[test]
fn platform_from_os_name() {
    assert_eq!(Launcher::platform("windows"), Ok(Platform::Windows));
    assert_eq!(Launcher::platform("linux"), Ok(Platform::Linux));
    assert_eq!(Launcher::platform("macos"), Ok(Platform::MacOS));
    assert_eq!(
        Launcher::platform("freebsd"),
        Err("Эта ОС не поддерживается".to_string())
    );
    assert_eq!(
        Launcher::platform("Linux"),
        Err("Эта ОС не поддерживается".to_string())
    );
}

#[test]
fn classifier_per_platform() {
    assert_eq!(Launcher::native_classifier(Platform::Windows), "natives-windows");
    assert_eq!(Launcher::native_classifier(Platform::Linux), "natives-linux");
    assert_eq!(Launcher::native_classifier(Platform::MacOS), "natives-macos");
}

#[test]
fn java_executable_per_host() {
    assert_eq!(Launcher::find_java(true), "java.exe");
    assert_eq!(Launcher::find_java(false), "java");
}

#[test]
fn parse_well_formed_coordinate() {
    assert_eq!(
        Launcher::parse_dependency("org.lwjgl:lwjgl:3.2.2"),
        Ok(("org.lwjgl", "lwjgl", "3.2.2"))
    );
    assert_eq!(Launcher::parse_dependency("::"), Ok(("", "", "")));
    assert_eq!(
        Launcher::parse_dependency("io.netty:netty-all:4.1.25.Final"),
        Ok(("io.netty", "netty-all", "4.1.25.Final"))
    );
}

#[test]
fn parse_rejects_other_part_counts() {
    assert_eq!(
        Launcher::parse_dependency("org.lwjgl:lwjgl"),
        Err("Неверная Maven dependency: org.lwjgl:lwjgl".to_string())
    );
    assert_eq!(
        Launcher::parse_dependency("a:b:c:d"),
        Err("Неверная Maven dependency: a:b:c:d".to_string())
    );
    assert_eq!(
        Launcher::parse_dependency(""),
        Err("Неверная Maven dependency: ".to_string())
    );
}

#[test]
fn coordinate_round_trip_on_values() {
    let (g, a, v) = ("com.google.guava", "guava", "21.0");
    let text = format!("{}:{}:{}", g, a, v);
    assert_eq!(Launcher::parse_dependency(&text), Ok((g, a, v)));
}

#[test]
fn group_path_replaces_dots() {
    assert_eq!(Launcher::group_path("org.apache.logging.log4j"), "org/apache/logging/log4j");
    assert_eq!(Launcher::group_path("commons-io"), "commons-io");
    assert_eq!(Launcher::group_path(".a."), "/a/");
}

#[test]
fn maven_url_of_library() {
    assert_eq!(
        Launcher::maven_url("org.lwjgl", "lwjgl", "3.2.2"),
        "https://repo1.maven.org/maven2/org/lwjgl/lwjgl/3.2.2/lwjgl-3.2.2.jar"
    );
    assert_eq!(
        Launcher::maven_url("com.google.code.gson", "gson", "2.8.0"),
        "https://repo1.maven.org/maven2/com/google/code/gson/gson/2.8.0/gson-2.8.0.jar"
    );
}

#[test]
fn native_url_of_module() {
    assert_eq!(
        Launcher::native_url("org.lwjgl", "lwjgl-glfw", "3.2.2", "natives-windows"),
        "https://repo1.maven.org/maven2/org/lwjgl/lwjgl-glfw/3.2.2/lwjgl-glfw-3.2.2-natives-windows.jar"
    );
}

#[test]
fn library_paths() {
    assert_eq!(
        parts(&Launcher::maven_path("org.lwjgl", "lwjgl", "3.2.2")),
        vec!["minecraft", "libraries", "org/lwjgl", "lwjgl", "3.2.2", "lwjgl-3.2.2.jar"]
    );
    assert_eq!(
        parts(&Launcher::native_path("org.lwjgl", "lwjgl", "3.2.2", "natives-linux")),
        vec![
            "minecraft",
            "libraries",
            "org/lwjgl",
            "lwjgl",
            "3.2.2",
            "lwjgl-3.2.2-natives-linux.jar"
        ]
    );
}

#[test]
fn built_in_lists() {
    let deps = Launcher::dependencies();
    assert_eq!(deps.len(), 26);
    assert_eq!(deps[0], "org.lwjgl:lwjgl:3.2.2");
    assert_eq!(deps[25], "com.ibm.icu:icu4j:66.1");
    let modules = Launcher::lwjgl_native_modules();
    assert_eq!(modules.len(), 7);
    assert!(!modules.contains(&"org.lwjgl:lwjgl-vulkan:3.2.2"));
}

#[test]
fn plan_for_built_in_dependencies() {
    let deps = Launcher::dependencies();
    let plan: Vec<Download> = Launcher::dependency_downloads(&deps).unwrap();
    assert_eq!(plan.len(), 26);
    assert_eq!(
        plan[0].url,
        "https://repo1.maven.org/maven2/org/lwjgl/lwjgl/3.2.2/lwjgl-3.2.2.jar"
    );
    assert_eq!(
        plan[20].url,
        "https://repo1.maven.org/maven2/io/netty/netty-all/4.1.25.Final/netty-all-4.1.25.Final.jar"
    );
    assert_eq!(
        parts(&plan[25].destination),
        vec!["minecraft", "libraries", "com/ibm/icu", "icu4j", "66.1", "icu4j-66.1.jar"]
    );
}

#[test]
fn plan_reports_first_bad_coordinate() {
    let deps = vec!["a:b:c", "broken", "also:broken"];
    match Launcher::dependency_downloads(&deps) {
        Err(e) => assert_eq!(e, "Неверная Maven dependency: broken"),
        Ok(_) => panic!("a bad coordinate was accepted"),
    }
}

#[test]
fn plan_for_natives() {
    let modules = Launcher::lwjgl_native_modules();
    let plan = Launcher::native_downloads(&modules, "natives-macos").unwrap();
    assert_eq!(plan.len(), 7);
    assert_eq!(
        plan[6].url,
        "https://repo1.maven.org/maven2/org/lwjgl/lwjgl-tinyfd/3.2.2/lwjgl-tinyfd-3.2.2-natives-macos.jar"
    );
    assert_eq!(
        parts(&plan[6].destination),
        vec![
            "minecraft",
            "libraries",
            "org/lwjgl",
            "lwjgl-tinyfd",
            "3.2.2",
            "lwjgl-tinyfd-3.2.2-natives-macos.jar"
        ]
    );
}

#[test]
fn empty_plan() {
    let deps: Vec<&str> = Vec::new();
    assert_eq!(Launcher::dependency_downloads(&deps).unwrap().len(), 0);
}

#[test]
fn url_mirrors_local_path() {
    for (g, a, v) in [("org.lwjgl", "lwjgl-stb", "3.2.2"), ("commons-io", "commons-io", "2.5")] {
        let url = Launcher::maven_url(g, a, v);
        let path = Launcher::maven_path(g, a, v);
        let tail = path.parts[2..].join("/");
        assert_eq!(url, format!("https://repo1.maven.org/maven2/{}", tail));
    }
    let url = Launcher::native_url("org.lwjgl", "lwjgl", "3.2.2", "natives-linux");
    let path = Launcher::native_path("org.lwjgl", "lwjgl", "3.2.2", "natives-linux");
    assert_eq!(url, format!("https://repo1.maven.org/maven2/{}", path.parts[2..].join("/")));
}
