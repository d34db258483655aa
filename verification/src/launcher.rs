//! The launcher's state, its directory layout below the project directory,
//! and what it knows of the host system.

use vstd::prelude::*;
use crate::text::{str_eq, string_views};

verus! {

/// The operating systems for which LWJGL natives exist.
#[derive(Debug, Clone, Copy, PartialEq, Eq, Structural)]
pub enum Platform {
    Windows,
    Linux,
    MacOS,
}

/// A path below the launcher's project directory, as the list of its
/// components, each joined onto the one before.
pub struct RelPath {
    pub parts: Vec<String>,
}

impl View for RelPath {
    type V = Seq<Seq<char>>;

    open spec fn view(&self) -> Seq<Seq<char>> {
        string_views(self.parts@)
    }
}

/// The launcher's state: the player name as typed, and the status line.
pub struct Launcher {
    pub username: String,
    pub status: String,
}

/// The game directory, below the project directory.
pub open spec fn minecraft_dir_path() -> Seq<Seq<char>> {
    seq!["minecraft"@]
}

/// An entry of the game directory.
pub open spec fn in_minecraft_dir(name: Seq<char>) -> Seq<Seq<char>> {
    seq!["minecraft"@, name]
}

/// The platform that an operating system name (as `std::env::consts::OS`
/// gives it) stands for.
pub open spec fn platform_named(os: Seq<char>) -> Option<Platform> {
    if os == "windows"@ {
        Some(Platform::Windows)
    } else if os == "linux"@ {
        Some(Platform::Linux)
    } else if os == "macos"@ {
        Some(Platform::MacOS)
    } else {
        None
    }
}

/// The Maven classifier of the LWJGL natives for a platform.
pub open spec fn classifier_of(platform: Platform) -> Seq<char> {
    match platform {
        Platform::Windows => "natives-windows"@,
        Platform::Linux => "natives-linux"@,
        Platform::MacOS => "natives-macos"@,
    }
}

/// The status line of a freshly started launcher.
pub open spec fn initial_status(version: Seq<char>) -> Seq<char> {
    "Launcher v"@ + version
}

/// A path of two components.
fn rel_path2(first: &str, second: &str) -> (p: RelPath)
    ensures
        p@ == seq![first@, second@],
{
    let parts = vec![String::from_str(first), String::from_str(second)];
    assert(string_views(parts@) =~= seq![first@, second@]);
    RelPath { parts }
}

impl Launcher {
    /// A launcher with an empty player name and the version in its status.
    pub fn new(version: &str) -> (l: Launcher)
        ensures
            l.username@ == Seq::<char>::empty(),
            l.status@ == initial_status(version@),
    {
        let mut status = String::from_str("Launcher v");
        status.append(version);
        Launcher { username: String::new(), status }
    }

    /// The game directory.
    pub fn minecraft_dir() -> (p: RelPath)
        ensures
            p@ == minecraft_dir_path(),
    {
        let parts = vec![String::from_str("minecraft")];
        assert(string_views(parts@) =~= minecraft_dir_path());
        RelPath { parts }
    }

    /// The game's own JAR.
    pub fn minecraft_jar() -> (p: RelPath)
        ensures
            p@ == in_minecraft_dir("minecraft.jar"@),
    {
        rel_path2("minecraft", "minecraft.jar")
    }

    /// Where Maven libraries are stored.
    pub fn libraries_dir() -> (p: RelPath)
        ensures
            p@ == in_minecraft_dir("libraries"@),
    {
        rel_path2("minecraft", "libraries")
    }

    /// Where the libraries shipped with a release are unpacked.
    pub fn local_libraries_dir() -> (p: RelPath)
        ensures
            p@ == in_minecraft_dir("local-libs"@),
    {
        rel_path2("minecraft", "local-libs")
    }

    /// Where the native libraries are unpacked.
    pub fn natives_dir() -> (p: RelPath)
        ensures
            p@ == in_minecraft_dir("natives"@),
    {
        rel_path2("minecraft", "natives")
    }

    /// The game's assets.
    pub fn assets_dir() -> (p: RelPath)
        ensures
            p@ == in_minecraft_dir("assets"@),
    {
        rel_path2("minecraft", "assets")
    }

    /// The platform of the host, from its operating system name; only
    /// Windows, Linux and macOS are supported.
    pub fn platform(os: &str) -> (r: Result<Platform, String>)
        ensures
            match r {
                Ok(p) => platform_named(os@) == Some(p),
                Err(e) => platform_named(os@) is None && e@ == "Эта ОС не поддерживается"@,
            },
    {
        if str_eq(os, "windows") {
            Ok(Platform::Windows)
        } else if str_eq(os, "linux") {
            Ok(Platform::Linux)
        } else if str_eq(os, "macos") {
            Ok(Platform::MacOS)
        } else {
            Err(String::from_str("Эта ОС не поддерживается"))
        }
    }

    /// The Maven classifier of the LWJGL natives for `platform`.
    pub fn native_classifier(platform: Platform) -> (c: &'static str)
        ensures
            c@ == classifier_of(platform),
    {
        match platform {
            Platform::Windows => "natives-windows",
            Platform::Linux => "natives-linux",
            Platform::MacOS => "natives-macos",
        }
    }

    /// The Java executable to run.
    pub fn find_java(windows: bool) -> (java: String)
        ensures
            java@ == (if windows {
                "java.exe"@
            } else {
                "java"@
            }),
    {
        if windows {
            String::from_str("java.exe")
        } else {
            String::from_str("java")
        }
    }
}

} // verus!
