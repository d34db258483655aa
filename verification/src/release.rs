//! The launcher's releases on GitHub: whether one is an update, and which
//! of its assets the game directory takes.

use vstd::prelude::*;
use crate::launcher::{in_minecraft_dir, Launcher, RelPath};
use crate::text::{str_eq, string_views};

verus! {

/// An asset of a release, as the GitHub API describes it: its `name` and
/// its `browser_download_url`, each present only where the API gave a
/// string.
pub struct ReleaseAsset {
    pub name: Option<String>,
    pub download_url: Option<String>,
}

/// The latest release, as the GitHub API describes it: its `tag_name`,
/// present only where the API gave a string, and its `assets`, present only
/// where the API gave an array.
pub struct Release {
    pub tag_name: Option<String>,
    pub assets: Option<Vec<ReleaseAsset>>,
}

/// The text of an optional string, empty when absent.
pub open spec fn text_or_empty(s: Option<String>) -> Seq<char> {
    match s {
        Some(t) => t@,
        None => Seq::<char>::empty(),
    }
}

/// The URL of the GitHub API for the latest release of the launcher.
pub open spec fn release_api_url_text() -> Seq<char> {
    "https://api.github.com/repos/"@ + "cactus-spike1"@ + "/"@ + "LauncherMC"@
        + "/releases/latest"@
}

/// The message when a release lists no assets.
pub open spec fn no_assets_message() -> Seq<char> {
    "No assets in release"@
}

/// The download URL of the first asset that has one.
pub open spec fn first_download_url(assets: Seq<ReleaseAsset>) -> Option<Seq<char>>
    decreases assets.len(),
{
    if assets.len() == 0 {
        None
    } else {
        match assets[0].download_url {
            Some(url) => Some(url@),
            None => first_download_url(assets.drop_first()),
        }
    }
}

/// The verdict of the update check on a release: no update when its tag is
/// the running version (an absent tag counts as empty); otherwise the first
/// asset's download URL, if any asset has one; an error when the release
/// lists no assets.
pub open spec fn update_verdict(release: Release, version: Seq<char>) -> Result<
    Option<Seq<char>>,
    Seq<char>,
> {
    if text_or_empty(release.tag_name) == version {
        Ok(None)
    } else {
        match release.assets {
            None => Err(no_assets_message()),
            Some(assets) => Ok(first_download_url(assets@)),
        }
    }
}

/// What the game directory takes from a release.
#[derive(Debug, Clone, Copy, PartialEq, Eq, Structural)]
pub enum ArtifactKind {
    /// The game's JAR, stored as `minecraft/minecraft.jar`.
    GameJar,
    /// The `local-libs.zip` archive, unpacked into `minecraft/local-libs`.
    LocalLibs,
}

/// A download of a release asset.
pub struct ArtifactStep {
    pub kind: ArtifactKind,
    pub url: String,
}

/// The views of a list of steps.
pub open spec fn step_views(steps: Seq<ArtifactStep>) -> Seq<(ArtifactKind, Seq<char>)> {
    steps.map_values(|s: ArtifactStep| (s.kind, s.url@))
}

/// An asset that is the game's JAR.
pub open spec fn is_game_jar(asset: ReleaseAsset) -> bool {
    text_or_empty(asset.name) == "minecraft.jar"@
}

/// An asset that is the local libraries archive.
pub open spec fn is_local_libs(asset: ReleaseAsset) -> bool {
    text_or_empty(asset.name) == "local-libs.zip"@
}

/// The game's JAR is present, or among `assets`.
pub open spec fn jar_found(assets: Seq<ReleaseAsset>, jar_exists: bool) -> bool {
    jar_exists || exists|i: int| 0 <= i < assets.len() && is_game_jar(#[trigger] assets[i])
}

/// The downloads that the assets call for, in the order of the assets: the
/// first game JAR asset when the JAR is absent, and every local libraries
/// archive.
pub open spec fn artifact_steps(assets: Seq<ReleaseAsset>, jar_exists: bool) -> Seq<
    (ArtifactKind, Seq<char>),
>
    decreases assets.len(),
{
    if assets.len() == 0 {
        Seq::empty()
    } else {
        let init = assets.drop_last();
        let asset = assets.last();
        let before = artifact_steps(init, jar_exists);
        let with_jar = if is_game_jar(asset) && !jar_found(init, jar_exists) {
            before.push((ArtifactKind::GameJar, text_or_empty(asset.download_url)))
        } else {
            before
        };
        if is_local_libs(asset) {
            with_jar.push((ArtifactKind::LocalLibs, text_or_empty(asset.download_url)))
        } else {
            with_jar
        }
    }
}

/// The plan for a release: its downloads, or an error when it lists no
/// assets.
pub open spec fn artifact_plan_of(release: Release, jar_exists: bool) -> Result<
    Seq<(ArtifactKind, Seq<char>)>,
    Seq<char>,
> {
    match release.assets {
        None => Err(no_assets_message()),
        Some(assets) => Ok(artifact_steps(assets@, jar_exists)),
    }
}

/// The text of an optional string, empty when absent.
fn text_or_empty_str(s: &Option<String>) -> (t: &str)
    ensures
        t@ == text_or_empty(*s),
{
    match s {
        Some(t) => t.as_str(),
        None => {
            proof {
                reveal_strlit("");
            }
            ""
        },
    }
}

impl Launcher {
    /// The URL of the GitHub API for the latest release of the launcher.
    pub fn release_api_url() -> (url: String)
        ensures
            url@ == release_api_url_text(),
    {
        let mut url = String::from_str("https://api.github.com/repos/");
        url.append("cactus-spike1");
        url.append("/");
        url.append("LauncherMC");
        url.append("/releases/latest");
        url
    }

    /// Whether `release` is an update of the running `version`, and where
    /// to download it from.
    pub fn update_from_release(release: &Release, version: &str) -> (r: Result<
        Option<String>,
        String,
    >)
        ensures
            match (r, update_verdict(*release, version@)) {
                (Ok(Some(u)), Ok(Some(v))) => u@ == v,
                (Ok(None), Ok(None)) => true,
                (Err(e), Err(m)) => e@ == m,
                _ => false,
            },
    {
        if str_eq(text_or_empty_str(&release.tag_name), version) {
            return Ok(None);
        }
        let assets = match &release.assets {
            None => {
                return Err(String::from_str("No assets in release"));
            },
            Some(assets) => assets,
        };
        let n = assets.len();
        let mut i: usize = 0;
        assert(assets@.subrange(0, n as int) =~= assets@);
        while i < n
            invariant
                n == assets@.len(),
                i <= n,
                release.assets == Some(*assets),
                text_or_empty(release.tag_name) != version@,
                first_download_url(assets@) == first_download_url(assets@.subrange(i as int, n as int)),
            decreases n - i,
        {
            let ghost rest = assets@.subrange(i as int, n as int);
            assert(rest[0] == assets@[i as int]);
            match &assets[i].download_url {
                Some(url) => {
                    return Ok(Some(url.clone()));
                },
                None => {},
            }
            assert(rest.drop_first() =~= assets@.subrange(i + 1, n as int));
            i = i + 1;
        }
        Ok(None)
    }

    /// The downloads that a release calls for into the game directory: the
    /// first `minecraft.jar` asset when the game's JAR is absent, and every
    /// `local-libs.zip` asset, in the order of the assets (an absent name or
    /// URL counts as empty); an error when the release lists no assets.
    pub fn artifact_plan(release: &Release, jar_exists: bool) -> (r: Result<
        Vec<ArtifactStep>,
        String,
    >)
        ensures
            match (r, artifact_plan_of(*release, jar_exists)) {
                (Ok(steps), Ok(expected)) => step_views(steps@) == expected,
                (Err(e), Err(m)) => e@ == m,
                _ => false,
            },
    {
        let assets = match &release.assets {
            None => {
                return Err(String::from_str("No assets in release"));
            },
            Some(assets) => assets,
        };
        let n = assets.len();
        let mut steps: Vec<ArtifactStep> = Vec::new();
        let mut found = jar_exists;
        let mut i: usize = 0;
        while i < n
            invariant
                n == assets@.len(),
                i <= n,
                release.assets == Some(*assets),
                found == jar_found(assets@.take(i as int), jar_exists),
                step_views(steps@) == artifact_steps(assets@.take(i as int), jar_exists),
            decreases n - i,
        {
            let asset = &assets[i];
            let name = text_or_empty_str(&asset.name);
            let url = text_or_empty_str(&asset.download_url);
            let ghost prefix = assets@.take(i + 1);
            assert(prefix.drop_last() =~= assets@.take(i as int));
            assert(prefix.last() == *asset);
            let ghost before = steps@;
            let is_jar = str_eq(name, "minecraft.jar");
            if is_jar && !found {
                steps.push(ArtifactStep { kind: ArtifactKind::GameJar, url: String::from_str(url) });
                found = true;
            }
            if str_eq(name, "local-libs.zip") {
                steps.push(ArtifactStep { kind: ArtifactKind::LocalLibs, url: String::from_str(url) });
            }
            proof {
                assert(step_views(steps@) =~= artifact_steps(prefix, jar_exists)) by {
                    assert(step_views(before) == artifact_steps(assets@.take(i as int), jar_exists));
                }
                if is_jar {
                    assert(is_game_jar(prefix[i as int]));
                    assert(jar_found(prefix, jar_exists));
                } else {
                    assert forall|j: int| 0 <= j < prefix.len() && is_game_jar(#[trigger] prefix[j])
                        implies jar_found(assets@.take(i as int), jar_exists) by {
                        assert(j < i);
                        assert(assets@.take(i as int)[j] == prefix[j]);
                    }
                }
                if jar_found(assets@.take(i as int), jar_exists) && !jar_exists {
                    let j = choose|j: int| 0 <= j < i && is_game_jar(#[trigger] assets@.take(i as int)[j]);
                    assert(prefix[j] == assets@.take(i as int)[j]);
                }
            }
            i = i + 1;
        }
        assert(assets@.take(n as int) =~= assets@);
        Ok(steps)
    }

    /// Where the `local-libs.zip` asset is stored while it is unpacked.
    pub fn local_libs_archive() -> (p: RelPath)
        ensures
            p@ == in_minecraft_dir("local-libs.zip"@),
    {
        let parts = vec![String::from_str("minecraft"), String::from_str("local-libs.zip")];
        assert(string_views(parts@) =~= in_minecraft_dir("local-libs.zip"@));
        RelPath { parts }
    }

    /// The file name of the updater, next to the launcher's executable.
    pub fn updater_file_name(windows: bool) -> (name: &'static str)
        ensures
            name@ == (if windows {
                "LauncherMCupdater.exe"@
            } else {
                "LauncherMCupdater"@
            }),
    {
        if windows {
            "LauncherMCupdater.exe"
        } else {
            "LauncherMCupdater"
        }
    }

    /// The arguments of the updater: the URL of the new launcher and the
    /// executable to replace.
    pub fn updater_arguments(url: &str, target: &str) -> (args: Vec<String>)
        ensures
            string_views(args@) == seq!["--url"@, url@, "--target"@, target@],
    {
        let args = vec![
            String::from_str("--url"),
            String::from_str(url),
            String::from_str("--target"),
            String::from_str(target),
        ];
        assert(string_views(args@) =~= seq!["--url"@, url@, "--target"@, target@]);
        args
    }
}

/// A release whose tag is the running version (an absent tag standing for
/// an empty version) is never an update, whatever its assets.
pub proof fn lemma_same_tag_is_no_update(release: Release, version: Seq<char>)
    requires
        match release.tag_name {
            Some(tag) => tag@ == version,
            None => version.len() == 0,
        },
    ensures
        update_verdict(release, version) == Ok::<Option<Seq<char>>, Seq<char>>(None),
{
    if release.tag_name is None {
        assert(version =~= Seq::<char>::empty());
    }
}

/// A release whose tag differs from the running version in any way (an
/// absent tag standing for an empty version) is an update: its download URL
/// is that of the first asset that has one, and there is none only when no
/// asset has a URL. Without assets the check fails.
pub proof fn lemma_other_tag_is_update(release: Release, version: Seq<char>)
    requires
        match release.tag_name {
            Some(tag) => tag@ != version,
            None => version.len() > 0,
        },
    ensures
        release.assets is None ==> update_verdict(release, version) == Err::<
            Option<Seq<char>>,
            Seq<char>,
        >(no_assets_message()),
        release.assets matches Some(a) ==> {
            &&& (update_verdict(release, version) == Ok::<Option<Seq<char>>, Seq<char>>(None)
                <==> forall|i: int| 0 <= i < a@.len() ==> (#[trigger] a@[i]).download_url is None)
            &&& forall|i: int|
                0 <= i < a@.len() && (#[trigger] a@[i]).download_url is Some && (forall|j: int|
                    0 <= j < i ==> a@[j].download_url is None) ==> update_verdict(release, version)
                    == Ok::<Option<Seq<char>>, Seq<char>>(Some(a@[i].download_url->0@))
        },
{
    if let Some(a) = release.assets {
        lemma_first_download_url(a@);
    }
}

/// The first download URL is that of the first asset with one, and there
/// is none exactly when no asset has one.
pub proof fn lemma_first_download_url(assets: Seq<ReleaseAsset>)
    ensures
        first_download_url(assets) is None <==> forall|i: int|
            0 <= i < assets.len() ==> (#[trigger] assets[i]).download_url is None,
        forall|i: int|
            0 <= i < assets.len() && (#[trigger] assets[i]).download_url is Some && (forall|j: int|
                0 <= j < i ==> assets[j].download_url is None) ==> first_download_url(assets)
                == Some(assets[i].download_url->0@),
    decreases assets.len(),
{
    if assets.len() > 0 {
        let rest = assets.drop_first();
        lemma_first_download_url(rest);
        assert forall|i: int| 0 < i < assets.len() implies assets[i] == rest[i - 1] by {}
        if assets[0].download_url is None {
            assert forall|i: int|
                0 <= i < assets.len() && (#[trigger] assets[i]).download_url is Some && (forall|
                    j: int,
                | 0 <= j < i ==> assets[j].download_url is None) implies first_download_url(assets)
                == Some(assets[i].download_url->0@) by {
                assert(i > 0);
                assert(rest[i - 1] == assets[i]);
                assert forall|j: int| 0 <= j < i - 1 implies rest[j].download_url is None by {
                    assert(rest[j] == assets[j + 1]);
                }
            }
            if first_download_url(assets) is None {
                assert forall|i: int| 0 <= i < assets.len() implies (
                #[trigger] assets[i]).download_url is None by {
                    if i > 0 {
                        assert(rest[i - 1] == assets[i]);
                    }
                }
            } else {
                let k = choose|k: int| 0 <= k < rest.len() && (#[trigger] rest[k]).download_url is Some;
                assert(assets[k + 1] == rest[k]);
            }
        }
    }
}

/// The steps for some assets begin with the steps for all but the last one.
proof fn lemma_artifact_steps_extend(assets: Seq<ReleaseAsset>, jar_exists: bool)
    requires
        assets.len() > 0,
    ensures
        ({
            let before = artifact_steps(assets.drop_last(), jar_exists);
            let after = artifact_steps(assets, jar_exists);
            let last = assets.last();
            &&& before.len() <= after.len() <= before.len() + 1
            &&& forall|i: int| 0 <= i < before.len() ==> after[i] == before[i]
            &&& after.len() == before.len() + 1 ==> after.last().1 == text_or_empty(
                last.download_url,
            )
            &&& after.len() == before.len() + 1 && after.last().0 == ArtifactKind::GameJar ==> (
            is_game_jar(last) && !jar_found(assets.drop_last(), jar_exists))
            &&& after.len() == before.len() + 1 && after.last().0 == ArtifactKind::LocalLibs
                ==> is_local_libs(last)
            &&& is_game_jar(last) && !jar_found(assets.drop_last(), jar_exists) ==> after.len()
                == before.len() + 1 && after.last().0 == ArtifactKind::GameJar
            &&& is_local_libs(last) ==> after.len() == before.len() + 1 && after.last().0
                == ArtifactKind::LocalLibs
        }),
{
    reveal_strlit("minecraft.jar");
    reveal_strlit("local-libs.zip");
    let last = assets.last();
    if is_game_jar(last) {
        assert(!is_local_libs(last)) by {
            assert("minecraft.jar"@[0] != "local-libs.zip"@[0]);
        }
    }
}

/// The game's JAR is fetched exactly when it is absent and some asset is
/// named `minecraft.jar`, and then from the URL of the first such asset (an
/// absent URL counting as empty).
pub proof fn lemma_game_jar_step(assets: Seq<ReleaseAsset>, jar_exists: bool)
    ensures
        (exists|i: int|
            0 <= i < artifact_steps(assets, jar_exists).len() && (#[trigger] artifact_steps(
                assets,
                jar_exists,
            )[i]).0 == ArtifactKind::GameJar) <==> (!jar_exists && exists|k: int|
            0 <= k < assets.len() && text_or_empty((#[trigger] assets[k]).name)
                == "minecraft.jar"@),
        forall|i: int, k: int|
            0 <= i < artifact_steps(assets, jar_exists).len() && (#[trigger] artifact_steps(
                assets,
                jar_exists,
            )[i]).0 == ArtifactKind::GameJar && 0 <= k < assets.len() && text_or_empty(
                (#[trigger] assets[k]).name,
            ) == "minecraft.jar"@ && (forall|j: int|
                0 <= j < k ==> text_or_empty(assets[j].name) != "minecraft.jar"@)
                ==> artifact_steps(assets, jar_exists)[i].1 == text_or_empty(
                assets[k].download_url,
            ),
    decreases assets.len(),
{
    if assets.len() > 0 {
        let init = assets.drop_last();
        let n = assets.len();
        lemma_game_jar_step(init, jar_exists);
        lemma_artifact_steps_extend(assets, jar_exists);
        let before = artifact_steps(init, jar_exists);
        let after = artifact_steps(assets, jar_exists);
        assert forall|k: int| 0 <= k < n - 1 implies assets[k] == init[k] by {}
        // The existence of a game JAR step.
        if exists|i: int| 0 <= i < after.len() && (#[trigger] after[i]).0 == ArtifactKind::GameJar {
            let i = choose|i: int| 0 <= i < after.len() && (#[trigger] after[i]).0 == ArtifactKind::GameJar;
            if i < before.len() {
                assert(before[i].0 == ArtifactKind::GameJar);
                let k = choose|k: int| 0 <= k < init.len() && text_or_empty((#[trigger] init[k]).name)
                    == "minecraft.jar"@;
                assert(assets[k] == init[k]);
            } else {
                assert(is_game_jar(assets.last()));
                assert(assets[n - 1] == assets.last());
            }
        }
        if !jar_exists && exists|k: int|
            0 <= k < n && text_or_empty((#[trigger] assets[k]).name) == "minecraft.jar"@ {
            let k = choose|k: int| 0 <= k < n && text_or_empty((#[trigger] assets[k]).name) == "minecraft.jar"@;
            if exists|k2: int| 0 <= k2 < init.len() && text_or_empty((#[trigger] init[k2]).name)
                == "minecraft.jar"@ {
                let i = choose|i: int| 0 <= i < before.len() && (#[trigger] before[i]).0
                    == ArtifactKind::GameJar;
                assert(after[i].0 == ArtifactKind::GameJar);
            } else {
                assert(k == n - 1) by {
                    if k < n - 1 {
                        assert(init[k] == assets[k]);
                    }
                }
                assert(!jar_found(init, jar_exists)) by {
                    if jar_found(init, jar_exists) {
                        let k3 = choose|k3: int| 0 <= k3 < init.len() && is_game_jar(#[trigger] init[k3]);
                    }
                }
                assert(assets.last() == assets[n - 1]);
                assert(after[after.len() - 1].0 == ArtifactKind::GameJar);
            }
        }
        // The URL of the game JAR step.
        assert forall|i: int, k: int|
            0 <= i < after.len() && (#[trigger] after[i]).0 == ArtifactKind::GameJar && 0 <= k < n
                && text_or_empty((#[trigger] assets[k]).name) == "minecraft.jar"@ && (forall|j: int|
                0 <= j < k ==> text_or_empty(assets[j].name) != "minecraft.jar"@) implies after[i].1
            == text_or_empty(assets[k].download_url) by {
            if i < before.len() {
                assert(before[i].0 == ArtifactKind::GameJar);
                let k2 = choose|k2: int| 0 <= k2 < init.len() && text_or_empty((#[trigger] init[k2]).name)
                    == "minecraft.jar"@;
                assert(init[k2] == assets[k2]);
                assert(k <= k2);
                assert(init[k] == assets[k]);
                assert forall|j: int| 0 <= j < k implies text_or_empty(init[j].name)
                    != "minecraft.jar"@ by {
                    assert(init[j] == assets[j]);
                }
            } else {
                assert(i == after.len() - 1);
                assert(!jar_found(init, jar_exists));
                assert(k == n - 1) by {
                    if k < n - 1 {
                        assert(init[k] == assets[k]);
                        assert(is_game_jar(init[k]));
                    }
                }
                assert(assets[n - 1] == assets.last());
            }
        }
    }
}

/// Every `local-libs.zip` asset is installed from its URL, and every
/// installation comes from such an asset.
pub proof fn lemma_local_libs_steps(assets: Seq<ReleaseAsset>, jar_exists: bool)
    ensures
        forall|k: int|
            0 <= k < assets.len() && text_or_empty((#[trigger] assets[k]).name)
                == "local-libs.zip"@ ==> exists|i: int|
                0 <= i < artifact_steps(assets, jar_exists).len() && #[trigger] artifact_steps(
                    assets,
                    jar_exists,
                )[i] == (ArtifactKind::LocalLibs, text_or_empty(assets[k].download_url)),
        forall|i: int|
            0 <= i < artifact_steps(assets, jar_exists).len() && (#[trigger] artifact_steps(
                assets,
                jar_exists,
            )[i]).0 == ArtifactKind::LocalLibs ==> exists|k: int|
                0 <= k < assets.len() && text_or_empty((#[trigger] assets[k]).name)
                    == "local-libs.zip"@ && artifact_steps(assets, jar_exists)[i].1
                    == text_or_empty(assets[k].download_url),
    decreases assets.len(),
{
    if assets.len() > 0 {
        let init = assets.drop_last();
        let n = assets.len();
        lemma_local_libs_steps(init, jar_exists);
        lemma_artifact_steps_extend(assets, jar_exists);
        let before = artifact_steps(init, jar_exists);
        let after = artifact_steps(assets, jar_exists);
        assert forall|k: int| 0 <= k < n - 1 implies assets[k] == init[k] by {}
        assert(assets[n - 1] == assets.last());
        assert forall|k: int|
            0 <= k < n && text_or_empty((#[trigger] assets[k]).name) == "local-libs.zip"@ implies exists|
            i: int,
        |
            0 <= i < after.len() && #[trigger] after[i] == (
                ArtifactKind::LocalLibs,
                text_or_empty(assets[k].download_url),
            ) by {
            if k < n - 1 {
                assert(init[k] == assets[k]);
                let i = choose|i: int|
                    0 <= i < before.len() && #[trigger] before[i] == (
                        ArtifactKind::LocalLibs,
                        text_or_empty(init[k].download_url),
                    );
                assert(after[i] == before[i]);
            } else {
                assert(after[after.len() - 1] == after.last());
            }
        }
        assert forall|i: int|
            0 <= i < after.len() && (#[trigger] after[i]).0 == ArtifactKind::LocalLibs implies exists|
            k: int,
        |
            0 <= k < n && text_or_empty((#[trigger] assets[k]).name) == "local-libs.zip"@
                && after[i].1 == text_or_empty(assets[k].download_url) by {
            if i < before.len() {
                assert(before[i] == after[i]);
                let k = choose|k: int|
                    0 <= k < init.len() && text_or_empty((#[trigger] init[k]).name)
                        == "local-libs.zip"@ && before[i].1 == text_or_empty(init[k].download_url);
                assert(init[k] == assets[k]);
            } else {
                assert(after[i] == after.last());
            }
        }
    }
}

/// The plan downloads the game's JAR at most once, and not at all when it
/// is present.
pub proof fn lemma_game_jar_fetched_at_most_once(assets: Seq<ReleaseAsset>, jar_exists: bool)
    ensures
        jar_exists ==> forall|i: int|
            0 <= i < artifact_steps(assets, jar_exists).len() ==> (#[trigger] artifact_steps(
                assets,
                jar_exists,
            )[i]).0 != ArtifactKind::GameJar,
        forall|i: int, j: int|
            0 <= i < j < artifact_steps(assets, jar_exists).len() && (#[trigger] artifact_steps(
                assets,
                jar_exists,
            )[i]).0 == ArtifactKind::GameJar ==> (#[trigger] artifact_steps(
                assets,
                jar_exists,
            )[j]).0 != ArtifactKind::GameJar,
        !jar_found(assets, jar_exists) ==> forall|i: int|
            0 <= i < artifact_steps(assets, jar_exists).len() ==> (#[trigger] artifact_steps(
                assets,
                jar_exists,
            )[i]).0 != ArtifactKind::GameJar,
    decreases assets.len(),
{
    if assets.len() > 0 {
        let init = assets.drop_last();
        lemma_game_jar_fetched_at_most_once(init, jar_exists);
        if jar_found(init, jar_exists) && !jar_exists {
            let k = choose|k: int| 0 <= k < init.len() && is_game_jar(#[trigger] init[k]);
            assert(assets[k] == init[k]);
        }
        if !jar_found(assets, jar_exists) {
            assert(!jar_found(init, jar_exists)) by {
                if jar_found(init, jar_exists) && !jar_exists {
                    let k = choose|k: int| 0 <= k < init.len() && is_game_jar(#[trigger] init[k]);
                    assert(assets[k] == init[k]);
                }
            }
            assert(!is_game_jar(assets[assets.len() - 1]));
        }
    }
}

} // verus!
