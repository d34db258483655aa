//! The decisions of the launcher window: the player name check, the steps
//! of a game start and of the update check on start-up, and the status line
//! that each step leaves.
//!
//! The program performs the outside work (preparing the game directory,
//! starting processes, asking GitHub) and hands each outcome to these
//! functions, which say what comes next.

use vstd::prelude::*;
use crate::launcher::Launcher;
use crate::text::{
    is_white_space, lemma_utf8_len_is_encoding_len, trim, trim_str, utf8_len, utf8_len_up_to,
};

verus! {

/// The longest player name, in bytes of UTF-8.
pub const MAX_USERNAME_BYTES: usize = 16;

/// A character allowed in a player name: ASCII letters and digits, and `_`.
pub open spec fn is_name_char(c: char) -> bool {
    ('a' <= c && c <= 'z') || ('A' <= c && c <= 'Z') || ('0' <= c && c <= '9') || c == '_'
}

/// The status when no name was given.
pub open spec fn empty_name_message() -> Seq<char> {
    "Введите ник"@
}

/// The status when the name is too long.
pub open spec fn long_name_message() -> Seq<char> {
    "Ник не должен быть длиннее 16 символов"@
}

/// The status when the name holds a character that is not allowed.
pub open spec fn bad_char_message() -> Seq<char> {
    "Ник может содержать только A-Z, 0-9 и _"@
}

/// The verdict on a typed player name: the name without surrounding white
/// space, or the status that refuses it. An empty name is refused first,
/// then one of more than 16 bytes of UTF-8, then one with a character other
/// than an ASCII letter, digit or `_`.
pub open spec fn username_verdict(raw: Seq<char>) -> Result<Seq<char>, Seq<char>> {
    let name = trim(raw);
    if name.len() == 0 {
        Err(empty_name_message())
    } else if vstd::utf8::encode_utf8(name).len() > 16 {
        Err(long_name_message())
    } else if exists|i: int| 0 <= i < name.len() && !is_name_char(#[trigger] name[i]) {
        Err(bad_char_message())
    } else {
        Ok(name)
    }
}

/// The status while the game is being prepared.
pub open spec fn preparing_message() -> Seq<char> {
    "Подготовка Minecraft..."@
}

/// The status after the game was started.
pub open spec fn started_message() -> Seq<char> {
    "Minecraft запущен"@
}

/// The status when the game could not be started.
pub open spec fn start_failed_message(error: Seq<char>) -> Seq<char> {
    "Не удалось запустить Minecraft:\n"@ + error
}

/// The status while the update check runs.
pub open spec fn checking_message() -> Seq<char> {
    "Проверка обновлений..."@
}

/// The status when an update was found.
pub open spec fn update_available_message() -> Seq<char> {
    "Доступно обновление"@
}

/// The status when the launcher is up to date.
pub open spec fn up_to_date_message(version: Seq<char>) -> Seq<char> {
    "Launcher v"@ + version + " — обновлений нет"@
}

/// The status when the update check failed.
pub open spec fn check_failed_message(error: Seq<char>) -> Seq<char> {
    "Не удалось проверить обновления: "@ + error
}

/// The status when the updater could not be started.
pub open spec fn update_failed_message(error: Seq<char>) -> Seq<char> {
    "Ошибка обновления: "@ + error
}

/// The message when the game's JAR is still missing after the release
/// download was tried.
pub open spec fn game_jar_missing_message(jar: Seq<char>) -> Seq<char> {
    "Не найден:\n"@ + jar
}

/// The message when Java could not be run.
pub open spec fn java_missing_message(error: Seq<char>) -> Seq<char> {
    "Java не найдена.\nУстанови Java и добавь её в PATH.\n\nОшибка: "@ + error
}

/// The message when Java ran and failed.
pub open spec fn java_broken_message() -> Seq<char> {
    "Java установлена, но не запускается."@
}

/// The class that starts the game.
pub open spec fn main_class() -> Seq<char> {
    "net.minecraft.client.main.Main"@
}

/// The command line arguments of the Java process that runs the game.
pub open spec fn launch_arguments_of(
    natives_dir: Seq<char>,
    classpath: Seq<char>,
    username: Seq<char>,
    game_dir: Seq<char>,
    assets_dir: Seq<char>,
) -> Seq<Seq<char>> {
    seq![
        "-Xms512M"@,
        "-Xmx2G"@,
        "-Dorg.lwjgl.librarypath="@ + natives_dir,
        "-cp"@,
        classpath,
        main_class(),
        "--username"@,
        username,
        "--version"@,
        "1.16.5"@,
        "--gameDir"@,
        game_dir,
        "--assetsDir"@,
        assets_dir,
        "--assetIndex"@,
        "1.16"@,
        "--uuid"@,
        "00000000-0000-0000-0000-000000000000"@,
        "--accessToken"@,
        "0"@,
    ]
}

/// The stages of preparing the game, in the order they run.
#[derive(Debug, Clone, Copy, PartialEq, Eq, Structural)]
pub enum PrepareStage {
    /// Create the game directory and its subdirectories.
    CreateDirectories,
    /// Build the HTTP client.
    BuildClient,
    /// Fetch the game's JAR and the local libraries from the latest release.
    FetchReleaseArtifacts,
    /// Check that the game's JAR is present.
    RequireGameJar,
    /// Check that Java runs.
    CheckJava,
    /// Download the libraries.
    DownloadLibraries,
    /// Download the JARs of natives.
    DownloadNatives,
    /// Unpack the natives.
    ExtractNatives,
    /// Build the classpath, whose outcome is the outcome of preparing.
    BuildClasspath,
}

/// What preparing does after a stage.
pub enum PrepareNext {
    /// Run this stage.
    Run(PrepareStage),
    /// Preparing failed with this message.
    Fail(String),
}

/// The stage that follows `stage`, if any.
pub open spec fn stage_after(stage: PrepareStage) -> Option<PrepareStage> {
    match stage {
        PrepareStage::CreateDirectories => Some(PrepareStage::BuildClient),
        PrepareStage::BuildClient => Some(PrepareStage::FetchReleaseArtifacts),
        PrepareStage::FetchReleaseArtifacts => Some(PrepareStage::RequireGameJar),
        PrepareStage::RequireGameJar => Some(PrepareStage::CheckJava),
        PrepareStage::CheckJava => Some(PrepareStage::DownloadLibraries),
        PrepareStage::DownloadLibraries => Some(PrepareStage::DownloadNatives),
        PrepareStage::DownloadNatives => Some(PrepareStage::ExtractNatives),
        PrepareStage::ExtractNatives => Some(PrepareStage::BuildClasspath),
        PrepareStage::BuildClasspath => None,
    }
}

/// The message when the updater is not next to the launcher.
pub open spec fn updater_missing_message(path: Seq<char>) -> Seq<char> {
    "Updater not found: "@ + path
}

/// A string with the text of `prefix` followed by `rest`.
fn concat(prefix: &str, rest: &str) -> (s: String)
    ensures
        s@ == prefix@ + rest@,
{
    let mut s = String::from_str(prefix);
    s.append(rest);
    s
}

impl Launcher {
    /// The player name without surrounding white space, or the status that
    /// refuses it.
    pub fn check_username(raw: &str) -> (r: Result<&str, String>)
        ensures
            match r {
                Ok(name) => username_verdict(raw@) == Ok::<Seq<char>, Seq<char>>(name@),
                Err(msg) => username_verdict(raw@) == Err::<Seq<char>, Seq<char>>(msg@),
            },
    {
        let name = trim_str(raw);
        proof {
            lemma_utf8_len_is_encoding_len(name@);
        }
        if name.unicode_len() == 0 {
            return Err(String::from_str("Введите ник"));
        }
        match utf8_len_up_to(name, MAX_USERNAME_BYTES) {
            None => {
                return Err(String::from_str("Ник не должен быть длиннее 16 символов"));
            },
            Some(_) => {},
        }
        assert(vstd::utf8::encode_utf8(name@).len() <= 16);
        let n = name.unicode_len();
        let mut i: usize = 0;
        while i < n
            invariant
                n == name@.len(),
                i <= n,
                name@ == trim(raw@),
                name@.len() > 0,
                vstd::utf8::encode_utf8(name@).len() <= 16,
                forall|j: int| 0 <= j < i ==> is_name_char(#[trigger] name@[j]),
            decreases n - i,
        {
            let c = name.get_char(i);
            let ok = ('a' <= c && c <= 'z') || ('A' <= c && c <= 'Z') || ('0' <= c && c <= '9')
                || c == '_';
            if !ok {
                assert(!is_name_char(name@[i as int]));
                assert(exists|j: int| 0 <= j < name@.len() && !is_name_char(#[trigger] name@[j]));
                return Err(String::from_str("Ник может содержать только A-Z, 0-9 и _"));
            }
            i = i + 1;
        }
        Ok(name)
    }

    /// The first step of a game start: the typed name is checked. A refused
    /// name ends the start with the refusal as status; an accepted one is
    /// returned, and the status says that the game is being prepared.
    pub fn begin_launch(&mut self) -> (accepted: Option<String>)
        ensures
            final(self).username == old(self).username,
            match username_verdict(old(self).username@) {
                Ok(name) => accepted matches Some(n) && n@ == name && final(self).status@
                    == preparing_message(),
                Err(msg) => accepted is None && final(self).status@ == msg,
            },
    {
        match Self::check_username(self.username.as_str()) {
            Ok(name) => {
                let name = String::from_str(name);
                self.status = String::from_str("Подготовка Minecraft...");
                Some(name)
            },
            Err(msg) => {
                self.status = msg;
                None
            },
        }
    }

    /// The arguments of the Java process that runs the game.
    pub fn launch_arguments(
        natives_dir: &str,
        classpath: &str,
        username: &str,
        game_dir: &str,
        assets_dir: &str,
    ) -> (args: Vec<String>)
        ensures
            crate::text::string_views(args@) == launch_arguments_of(
                natives_dir@,
                classpath@,
                username@,
                game_dir@,
                assets_dir@,
            ),
    {
        let args = vec![
            String::from_str("-Xms512M"),
            String::from_str("-Xmx2G"),
            concat("-Dorg.lwjgl.librarypath=", natives_dir),
            String::from_str("-cp"),
            String::from_str(classpath),
            String::from_str("net.minecraft.client.main.Main"),
            String::from_str("--username"),
            String::from_str(username),
            String::from_str("--version"),
            String::from_str("1.16.5"),
            String::from_str("--gameDir"),
            String::from_str(game_dir),
            String::from_str("--assetsDir"),
            String::from_str(assets_dir),
            String::from_str("--assetIndex"),
            String::from_str("1.16"),
            String::from_str("--uuid"),
            String::from_str("00000000-0000-0000-0000-000000000000"),
            String::from_str("--accessToken"),
            String::from_str("0"),
        ];
        assert(crate::text::string_views(args@) =~= launch_arguments_of(
            natives_dir@,
            classpath@,
            username@,
            game_dir@,
            assets_dir@,
        ));
        args
    }

    /// The second step of a game start: once the game is prepared, the
    /// arguments of the Java process; when preparing failed, its error
    /// becomes the status and the start ends.
    pub fn finish_prepare(
        &mut self,
        prepared: Result<String, String>,
        username: &str,
        natives_dir: &str,
        game_dir: &str,
        assets_dir: &str,
    ) -> (args: Option<Vec<String>>)
        ensures
            final(self).username == old(self).username,
            match prepared {
                Ok(classpath) => {
                    &&& final(self).status == old(self).status
                    &&& args matches Some(a) && crate::text::string_views(a@) == launch_arguments_of(
                        natives_dir@,
                        classpath@,
                        username@,
                        game_dir@,
                        assets_dir@,
                    )
                },
                Err(e) => args is None && final(self).status@ == e@,
            },
    {
        match prepared {
            Ok(classpath) => Some(
                Self::launch_arguments(
                    natives_dir,
                    classpath.as_str(),
                    username,
                    game_dir,
                    assets_dir,
                ),
            ),
            Err(e) => {
                self.status = e;
                None
            },
        }
    }

    /// The last step of a game start: the status says whether the Java
    /// process started.
    pub fn finish_launch(&mut self, spawned: Result<(), String>)
        ensures
            final(self).username == old(self).username,
            match spawned {
                Ok(()) => final(self).status@ == started_message(),
                Err(e) => final(self).status@ == start_failed_message(e@),
            },
    {
        match spawned {
            Ok(()) => {
                self.status = String::from_str("Minecraft запущен");
            },
            Err(e) => {
                self.status = concat("Не удалось запустить Minecraft:\n", e.as_str());
            },
        }
    }

    /// The stage that preparing starts with.
    pub fn first_prepare_stage() -> (stage: PrepareStage)
        ensures
            stage == PrepareStage::CreateDirectories,
    {
        PrepareStage::CreateDirectories
    }

    /// What preparing does after `stage` ended with `outcome`: the next
    /// stage after a success; after a failure, it fails with the stage's
    /// message, except that a failed release download is passed over (the
    /// check of the game's JAR that follows decides).
    pub fn after_prepare_stage(stage: PrepareStage, outcome: Result<(), String>) -> (next:
        PrepareNext)
        requires
            stage != PrepareStage::BuildClasspath,
        ensures
            match outcome {
                Ok(()) => next == PrepareNext::Run(stage_after(stage)->0),
                Err(e) => if stage == PrepareStage::FetchReleaseArtifacts {
                    next == PrepareNext::Run(PrepareStage::RequireGameJar)
                } else {
                    next == PrepareNext::Fail(e)
                },
            },
    {
        let following = match stage {
            PrepareStage::CreateDirectories => PrepareStage::BuildClient,
            PrepareStage::BuildClient => PrepareStage::FetchReleaseArtifacts,
            PrepareStage::FetchReleaseArtifacts => PrepareStage::RequireGameJar,
            PrepareStage::RequireGameJar => PrepareStage::CheckJava,
            PrepareStage::CheckJava => PrepareStage::DownloadLibraries,
            PrepareStage::DownloadLibraries => PrepareStage::DownloadNatives,
            PrepareStage::DownloadNatives => PrepareStage::ExtractNatives,
            PrepareStage::ExtractNatives => PrepareStage::BuildClasspath,
            PrepareStage::BuildClasspath => PrepareStage::BuildClasspath,
        };
        match outcome {
            Ok(()) => PrepareNext::Run(following),
            Err(e) => {
                if stage == PrepareStage::FetchReleaseArtifacts {
                    PrepareNext::Run(following)
                } else {
                    PrepareNext::Fail(e)
                }
            },
        }
    }

    /// The check that the updater is next to the launcher.
    pub fn require_updater(path: &str, exists: bool) -> (r: Result<(), String>)
        ensures
            match r {
                Ok(()) => exists,
                Err(e) => !exists && e@ == updater_missing_message(path@),
            },
    {
        if exists {
            Ok(())
        } else {
            Err(concat("Updater not found: ", path))
        }
    }

    /// The check that the game's JAR is present, once the release download
    /// was tried.
    pub fn require_game_jar(jar: &str, exists: bool) -> (r: Result<(), String>)
        ensures
            match r {
                Ok(()) => exists,
                Err(e) => !exists && e@ == game_jar_missing_message(jar@),
            },
    {
        if exists {
            Ok(())
        } else {
            Err(concat("Не найден:\n", jar))
        }
    }

    /// The verdict on running `java -version`: an error when it could not
    /// be run (`Err`) or ran and failed (`Ok(false)`).
    pub fn java_check_verdict(run: Result<bool, String>) -> (r: Result<(), String>)
        ensures
            match run {
                Ok(true) => r is Ok,
                Ok(false) => r matches Err(e) && e@ == java_broken_message(),
                Err(error) => r matches Err(e) && e@ == java_missing_message(error@),
            },
    {
        match run {
            Ok(true) => Ok(()),
            Ok(false) => Err(String::from_str("Java установлена, но не запускается.")),
            Err(error) => Err(
                concat(
                    "Java не найдена.\nУстанови Java и добавь её в PATH.\n\nОшибка: ",
                    error.as_str(),
                ),
            ),
        }
    }

    /// The first step of the update check on start-up.
    pub fn begin_update_check(&mut self)
        ensures
            final(self).username == old(self).username,
            final(self).status@ == checking_message(),
    {
        self.status = String::from_str("Проверка обновлений...");
    }

    /// The second step of the update check: with an update, the URL to hand
    /// to the updater; without one, or when the check failed, the status says
    /// so and the check ends.
    pub fn finish_update_check(&mut self, checked: Result<Option<String>, String>, version: &str) -> (updater_url: Option<String>)
        ensures
            final(self).username == old(self).username,
            match checked {
                Ok(Some(url)) => updater_url == Some(url) && final(self).status@
                    == update_available_message(),
                Ok(None) => updater_url is None && final(self).status@ == up_to_date_message(
                    version@,
                ),
                Err(e) => updater_url is None && final(self).status@ == check_failed_message(e@),
            },
    {
        match checked {
            Ok(Some(url)) => {
                self.status = String::from_str("Доступно обновление");
                Some(url)
            },
            Ok(None) => {
                let mut status = String::from_str("Launcher v");
                status.append(version);
                status.append(" — обновлений нет");
                self.status = status;
                None
            },
            Err(e) => {
                self.status = concat("Не удалось проверить обновления: ", e.as_str());
                None
            },
        }
    }

    /// The last step of the update check: whether the launcher exits now
    /// that the updater runs; when the updater could not be started, the
    /// status says why and the launcher stays.
    pub fn updater_started(&mut self, started: Result<(), String>) -> (exit: bool)
        ensures
            final(self).username == old(self).username,
            match started {
                Ok(()) => exit && final(self).status == old(self).status,
                Err(e) => !exit && final(self).status@ == update_failed_message(e@),
            },
    {
        match started {
            Ok(()) => true,
            Err(e) => {
                self.status = concat("Ошибка обновления: ", e.as_str());
                false
            },
        }
    }
}

/// A name that the check accepts is accepted unchanged when checked again:
/// it has no surrounding white space, holds only ASCII letters, digits and
/// `_`, and has between 1 and 16 characters.
pub proof fn lemma_accepted_name_is_stable(raw: Seq<char>)
    requires
        username_verdict(raw) is Ok,
    ensures
        ({
            let name = username_verdict(raw)->Ok_0;
            &&& username_verdict(name) == Ok::<Seq<char>, Seq<char>>(name)
            &&& 1 <= name.len() <= 16
            &&& forall|i: int| 0 <= i < name.len() ==> is_name_char(#[trigger] name[i])
        }),
{
    let name = trim(raw);
    assert(forall|i: int| 0 <= i < name.len() ==> is_name_char(#[trigger] name[i]));
    assert(!is_white_space(name[0]));
    assert(!is_white_space(name.last())) by {
        assert(name.last() == name[name.len() - 1]);
    }
    assert(trim(name) == name);
    lemma_utf8_len_is_encoding_len(name);
    lemma_ascii_utf8_len(name);
}

/// The ASCII code of a character allowed in a player name.
pub open spec fn is_name_code(code: u32) -> bool {
    (0x30 <= code && code <= 0x39) || (0x41 <= code && code <= 0x5a) || (0x61 <= code && code
        <= 0x7a) || code == 0x5f
}

/// The characters allowed in a player name are exactly the ASCII digits
/// (0x30-0x39), upper-case letters (0x41-0x5A), lower-case letters
/// (0x61-0x7A) and `_` (0x5F), the ends of each range included.
pub proof fn lemma_name_chars_by_code(c: char)
    ensures
        is_name_char(c) <==> ((0x30 <= (c as u32) && (c as u32) <= 0x39) || (0x41 <= (c as u32)
            && (c as u32) <= 0x5a) || (0x61 <= (c as u32) && (c as u32) <= 0x7a) || (c as u32)
            == 0x5f),
        is_name_char(c) <==> is_name_code(c as u32),
        is_name_char('a') && is_name_char('z') && is_name_char('A') && is_name_char('Z'),
        is_name_char('0') && is_name_char('9') && is_name_char('_'),
{
}

/// A name of 1 to 16 characters, each an ASCII letter, digit or `_`, is
/// accepted as it is.
pub proof fn lemma_plain_names_accepted(name: Seq<char>)
    requires
        1 <= name.len() <= 16,
        forall|i: int| 0 <= i < name.len() ==> is_name_code(#[trigger] name[i] as u32),
    ensures
        username_verdict(name) == Ok::<Seq<char>, Seq<char>>(name),
{
    assert forall|i: int| 0 <= i < name.len() implies is_name_char(#[trigger] name[i]) by {
        lemma_name_chars_by_code(name[i]);
        assert(is_name_code(name[i] as u32));
    }
    assert(!is_white_space(name[0]));
    assert(!is_white_space(name.last())) by {
        assert(name.last() == name[name.len() - 1]);
    }
    assert(trim(name) == name);
    lemma_utf8_len_is_encoding_len(name);
    lemma_ascii_utf8_len(name);
}

/// A name that, without surrounding white space, is non-empty, at most 16
/// bytes long and holds a character other than an ASCII letter, digit or
/// `_` is refused for that character.
pub proof fn lemma_other_chars_refused(raw: Seq<char>, i: int)
    requires
        0 <= i < trim(raw).len(),
        !is_name_code(trim(raw)[i] as u32),
        vstd::utf8::encode_utf8(trim(raw)).len() <= 16,
    ensures
        username_verdict(raw) == Err::<Seq<char>, Seq<char>>(bad_char_message()),
{
    lemma_name_chars_by_code(trim(raw)[i]);
}

/// A name of ASCII name characters takes one byte per character.
proof fn lemma_ascii_utf8_len(s: Seq<char>)
    requires
        forall|i: int| 0 <= i < s.len() ==> is_name_char(#[trigger] s[i]),
    ensures
        utf8_len(s) == s.len(),
    decreases s.len(),
{
    if s.len() > 0 {
        assert(is_name_char(s[0]));
        assert forall|i: int| 0 <= i < s.drop_first().len() implies is_name_char(
            #[trigger] s.drop_first()[i],
        ) by {
            assert(s.drop_first()[i] == s[i + 1]);
        }
        lemma_ascii_utf8_len(s.drop_first());
    }
}

} // verus!
