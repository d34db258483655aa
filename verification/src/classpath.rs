//! Which files go on the Java classpath, and the classpath text.

use vstd::prelude::*;
use crate::launcher::Launcher;
use crate::text::{
    find_last, join_strings, join_with, last_index_of, lemma_last_index_bounds, lemma_split_join,
    split_on, string_views,
};

verus! {

/// The classpath separator of the host.
pub open spec fn classpath_separator(windows: bool) -> char {
    if windows {
        ';'
    } else {
        ':'
    }
}

/// The message when the game's JAR is missing.
pub open spec fn missing_jar_message(jar: Seq<char>) -> Seq<char> {
    "Не найден Minecraft JAR:\n"@ + jar
}

/// The classpath entries: the JARs found, then the game's JAR.
pub open spec fn classpath_entries(found: Seq<Seq<char>>, minecraft_jar: Seq<char>) -> Seq<
    Seq<char>,
> {
    found.push(minecraft_jar)
}

/// The extension of a file name, as `Path::extension`: what follows the
/// last `.`, unless that `.` is the first character or there is none.
pub open spec fn extension_of(name: Seq<char>) -> Option<Seq<char>> {
    let k = last_index_of(name, '.');
    if k <= 0 {
        None
    } else {
        Some(name.subrange(k + 1, name.len() as int))
    }
}

/// `ext` is `jar` in any mix of ASCII cases.
pub open spec fn is_jar_extension(ext: Seq<char>) -> bool {
    &&& ext.len() == 3
    &&& (ext[0] == 'j' || ext[0] == 'J')
    &&& (ext[1] == 'a' || ext[1] == 'A')
    &&& (ext[2] == 'r' || ext[2] == 'R')
}

/// A file name with a `jar` extension in any ASCII case.
pub open spec fn has_jar_extension(name: Seq<char>) -> bool {
    match extension_of(name) {
        Some(ext) => is_jar_extension(ext),
        None => false,
    }
}

/// What the search for JARs does with a directory entry.
#[derive(Debug, Clone, Copy, PartialEq, Eq, Structural)]
pub enum JarSearchStep {
    /// Search the directory too.
    Descend,
    /// Put the file on the classpath.
    Collect,
    /// Leave the entry alone.
    Skip,
}

/// What the search does with an entry.
pub open spec fn jar_search_step(is_dir: bool, file_name: Seq<char>) -> JarSearchStep {
    if is_dir {
        JarSearchStep::Descend
    } else if has_jar_extension(file_name) {
        JarSearchStep::Collect
    } else {
        JarSearchStep::Skip
    }
}

/// The extension is what follows the last `.` when that `.` is not the
/// first character, whatever comes before it.
pub proof fn lemma_extension_after_last_dot(name: Seq<char>, k: int)
    requires
        0 < k < name.len(),
        name[k] == '.',
        forall|j: int| k < j < name.len() ==> name[j] != '.',
    ensures
        extension_of(name) == Some(name.subrange(k + 1, name.len() as int)),
{
    lemma_last_index_bounds(name, '.');
}

/// A name with no `.` after its first character has no extension.
pub proof fn lemma_no_extension_without_inner_dot(name: Seq<char>)
    requires
        forall|j: int| 0 < j < name.len() ==> name[j] != '.',
    ensures
        extension_of(name) is None,
{
    lemma_last_index_bounds(name, '.');
}

/// Any non-empty stem followed by `.jar` (in lower or upper case) names a
/// JAR, whatever the stem holds or ends with.
pub proof fn lemma_stem_dot_jar_is_jar(stem: Seq<char>)
    requires
        stem.len() > 0,
    ensures
        has_jar_extension(stem + seq!['.', 'j', 'a', 'r']),
        has_jar_extension(stem + seq!['.', 'J', 'A', 'R']),
{
    let lower = stem + seq!['.', 'j', 'a', 'r'];
    let upper = stem + seq!['.', 'J', 'A', 'R'];
    let k = stem.len() as int;
    lemma_extension_after_last_dot(lower, k);
    lemma_extension_after_last_dot(upper, k);
    assert(lower.subrange(k + 1, lower.len() as int) =~= seq!['j', 'a', 'r']);
    assert(upper.subrange(k + 1, upper.len() as int) =~= seq!['J', 'A', 'R']);
}

/// A name collected as a JAR ends in `.` and three characters spelling
/// `jar` in any ASCII case, with something before that `.`.
pub proof fn lemma_collected_names_end_in_jar(name: Seq<char>)
    requires
        has_jar_extension(name),
    ensures
        name.len() >= 5,
        name[name.len() - 4] == '.',
        name[name.len() - 3] == 'j' || name[name.len() - 3] == 'J',
        name[name.len() - 2] == 'a' || name[name.len() - 2] == 'A',
        name[name.len() - 1] == 'r' || name[name.len() - 1] == 'R',
{
    lemma_last_index_bounds(name, '.');
    let k = last_index_of(name, '.');
    let ext = name.subrange(k + 1, name.len() as int);
    assert(ext[0] == name[k + 1] && ext[1] == name[k + 2] && ext[2] == name[k + 3]);
}

impl Launcher {
    /// Whether a file name has a `jar` extension, in any ASCII case.
    pub fn is_jar_file_name(file_name: &str) -> (b: bool)
        ensures
            b == has_jar_extension(file_name@),
    {
        proof {
            lemma_last_index_bounds(file_name@, '.');
        }
        let k = match find_last(file_name, '.') {
            Some(k) => k,
            None => {
                return false;
            },
        };
        if k == 0 {
            return false;
        }
        let n = file_name.unicode_len();
        let start = k + 1;
        if n - start != 3 {
            return false;
        }
        let c0 = file_name.get_char(start);
        let c1 = file_name.get_char(start + 1);
        let c2 = file_name.get_char(start + 2);
        let ghost ext = file_name@.subrange(k + 1, n as int);
        assert(ext[0] == c0 && ext[1] == c1 && ext[2] == c2);
        (c0 == 'j' || c0 == 'J') && (c1 == 'a' || c1 == 'A') && (c2 == 'r' || c2 == 'R')
    }

    /// What the search for JARs does with a directory entry: it descends
    /// into directories and collects files with a `jar` extension.
    pub fn jar_search_step(is_dir: bool, file_name: &str) -> (step: JarSearchStep)
        ensures
            step == jar_search_step(is_dir, file_name@),
    {
        if is_dir {
            JarSearchStep::Descend
        } else if Self::is_jar_file_name(file_name) {
            JarSearchStep::Collect
        } else {
            JarSearchStep::Skip
        }
    }

    /// The classpath: the JARs found (libraries, then local libraries), then
    /// the game's JAR, joined with the host's separator; an error when the
    /// game's JAR is missing.
    pub fn build_classpath(
        &self,
        minecraft_jar: &str,
        minecraft_jar_exists: bool,
        found: &Vec<String>,
        windows: bool,
    ) -> (r: Result<String, String>)
        ensures
            match r {
                Ok(cp) => minecraft_jar_exists && cp@ == join_with(
                    classpath_entries(string_views(found@), minecraft_jar@),
                    seq![classpath_separator(windows)],
                ),
                Err(e) => !minecraft_jar_exists && e@ == missing_jar_message(minecraft_jar@),
            },
    {
        if !minecraft_jar_exists {
            let mut e = String::from_str("Не найден Minecraft JAR:\n");
            e.append(minecraft_jar);
            return Err(e);
        }
        let mut entries: Vec<String> = Vec::new();
        let n = found.len();
        let mut i: usize = 0;
        while i < n
            invariant
                n == found@.len(),
                i <= n,
                entries@.len() == i,
                forall|j: int| 0 <= j < i ==> #[trigger] entries@[j]@ == found@[j]@,
            decreases n - i,
        {
            let item = found[i].clone();
            entries.push(item);
            i = i + 1;
        }
        entries.push(String::from_str(minecraft_jar));
        assert(string_views(entries@) =~= classpath_entries(string_views(found@), minecraft_jar@));
        let sep = if windows {
            proof {
                reveal_strlit(";");
            }
            ";"
        } else {
            proof {
                reveal_strlit(":");
            }
            ":"
        };
        assert(sep@ =~= seq![classpath_separator(windows)]);
        Ok(join_strings(&entries, sep))
    }
}

/// Splitting a classpath at the separator gives back its entries, the
/// game's JAR last, when no entry holds the separator.
pub proof fn lemma_classpath_entries(
    found: Seq<Seq<char>>,
    minecraft_jar: Seq<char>,
    windows: bool,
)
    requires
        forall|i: int|
            0 <= i < found.len() ==> !(#[trigger] found[i]).contains(classpath_separator(windows)),
        !minecraft_jar.contains(classpath_separator(windows)),
    ensures
        split_on(
            join_with(classpath_entries(found, minecraft_jar), seq![classpath_separator(windows)]),
            classpath_separator(windows),
        ) == classpath_entries(found, minecraft_jar),
        classpath_entries(found, minecraft_jar).last() == minecraft_jar,
{
    let entries = classpath_entries(found, minecraft_jar);
    assert forall|i: int| 0 <= i < entries.len() implies !(#[trigger] entries[i]).contains(
        classpath_separator(windows),
    ) by {
        if i < found.len() {
            assert(entries[i] == found[i]);
        }
    }
    lemma_split_join(entries, classpath_separator(windows));
}

} // verus!
