//! What is taken out of the archives the launcher unpacks: the native
//! libraries inside the LWJGL natives JARs, and the entries of the
//! `local-libs.zip` release asset.

use vstd::prelude::*;
use crate::launcher::Launcher;
use crate::text::{ends_with, has_double_dot, has_double_dot_str, str_ends_with};

verus! {

/// An archive entry name that names a native library.
pub open spec fn is_native_library(name: Seq<char>) -> bool {
    ends_with(name, ".dll"@) || ends_with(name, ".so"@) || ends_with(name, ".dylib"@)
}

/// A path separator of the host, as `std::path` reads one: `/`, and on
/// Windows also `\`.
pub open spec fn is_separator(c: char, windows: bool) -> bool {
    c == '/' || (windows && c == '\\')
}

/// The index of the last separator in `s`, or -1.
pub open spec fn last_separator(s: Seq<char>, windows: bool) -> int
    decreases s.len(),
{
    if s.len() == 0 {
        -1
    } else if is_separator(s.last(), windows) {
        s.len() - 1
    } else {
        last_separator(s.drop_last(), windows)
    }
}

/// A Windows drive prefix (`C:`) at the start of `s`.
pub open spec fn has_drive_prefix(s: Seq<char>) -> bool {
    &&& s.len() >= 2
    &&& s[1] == ':'
    &&& (('a' <= s[0] && s[0] <= 'z') || ('A' <= s[0] && s[0] <= 'Z'))
}

/// The file name of an entry name, as `Path::file_name` gives it for names
/// that end in a file name: what follows the last separator of the host;
/// on Windows, a name without separators also loses its drive prefix.
pub open spec fn file_name_of(name: Seq<char>, windows: bool) -> Seq<char> {
    let k = last_separator(name, windows);
    if windows && k == -1 && has_drive_prefix(name) {
        name.subrange(2, name.len() as int)
    } else {
        name.subrange(k + 1, name.len() as int)
    }
}

/// The file name under which a natives JAR entry is unpacked into the
/// natives directory, or `None` when the entry is skipped (a directory, or
/// not a native library).
pub open spec fn native_target(name: Seq<char>, is_dir: bool, windows: bool) -> Option<
    Seq<char>,
> {
    if is_dir || !is_native_library(name) {
        None
    } else {
        Some(file_name_of(name, windows))
    }
}

/// The last separator index is in range, holds a separator, and no
/// separator follows it.
pub proof fn lemma_last_separator_bounds(s: Seq<char>, windows: bool)
    ensures
        -1 <= last_separator(s, windows) < s.len(),
        last_separator(s, windows) >= 0 ==> is_separator(s[last_separator(s, windows)], windows),
        forall|j: int| last_separator(s, windows) < j < s.len() ==> !is_separator(s[j], windows),
    decreases s.len(),
{
    if s.len() > 0 && !is_separator(s.last(), windows) {
        lemma_last_separator_bounds(s.drop_last(), windows);
        assert forall|j: int| last_separator(s, windows) < j < s.len() implies !is_separator(
            s[j],
            windows,
        ) by {
            if j < s.len() - 1 {
                assert(s[j] == s.drop_last()[j]);
            }
        }
    }
}

/// The index of the last separator of the host in `s`, if there is one.
fn find_last_separator(s: &str, windows: bool) -> (k: Option<usize>)
    ensures
        match k {
            Some(i) => i == last_separator(s@, windows),
            None => last_separator(s@, windows) == -1,
        },
{
    let n = s.unicode_len();
    let mut i: usize = n;
    assert(s@.subrange(0, n as int) =~= s@);
    while i > 0
        invariant
            n == s@.len(),
            i <= n,
            last_separator(s@, windows) == last_separator(s@.subrange(0, i as int), windows),
        decreases i,
    {
        let ghost prefix = s@.subrange(0, i as int);
        assert(prefix.last() == s@[i - 1]);
        let c = s.get_char(i - 1);
        if c == '/' || (windows && c == '\\') {
            return Some(i - 1);
        }
        assert(prefix.drop_last() =~= s@.subrange(0, i - 1));
        i = i - 1;
    }
    None
}

/// What is done with an entry of the `local-libs.zip` asset.
#[derive(Debug, Clone, Copy, PartialEq, Eq, Structural)]
pub enum LocalLibEntry {
    /// The name holds `..` or starts with `/`: leave it.
    Skip,
    /// Create the directory below the target directory.
    CreateDir,
    /// Write the file below the target directory.
    WriteFile,
}

/// A name that holds `..` or starts with `/`.
pub open spec fn suspicious_name(name: Seq<char>) -> bool {
    has_double_dot(name) || (name.len() > 0 && name[0] == '/')
}

/// What is done with an entry of the `local-libs.zip` asset.
pub open spec fn local_lib_entry(name: Seq<char>, is_dir: bool) -> LocalLibEntry {
    if suspicious_name(name) {
        LocalLibEntry::Skip
    } else if is_dir {
        LocalLibEntry::CreateDir
    } else {
        LocalLibEntry::WriteFile
    }
}

impl Launcher {
    /// The file name under which a natives JAR entry is unpacked, or `None`
    /// when it is skipped: directories, and entries whose name does not end
    /// in `.dll`, `.so` or `.dylib`. The file name is taken as the host
    /// (`windows` or not) reads paths.
    pub fn native_entry_target(name: &str, is_dir: bool, windows: bool) -> (target: Option<
        String,
    >)
        ensures
            match target {
                Some(f) => native_target(name@, is_dir, windows) == Some(f@),
                None => native_target(name@, is_dir, windows) is None,
            },
    {
        if is_dir {
            return None;
        }
        let is_native = str_ends_with(name, ".dll") || str_ends_with(name, ".so")
            || str_ends_with(name, ".dylib");
        if !is_native {
            return None;
        }
        proof {
            lemma_last_separator_bounds(name@, windows);
        }
        let n = name.unicode_len();
        let start = match find_last_separator(name, windows) {
            Some(k) => k + 1,
            None => {
                if windows && n >= 2 && name.get_char(1) == ':' {
                    let d = name.get_char(0);
                    if ('a' <= d && d <= 'z') || ('A' <= d && d <= 'Z') {
                        2
                    } else {
                        0
                    }
                } else {
                    0
                }
            },
        };
        Some(String::from_str(name.substring_char(start, n)))
    }

    /// What is done with an entry of the `local-libs.zip` asset: names
    /// holding `..` or starting with `/` are skipped, directories created and
    /// files written.
    pub fn local_lib_entry(name: &str, is_dir: bool) -> (action: LocalLibEntry)
        ensures
            action == local_lib_entry(name@, is_dir),
    {
        let starts_with_slash = name.unicode_len() > 0 && name.get_char(0) == '/';
        if has_double_dot_str(name) || starts_with_slash {
            LocalLibEntry::Skip
        } else if is_dir {
            LocalLibEntry::CreateDir
        } else {
            LocalLibEntry::WriteFile
        }
    }
}

/// A native library is unpacked under a non-empty file name that holds no
/// separator of the host, is itself a native library name, and is the end
/// of the entry's name.
pub proof fn lemma_native_target_is_plain_file_name(name: Seq<char>, is_dir: bool, windows: bool)
    requires
        native_target(name, is_dir, windows) is Some,
    ensures
        ({
            let f = native_target(name, is_dir, windows)->0;
            &&& f.len() > 0
            &&& forall|j: int| 0 <= j < f.len() ==> !is_separator(#[trigger] f[j], windows)
            &&& is_native_library(f)
            &&& ends_with(name, f)
        }),
{
    let f = file_name_of(name, windows);
    let k = last_separator(name, windows);
    lemma_last_separator_bounds(name, windows);
    reveal_strlit(".dll");
    reveal_strlit(".so");
    reveal_strlit(".dylib");
    let n = name.len();
    let sl: int = if ends_with(name, ".dll"@) {
        4
    } else if ends_with(name, ".so"@) {
        3
    } else {
        6
    };
    let suffix = name.subrange(n - sl, n as int);
    assert(suffix[0] == '.');
    // No character of the native suffix is a separator or a drive colon.
    assert forall|j: int| n - sl <= j < n implies !is_separator(name[j], windows) && name[j]
        != ':' by {
        assert(name[j] == suffix[j - (n - sl)]);
    }
    let start: int = if windows && k == -1 && has_drive_prefix(name) {
        2
    } else {
        k + 1
    };
    assert(f =~= name.subrange(start, n as int));
    assert(start <= n - sl);
    assert forall|j: int| 0 <= j < f.len() implies !is_separator(#[trigger] f[j], windows) by {
        assert(f[j] == name[start + j]);
    }
    assert(name.subrange(n - f.len(), n as int) =~= f);
    assert(f.subrange(f.len() - sl, f.len() as int) =~= suffix);
}

/// A `local-libs.zip` entry is skipped exactly when its name holds two
/// adjacent `.` characters or starts with `/`; any other entry is created as
/// a directory when it is one, and written as a file otherwise. So a name
/// such as `authlib-2.1.28.jar`, with single dots only, is unpacked.
pub proof fn lemma_local_lib_entry_cases(name: Seq<char>, is_dir: bool)
    ensures
        (local_lib_entry(name, is_dir) == LocalLibEntry::Skip) <==> ((exists|i: int|
            0 <= i && i + 1 < name.len() && #[trigger] name[i] == '.' && name[i + 1] == '.') || (
        name.len() > 0 && name[0] == '/')),
        (local_lib_entry(name, is_dir) == LocalLibEntry::CreateDir) <==> (is_dir && local_lib_entry(
            name,
            is_dir,
        ) != LocalLibEntry::Skip),
        (local_lib_entry(name, is_dir) == LocalLibEntry::WriteFile) <==> (!is_dir
            && local_lib_entry(name, is_dir) != LocalLibEntry::Skip),
{
}

/// The unpacked file name of a native library is the whole tail of the
/// entry's name after its last separator: the character before it is a
/// separator, or there is none (the whole name, or on Windows the name
/// after a leading drive prefix such as `C:` when it has no separator).
pub proof fn lemma_native_target_is_whole_last_component(
    name: Seq<char>,
    is_dir: bool,
    windows: bool,
)
    requires
        native_target(name, is_dir, windows) is Some,
    ensures
        ({
            let f = native_target(name, is_dir, windows)->0;
            let s = name.len() - f.len();
            &&& name.subrange(s, name.len() as int) == f
            &&& (s == 0 || is_separator(name[s - 1], windows) || (windows && s == 2 && name[1]
                == ':' && (('a' <= name[0] && name[0] <= 'z') || ('A' <= name[0] && name[0]
                <= 'Z')) && forall|j: int| 0 <= j < name.len() ==> !is_separator(
                #[trigger] name[j],
                windows,
            )))
        }),
{
    lemma_last_separator_bounds(name, windows);
    let f = native_target(name, is_dir, windows)->0;
    assert(name.subrange(name.len() - f.len(), name.len() as int) =~= f);
}

/// A `local-libs.zip` entry that is unpacked holds no `..` and does not
/// start with `/`.
pub proof fn lemma_unpacked_local_lib_names_are_safe(name: Seq<char>, is_dir: bool)
    requires
        local_lib_entry(name, is_dir) != LocalLibEntry::Skip,
    ensures
        !has_double_dot(name),
        name.len() == 0 || name[0] != '/',
{
}

} // verus!
