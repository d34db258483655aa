//! Maven coordinates (`group:artifact:version`) and the download URLs and
//! library paths derived from them.

use vstd::prelude::*;
use crate::launcher::{in_minecraft_dir, Launcher, RelPath};
use crate::text::{
    lemma_join_split, lemma_split_join, lemma_split_pieces_without_sep, join_with, replace_char,
    replace_chars, split_chars, split_on, string_views, views_of,
};

verus! {

/// The Maven repository that every library is fetched from.
pub open spec fn repository() -> Seq<char> {
    "https://repo1.maven.org/maven2/"@
}

/// A group id as a directory path: every `.` becomes `/`.
pub open spec fn group_path(group: Seq<char>) -> Seq<char> {
    replace_char(group, '.', '/')
}

/// The file name of a library JAR.
pub open spec fn jar_name(artifact: Seq<char>, version: Seq<char>) -> Seq<char> {
    artifact + "-"@ + version + ".jar"@
}

/// The file name of a JAR of natives.
pub open spec fn native_jar_name(
    artifact: Seq<char>,
    version: Seq<char>,
    classifier: Seq<char>,
) -> Seq<char> {
    artifact + "-"@ + version + "-"@ + classifier + ".jar"@
}

/// Where a library is downloaded from.
pub open spec fn maven_url_of(group: Seq<char>, artifact: Seq<char>, version: Seq<char>) -> Seq<
    char,
> {
    repository() + group_path(group) + "/"@ + artifact + "/"@ + version + "/"@ + artifact + "-"@
        + version + ".jar"@
}

/// Where a JAR of natives is downloaded from.
pub open spec fn native_url_of(
    group: Seq<char>,
    artifact: Seq<char>,
    version: Seq<char>,
    classifier: Seq<char>,
) -> Seq<char> {
    repository() + group_path(group) + "/"@ + artifact + "/"@ + version + "/"@ + artifact + "-"@
        + version + "-"@ + classifier + ".jar"@
}

/// Where a library is stored.
pub open spec fn maven_path_of(group: Seq<char>, artifact: Seq<char>, version: Seq<char>) -> Seq<
    Seq<char>,
> {
    in_minecraft_dir("libraries"@) + seq![
        group_path(group),
        artifact,
        version,
        jar_name(artifact, version),
    ]
}

/// Where a JAR of natives is stored.
pub open spec fn native_path_of(
    group: Seq<char>,
    artifact: Seq<char>,
    version: Seq<char>,
    classifier: Seq<char>,
) -> Seq<Seq<char>> {
    in_minecraft_dir("libraries"@) + seq![
        group_path(group),
        artifact,
        version,
        native_jar_name(artifact, version, classifier),
    ]
}

/// The text of a coordinate.
pub open spec fn coordinate_text(group: Seq<char>, artifact: Seq<char>, version: Seq<char>) -> Seq<
    char,
> {
    group + seq![':'] + artifact + seq![':'] + version
}

/// A coordinate has exactly three `:`-separated parts.
pub open spec fn well_formed_coordinate(dep: Seq<char>) -> bool {
    split_on(dep, ':').len() == 3
}

/// The message for a coordinate that is not well formed.
pub open spec fn bad_coordinate_message(dep: Seq<char>) -> Seq<char> {
    "Неверная Maven dependency: "@ + dep
}

/// The libraries that the game needs.
pub open spec fn dependency_list() -> Seq<Seq<char>> {
    seq![
        "org.lwjgl:lwjgl:3.2.2"@,
        "org.lwjgl:lwjgl-assimp:3.2.2"@,
        "org.lwjgl:lwjgl-glfw:3.2.2"@,
        "org.lwjgl:lwjgl-openal:3.2.2"@,
        "org.lwjgl:lwjgl-opengl:3.2.2"@,
        "org.lwjgl:lwjgl-vulkan:3.2.2"@,
        "org.lwjgl:lwjgl-stb:3.2.2"@,
        "org.lwjgl:lwjgl-tinyfd:3.2.2"@,
        "com.google.code.findbugs:jsr305:3.0.2"@,
        "org.apache.commons:commons-lang3:3.5"@,
        "commons-io:commons-io:2.5"@,
        "commons-codec:commons-codec:1.10"@,
        "commons-logging:commons-logging:1.1.3"@,
        "org.apache.commons:commons-compress:1.8.1"@,
        "org.apache.httpcomponents:httpclient:4.3.3"@,
        "org.apache.httpcomponents:httpcore:4.3.2"@,
        "org.apache.logging.log4j:log4j-api:2.16.0"@,
        "org.apache.logging.log4j:log4j-core:2.16.0"@,
        "com.google.code.gson:gson:2.8.0"@,
        "com.google.guava:guava:21.0"@,
        "io.netty:netty-all:4.1.25.Final"@,
        "net.sf.jopt-simple:jopt-simple:5.0.3"@,
        "it.unimi.dsi:fastutil:8.2.1"@,
        "net.java.dev.jna:jna:4.4.0"@,
        "ca.weblite:java-objc-bridge:1.0.0"@,
        "com.ibm.icu:icu4j:66.1"@,
    ]
}

/// The LWJGL modules that ship natives.
pub open spec fn native_module_list() -> Seq<Seq<char>> {
    seq![
        "org.lwjgl:lwjgl:3.2.2"@,
        "org.lwjgl:lwjgl-assimp:3.2.2"@,
        "org.lwjgl:lwjgl-glfw:3.2.2"@,
        "org.lwjgl:lwjgl-openal:3.2.2"@,
        "org.lwjgl:lwjgl-opengl:3.2.2"@,
        "org.lwjgl:lwjgl-stb:3.2.2"@,
        "org.lwjgl:lwjgl-tinyfd:3.2.2"@,
    ]
}

/// A file to fetch: where from, and where to.
pub struct Download {
    pub url: String,
    pub destination: RelPath,
}

/// Each download is made, by `url_of` and `path_of`, from the parts of the
/// coordinate at its index.
pub open spec fn downloads_match(
    deps: Seq<Seq<char>>,
    downloads: Seq<Download>,
    url_of: spec_fn(Seq<Seq<char>>) -> Seq<char>,
    path_of: spec_fn(Seq<Seq<char>>) -> Seq<Seq<char>>,
) -> bool {
    &&& downloads.len() == deps.len()
    &&& forall|i: int|
        0 <= i < deps.len() ==> {
            &&& (#[trigger] downloads[i]).url@ == url_of(split_on(deps[i], ':'))
            &&& downloads[i].destination@ == path_of(split_on(deps[i], ':'))
        }
}

/// The outcome of planning downloads for `deps`: all coordinates are well
/// formed and each gives its download, or the first bad one is reported.
pub open spec fn plan_outcome(
    deps: Seq<Seq<char>>,
    r: Result<Vec<Download>, String>,
    url_of: spec_fn(Seq<Seq<char>>) -> Seq<char>,
    path_of: spec_fn(Seq<Seq<char>>) -> Seq<Seq<char>>,
) -> bool {
    match r {
        Ok(ds) => {
            &&& forall|i: int| 0 <= i < deps.len() ==> well_formed_coordinate(#[trigger] deps[i])
            &&& downloads_match(deps, ds@, url_of, path_of)
        },
        Err(e) => exists|k: int|
            {
                &&& 0 <= k < deps.len()
                &&& !well_formed_coordinate(#[trigger] deps[k])
                &&& forall|i: int| 0 <= i < k ==> well_formed_coordinate(#[trigger] deps[i])
                &&& e@ == bad_coordinate_message(deps[k])
            },
    }
}

/// The library download of a coordinate's parts.
pub open spec fn library_url(p: Seq<Seq<char>>) -> Seq<char> {
    maven_url_of(p[0], p[1], p[2])
}

/// The library path of a coordinate's parts.
pub open spec fn library_path(p: Seq<Seq<char>>) -> Seq<Seq<char>> {
    maven_path_of(p[0], p[1], p[2])
}

/// The natives download of a coordinate's parts.
pub open spec fn natives_url(classifier: Seq<char>) -> spec_fn(Seq<Seq<char>>) -> Seq<char> {
    |p: Seq<Seq<char>>| native_url_of(p[0], p[1], p[2], classifier)
}

/// The natives path of a coordinate's parts.
pub open spec fn natives_path(classifier: Seq<char>) -> spec_fn(Seq<Seq<char>>) -> Seq<
    Seq<char>,
> {
    |p: Seq<Seq<char>>| native_path_of(p[0], p[1], p[2], classifier)
}

proof fn lemma_join_three(x: Seq<char>, y: Seq<char>, z: Seq<char>)
    ensures
        join_with(seq![x, y, z], seq![':']) == coordinate_text(x, y, z),
{
    let sep = seq![':'];
    assert(seq![x, y].drop_last() =~= seq![x]);
    assert(seq![x, y, z].drop_last() =~= seq![x, y]);
    assert(join_with(seq![x], sep) == x);
    assert(join_with(seq![x, y], sep) == x + sep + y);
    assert(join_with(seq![x, y, z], sep) == x + sep + y + sep + z);
}

/// A coordinate built from parts without `:` splits back into those parts.
pub proof fn lemma_coordinate_round_trip(group: Seq<char>, artifact: Seq<char>, version: Seq<char>)
    requires
        !group.contains(':'),
        !artifact.contains(':'),
        !version.contains(':'),
    ensures
        split_on(coordinate_text(group, artifact, version), ':') == seq![group, artifact, version],
{
    let parts = seq![group, artifact, version];
    lemma_join_three(group, artifact, version);
    lemma_split_join(parts, ':');
}

proof fn lemma_join_four(w: Seq<char>, x: Seq<char>, y: Seq<char>, z: Seq<char>, sep: Seq<char>)
    ensures
        join_with(seq![w, x, y, z], sep) == w + sep + x + sep + y + sep + z,
{
    assert(seq![w, x].drop_last() =~= seq![w]);
    assert(seq![w, x, y].drop_last() =~= seq![w, x]);
    assert(seq![w, x, y, z].drop_last() =~= seq![w, x, y]);
    assert(join_with(seq![w], sep) == w);
    assert(join_with(seq![w, x], sep) == w + sep + x);
    assert(join_with(seq![w, x, y], sep) == w + sep + x + sep + y);
    assert(seq![w, x, y, z].last() == z);
    assert(join_with(seq![w, x, y, z], sep) == join_with(seq![w, x, y], sep) + sep + z);
}

/// A library's download URL is the repository followed by the components
/// of its path below the libraries directory, joined with `/`: the local
/// copy mirrors the repository's layout.
pub proof fn lemma_library_url_mirrors_path(group: Seq<char>, artifact: Seq<char>, version: Seq<
    char,
>)
    ensures
        maven_url_of(group, artifact, version) == repository() + join_with(
            maven_path_of(group, artifact, version).subrange(2, 6),
            "/"@,
        ),
{
    let p = maven_path_of(group, artifact, version);
    assert(p.subrange(2, 6) =~= seq![group_path(group), artifact, version, jar_name(artifact, version)]);
    lemma_join_four(group_path(group), artifact, version, jar_name(artifact, version), "/"@);
    assert(maven_url_of(group, artifact, version) =~= repository() + join_with(p.subrange(2, 6), "/"@));
}

/// The same holds of a JAR of natives.
pub proof fn lemma_native_url_mirrors_path(
    group: Seq<char>,
    artifact: Seq<char>,
    version: Seq<char>,
    classifier: Seq<char>,
)
    ensures
        native_url_of(group, artifact, version, classifier) == repository() + join_with(
            native_path_of(group, artifact, version, classifier).subrange(2, 6),
            "/"@,
        ),
{
    let p = native_path_of(group, artifact, version, classifier);
    let file = native_jar_name(artifact, version, classifier);
    assert(p.subrange(2, 6) =~= seq![group_path(group), artifact, version, file]);
    lemma_join_four(group_path(group), artifact, version, file, "/"@);
    assert(native_url_of(group, artifact, version, classifier) =~= repository() + join_with(
        p.subrange(2, 6),
        "/"@,
    ));
}

/// A group id becomes its directory path by turning every `.` into `/` and
/// keeping every other character where it is.
pub proof fn lemma_group_path_chars(group: Seq<char>)
    ensures
        group_path(group).len() == group.len(),
        forall|i: int|
            0 <= i < group.len() ==> #[trigger] group_path(group)[i] == (if group[i] == '.' {
                '/'
            } else {
                group[i]
            }),
        !group_path(group).contains('.'),
{
    assert forall|i: int| 0 <= i < group_path(group).len() implies group_path(group)[i] != '.' by {
        assert(group_path(group)[i] == (if group[i] == '.' {
            '/'
        } else {
            group[i]
        }));
    }
}

/// The separator text `/`.
fn slash() -> (s: &'static str)
    ensures
        s@ == "/"@,
        s@ == seq!['/'],
{
    proof {
        reveal_strlit("/");
    }
    "/"
}

impl Launcher {
    /// The parts of a Maven coordinate `group:artifact:version`.
    pub fn parse_dependency<'a>(dep: &'a str) -> (r: Result<(&'a str, &'a str, &'a str), String>)
        ensures
            r is Ok <==> well_formed_coordinate(dep@),
            r matches Ok((g, a, v)) ==> {
                &&& split_on(dep@, ':') == seq![g@, a@, v@]
                &&& dep@ == coordinate_text(g@, a@, v@)
                &&& !g@.contains(':') && !a@.contains(':') && !v@.contains(':')
            },
            r matches Err(e) ==> e@ == bad_coordinate_message(dep@),
    {
        let parts = split_chars(dep, ':');
        if parts.len() != 3 {
            let mut e = String::from_str("Неверная Maven dependency: ");
            e.append(dep);
            return Err(e);
        }
        let g = parts[0];
        let a = parts[1];
        let v = parts[2];
        proof {
            let ps = split_on(dep@, ':');
            assert(ps =~= seq![g@, a@, v@]) by {
                assert(ps[0] == views_of(parts@)[0]);
                assert(ps[1] == views_of(parts@)[1]);
                assert(ps[2] == views_of(parts@)[2]);
            }
            lemma_join_split(dep@, ':');
            lemma_split_pieces_without_sep(dep@, ':');
            assert(ps[0] == g@ && ps[1] == a@ && ps[2] == v@);
            lemma_join_three(g@, a@, v@);
        }
        Ok((g, a, v))
    }

    /// A group id as a directory path.
    pub fn group_path(group: &str) -> (p: String)
        ensures
            p@ == group_path(group@),
    {
        replace_chars(group, '.', slash())
    }

    /// Where a library is downloaded from.
    pub fn maven_url(group: &str, artifact: &str, version: &str) -> (url: String)
        ensures
            url@ == maven_url_of(group@, artifact@, version@),
    {
        let gp = Self::group_path(group);
        let mut url = String::from_str("https://repo1.maven.org/maven2/");
        url.append(gp.as_str());
        url.append("/");
        url.append(artifact);
        url.append("/");
        url.append(version);
        url.append("/");
        url.append(artifact);
        url.append("-");
        url.append(version);
        url.append(".jar");
        url
    }

    /// Where a JAR of natives is downloaded from.
    pub fn native_url(group: &str, artifact: &str, version: &str, classifier: &str) -> (url:
        String)
        ensures
            url@ == native_url_of(group@, artifact@, version@, classifier@),
    {
        let gp = Self::group_path(group);
        let mut url = String::from_str("https://repo1.maven.org/maven2/");
        url.append(gp.as_str());
        url.append("/");
        url.append(artifact);
        url.append("/");
        url.append(version);
        url.append("/");
        url.append(artifact);
        url.append("-");
        url.append(version);
        url.append("-");
        url.append(classifier);
        url.append(".jar");
        url
    }

    /// Where a library is stored.
    pub fn maven_path(group: &str, artifact: &str, version: &str) -> (path: RelPath)
        ensures
            path@ == maven_path_of(group@, artifact@, version@),
    {
        let mut file = String::from_str(artifact);
        file.append("-");
        file.append(version);
        file.append(".jar");
        let parts = vec![
            String::from_str("minecraft"),
            String::from_str("libraries"),
            Self::group_path(group),
            String::from_str(artifact),
            String::from_str(version),
            file,
        ];
        assert(string_views(parts@) =~= maven_path_of(group@, artifact@, version@));
        RelPath { parts }
    }

    /// Where a JAR of natives is stored.
    pub fn native_path(group: &str, artifact: &str, version: &str, classifier: &str) -> (path:
        RelPath)
        ensures
            path@ == native_path_of(group@, artifact@, version@, classifier@),
    {
        let mut file = String::from_str(artifact);
        file.append("-");
        file.append(version);
        file.append("-");
        file.append(classifier);
        file.append(".jar");
        let parts = vec![
            String::from_str("minecraft"),
            String::from_str("libraries"),
            Self::group_path(group),
            String::from_str(artifact),
            String::from_str(version),
            file,
        ];
        assert(string_views(parts@) =~= native_path_of(group@, artifact@, version@, classifier@));
        RelPath { parts }
    }

    /// The libraries that the game needs, as Maven coordinates.
    pub fn dependencies() -> (deps: Vec<&'static str>)
        ensures
            views_of(deps@) == dependency_list(),
    {
        let deps = vec![
            "org.lwjgl:lwjgl:3.2.2",
            "org.lwjgl:lwjgl-assimp:3.2.2",
            "org.lwjgl:lwjgl-glfw:3.2.2",
            "org.lwjgl:lwjgl-openal:3.2.2",
            "org.lwjgl:lwjgl-opengl:3.2.2",
            "org.lwjgl:lwjgl-vulkan:3.2.2",
            "org.lwjgl:lwjgl-stb:3.2.2",
            "org.lwjgl:lwjgl-tinyfd:3.2.2",
            "com.google.code.findbugs:jsr305:3.0.2",
            "org.apache.commons:commons-lang3:3.5",
            "commons-io:commons-io:2.5",
            "commons-codec:commons-codec:1.10",
            "commons-logging:commons-logging:1.1.3",
            "org.apache.commons:commons-compress:1.8.1",
            "org.apache.httpcomponents:httpclient:4.3.3",
            "org.apache.httpcomponents:httpcore:4.3.2",
            "org.apache.logging.log4j:log4j-api:2.16.0",
            "org.apache.logging.log4j:log4j-core:2.16.0",
            "com.google.code.gson:gson:2.8.0",
            "com.google.guava:guava:21.0",
            "io.netty:netty-all:4.1.25.Final",
            "net.sf.jopt-simple:jopt-simple:5.0.3",
            "it.unimi.dsi:fastutil:8.2.1",
            "net.java.dev.jna:jna:4.4.0",
            "ca.weblite:java-objc-bridge:1.0.0",
            "com.ibm.icu:icu4j:66.1",
        ];
        assert(views_of(deps@) =~= dependency_list());
        deps
    }

    /// The LWJGL modules whose natives the game needs.
    pub fn lwjgl_native_modules() -> (modules: Vec<&'static str>)
        ensures
            views_of(modules@) == native_module_list(),
    {
        let modules = vec![
            "org.lwjgl:lwjgl:3.2.2",
            "org.lwjgl:lwjgl-assimp:3.2.2",
            "org.lwjgl:lwjgl-glfw:3.2.2",
            "org.lwjgl:lwjgl-openal:3.2.2",
            "org.lwjgl:lwjgl-opengl:3.2.2",
            "org.lwjgl:lwjgl-stb:3.2.2",
            "org.lwjgl:lwjgl-tinyfd:3.2.2",
        ];
        assert(views_of(modules@) =~= native_module_list());
        modules
    }

    /// The library downloads for `deps`, in order; or the message for the
    /// first coordinate that is not well formed.
    pub fn dependency_downloads(deps: &Vec<&str>) -> (r: Result<Vec<Download>, String>)
        ensures
            plan_outcome(
                views_of(deps@),
                r,
                |p: Seq<Seq<char>>| library_url(p),
                |p: Seq<Seq<char>>| library_path(p),
            ),
    {
        Self::plan_downloads(deps, None)
    }

    /// The natives downloads for `modules` with `classifier`, in order; or
    /// the message for the first coordinate that is not well formed.
    pub fn native_downloads(modules: &Vec<&str>, classifier: &str) -> (r: Result<
        Vec<Download>,
        String,
    >)
        ensures
            plan_outcome(
                views_of(modules@),
                r,
                natives_url(classifier@),
                natives_path(classifier@),
            ),
    {
        Self::plan_downloads(modules, Some(classifier))
    }

    fn plan_downloads(deps: &Vec<&str>, classifier: Option<&str>) -> (r: Result<
        Vec<Download>,
        String,
    >)
        ensures
            plan_outcome(
                views_of(deps@),
                r,
                match classifier {
                    None => |p: Seq<Seq<char>>| library_url(p),
                    Some(c) => natives_url(c@),
                },
                match classifier {
                    None => |p: Seq<Seq<char>>| library_path(p),
                    Some(c) => natives_path(c@),
                },
            ),
    {
        let ghost url_of = match classifier {
            None => |p: Seq<Seq<char>>| library_url(p),
            Some(c) => natives_url(c@),
        };
        let ghost path_of = match classifier {
            None => |p: Seq<Seq<char>>| library_path(p),
            Some(c) => natives_path(c@),
        };
        let ghost dv = views_of(deps@);
        let n = deps.len();
        let mut plan: Vec<Download> = Vec::new();
        let mut i: usize = 0;
        while i < n
            invariant
                n == deps@.len(),
                dv == views_of(deps@),
                i <= n,
                forall|j: int| 0 <= j < i ==> well_formed_coordinate(#[trigger] dv[j]),
                downloads_match(dv.take(i as int), plan@, url_of, path_of),
                url_of == (match classifier {
                    None => |p: Seq<Seq<char>>| library_url(p),
                    Some(c) => natives_url(c@),
                }),
                path_of == (match classifier {
                    None => |p: Seq<Seq<char>>| library_path(p),
                    Some(c) => natives_path(c@),
                }),
            decreases n - i,
        {
            let dep = deps[i];
            assert(dv[i as int] == dep@);
            match Self::parse_dependency(dep) {
                Err(e) => {
                    assert(!well_formed_coordinate(dv[i as int]));
                    return Err(e);
                },
                Ok((g, a, v)) => {
                    let d = match classifier {
                        None => Download {
                            url: Self::maven_url(g, a, v),
                            destination: Self::maven_path(g, a, v),
                        },
                        Some(c) => Download {
                            url: Self::native_url(g, a, v, c),
                            destination: Self::native_path(g, a, v, c),
                        },
                    };
                    let ghost before = plan@;
                    plan.push(d);
                    proof {
                        let p = split_on(dv[i as int], ':');
                        assert(p[0] == g@ && p[1] == a@ && p[2] == v@);
                        assert(d.url@ == url_of(p));
                        assert(d.destination@ == path_of(p));
                        let t = dv.take(i + 1);
                        assert forall|j: int| 0 <= j < t.len() implies {
                            &&& (#[trigger] plan@[j]).url@ == url_of(split_on(t[j], ':'))
                            &&& plan@[j].destination@ == path_of(split_on(t[j], ':'))
                        } by {
                            if j < i {
                                assert(plan@[j] == before[j]);
                                assert(t[j] == dv.take(i as int)[j]);
                            }
                        }
                    }
                },
            }
            i = i + 1;
        }
        assert(dv.take(n as int) =~= dv);
        Ok(plan)
    }
}

} // verus!
