//! Provisioning a loader's dedicated server.
use vstd::prelude::*;

use crate::loader::Loader;
use crate::manifest::{loader_token, loader_token_is_no_option};
use crate::paths::{join_path, under};
use crate::providers::{first_set, first_set_is_first};
use crate::resolve::contains_text;
use crate::text::starts_with;

verus! {

/// Where the Fabric installer versions are listed.
pub const FABRIC_INSTALLERS: &'static str = "https://meta.fabricmc.net/v2/versions/installer";

/// Where the Quilt installer versions are listed.
pub const QUILT_INSTALLERS: &'static str = "https://meta.quiltmc.org/v3/versions/installer";

/// Installs a headless dedicated server for a loader into a directory, so `lode install --server`
/// can go from an empty folder to a runnable server. Forge/NeoForge use their `--installServer`
/// installer, Fabric a self-bootstrapping launcher jar, Quilt its own installer.
#[derive(Debug)]
pub struct LoaderProvisioner {
    pub java: String,
}

/// A Fabric/Quilt installer version.
#[derive(Debug)]
pub struct InstallerVersion {
    pub version: String,
    pub stable: bool,
}

#[verifier::ext_equal]
pub struct InstallerVersionView {
    pub version: Seq<char>,
    pub stable: bool,
}

impl DeepView for InstallerVersion {
    type V = InstallerVersionView;

    open spec fn deep_view(&self) -> InstallerVersionView {
        InstallerVersionView { version: self.version@, stable: self.stable }
    }
}

/// How a server is brought up.
#[derive(Debug)]
pub enum ServerStep {
    /// A server is there already.
    Present,
    /// Run the installer jar at this URL with `--installServer`.
    RunInstaller(String),
    /// Download Fabric's server launcher.
    FabricLauncher,
    /// Run Quilt's installer.
    QuiltInstaller,
}

// ---- URLs -------------------------------------------------------------------------------------

pub open spec fn forge_url(mc: Seq<char>, version: Seq<char>) -> Seq<char> {
    "https://maven.minecraftforge.net/net/minecraftforge/forge/"@ + mc + "-"@ + version + "/forge-"@
        + mc + "-"@ + version + "-installer.jar"@
}

pub open spec fn neoforge_url(version: Seq<char>) -> Seq<char> {
    if "1.20.1-"@.is_prefix_of(version) {
        "https://maven.neoforged.net/releases/net/neoforged/forge/"@ + version + "/forge-"@ + version
            + "-installer.jar"@
    } else {
        "https://maven.neoforged.net/releases/net/neoforged/neoforge/"@ + version + "/neoforge-"@
            + version + "-installer.jar"@
    }
}

pub fn forge_installer_url(mc: &str, version: &str) -> (r: String)
    ensures
        r@ == forge_url(mc@, version@),
{
    let mut url = "https://maven.minecraftforge.net/net/minecraftforge/forge/".to_owned();
    url.append(mc);
    url.append("-");
    url.append(version);
    url.append("/forge-");
    url.append(mc);
    url.append("-");
    url.append(version);
    url.append("-installer.jar");
    url
}

/// The installer of a NeoForge version. 1.20.1 predates NeoForge's own versioning; its installer
/// lives under the legacy `forge` artifact as `forge-1.20.1-47.x-installer.jar`, whereas 1.20.2+
/// use the `neoforge` artifact.
pub fn neoforge_installer_url(version: &str) -> (r: String)
    ensures
        r@ == neoforge_url(version@),
{
    if starts_with(version, "1.20.1-") {
        let mut url = "https://maven.neoforged.net/releases/net/neoforged/forge/".to_owned();
        url.append(version);
        url.append("/forge-");
        url.append(version);
        url.append("-installer.jar");
        url
    } else {
        let mut url = "https://maven.neoforged.net/releases/net/neoforged/neoforge/".to_owned();
        url.append(version);
        url.append("/neoforge-");
        url.append(version);
        url.append("-installer.jar");
        url
    }
}

pub fn fabric_server_url(mc: &str, loader: &str, installer: &str) -> (r: String)
    ensures
        r@ == "https://meta.fabricmc.net/v2/versions/loader/"@ + mc@ + "/"@ + loader@ + "/"@
            + installer@ + "/server/jar"@,
{
    let mut url = "https://meta.fabricmc.net/v2/versions/loader/".to_owned();
    url.append(mc);
    url.append("/");
    url.append(loader);
    url.append("/");
    url.append(installer);
    url.append("/server/jar");
    url
}

pub fn quilt_installer_url(installer: &str) -> (r: String)
    ensures
        r@
            == "https://maven.quiltmc.org/repository/release/org/quiltmc/quilt-installer/"@
            + installer@ + "/quilt-installer-"@ + installer@ + ".jar"@,
{
    let mut url =
        "https://maven.quiltmc.org/repository/release/org/quiltmc/quilt-installer/".to_owned();
    url.append(installer);
    url.append("/quilt-installer-");
    url.append(installer);
    url.append(".jar");
    url
}

// ---- what is there ----------------------------------------------------------------------------

/// The directories that a loader's installer leaves behind.
pub open spec fn marker_dirs(loader: Loader) -> Seq<Seq<char>> {
    match loader {
        Loader::Forge => seq!["libraries/net/minecraftforge/forge"@],
        Loader::Neoforge => seq![
            "libraries/net/neoforged/neoforge"@,
            "libraries/net/neoforged/forge"@,
        ],
        _ => Seq::empty(),
    }
}

/// The files that a loader's installer leaves behind.
pub open spec fn marker_files(loader: Loader) -> Seq<Seq<char>> {
    match loader {
        Loader::Fabric => seq!["fabric-server-launch.jar"@],
        Loader::Quilt => seq!["quilt-server-launch.jar"@],
        _ => Seq::empty(),
    }
}

/// A server for the loader is there, by the marker each loader leaves behind.
pub open spec fn provisioned(
    loader: Loader,
    dirs: Seq<Seq<char>>,
    files: Seq<Seq<char>>,
) -> bool {
    match loader {
        Loader::Forge => dirs.contains("libraries/net/minecraftforge/forge"@),
        Loader::Neoforge => dirs.contains("libraries/net/neoforged/neoforge"@) || dirs.contains(
            "libraries/net/neoforged/forge"@,
        ),
        Loader::Fabric => files.contains("fabric-server-launch.jar"@),
        Loader::Quilt => files.contains("quilt-server-launch.jar"@),
    }
}

/// The directories and files to look for.
pub fn markers(loader: Loader) -> (r: (Vec<&'static str>, Vec<&'static str>))
    ensures
        r.0.deep_view() == marker_dirs(loader),
        r.1.deep_view() == marker_files(loader),
{
    let mut dirs: Vec<&'static str> = Vec::new();
    let mut files: Vec<&'static str> = Vec::new();
    match loader {
        Loader::Forge => {
            dirs.push("libraries/net/minecraftforge/forge");
        },
        Loader::Neoforge => {
            dirs.push("libraries/net/neoforged/neoforge");
            dirs.push("libraries/net/neoforged/forge");
        },
        Loader::Fabric => {
            files.push("fabric-server-launch.jar");
        },
        Loader::Quilt => {
            files.push("quilt-server-launch.jar");
        },
    }
    assert(dirs.deep_view() =~= marker_dirs(loader));
    assert(files.deep_view() =~= marker_files(loader));
    (dirs, files)
}

impl LoaderProvisioner {
    /// A provisioner that runs installers with the given java, or else with the one that was found.
    pub fn new(java: Option<String>, resolved: String) -> (r: LoaderProvisioner)
        ensures
            r.java@ == (match java {
                Some(j) => j@,
                None => resolved@,
            }),
    {
        LoaderProvisioner {
            java: match java {
                Some(j) => j,
                None => resolved,
            },
        }
    }

    /// Whether a server for `loader` is already installed, by the marker each loader leaves behind
    /// (Forge/NeoForge args dirs, or the Fabric/Quilt launch jar). `dirs` and `files` hold what is in
    /// the server's directory, of the markers at least. NeoForge for 1.20.1 installs under the legacy
    /// `forge` artifact path, for 1.20.2+ under `neoforge`.
    pub fn already_provisioned(loader: Loader, dirs: &Vec<String>, files: &Vec<String>) -> (r: bool)
        ensures
            r == provisioned(loader, dirs.deep_view(), files.deep_view()),
    {
        match loader {
            Loader::Forge => contains_text(dirs, "libraries/net/minecraftforge/forge"),
            Loader::Neoforge => contains_text(dirs, "libraries/net/neoforged/neoforge")
                || contains_text(dirs, "libraries/net/neoforged/forge"),
            Loader::Fabric => contains_text(files, "fabric-server-launch.jar"),
            Loader::Quilt => contains_text(files, "quilt-server-launch.jar"),
        }
    }

    /// How to ensure that a server for `loader` is installed. Idempotent: nothing is done where one is
    /// there.
    pub fn ensure_server(loader: Loader, mc: &str, version: &str, there: bool) -> (r: ServerStep)
        ensures
            match r {
                ServerStep::Present => there,
                ServerStep::RunInstaller(url) => !there && ((loader == Loader::Forge && url@
                    == forge_url(mc@, version@)) || (loader == Loader::Neoforge && url@
                    == neoforge_url(version@))),
                ServerStep::FabricLauncher => !there && loader == Loader::Fabric,
                ServerStep::QuiltInstaller => !there && loader == Loader::Quilt,
            },
    {
        if there {
            return ServerStep::Present;
        }
        match loader {
            Loader::Forge => ServerStep::RunInstaller(forge_installer_url(mc, version)),
            Loader::Neoforge => ServerStep::RunInstaller(neoforge_installer_url(version)),
            Loader::Fabric => ServerStep::FabricLauncher,
            Loader::Quilt => ServerStep::QuiltInstaller,
        }
    }

    /// Newest installer version from a Fabric/Quilt listing (prefers a `stable` build).
    pub fn latest_installer(versions: &Vec<InstallerVersion>) -> (r: Option<String>)
        ensures
            r.deep_view() == latest_of(versions.deep_view()),
    {
        let ghost all = versions.deep_view();
        let mut i: usize = 0;
        while i < versions.len()
            invariant
                all == versions.deep_view(),
                i <= versions@.len(),
                stable_from(all, 0) == stable_from(all, i as int),
            decreases versions.len() - i,
        {
            assert(all[i as int] == versions@[i as int].deep_view());
            if versions[i].stable {
                return Some(versions[i].version.clone());
            }
            i = i + 1;
        }
        if versions.len() > 0 {
            assert(all[0] == versions@[0].deep_view());
            Some(versions[0].version.clone())
        } else {
            None
        }
    }
}

/// The first stable version, from position `i` on.
pub open spec fn stable_from(versions: Seq<InstallerVersionView>, i: int) -> Option<Seq<char>>
    decreases versions.len() - i,
{
    if !(0 <= i < versions.len()) {
        None
    } else if versions[i].stable {
        Some(versions[i].version)
    } else {
        stable_from(versions, i + 1)
    }
}

/// The first stable version, or else the first one.
pub open spec fn latest_of(versions: Seq<InstallerVersionView>) -> Option<Seq<char>> {
    match stable_from(versions, 0) {
        Some(v) => Some(v),
        None => if versions.len() > 0 {
            Some(versions[0].version)
        } else {
            None
        },
    }
}

// ---- installers -------------------------------------------------------------------------------

/// The arguments behind the jar for a Forge/NeoForge installer.
pub open spec fn forge_args() -> Seq<Seq<char>> {
    seq!["--installServer"@]
}

/// The arguments behind the jar for the Quilt installer.
pub open spec fn quilt_args(mc: Seq<char>, loader: Seq<char>, dir: Seq<char>) -> Seq<Seq<char>> {
    seq![
        "install"@,
        "server"@,
        mc,
        loader,
        "--download-server"@,
        "--install-dir="@ + dir,
    ]
}

/// The arguments behind the jar for a Forge/NeoForge installer.
pub fn forge_installer_args() -> (r: Vec<String>)
    ensures
        r.deep_view() == forge_args(),
{
    let mut out: Vec<String> = Vec::new();
    out.push("--installServer".to_owned());
    assert(out.deep_view() =~= forge_args());
    out
}

/// The arguments behind the jar for the Quilt installer (`install server`), mirroring Forge.
pub fn quilt_installer_args(mc: &str, loader: &str, dir: &str) -> (r: Vec<String>)
    ensures
        r.deep_view() == quilt_args(mc@, loader@, dir@),
{
    let mut install_dir = "--install-dir=".to_owned();
    install_dir.append(dir);
    let mut out: Vec<String> = Vec::new();
    out.push("install".to_owned());
    out.push("server".to_owned());
    out.push(mc.to_owned());
    out.push(loader.to_owned());
    out.push("--download-server".to_owned());
    out.push(install_dir);
    assert(out.deep_view() =~= quilt_args(mc@, loader@, dir@));
    out
}

// ---- java -------------------------------------------------------------------------------------

/// An entry of the search path.
#[derive(Debug)]
pub struct PathDir {
    pub dir: String,
    pub absolute: bool,
}

#[verifier::ext_equal]
pub struct PathDirView {
    pub dir: Seq<char>,
    pub absolute: bool,
}

impl DeepView for PathDir {
    type V = PathDirView;

    open spec fn deep_view(&self) -> PathDirView {
        PathDirView { dir: self.dir@, absolute: self.absolute }
    }
}

/// The java executables under the absolute entries of the search path, in order.
pub open spec fn path_candidates(dirs: Seq<PathDirView>, exe: Seq<char>) -> Seq<Seq<char>>
    decreases dirs.len(),
{
    if dirs.len() == 0 {
        Seq::empty()
    } else if dirs.last().absolute {
        path_candidates(dirs.drop_last(), exe).push(under(dirs.last().dir, exe))
    } else {
        path_candidates(dirs.drop_last(), exe)
    }
}

/// The java executables to look for, in order: the one of the Java home, then those of the search
/// path.
pub open spec fn java_candidates(
    java_home: Option<Seq<char>>,
    dirs: Seq<PathDirView>,
    exe: Seq<char>,
) -> Seq<Seq<char>> {
    match java_home {
        Some(home) => seq![under(under(home, "bin"@), exe)] + path_candidates(dirs, exe),
        None => path_candidates(dirs, exe),
    }
}

/// The first candidate that is there, or else the bare name.
pub open spec fn java_of(candidates: Seq<Seq<char>>, there: Seq<bool>) -> Seq<char> {
    match first_set(there, 0) {
        Some(i) => candidates[i],
        None => "java"@,
    }
}

/// The java executables to look for when `--java` isn't given, in order of preference; `exe` is the
/// executable's file name on this platform. Relative `PATH` entries are skipped so a CWD-relative
/// java is never resolved.
pub fn candidates_for_java(
    java_home: Option<&str>,
    path_dirs: &Vec<PathDir>,
    exe: &str,
) -> (r: Vec<String>)
    ensures
        r.deep_view() == java_candidates(java_home.deep_view(), path_dirs.deep_view(), exe@),
{
    let ghost all = path_dirs.deep_view();
    let mut out: Vec<String> = Vec::new();
    match java_home {
        Some(home) => {
            out.push(join_path(join_path(home, "bin").as_str(), exe));
        },
        None => {},
    }
    let ghost first = out.deep_view();
    assert(first =~= (match java_home {
        Some(home) => seq![under(under(home@, "bin"@), exe@)],
        None => Seq::<Seq<char>>::empty(),
    }));
    let mut i: usize = 0;
    assert(out.deep_view() =~= first + path_candidates(all.take(0), exe@));
    while i < path_dirs.len()
        invariant
            all == path_dirs.deep_view(),
            i <= path_dirs@.len(),
            out.deep_view() == first + path_candidates(all.take(i as int), exe@),
        decreases path_dirs.len() - i,
    {
        proof {
            assert(all[i as int] == path_dirs@[i as int].deep_view());
            assert(all.take(i + 1).drop_last() =~= all.take(i as int));
            assert(all.take(i + 1).last() == all[i as int]);
        }
        if path_dirs[i].absolute {
            let ghost prior = out.deep_view();
            let ghost earlier = path_candidates(all.take(i as int), exe@);
            let candidate = join_path(path_dirs[i].dir.as_str(), exe);
            let ghost added = candidate@;
            out.push(candidate);
            proof {
                assert(out.deep_view() =~= prior.push(added));
                assert(prior.push(added) =~= first + earlier.push(added));
            }
        }
        i = i + 1;
    }
    proof {
        assert(all.take(i as int) =~= all);
        assert(out.deep_view() =~= java_candidates(java_home.deep_view(), all, exe@));
    }
    out
}

/// Resolve a java to run installers with when `--java` isn't given, preferring an *absolute* path.
/// A bare `"java"` is resolved by the OS against its search path, which on some platforms holds
/// the current directory, so when an installer is spawned with `current_dir` set to an unpacked
/// pack, a bare name could execute an attacker-planted `java`. Preferring `JAVA_HOME/bin/java`, then
/// an absolute match on `PATH` (relative `PATH` entries are skipped so the CWD is never a source),
/// keeps the spawn anchored to a trusted location. Falls back to `"java"` only when nothing
/// resolves, in which case the check of the java fails with a clear message before any installer
/// runs. `there` says which of the candidates are files.
pub fn resolve_java_core(candidates: &Vec<String>, there: &Vec<bool>) -> (r: String)
    requires
        there@.len() == candidates@.len(),
    ensures
        r@ == java_of(candidates.deep_view(), there@),
{
    let ghost all = candidates.deep_view();
    let mut i: usize = 0;
    while i < candidates.len()
        invariant
            all == candidates.deep_view(),
            there@.len() == candidates@.len(),
            i <= candidates@.len(),
            first_set(there@, 0) == first_set(there@, i as int),
        decreases candidates.len() - i,
    {
        assert(all[i as int] == candidates@[i as int]@);
        if there[i] {
            return candidates[i].clone();
        }
        i = i + 1;
    }
    "java".to_owned()
}

// ---- laws -------------------------------------------------------------------------------------

/// No java is ever resolved from the current directory: what is resolved is the bare name, the
/// executable of the Java home, or one under an absolute entry of the search path.
pub proof fn java_is_never_relative_to_the_current_directory(
    java_home: Option<Seq<char>>,
    dirs: Seq<PathDirView>,
    exe: Seq<char>,
    there: Seq<bool>,
)
    requires
        there.len() == java_candidates(java_home, dirs, exe).len(),
    ensures
        ({
            let java = java_of(java_candidates(java_home, dirs, exe), there);
            ||| java == "java"@
            ||| java_home matches Some(home) && java == under(under(home, "bin"@), exe)
            ||| exists|i: int|
                0 <= i < dirs.len() && (#[trigger] dirs[i]).absolute && java == under(
                    dirs[i].dir,
                    exe,
                )
        }),
{
    let candidates = java_candidates(java_home, dirs, exe);
    first_set_is_first(there, 0);
    if first_set(there, 0) is Some {
        let k = first_set(there, 0)->0;
        match java_home {
            Some(home) => {
                if k > 0 {
                    assert(candidates[k] == path_candidates(dirs, exe)[k - 1]);
                    candidate_is_absolute(dirs, exe, k - 1);
                }
            },
            None => {
                candidate_is_absolute(dirs, exe, k);
            },
        }
    }
}

proof fn candidate_is_absolute(dirs: Seq<PathDirView>, exe: Seq<char>, k: int)
    requires
        0 <= k < path_candidates(dirs, exe).len(),
    ensures
        exists|i: int|
            0 <= i < dirs.len() && (#[trigger] dirs[i]).absolute && path_candidates(dirs, exe)[k]
                == under(dirs[i].dir, exe),
    decreases dirs.len(),
{
    let head = dirs.drop_last();
    let earlier = path_candidates(head, exe);
    if k < earlier.len() {
        candidate_is_absolute(head, exe, k);
        let i = choose|i: int|
            0 <= i < head.len() && (#[trigger] head[i]).absolute && earlier[k] == under(
                head[i].dir,
                exe,
            );
        assert(dirs[i] == head[i]);
    } else {
        assert(dirs[dirs.len() - 1].absolute);
    }
}

/// The java of the Java home wins over the search path wherever it is there.
pub proof fn java_home_wins(
    home: Seq<char>,
    dirs: Seq<PathDirView>,
    exe: Seq<char>,
    there: Seq<bool>,
)
    requires
        there.len() == java_candidates(Some(home), dirs, exe).len(),
        there[0],
    ensures
        java_of(java_candidates(Some(home), dirs, exe), there) == under(under(home, "bin"@), exe),
{
}

/// The versions of an accepted manifest are never read as options by the Quilt installer: of its
/// arguments, only the two that are meant as options start with a dash.
pub proof fn loader_versions_are_no_options(mc: Seq<char>, loader: Seq<char>, dir: Seq<char>, i: int)
    requires
        loader_token(mc),
        loader_token(loader),
        0 <= i < 4,
    ensures
        quilt_args(mc, loader, dir)[i].len() > 0,
        quilt_args(mc, loader, dir)[i][0] != '-',
{
    reveal_strlit("install");
    reveal_strlit("server");
    loader_token_is_no_option(mc);
    loader_token_is_no_option(loader);
    assert("install"@[0] == 'i' && "server"@[0] == 's');
}

/// One loader's marker never makes another loader's server look installed.
pub proof fn markers_do_not_mix(a: Loader, b: Loader)
    requires
        provisioned(a, marker_dirs(b), marker_files(b)),
    ensures
        a == b,
{
    reveal_strlit("libraries/net/minecraftforge/forge");
    reveal_strlit("libraries/net/neoforged/neoforge");
    reveal_strlit("libraries/net/neoforged/forge");
    reveal_strlit("fabric-server-launch.jar");
    reveal_strlit("quilt-server-launch.jar");
    assert("fabric-server-launch.jar"@[0] == 'f' && "quilt-server-launch.jar"@[0] == 'q');
    assert("libraries/net/minecraftforge/forge"@[14] == 'm');
    assert("libraries/net/neoforged/neoforge"@[14] == 'n');
    assert("libraries/net/neoforged/forge"@[14] == 'n');
}

/// A server is there exactly where a marker of its loader is: one of its directories or one of its files.
pub proof fn a_server_is_told_by_its_markers(
    loader: Loader,
    dirs: Seq<Seq<char>>,
    files: Seq<Seq<char>>,
)
    ensures
        provisioned(loader, dirs, files) <==> {
            ||| exists|i: int|
                0 <= i < marker_dirs(loader).len() && dirs.contains(#[trigger] marker_dirs(loader)[i])
            ||| exists|i: int|
                0 <= i < marker_files(loader).len() && files.contains(
                    #[trigger] marker_files(loader)[i],
                )
        },
{
    match loader {
        Loader::Forge => {
            assert(marker_dirs(loader)[0] == "libraries/net/minecraftforge/forge"@);
        },
        Loader::Neoforge => {
            assert(marker_dirs(loader)[0] == "libraries/net/neoforged/neoforge"@);
            assert(marker_dirs(loader)[1] == "libraries/net/neoforged/forge"@);
        },
        Loader::Fabric => {
            assert(marker_files(loader)[0] == "fabric-server-launch.jar"@);
        },
        Loader::Quilt => {
            assert(marker_files(loader)[0] == "quilt-server-launch.jar"@);
        },
    }
}

/// A server that is there is left alone; otherwise its own loader is brought up, Forge and NeoForge by
/// their installer for the version that was asked for.
pub proof fn a_server_is_brought_up_once(
    loader: Loader,
    mc: &str,
    version: &str,
    there: bool,
    r: ServerStep,
)
    requires
        call_ensures(LoaderProvisioner::ensure_server, (loader, mc, version, there), r),
    ensures
        there ==> r is Present,
        !there && loader == Loader::Fabric ==> r is FabricLauncher,
        !there && loader == Loader::Quilt ==> r is QuiltInstaller,
        !there && loader == Loader::Forge ==> (r matches ServerStep::RunInstaller(url) && url@
            == forge_url(mc@, version@)),
        !there && loader == Loader::Neoforge ==> (r matches ServerStep::RunInstaller(url) && url@
            == neoforge_url(version@)),
{
}

/// The installer is the first stable one, and the first of all where none is stable.
pub proof fn the_installer_is_stable_where_one_is(versions: Seq<InstallerVersionView>, i: int)
    requires
        0 <= i < versions.len(),
    ensures
        versions[i].stable && (forall|j: int| 0 <= j < i ==> !(#[trigger] versions[j]).stable)
            ==> latest_of(versions) == Some(versions[i].version),
        (forall|j: int| 0 <= j < versions.len() ==> !(#[trigger] versions[j]).stable) ==> latest_of(
            versions,
        ) == Some(versions[0].version),
{
    if versions[i].stable && (forall|j: int| 0 <= j < i ==> !(#[trigger] versions[j]).stable) {
        unstable_are_passed(versions, 0, i);
    }
    if forall|j: int| 0 <= j < versions.len() ==> !(#[trigger] versions[j]).stable {
        unstable_are_passed(versions, 0, versions.len() as int);
    }
}

proof fn unstable_are_passed(versions: Seq<InstallerVersionView>, from: int, i: int)
    requires
        0 <= from <= i <= versions.len(),
        forall|j: int| from <= j < i ==> !(#[trigger] versions[j]).stable,
        i < versions.len() ==> versions[i].stable,
    ensures
        stable_from(versions, from) == (if i < versions.len() {
            Some(versions[i].version)
        } else {
            None
        }),
    decreases i - from,
{
    if from < i {
        assert(!versions[from].stable);
        unstable_are_passed(versions, from + 1, i);
    }
}

/// Java is looked for in its home first, and then in the absolute directories of the path, in their order;
/// the first one that is there is taken.
pub proof fn java_is_the_first_one_there(
    java_home: Option<Seq<char>>,
    dirs: Seq<PathDirView>,
    exe: Seq<char>,
    there: Seq<bool>,
    i: int,
)
    requires
        there.len() == java_candidates(java_home, dirs, exe).len(),
        0 <= i < there.len(),
        there[i],
        forall|j: int| 0 <= j < i ==> !#[trigger] there[j],
    ensures
        ({
            let absolute = dirs.filter(|d: PathDirView| d.absolute);
            let java = java_of(java_candidates(java_home, dirs, exe), there);
            match java_home {
                Some(home) => java == (if i == 0 {
                    under(under(home, "bin"@), exe)
                } else {
                    under(absolute[i - 1].dir, exe)
                }),
                None => java == under(absolute[i].dir, exe),
            }
        }),
{
    first_set_is_first(there, 0);
    match first_set(there, 0) {
        Some(k) => {
            if k < i {
                assert(!there[k]);
            }
        },
        None => {
            assert(!there[i]);
        },
    }
    absolute_in_order(dirs, exe);
}

proof fn absolute_in_order(dirs: Seq<PathDirView>, exe: Seq<char>)
    ensures
        ({
            let absolute = dirs.filter(|d: PathDirView| d.absolute);
            &&& path_candidates(dirs, exe).len() == absolute.len()
            &&& forall|k: int|
                0 <= k < absolute.len() ==> #[trigger] path_candidates(dirs, exe)[k] == under(
                    absolute[k].dir,
                    exe,
                )
        }),
    decreases dirs.len(),
{
    reveal(Seq::filter);
    if dirs.len() > 0 {
        absolute_in_order(dirs.drop_last(), exe);
    }
}

/// The installer of Quilt is told to install the server of that Minecraft version and that loader version,
/// with the game itself, into that directory.
pub proof fn quilt_is_installed_as_asked(mc: Seq<char>, loader: Seq<char>, dir: Seq<char>)
    ensures
        ({
            let args = quilt_args(mc, loader, dir);
            &&& args.len() == 6
            &&& args[0] == "install"@ && args[1] == "server"@
            &&& args[2] == mc && args[3] == loader
            &&& args[4] == "--download-server"@ && args[5] == "--install-dir="@ + dir
        }),
        forge_args() == seq!["--installServer"@],
{
}

/// The installer of Forge is filed under the Minecraft version and its own, that of NeoForge under its own,
/// and its builds for 1.20.1 in a place of their own.
pub proof fn installers_are_filed_under_their_version(mc: Seq<char>, version: Seq<char>)
    ensures
        ({
            let build = mc + "-"@ + version;
            forge_url(mc, version)
                == "https://maven.minecraftforge.net/net/minecraftforge/forge/"@ + build + (
            "/forge-"@ + build + "-installer.jar"@)
        }),
        !"1.20.1-"@.is_prefix_of(version) ==> neoforge_url(version)
            == "https://maven.neoforged.net/releases/net/neoforged/neoforge/"@ + version + (
        "/neoforge-"@ + version + "-installer.jar"@),
        "1.20.1-"@.is_prefix_of(version) ==> neoforge_url(version)
            == "https://maven.neoforged.net/releases/net/neoforged/forge/"@ + version + ("/forge-"@
            + version + "-installer.jar"@),
{
    let build = mc + "-"@ + version;
    let a = "https://maven.minecraftforge.net/net/minecraftforge/forge/"@ + build + ("/forge-"@
        + build + "-installer.jar"@);
    assert(forge_url(mc, version) =~= a);
    let b = "https://maven.neoforged.net/releases/net/neoforged/neoforge/"@ + version + (
    "/neoforge-"@ + version + "-installer.jar"@);
    let c = "https://maven.neoforged.net/releases/net/neoforged/forge/"@ + version + ("/forge-"@
        + version + "-installer.jar"@);
    if "1.20.1-"@.is_prefix_of(version) {
        assert(neoforge_url(version) =~= c);
    } else {
        assert(neoforge_url(version) =~= b);
    }
}

/// The launcher of Fabric is served for the Minecraft, loader and installer version together, the installer
/// of Quilt by its own version.
pub proof fn launchers_are_served_by_version(
    mc: &str,
    loader: &str,
    installer: &str,
    fabric: String,
    quilt: String,
)
    requires
        call_ensures(fabric_server_url, (mc, loader, installer), fabric),
        call_ensures(quilt_installer_url, (installer,), quilt),
    ensures
        fabric@ == "https://meta.fabricmc.net/v2/versions/loader/"@ + (mc@ + "/"@ + loader@ + "/"@
            + installer@) + "/server/jar"@,
        quilt@ == "https://maven.quiltmc.org/repository/release/org/quiltmc/quilt-installer/"@
            + installer@ + ("/quilt-installer-"@ + installer@ + ".jar"@),
{
    assert(fabric@ =~= "https://meta.fabricmc.net/v2/versions/loader/"@ + (mc@ + "/"@ + loader@
        + "/"@ + installer@) + "/server/jar"@);
    assert(quilt@ =~= "https://maven.quiltmc.org/repository/release/org/quiltmc/quilt-installer/"@
        + installer@ + ("/quilt-installer-"@ + installer@ + ".jar"@));
}

/// The Java that was named is used, and otherwise the one that was found.
pub proof fn the_java_named_is_used(java: Option<String>, found: String, r: LoaderProvisioner)
    requires
        call_ensures(LoaderProvisioner::new, (java, found), r),
    ensures
        java is None ==> r.java@ == found@,
        java is Some ==> r.java@ == java->0@,
{
}

} // verus!
