//! The branded desktop client built per client by a GitHub Actions
//! workflow: whether the feature is on, its configuration, and the
//! decisions taken while the build is dispatched, polled and stored.
use vstd::prelude::*;

use crate::ids::{uuid_string, uuid_text};
use crate::text::{
    ends_with_chars, has_suffix, ascii_lower_seq, blank, chars_of, is_blank, lower_chars, owned, push_text, same_chars,
    same_text, string_of, trim_chars, trim_seq,
};

verus! {

/// Values that switch the feature on (compared after trimming and ASCII lowercasing).
pub open spec fn truthy(v: Seq<char>) -> bool {
    v == "1"@ || v == "true"@ || v == "yes"@ || v == "on"@
}

/// `enabled`: the client builder is on only when `CLIENT_BUILDER_ENABLED`
/// is set to 1, true, yes or on (any case, surrounding blanks ignored).
pub fn enabled(value: Option<&str>) -> (r: bool)
    ensures
        r == match value {
            Some(v) => truthy(ascii_lower_seq(trim_seq(v@))),
            None => false,
        },
{
    match value {
        Some(v) => {
            let t = string_of(&lower_chars(&trim_chars(&chars_of(v))));
            let s = t.as_str();
            same_text(s, "1") || same_text(s, "true") || same_text(s, "yes") || same_text(s, "on")
        },
        None => false,
    }
}

/// A setting's value, or `default` when it is absent or blank.
pub open spec fn setting(value: Option<String>, default: Seq<char>) -> Seq<char> {
    match value {
        Some(v) => if is_blank(v@) {
            default
        } else {
            v@
        },
        None => default,
    }
}

/// `env_or`: a setting's value, or `default` when it is absent or blank.
pub fn env_or(value: &Option<String>, default: &str) -> (r: String)
    ensures
        r@ == setting(*value, default@),
{
    match value {
        Some(v) => if blank(&chars_of(v.as_str())) {
            owned(default)
        } else {
            v.clone()
        },
        None => owned(default),
    }
}

/// The environment settings the builder reads (each absent when unset).
#[derive(Debug, Clone, PartialEq, Eq)]
pub struct BuilderEnv {
    pub gh_token: Option<String>,
    pub gh_repo: Option<String>,
    pub gh_workflow: Option<String>,
    pub gh_ref: Option<String>,
    pub rustdesk_ref: Option<String>,
    pub storage: Option<String>,
    pub installer_path: Option<String>,
}

/// The builder's configuration.
#[derive(Debug, Clone, PartialEq, Eq)]
pub struct BuilderConfig {
    pub repo: String,
    pub workflow: String,
    pub git_ref: String,
    pub token: String,
    pub rustdesk_ref: String,
    pub storage: String,
    /// The directory the built executables are stored in.
    pub generated_dir: String,
}

/// The message given when the GitHub token or repository is missing.
pub open spec fn missing_github_message() -> Seq<char> {
    "CLIENT_BUILDER_GH_TOKEN e CLIENT_BUILDER_GH_REPO sao obrigatorios"@
}

/// The installer path assumed when `INSTALLER_PATH` is not set.
pub open spec fn default_installer_path() -> Seq<char> {
    "/app/generated/rustdesk-installer.exe"@
}

/// A plain absolute path: it starts at the root `/`, has no `\\`, and
/// every `/` is followed by a component that starts with neither `/` nor
/// `.` (so no empty, `.` or `..` component and no trailing `/`).
pub open spec fn simple_absolute(p: Seq<char>) -> bool {
    &&& p.len() >= 2
    &&& p[0] == '/'
    &&& forall|i: int| 0 <= i < p.len() ==> p[i] != '\\'
    &&& forall|i: int|
        0 <= i < p.len() && #[trigger] p[i] == '/' ==> i + 1 < p.len() && p[i + 1] != '/' && p[i + 1] != '.'
}

/// The text before the last `/` of `p`.
pub open spec fn before_last_slash(p: Seq<char>) -> Seq<char>
    decreases p.len(),
{
    if p.len() == 0 {
        p
    } else if p.last() == '/' {
        p.drop_last()
    } else {
        before_last_slash(p.drop_last())
    }
}

/// The parent of a plain absolute path: the path without its last
/// component, or the root when only one component is left.
pub open spec fn simple_parent(p: Seq<char>) -> Seq<char> {
    if before_last_slash(p).len() == 0 {
        "/"@
    } else {
        before_last_slash(p)
    }
}

/// `std::path::Path::new(path).parent()`, as text.  `Path::parent`
/// documents no parent for the empty path and for a path that is only the
/// root `/`, and the path without its final component otherwise (as in its
/// examples `/foo/bar` to `/foo` and `/foo` to `/`); that is stated for
/// plain absolute paths.  For other paths the result depends on how the
/// platform splits paths into components (separators, prefixes, `.`
/// components) and is not stated here.
#[verifier::external_body]
fn path_parent(path: &str) -> (r: Option<String>)
    ensures
        path@.len() == 0 ==> r is None,
        path@ == "/"@ ==> r is None,
        simple_absolute(path@) ==> r is Some && r->0@ == simple_parent(path@),
{
    std::path::Path::new(path).parent().map(|p| p.to_string_lossy().into_owned())
}

proof fn lemma_before_last_slash(p: Seq<char>, k: int)
    requires
        0 <= k < p.len(),
        p[k] == '/',
        forall|i: int| k < i < p.len() ==> p[i] != '/',
    ensures
        before_last_slash(p) == p.take(k),
    decreases p.len(),
{
    if k < p.len() - 1 {
        lemma_before_last_slash(p.drop_last(), k);
        assert(p.drop_last().take(k) == p.take(k));
    } else {
        assert(p.drop_last() == p.take(k));
    }
}

/// The default installer path is a plain absolute path whose parent is
/// `/app/generated`.
proof fn lemma_default_installer_dir()
    ensures
        simple_absolute(default_installer_path()),
        simple_parent(default_installer_path()) == "/app/generated"@,
{
    let p = default_installer_path();
    reveal_strlit("/app/generated/rustdesk-installer.exe");
    reveal_strlit("/app/generated");
    assert(p.len() == 37);
    assert forall|i: int| 0 <= i < p.len() && #[trigger] p[i] == '/' implies i + 1 < p.len() && p[i + 1]
        != '/' && p[i + 1] != '.' by {
        assert(i == 0 || i == 4 || i == 14);
    }
    lemma_before_last_slash(p, 14);
    assert(p.take(14) == "/app/generated"@);
}

/// `generated_dir`: the directory the generated executables are kept in,
/// the parent of the installer path (`INSTALLER_PATH`, by default
/// `/app/generated/rustdesk-installer.exe`), or `/app/generated` when the
/// path has none.
pub fn installer_dir(installer_path: &Option<String>) -> (r: String)
    ensures
        setting(*installer_path, default_installer_path()) == "/"@ ==> r@ == "/app/generated"@,
        simple_absolute(setting(*installer_path, default_installer_path())) ==> r@ == simple_parent(
            setting(*installer_path, default_installer_path()),
        ),
        setting(*installer_path, default_installer_path()) == default_installer_path() ==> r@
            == "/app/generated"@,
{
    proof {
        lemma_default_installer_dir();
    }
    let path = env_or(installer_path, "/app/generated/rustdesk-installer.exe");
    match path_parent(path.as_str()) {
        Some(p) => p,
        None => owned("/app/generated"),
    }
}

/// The configuration that `env` gives, with `installer_parent` the parent
/// directory of the installer path (`None` when it has none).  Refused
/// when the GitHub token or repository is missing.
pub open spec fn config_of(env: BuilderEnv, installer_parent: Option<String>) -> Result<
    (Seq<char>, Seq<char>, Seq<char>, Seq<char>, Seq<char>, Seq<char>, Seq<char>),
    Seq<char>,
> {
    let token = setting(env.gh_token, ""@);
    let repo = setting(env.gh_repo, ""@);
    if token.len() == 0 || repo.len() == 0 {
        Err(missing_github_message())
    } else {
        Ok(
            (
                repo,
                setting(env.gh_workflow, "build-plain.yml"@),
                setting(env.gh_ref, "master"@),
                token,
                setting(env.rustdesk_ref, "1.4.8"@),
                setting(env.storage, "local"@),
                match installer_parent {
                    Some(p) => p@,
                    None => "/app/generated"@,
                },
            ),
        )
    }
}

/// `c` holds the values listed in `v` (repo, workflow, ref, token,
/// RustDesk ref, storage, directory).
pub open spec fn config_is(
    c: BuilderConfig,
    v: (Seq<char>, Seq<char>, Seq<char>, Seq<char>, Seq<char>, Seq<char>, Seq<char>),
) -> bool {
    &&& c.repo@ == v.0
    &&& c.workflow@ == v.1
    &&& c.git_ref@ == v.2
    &&& c.token@ == v.3
    &&& c.rustdesk_ref@ == v.4
    &&& c.storage@ == v.5
    &&& c.generated_dir@ == v.6
}

/// `c` holds the settings of `env` (the directory aside, which depends on
/// how the platform splits the installer path).
pub open spec fn settings_taken(c: BuilderConfig, env: BuilderEnv) -> bool {
    &&& c.repo@ == setting(env.gh_repo, ""@)
    &&& c.workflow@ == setting(env.gh_workflow, "build-plain.yml"@)
    &&& c.git_ref@ == setting(env.gh_ref, "master"@)
    &&& c.token@ == setting(env.gh_token, ""@)
    &&& c.rustdesk_ref@ == setting(env.rustdesk_ref, "1.4.8"@)
    &&& c.storage@ == setting(env.storage, "local"@)
}

impl BuilderConfig {
    /// The configuration from the environment settings, given the parent
    /// directory of the installer path.
    pub fn from_settings(env: &BuilderEnv, installer_parent: Option<String>) -> (r: Result<
        BuilderConfig,
        crate::error::AppError,
    >)
        ensures
            match config_of(*env, installer_parent) {
                Ok(v) => r matches Ok(c) && config_is(c, v),
                Err(m) => r matches Err(crate::error::AppError::Other(e)) && e@ == m,
            },
    {
        let token = env_or(&env.gh_token, "");
        let repo = env_or(&env.gh_repo, "");
        if token.as_str().is_empty() || repo.as_str().is_empty() {
            return Err(crate::error::AppError::Other(owned(
                "CLIENT_BUILDER_GH_TOKEN e CLIENT_BUILDER_GH_REPO sao obrigatorios",
            )));
        }
        let generated_dir = match installer_parent {
            Some(p) => p,
            None => owned("/app/generated"),
        };
        Ok(
            BuilderConfig {
                repo,
                workflow: env_or(&env.gh_workflow, "build-plain.yml"),
                git_ref: env_or(&env.gh_ref, "master"),
                token,
                rustdesk_ref: env_or(&env.rustdesk_ref, "1.4.8"),
                storage: env_or(&env.storage, "local"),
                generated_dir,
            },
        )
    }

    /// `from_env`: the builder's configuration from its environment
    /// settings; refused when the GitHub token or repository is missing.
    pub fn from_env(env: &BuilderEnv) -> (r: Result<BuilderConfig, crate::error::AppError>)
        ensures
            setting(env.gh_token, ""@).len() == 0 || setting(env.gh_repo, ""@).len() == 0 <==> r is Err,
            r matches Err(e) ==> (e matches crate::error::AppError::Other(m) && m@
                == missing_github_message()),
            r matches Ok(c) ==> settings_taken(c, *env),
            r matches Ok(c) ==> {
                let p = setting(env.installer_path, default_installer_path());
                &&& p == "/"@ ==> c.generated_dir@ == "/app/generated"@
                &&& simple_absolute(p) ==> c.generated_dir@ == simple_parent(p)
                &&& p == default_installer_path() ==> c.generated_dir@ == "/app/generated"@
            },
    {
        let dir = installer_dir(&env.installer_path);
        Self::from_settings(env, Some(dir))
    }
}

/// `store`: only the local backend stores artifacts; `s3` is not
/// implemented yet and any other name is refused.
pub fn check_storage(storage: &str) -> (r: Result<(), String>)
    ensures
        storage@ == "local"@ <==> r is Ok,
        storage@ == "s3"@ ==> (r matches Err(m) && m@ == "backend s3 ainda nao implementado (proximo passo)"@),
        storage@ != "local"@ && storage@ != "s3"@ ==> (r matches Err(m) && m@
            == "CLIENT_BUILDER_STORAGE invalido: "@ + storage@),
{
    proof {
        reveal_strlit("local");
        reveal_strlit("s3");
        assert("local"@ != "s3"@) by {
            assert("local"@.len() != "s3"@.len());
        }
    }
    if same_text(storage, "local") {
        Ok(())
    } else if same_text(storage, "s3") {
        Err(owned("backend s3 ainda nao implementado (proximo passo)"))
    } else {
        let mut m = owned("CLIENT_BUILDER_STORAGE invalido: ");
        push_text(&mut m, storage);
        Err(m)
    }
}

/// What to do after one look at the build run.
#[derive(Debug, Clone, PartialEq, Eq)]
pub enum PollAction {
    /// Look again after the next pause.
    KeepPolling,
    /// The run succeeded: fetch and store its artifact.
    Download,
    /// The run ended without success.
    Failed(String),
}

/// How many times the run is looked at before giving up (every 30 s, about 90 minutes).
pub const POLL_ATTEMPTS: u32 = 180;

/// Seconds between two looks at the run.
pub const POLL_INTERVAL_SECS: u64 = 30;

/// The message stored when the run is still not done after every look.
pub open spec fn poll_timeout_message() -> Seq<char> {
    "timeout aguardando o build"@
}

/// `poll_and_store`: the text stored when polling gives up.
pub fn poll_timeout() -> (r: String)
    ensures
        r@ == poll_timeout_message(),
{
    owned("timeout aguardando o build")
}

/// `poll_and_store` (one look): a failed look or a run not yet completed
/// means looking again; a completed run is fetched when it succeeded and
/// fails otherwise.  `observed` is the run's status and conclusion, or
/// `None` when the look failed.
pub fn poll_step(observed: Option<(&str, Option<&str>)>) -> (r: PollAction)
    ensures
        match observed {
            None => r == PollAction::KeepPolling,
            Some((status, conclusion)) => if status@ != "completed"@ {
                r == PollAction::KeepPolling
            } else if conclusion matches Some(c) && c@ == "success"@ {
                r == PollAction::Download
            } else {
                r matches PollAction::Failed(m) && m@ == "run concluido sem sucesso"@
            },
        },
{
    match observed {
        None => PollAction::KeepPolling,
        Some((status, conclusion)) => {
            if !same_text(status, "completed") {
                return PollAction::KeepPolling;
            }
            match conclusion {
                Some(c) => if same_text(c, "success") {
                    return PollAction::Download;
                },
                None => {},
            }
            PollAction::Failed(owned("run concluido sem sucesso"))
        },
    }
}

/// How many times `dispatch` looks for the new run (every 3 s).
pub const DISPATCH_ATTEMPTS: u32 = 20;

/// `dispatch` (one look): the id of the latest run when it is newer than
/// the one seen before the dispatch.
pub fn new_run(before: i64, latest: Option<i64>) -> (r: Option<i64>)
    ensures
        r == match latest {
            Some(id) => if id > before {
                Some(id)
            } else {
                None
            },
            None => None,
        },
{
    match latest {
        Some(id) => if id > before {
            Some(id)
        } else {
            None
        },
        None => None,
    }
}

/// An artifact of a run as listed by GitHub.
#[derive(Debug, Clone, PartialEq, Eq)]
pub struct ArtifactInfo {
    pub name: Option<String>,
    pub id: Option<i64>,
}

/// The artifact is named `name`.
pub open spec fn named(a: ArtifactInfo, name: Seq<char>) -> bool {
    a.name matches Some(n) && n@ == name
}

/// The position of the first artifact named `name`.
pub open spec fn first_named(arts: Seq<ArtifactInfo>, name: Seq<char>, i: int) -> bool {
    0 <= i < arts.len() && named(arts[i], name) && forall|j: int|
        0 <= j < i ==> !named(#[trigger] arts[j], name)
}

/// `download_exe` (choice of the artifact): the id of the first artifact
/// named `name`; refused when the run lists no artifacts, none has the
/// name, or that one has no id.
pub fn select_artifact(artifacts: Option<Vec<ArtifactInfo>>, name: &str) -> (r: Result<i64, String>)
    ensures
        match artifacts {
            None => r matches Err(m) && m@ == "sem artifacts"@,
            Some(arts) => if exists|i: int| first_named(arts@, name@, i) {
                let i = choose|i: int| first_named(arts@, name@, i);
                match arts@[i].id {
                    Some(id) => r == Ok::<i64, String>(id),
                    None => r matches Err(m) && m@ == "artifact sem id"@,
                }
            } else {
                r matches Err(m) && m@ == "artifact nao encontrado"@
            },
        },
{
    match artifacts {
        None => Err(owned("sem artifacts")),
        Some(arts) => first_artifact_id(&arts, name),
    }
}

fn first_artifact_id(arts: &Vec<ArtifactInfo>, name: &str) -> (r: Result<i64, String>)
    ensures
        if exists|i: int| first_named(arts@, name@, i) {
            let i = choose|i: int| first_named(arts@, name@, i);
            match arts@[i].id {
                Some(id) => r == Ok::<i64, String>(id),
                None => r matches Err(m) && m@ == "artifact sem id"@,
            }
        } else {
            r matches Err(m) && m@ == "artifact nao encontrado"@
        },
{
    let wanted = chars_of(name);
    let mut i: usize = 0;
    while i < arts.len()
        invariant
            i <= arts@.len(),
            wanted@ == name@,
            forall|j: int| 0 <= j < i ==> !named(#[trigger] arts@[j], name@),
        decreases arts@.len() - i,
    {
        let hit = match &arts[i].name {
            Some(n) => same_chars(&chars_of(n.as_str()), &wanted),
            None => false,
        };
        if hit {
            proof {
                assert(first_named(arts@, name@, i as int));
                let k = choose|k: int| first_named(arts@, name@, k);
                if k < i {
                    assert(false);
                } else if k > i {
                    assert(false);
                }
            }
            return match arts[i].id {
                Some(id) => Ok(id),
                None => Err(owned("artifact sem id")),
            };
        }
        i = i + 1;
    }
    Err(owned("artifact nao encontrado"))
}

/// `branded_exe_path` (file name): the branded executable of a client is
/// stored as `branded-<client id>.exe`.
pub fn branded_exe_name(tenant_id: u128) -> (r: String)
    ensures
        r@ == "branded-"@ + uuid_text(tenant_id) + ".exe"@,
{
    let mut r = owned("branded-");
    let id = uuid_string(tenant_id);
    push_text(&mut r, id.as_str());
    push_text(&mut r, ".exe");
    r
}

#[verifier::external_type_specification]
#[verifier::external_body]
#[verifier::reject_recursive_types(R)]
pub struct ExZipArchive<R>(zip::ZipArchive<R>);

#[verifier::external_type_specification]
#[verifier::external_body]
#[verifier::reject_recursive_types(T)]
pub struct ExCursor<T>(std::io::Cursor<T>);

/// The bytes a zip archive was opened over.
pub uninterp spec fn zip_source(archive: zip::ZipArchive<std::io::Cursor<Vec<u8>>>) -> Seq<u8>;

/// Whether `zip::ZipArchive::new` accepts the bytes as an archive.
pub uninterp spec fn zip_opens(bytes: Seq<u8>) -> bool;

/// `ZipArchive::len` of the archive held by the bytes: how many entries it lists.
pub uninterp spec fn zip_entry_count(bytes: Seq<u8>) -> nat;

/// The name of entry `i` of the archive held by the bytes (`ZipArchive::by_index`,
/// then `ZipFile::name`), or `None` when the entry cannot be opened.
pub uninterp spec fn zip_entry_name(bytes: Seq<u8>, i: nat) -> Option<Seq<char>>;

/// The contents of entry `i` of the archive held by the bytes (`ZipArchive::by_index`,
/// then `Read::read_to_end`), or `None` when they cannot be read.
pub uninterp spec fn zip_entry_data(bytes: Seq<u8>, i: nat) -> Option<Seq<u8>>;

/// `zip::ZipArchive::new` over the bytes: the archive they hold, or the
/// text of the error.  The archive remembers the bytes it reads.
#[verifier::external_body]
fn zip_open(bytes: Vec<u8>) -> (r: Result<zip::ZipArchive<std::io::Cursor<Vec<u8>>>, String>)
    ensures
        r is Ok <==> zip_opens(bytes@),
        r matches Ok(a) ==> zip_source(a) == bytes@,
{
    zip::ZipArchive::new(std::io::Cursor::new(bytes)).map_err(|e| e.to_string())
}

/// `ZipArchive::len`: how many entries the archive lists.
#[verifier::external_body]
fn zip_len(archive: &zip::ZipArchive<std::io::Cursor<Vec<u8>>>) -> (r: usize)
    ensures
        r == zip_entry_count(zip_source(*archive)),
{
    archive.len()
}

/// `ZipArchive::by_index` and `ZipFile::name`: the name of entry `i`, or the
/// text of the error.  Reading does not change what the archive holds.
#[verifier::external_body]
fn zip_name(archive: &mut zip::ZipArchive<std::io::Cursor<Vec<u8>>>, i: usize) -> (r: Result<String, String>)
    ensures
        zip_source(*final(archive)) == zip_source(*old(archive)),
        match zip_entry_name(zip_source(*old(archive)), i as nat) {
            Some(n) => r matches Ok(s) && s@ == n,
            None => r is Err,
        },
{
    archive.by_index(i).map(|f| f.name().to_string()).map_err(|e| e.to_string())
}

/// `ZipArchive::by_index` and `Read::read_to_end`: the contents of entry
/// `i`, or the text of the error.  Reading does not change what the
/// archive holds.
#[verifier::external_body]
fn zip_data(archive: &mut zip::ZipArchive<std::io::Cursor<Vec<u8>>>, i: usize) -> (r: Result<Vec<u8>, String>)
    ensures
        zip_source(*final(archive)) == zip_source(*old(archive)),
        match zip_entry_data(zip_source(*old(archive)), i as nat) {
            Some(d) => r matches Ok(v) && v@ == d,
            None => r is Err,
        },
{
    let mut file = archive.by_index(i).map_err(|e| e.to_string())?;
    let mut buf = Vec::new();
    std::io::Read::read_to_end(&mut file, &mut buf).map_err(|e| e.to_string())?;
    Ok(buf)
}

/// An entry name that ends in `.exe`, in any ASCII case.
pub open spec fn is_exe_name(n: Seq<char>) -> bool {
    has_suffix(ascii_lower_seq(n), ".exe"@)
}

/// Entries `0..k` of the archive held by the bytes open and none is an executable.
pub open spec fn no_exe_before(bytes: Seq<u8>, k: nat) -> bool {
    forall|j: nat| j < k ==> (#[trigger] zip_entry_name(bytes, j) matches Some(n) && !is_exe_name(n))
}

/// Entry `i` is the first executable of the archive held by the bytes.
pub open spec fn first_exe(bytes: Seq<u8>, i: nat) -> bool {
    &&& i < zip_entry_count(bytes)
    &&& no_exe_before(bytes, i)
    &&& zip_entry_name(bytes, i) matches Some(n) && is_exe_name(n)
}

/// `extract_exe`: the contents of the first entry of the artifact archive
/// whose name ends in `.exe`.  Entries are looked at in order; the search
/// stops at the first entry that cannot be opened, and fails when the
/// bytes are no archive, the executable cannot be read, or there is none.
pub fn extract_exe(zip_bytes: Vec<u8>) -> (r: Result<Vec<u8>, String>)
    ensures
        !zip_opens(zip_bytes@) ==> r is Err,
        r matches Ok(d) ==> exists|i: nat| first_exe(zip_bytes@, i) && zip_entry_data(zip_bytes@, i)
            == Some(d@),
        zip_opens(zip_bytes@) ==> forall|i: nat| first_exe(zip_bytes@, i) ==> (
        match zip_entry_data(zip_bytes@, i) {
            Some(d) => r matches Ok(v) && v@ == d,
            None => r is Err,
        }),
        zip_opens(zip_bytes@) && no_exe_before(zip_bytes@, zip_entry_count(zip_bytes@)) ==> (
        r matches Err(m) && m@ == "nenhum .exe no artifact"@),
{
    let ghost bytes = zip_bytes@;
    let mut archive = match zip_open(zip_bytes) {
        Ok(a) => a,
        Err(e) => return Err(e),
    };
    let n = zip_len(&archive);
    let exe = chars_of(".exe");
    let mut i: usize = 0;
    while i < n
        invariant
            bytes == zip_bytes@,
            zip_source(archive) == bytes,
            zip_opens(bytes),
            n == zip_entry_count(bytes),
            i <= n,
            exe@ == ".exe"@,
            no_exe_before(bytes, i as nat),
        decreases n - i,
    {
        let looked = zip_name(&mut archive, i);
        let name = match looked {
            Ok(name) => name,
            Err(e) => {
                proof {
                    assert(zip_entry_name(bytes, i as nat) is None);
                    assert forall|k: nat| first_exe(bytes, k) implies false by {
                        if k > i {
                            assert(zip_entry_name(bytes, i as nat) matches Some(_));
                        } else if k < i {
                            assert(zip_entry_name(bytes, k) matches Some(m) && !is_exe_name(m));
                        }
                    }
                    assert(bytes == zip_bytes@);
                }
                return Err(e);
            },
        };
        if ends_with_chars(&lower_chars(&chars_of(name.as_str())), &exe) {
            proof {
                assert(first_exe(bytes, i as nat));
                assert forall|k: nat| first_exe(bytes, k) implies k == i by {
                    if k > i {
                        assert(zip_entry_name(bytes, i as nat) matches Some(m) && !is_exe_name(m));
                    } else if k < i {
                        assert(zip_entry_name(bytes, k) matches Some(m) && !is_exe_name(m));
                    }
                }
            }
            let data = zip_data(&mut archive, i);
            proof {
                assert(bytes == zip_bytes@);
                if data is Ok {
                    assert(first_exe(zip_bytes@, i as nat) && zip_entry_data(zip_bytes@, i as nat)
                        == Some(data->Ok_0@));
                }
            }
            return data;
        }
        proof {
            assert forall|j: nat| j < i + 1 implies (#[trigger] zip_entry_name(bytes, j) matches Some(m)
                && !is_exe_name(m)) by {
                if j < i {
                    assert(zip_entry_name(bytes, j) matches Some(m) && !is_exe_name(m));
                }
            }
        }
        i = i + 1;
    }
    proof {
        assert forall|k: nat| first_exe(bytes, k) implies false by {
            assert(k < n);
        }
    }
    Err(owned("nenhum .exe no artifact"))
}

} // verus!
