//! Logic of the administration endpoints: checks on what is created,
//! branding and build inputs of the branded client, the download of the
//! branded client, the install script, and the targets of a command.
use vstd::prelude::*;

use crate::error::AppError;
use crate::ids::{uuid_string, uuid_text};
use crate::installer::ServerConfig;
use crate::text::{
    blank, chars_of, has_prefix, is_blank, join_texts, joined, owned, same_text,
    starts_with_chars, string_of, trim_chars, trim_end_char, trim_end_char_seq, trim_seq,
};

verus! {

/// Roles an administrator can give to a new account.
pub open spec fn assignable_role(role: Seq<char>) -> bool {
    role == "admin"@ || role == "operator"@ || role == "viewer"@
}

/// `create_user` (check): a new account gets one of the roles `admin`,
/// `operator` or `viewer`.
pub fn check_new_user_role(role: &str) -> (r: Result<(), AppError>)
    ensures
        assignable_role(role@) <==> r is Ok,
        r matches Err(e) ==> (e matches AppError::BadRequest(m) && m@ == "role inválido"@),
{
    if same_text(role, "admin") || same_text(role, "operator") || same_text(role, "viewer") {
        Ok(())
    } else {
        Err(AppError::BadRequest(owned("role inválido")))
    }
}

/// `create_tenant` (check): a new client needs a name and a slug; both are
/// stored trimmed.
pub fn tenant_fields(name: &str, slug: &str) -> (r: Result<(String, String), AppError>)
    ensures
        (trim_seq(name@).len() == 0 || trim_seq(slug@).len() == 0) <==> r is Err,
        r matches Ok(v) ==> v.0@ == trim_seq(name@) && v.1@ == trim_seq(slug@),
        r matches Err(e) ==> (e matches AppError::BadRequest(m) && m@ == "nome e slug são obrigatórios"@),
{
    let n = trim_chars(&chars_of(name));
    let s = trim_chars(&chars_of(slug));
    if n.len() == 0 || s.len() == 0 {
        return Err(AppError::BadRequest(owned("nome e slug são obrigatórios")));
    }
    Ok((string_of(&n), string_of(&s)))
}

/// `create_tag`: a tag without a colour is blue.
pub fn tag_color(color: Option<String>) -> (r: String)
    ensures
        r@ == match color {
            Some(c) => c@,
            None => "#3b82f6"@,
        },
{
    match color {
        Some(c) => c,
        None => owned("#3b82f6"),
    }
}

/// The branding a client submits for its customised desktop client.
#[derive(Debug, Clone, PartialEq, Eq)]
pub struct BrandingForm {
    pub app_name: String,
    pub file_name: String,
    pub comp_name: String,
    pub url_link: String,
    pub rustdesk_ref: Option<String>,
}

/// The branding as stored: every text trimmed, the RustDesk version
/// defaulting to 1.4.8 when not given.
#[derive(Debug, Clone, PartialEq, Eq)]
pub struct BrandingValues {
    pub app_name: String,
    pub file_name: String,
    pub comp_name: String,
    pub url_link: String,
    pub rustdesk_ref: String,
}

/// The RustDesk version a branding asks for.
pub open spec fn branding_ref(r: Option<String>) -> Seq<char> {
    match r {
        Some(v) => if is_blank(v@) {
            "1.4.8"@
        } else {
            trim_seq(v@)
        },
        None => "1.4.8"@,
    }
}

fn trimmed(s: &str) -> (r: String)
    ensures
        r@ == trim_seq(s@),
{
    string_of(&trim_chars(&chars_of(s)))
}

/// `save_branding`: the values stored for a submitted branding.
pub fn branding_values(form: &BrandingForm) -> (r: BrandingValues)
    ensures
        r.app_name@ == trim_seq(form.app_name@),
        r.file_name@ == trim_seq(form.file_name@),
        r.comp_name@ == trim_seq(form.comp_name@),
        r.url_link@ == trim_seq(form.url_link@),
        r.rustdesk_ref@ == branding_ref(form.rustdesk_ref),
{
    let rustdesk_ref = match &form.rustdesk_ref {
        Some(v) => if blank(&chars_of(v.as_str())) {
            owned("1.4.8")
        } else {
            trimmed(v.as_str())
        },
        None => owned("1.4.8"),
    };
    proof {
        reveal_strlit("1.4.8");
        assert(trim_seq("1.4.8"@) == "1.4.8"@) by {
            reveal_with_fuel(crate::text::trim_start_seq, 2);
            reveal_with_fuel(crate::text::trim_end_seq, 2);
        }
    }
    BrandingValues {
        app_name: trimmed(form.app_name.as_str()),
        file_name: trimmed(form.file_name.as_str()),
        comp_name: trimmed(form.comp_name.as_str()),
        url_link: trimmed(form.url_link.as_str()),
        rustdesk_ref,
    }
}

/// `upload_icon` (check): an empty image is refused.
pub fn check_icon(len: usize) -> (r: Result<(), AppError>)
    ensures
        len > 0 <==> r is Ok,
        r matches Err(e) ==> (e matches AppError::BadRequest(m) && m@ == "imagem vazia"@),
{
    if len == 0 {
        return Err(AppError::BadRequest(owned("imagem vazia")));
    }
    Ok(())
}

/// `trigger_build` (check): builds can only be requested while the client
/// builder is on.
pub fn require_builder(enabled: bool) -> (r: Result<(), AppError>)
    ensures
        enabled <==> r is Ok,
        r matches Err(e) ==> (e matches AppError::BadRequest(m) && m@ == "gerador de cliente desabilitado"@),
{
    if !enabled {
        return Err(AppError::BadRequest(owned("gerador de cliente desabilitado")));
    }
    Ok(())
}

/// A client's stored branding, as a build reads it.
#[derive(Debug, Clone, PartialEq, Eq)]
pub struct Branding {
    pub app_name: String,
    pub file_name: String,
    pub comp_name: String,
    pub url_link: String,
    pub rustdesk_ref: String,
}

/// `trigger_build` (check): a build needs a stored branding with an
/// application name and a file name.
pub fn check_branding(branding: Option<&Branding>) -> (r: Result<(), AppError>)
    ensures
        match branding {
            None => (r matches Err(AppError::BadRequest(m)) && m@ == "configure o branding primeiro"@),
            Some(b) => if is_blank(b.app_name@) || is_blank(b.file_name@) {
                (r matches Err(AppError::BadRequest(m)) && m@ == "app_name e file_name sao obrigatorios"@)
            } else {
                r is Ok
            },
        },
{
    match branding {
        None => Err(AppError::BadRequest(owned("configure o branding primeiro"))),
        Some(b) => {
            if blank(&chars_of(b.app_name.as_str())) || blank(&chars_of(b.file_name.as_str())) {
                return Err(AppError::BadRequest(owned("app_name e file_name sao obrigatorios")));
            }
            Ok(())
        },
    }
}

/// `trigger_build` (check): a build needs the server's address and key.
pub fn check_build_server(server: &ServerConfig) -> (r: Result<(), AppError>)
    ensures
        (is_blank(server.server_ip@) || is_blank(server.server_key@)) <==> r is Err,
        r matches Err(e) ==> (e matches AppError::BadRequest(m) && m@ == "configure o servidor primeiro"@),
{
    if blank(&chars_of(server.server_ip.as_str())) || blank(&chars_of(server.server_key.as_str())) {
        return Err(AppError::BadRequest(owned("configure o servidor primeiro")));
    }
    Ok(())
}

/// The inputs of the workflow that builds a client's branded executable
/// (besides its custom configuration, which is passed on as stored).
#[derive(Debug, Clone, PartialEq, Eq)]
pub struct BuildInputs {
    pub version: String,
    pub appname: String,
    pub filename: String,
    pub compname: String,
    pub url_link: String,
    pub server: String,
    pub key: String,
    /// The API the built client reports to: the client's own path.
    pub api_server: String,
    /// Where the build fetches the client's icon, or empty without one.
    pub icon_url: String,
    /// The artifact the build produces.
    pub artifact_name: String,
}

/// The API URL without its trailing slashes.
pub open spec fn api_base(api_url: Seq<char>) -> Seq<char> {
    trim_end_char_seq(api_url, '/')
}

/// `trigger_build`: the workflow inputs for a client's branded build.
/// The client's own RustDesk version wins over the configured default.
pub fn build_inputs(
    branding: &Branding,
    server: &ServerConfig,
    tenant_id: u128,
    has_icon: bool,
    default_ref: &str,
) -> (r: BuildInputs)
    ensures
        r.version@ == (if is_blank(branding.rustdesk_ref@) {
            default_ref@
        } else {
            branding.rustdesk_ref@
        }),
        r.appname@ == branding.app_name@,
        r.filename@ == branding.file_name@,
        r.compname@ == branding.comp_name@,
        r.url_link@ == branding.url_link@,
        r.server@ == server.server_ip@,
        r.key@ == server.server_key@,
        r.api_server@ == api_base(server.api_url@) + "/t/"@ + uuid_text(tenant_id),
        r.icon_url@ == (if has_icon {
            api_base(server.api_url@) + "/api/branding/"@ + uuid_text(tenant_id) + "/icon.png"@
        } else {
            Seq::<char>::empty()
        }),
        r.artifact_name@ == branding.file_name@,
{
    let base = string_of(&trim_end_char(&chars_of(server.api_url.as_str()), '/'));
    let id = uuid_string(tenant_id);
    let api_parts = [base.as_str(), "/t/", id.as_str()];
    let api_server = join_texts(&api_parts);
    let icon_url = if has_icon {
        let icon_parts = [base.as_str(), "/api/branding/", id.as_str(), "/icon.png"];
        join_texts(&icon_parts)
    } else {
        String::new()
    };
    proof {
        reveal_with_fuel(joined, 5);
    }
    let version = if blank(&chars_of(branding.rustdesk_ref.as_str())) {
        owned(default_ref)
    } else {
        branding.rustdesk_ref.clone()
    };
    BuildInputs {
        version,
        appname: branding.app_name.clone(),
        filename: branding.file_name.clone(),
        compname: branding.comp_name.clone(),
        url_link: branding.url_link.clone(),
        server: server.server_ip.clone(),
        key: server.server_key.clone(),
        api_server,
        icon_url,
        artifact_name: branding.file_name.clone(),
    }
}

/// How a client's branded executable is handed out.
#[derive(Debug, Clone, PartialEq, Eq)]
pub enum BrandedDownload {
    /// Stored remotely: redirect to this URL.
    Redirect(String),
    /// Stored on disk at `path`, sent with a `Content-Disposition` naming it.
    File { path: String, disposition: String },
}

/// The row of a client's branded build: its status, where the artifact is
/// stored, and its file name.
#[derive(Debug, Clone, PartialEq, Eq)]
pub struct BrandedRow {
    pub status: String,
    pub artifact: Option<String>,
    pub file_name: String,
}

/// The name the download is offered under: the branding's file name, or
/// `rustdesk` when it is blank.
pub open spec fn download_name(file_name: Seq<char>) -> Seq<char> {
    if is_blank(file_name) {
        "rustdesk"@
    } else {
        file_name
    }
}

/// `serve_branded`: only a build that is ready and has an artifact can be
/// downloaded; an artifact stored under an `http://` or `https://` URL is
/// a redirect, any other is a file on disk.
pub fn branded_download(row: Option<BrandedRow>) -> (r: Result<BrandedDownload, AppError>)
    ensures
        match row {
            None => r == Err::<BrandedDownload, AppError>(AppError::NotFound),
            Some(b) => if b.status@ != "ready"@ {
                r == Err::<BrandedDownload, AppError>(AppError::NotFound)
            } else {
                match b.artifact {
                    None => r == Err::<BrandedDownload, AppError>(AppError::NotFound),
                    Some(a) => if has_prefix(a@, "http://"@) || has_prefix(a@, "https://"@) {
                        r matches Ok(BrandedDownload::Redirect(u)) && u@ == a@
                    } else {
                        r matches Ok(BrandedDownload::File { path, disposition }) && path@ == a@
                            && disposition@ == "attachment; filename=\""@ + download_name(b.file_name@)
                            + ".exe\""@
                    },
                }
            },
        },
{
    let b = match row {
        None => return Err(AppError::NotFound),
        Some(b) => b,
    };
    if !same_text(b.status.as_str(), "ready") {
        return Err(AppError::NotFound);
    }
    let artifact = match b.artifact {
        None => return Err(AppError::NotFound),
        Some(a) => a,
    };
    let fname = if blank(&chars_of(b.file_name.as_str())) {
        owned("rustdesk")
    } else {
        b.file_name
    };
    let ac = chars_of(artifact.as_str());
    if starts_with_chars(&ac, &chars_of("http://")) || starts_with_chars(&ac, &chars_of("https://")) {
        return Ok(BrandedDownload::Redirect(artifact));
    }
    let parts = ["attachment; filename=\"", fname.as_str(), ".exe\""];
    let disposition = join_texts(&parts);
    proof {
        reveal_with_fuel(joined, 4);
    }
    Ok(BrandedDownload::File { path: artifact, disposition })
}

/// The PowerShell script served at `/i/<code>`: it elevates itself, then
/// downloads the client's installer from `<api>/install/<code>`, unblocks
/// and runs it, and removes it.
pub open spec fn install_script_text(api: Seq<char>, code: Seq<char>, tenant: Seq<char>) -> Seq<char> {
    "# RustDesk Plus — Instalação automática\n# Execute com: irm \""@ + api + "/i/"@ + code + "\" | iex\n$ErrorActionPreference = 'Stop'\n[Net.ServicePointManager]::SecurityProtocol = [Net.SecurityProtocolType]::Tls12\nIf (-Not ([Security.Principal.WindowsPrincipal][Security.Principal.WindowsIdentity]::GetCurrent()).IsInRole([Security.Principal.WindowsBuiltInRole]::Administrator)) {\n    Write-Host \"Solicitando permissão de administrador...\" -ForegroundColor Yellow\n    $arg = \"-NoProfile -ExecutionPolicy Bypass -Command `\"irm '"@ + api + "/i/"@ + code + "' | iex`\"\"\n    Start-Process PowerShell -Verb RunAs -ArgumentList $arg\n    exit\n}\nWrite-Host \"RustDesk Plus — Baixando instalador...\" -ForegroundColor Cyan\n$tmp = \"$env:TEMP\\rustdesk-installer-"@ + tenant + ".exe\"\nInvoke-WebRequest -Uri \""@ + api + "/install/"@ + code + "\" -OutFile $tmp -UseBasicParsing\nUnblock-File -LiteralPath $tmp\nWrite-Host \"Executando instalador...\" -ForegroundColor Cyan\nStart-Process -FilePath $tmp -Verb RunAs -Wait\nRemove-Item $tmp -Force -ErrorAction SilentlyContinue\n"@
}

/// The install script asks for administrator rights by starting an
/// elevated copy of itself and then ends the run that has none
/// (`Start-Process PowerShell -Verb RunAs ...` followed by `exit`), before
/// the point where the installer is downloaded; so the installer is
/// fetched and run once, by the elevated copy.
pub proof fn law_install_script_exits_after_elevating(api: Seq<char>, code: Seq<char>, tenant: Seq<char>)
    ensures
        exists|i: int, j: int|
            0 <= i && i + "Start-Process PowerShell -Verb RunAs -ArgumentList $arg\n    exit\n}"@.len() <= j
                && j + "Invoke-WebRequest"@.len() <= install_script_text(api, code, tenant).len()
                && #[trigger] install_script_text(api, code, tenant).subrange(
                i,
                i + "Start-Process PowerShell -Verb RunAs -ArgumentList $arg\n    exit\n}"@.len(),
            ) == "Start-Process PowerShell -Verb RunAs -ArgumentList $arg\n    exit\n}"@
                && #[trigger] install_script_text(api, code, tenant).subrange(j, j + "Invoke-WebRequest"@.len())
                == "Invoke-WebRequest"@,
{
    let text = install_script_text(api, code, tenant);
    let a = "# RustDesk Plus — Instalação automática\n# Execute com: irm \""@ + api + "/i/"@ + code + "\" | iex\n$ErrorActionPreference = 'Stop'\n[Net.ServicePointManager]::SecurityProtocol = [Net.SecurityProtocolType]::Tls12\nIf (-Not ([Security.Principal.WindowsPrincipal][Security.Principal.WindowsIdentity]::GetCurrent()).IsInRole([Security.Principal.WindowsBuiltInRole]::Administrator)) {\n    Write-Host \"Solicitando permissão de administrador...\" -ForegroundColor Yellow\n    $arg = \"-NoProfile -ExecutionPolicy Bypass -Command `\"irm '"@ + api + "/i/"@ + code;
    let p = "' | iex`\"\"\n    Start-Process PowerShell -Verb RunAs -ArgumentList $arg\n    exit\n}\nWrite-Host \"RustDesk Plus — Baixando instalador...\" -ForegroundColor Cyan\n$tmp = \"$env:TEMP\\rustdesk-installer-"@;
    let l = ".exe\"\nInvoke-WebRequest -Uri \""@;
    let t = "Start-Process PowerShell -Verb RunAs -ArgumentList $arg\n    exit\n}"@;
    let w = "Invoke-WebRequest"@;
    reveal_strlit("Start-Process PowerShell -Verb RunAs -ArgumentList $arg\n    exit\n}");
    reveal_strlit("Invoke-WebRequest");
    reveal_strlit("' | iex`\"\"\n    Start-Process PowerShell -Verb RunAs -ArgumentList $arg\n    exit\n}\nWrite-Host \"RustDesk Plus — Baixando instalador...\" -ForegroundColor Cyan\n$tmp = \"$env:TEMP\\rustdesk-installer-");
    reveal_strlit(".exe\"\nInvoke-WebRequest -Uri \"");
    let ap = a + p;
    let apt = ap + tenant + l;
    assert(text.subrange(0, apt.len() as int) =~= apt);
    let i: int = a.len() as int + 15;
    let j: int = ap.len() as int + tenant.len() as int + 6;
    let tl: int = t.len() as int;
    let wl: int = w.len() as int;
    assert(p.subrange(15, 15 + tl) =~= t);
    assert(text.subrange(i, i + tl) =~= t) by {
        assert forall|k: int| 0 <= k < t.len() implies text[i + k] == t[k] by {
            assert(text[i + k] == apt[i + k]);
            assert(apt[i + k] == ap[i + k]);
            assert(ap[i + k] == p[15 + k]);
        }
    }
    assert(l.subrange(6, 6 + wl) =~= w);
    assert(text.subrange(j, j + wl) =~= w) by {
        assert forall|k: int| 0 <= k < w.len() implies text[j + k] == w[k] by {
            assert(text[j + k] == apt[j + k]);
            assert(apt[j + k] == l[6 + k]);
        }
    }
}

/// `install_script`: the install script of a client, given the API URL,
/// the client's install code and its id.
pub fn install_script(api_url: &str, code: &str, tenant_id: u128) -> (r: String)
    ensures
        r@ == install_script_text(api_base(api_url@), code@, uuid_text(tenant_id)),
{
    let api = string_of(&trim_end_char(&chars_of(api_url), '/'));
    let id = uuid_string(tenant_id);
    let parts = [
        "# RustDesk Plus — Instalação automática\n# Execute com: irm \"",
        api.as_str(),
        "/i/",
        code,
        "\" | iex\n$ErrorActionPreference = 'Stop'\n[Net.ServicePointManager]::SecurityProtocol = [Net.SecurityProtocolType]::Tls12\nIf (-Not ([Security.Principal.WindowsPrincipal][Security.Principal.WindowsIdentity]::GetCurrent()).IsInRole([Security.Principal.WindowsBuiltInRole]::Administrator)) {\n    Write-Host \"Solicitando permissão de administrador...\" -ForegroundColor Yellow\n    $arg = \"-NoProfile -ExecutionPolicy Bypass -Command `\"irm '",
        api.as_str(),
        "/i/",
        code,
        "' | iex`\"\"\n    Start-Process PowerShell -Verb RunAs -ArgumentList $arg\n    exit\n}\nWrite-Host \"RustDesk Plus — Baixando instalador...\" -ForegroundColor Cyan\n$tmp = \"$env:TEMP\\rustdesk-installer-",
        id.as_str(),
        ".exe\"\nInvoke-WebRequest -Uri \"",
        api.as_str(),
        "/install/",
        code,
        "\" -OutFile $tmp -UseBasicParsing\nUnblock-File -LiteralPath $tmp\nWrite-Host \"Executando instalador...\" -ForegroundColor Cyan\nStart-Process -FilePath $tmp -Verb RunAs -Wait\nRemove-Item $tmp -Force -ErrorAction SilentlyContinue\n",
    ];
    let r = join_texts(&parts);
    proof {
        reveal_with_fuel(joined, 16);
    }
    r
}

/// The devices a command is sent to.
#[derive(Debug, Clone, PartialEq, Eq)]
pub enum ExecTargets {
    /// The listed devices (by agent id).
    Listed(Vec<String>),
    /// The online devices carrying the tag.
    Tagged(u128),
    /// Every online device of the client.
    AllOnline,
}

/// `exec_command` (choice of targets): an explicit list wins, then a tag,
/// else every online device.
pub fn exec_targets(targets: Option<Vec<String>>, tag_id: Option<u128>) -> (r: ExecTargets)
    ensures
        match targets {
            Some(t) => r == ExecTargets::Listed(t),
            None => match tag_id {
                Some(tag) => r == ExecTargets::Tagged(tag),
                None => r == ExecTargets::AllOnline,
            },
        },
{
    match targets {
        Some(t) => ExecTargets::Listed(t),
        None => match tag_id {
            Some(tag) => ExecTargets::Tagged(tag),
            None => ExecTargets::AllOnline,
        },
    }
}

/// `save_server_config`: the unattended-access password to store for the
/// client, when a non-blank one is given (stored trimmed).
pub fn tenant_password_update(password: Option<String>) -> (r: Option<String>)
    ensures
        match password {
            Some(p) => if is_blank(p@) {
                r is None
            } else {
                r matches Some(t) && t@ == trim_seq(p@)
            },
            None => r is None,
        },
{
    match password {
        Some(p) => if blank(&chars_of(p.as_str())) {
            None
        } else {
            Some(trimmed(p.as_str()))
        },
        None => None,
    }
}

} // verus!
