use plus_api::admin::{
    branded_download, branding_values, build_inputs, check_branding, check_build_server,
    check_icon, check_new_user_role, exec_targets, install_script, require_builder, tag_color,
    tenant_fields, tenant_password_update, BrandedDownload, BrandedRow, Branding, BrandingForm,
    ExecTargets,
};
use plus_api::error::AppError;
use plus_api::installer::{
    agent_file, agent_ldflags, check_server, installer_cached, installer_file, installer_ldflags,
    metadata_file, ServerConfig, INSTALLER_BUILD,
};
use plus_api::setup::{setup_values, slugify, SetupRequest};

const TENANT: u128 = 0x67e55044_10b1_426f_9247_bb680e5fe0c8;
const TENANT_TEXT: &str = "67e55044-10b1-426f-9247-bb680e5fe0c8";

fn server(ip: &str, key: &str, api: &str) -> ServerConfig {
    ServerConfig { server_ip: ip.to_string(), server_key: key.to_string(), api_url: api.to_string() }
}

fn bad(m: &str) -> AppError {
    AppError::BadRequest(m.to_string())
}

#[test]
fn errors_answer_with_status_and_message() {
    assert_eq!(AppError::NotFound.status_and_message(), (404, "not found".to_string()));
    assert_eq!(AppError::Unauthorized.status_and_message(), (401, "unauthorized".to_string()));
    assert_eq!(AppError::Forbidden.status_and_message(), (403, "forbidden".to_string()));
    assert_eq!(bad("x").status_and_message(), (400, "bad request: x".to_string()));
    let other = AppError::Other("disk full".to_string());
    assert_eq!(other.status_and_message(), (500, "internal error".to_string()));
    assert!(other.is_internal());
    assert!(AppError::Db("gone".to_string()).is_internal());
    assert!(!AppError::NotFound.is_internal());
}

#[test]
fn new_accounts_get_known_roles() {
    assert_eq!(check_new_user_role("admin"), Ok(()));
    assert_eq!(check_new_user_role("operator"), Ok(()));
    assert_eq!(check_new_user_role("viewer"), Ok(()));
    assert_eq!(check_new_user_role("super_admin"), Err(bad("role inválido")));
}

#[test]
fn tenants_need_name_and_slug() {
    assert_eq!(
        tenant_fields(" Acme ", " acme "),
        Ok(("Acme".to_string(), "acme".to_string()))
    );
    assert_eq!(tenant_fields("Acme", "  "), Err(bad("nome e slug são obrigatórios")));
    assert_eq!(tag_color(None), "#3b82f6");
    assert_eq!(tag_color(Some("#ff0000".to_string())), "#ff0000");
}

#[test]
fn branding_is_trimmed_with_default_version() {
    let form = BrandingForm {
        app_name: " My App ".to_string(),
        file_name: "myapp ".to_string(),
        comp_name: " Acme".to_string(),
        url_link: " https://acme.test ".to_string(),
        rustdesk_ref: Some("  ".to_string()),
    };
    let v = branding_values(&form);
    assert_eq!(v.app_name, "My App");
    assert_eq!(v.file_name, "myapp");
    assert_eq!(v.comp_name, "Acme");
    assert_eq!(v.url_link, "https://acme.test");
    assert_eq!(v.rustdesk_ref, "1.4.8");
    let form = BrandingForm { rustdesk_ref: Some(" 1.4.1 ".to_string()), ..form };
    assert_eq!(branding_values(&form).rustdesk_ref, "1.4.1");
}

#[test]
fn builds_need_branding_server_and_builder() {
    assert_eq!(check_icon(0), Err(bad("imagem vazia")));
    assert_eq!(check_icon(3), Ok(()));
    assert_eq!(require_builder(false), Err(bad("gerador de cliente desabilitado")));
    assert_eq!(require_builder(true), Ok(()));
    assert_eq!(check_branding(None), Err(bad("configure o branding primeiro")));
    let b = Branding {
        app_name: "App".to_string(),
        file_name: " ".to_string(),
        comp_name: String::new(),
        url_link: String::new(),
        rustdesk_ref: String::new(),
    };
    assert_eq!(check_branding(Some(&b)), Err(bad("app_name e file_name sao obrigatorios")));
    let b = Branding { file_name: "app".to_string(), ..b };
    assert_eq!(check_branding(Some(&b)), Ok(()));
    assert_eq!(
        check_build_server(&server("1.2.3.4", "", "http://api")),
        Err(bad("configure o servidor primeiro"))
    );
    assert_eq!(check_build_server(&server("1.2.3.4", "key", "")), Ok(()));
}

#[test]
fn build_inputs_point_at_the_client() {
    let b = Branding {
        app_name: "App".to_string(),
        file_name: "app".to_string(),
        comp_name: "Acme".to_string(),
        url_link: "https://acme.test".to_string(),
        rustdesk_ref: " ".to_string(),
    };
    let s = server("1.2.3.4", "KEY", "https://api.test//");
    let i = build_inputs(&b, &s, TENANT, true, "1.4.8");
    assert_eq!(i.version, "1.4.8");
    assert_eq!(i.appname, "App");
    assert_eq!(i.server, "1.2.3.4");
    assert_eq!(i.key, "KEY");
    assert_eq!(i.api_server, format!("https://api.test/t/{TENANT_TEXT}"));
    assert_eq!(i.icon_url, format!("https://api.test/api/branding/{TENANT_TEXT}/icon.png"));
    assert_eq!(i.artifact_name, "app");
    let b = Branding { rustdesk_ref: "1.3.0".to_string(), ..b };
    let i = build_inputs(&b, &s, TENANT, false, "1.4.8");
    assert_eq!(i.version, "1.3.0");
    assert_eq!(i.icon_url, "");
}

#[test]
fn branded_client_is_served_only_when_ready() {
    let row = |status: &str, artifact: Option<&str>, file: &str| BrandedRow {
        status: status.to_string(),
        artifact: artifact.map(|a| a.to_string()),
        file_name: file.to_string(),
    };
    assert_eq!(branded_download(None), Err(AppError::NotFound));
    assert_eq!(branded_download(Some(row("building", Some("/x.exe"), "app"))), Err(AppError::NotFound));
    assert_eq!(branded_download(Some(row("ready", None, "app"))), Err(AppError::NotFound));
    assert_eq!(
        branded_download(Some(row("ready", Some("https://cdn.test/a.exe"), "app"))),
        Ok(BrandedDownload::Redirect("https://cdn.test/a.exe".to_string()))
    );
    assert_eq!(
        branded_download(Some(row("ready", Some("/data/b.exe"), " "))),
        Ok(BrandedDownload::File {
            path: "/data/b.exe".to_string(),
            disposition: "attachment; filename=\"rustdesk.exe\"".to_string(),
        })
    );
    assert_eq!(
        branded_download(Some(row("ready", Some("/data/b.exe"), "MyApp"))),
        Ok(BrandedDownload::File {
            path: "/data/b.exe".to_string(),
            disposition: "attachment; filename=\"MyApp.exe\"".to_string(),
        })
    );
}

#[test]
fn install_script_downloads_the_client_installer() {
    let s = install_script("https://api.test/", "ABC123", TENANT);
    assert!(s.starts_with("# RustDesk Plus — Instalação automática\n# Execute com: irm \"https://api.test/i/ABC123\" | iex\n"));
    assert!(s.contains("-Command `\"irm 'https://api.test/i/ABC123' | iex`\"\""));
    assert!(s.contains(&format!("$tmp = \"$env:TEMP\\rustdesk-installer-{TENANT_TEXT}.exe\"")));
    assert!(s.contains("Invoke-WebRequest -Uri \"https://api.test/install/ABC123\" -OutFile $tmp"));
    assert!(s.ends_with("Remove-Item $tmp -Force -ErrorAction SilentlyContinue\n"));
}

#[test]
fn command_targets_prefer_the_list() {
    assert_eq!(
        exec_targets(Some(vec!["a".to_string()]), Some(3)),
        ExecTargets::Listed(vec!["a".to_string()])
    );
    assert_eq!(exec_targets(None, Some(3)), ExecTargets::Tagged(3));
    assert_eq!(exec_targets(None, None), ExecTargets::AllOnline);
    assert_eq!(tenant_password_update(Some(" s3cret ".to_string())), Some("s3cret".to_string()));
    assert_eq!(tenant_password_update(Some("  ".to_string())), None);
    assert_eq!(tenant_password_update(None), None);
}

#[test]
fn installer_needs_a_configured_server() {
    let m = "configure o servidor antes de baixar o instalador".to_string();
    assert_eq!(check_server(&server("", "k", "u")), Err(m.clone()));
    assert_eq!(check_server(&server("ip", "k", " ")), Err(m));
    assert_eq!(check_server(&server("ip", "k", "u")), Ok(()));
}

#[test]
fn installer_files_are_named_by_client() {
    assert_eq!(installer_file(TENANT), format!("installer-{TENANT_TEXT}.exe"));
    assert_eq!(agent_file(TENANT), format!("agent-{TENANT_TEXT}.exe"));
    assert_eq!(metadata_file(TENANT), format!("installer-config-{TENANT_TEXT}.json"));
    assert_eq!(installer_file(0), "installer-00000000-0000-0000-0000-000000000000.exe");
}

#[test]
fn cached_installer_is_reused_only_when_complete() {
    assert!(installer_cached(true, false, false, true));
    assert!(installer_cached(true, true, true, true));
    assert!(!installer_cached(true, true, false, true));
    assert!(!installer_cached(false, false, false, true));
    assert!(!installer_cached(true, false, false, false));
}

#[test]
fn link_flags_embed_the_client_settings() {
    let s = server("1.2.3.4", "KEY", "https://api.test");
    assert_eq!(
        agent_ldflags(&s, TENANT, "ABC"),
        format!(
            "-s -w -H=windowsgui -X main.apiURL=https://api.test -X main.tenantID={TENANT_TEXT} -X main.installCode=ABC -X main.agentVersion={INSTALLER_BUILD}"
        )
    );
    assert_eq!(
        installer_ldflags(&s, TENANT, "pw", "ABC", true),
        format!(
            "-s -w -H=windowsgui -X main.serverIP=1.2.3.4 -X main.serverKey=KEY -X main.apiURL=https://api.test -X main.unattendedPassword=pw -X main.tenantID={TENANT_TEXT} -X main.installCode=ABC -X main.agentEnabled=true"
        )
    );
    assert!(installer_ldflags(&s, TENANT, "pw", "ABC", false).ends_with("-X main.agentEnabled=false"));
}

fn request(password: &str) -> SetupRequest {
    SetupRequest {
        email: " owner@acme.test ".to_string(),
        password: password.to_string(),
        name: " Owner ".to_string(),
        server_ip: " 1.2.3.4 ".to_string(),
        api_url: "https://api.test//".to_string(),
        tenant_name: "  Ação Médica Ltda. ".to_string(),
    }
}

#[test]
fn slugs_keep_letters_digits_and_hyphens() {
    assert_eq!(slugify("  Acme Corp! "), "acme-corp");
    assert_eq!(slugify("Ação Médica Ltda."), "ação-médica-ltda");
    assert_eq!(slugify("A  B"), "a--b");
    assert_eq!(slugify("   "), "");
}

#[test]
fn setup_runs_once_with_complete_request() {
    assert_eq!(setup_values(true, &request("longenough")), Err(AppError::Forbidden));
    let short = bad("preencha todos os campos; a senha deve ter pelo menos 8 caracteres");
    assert_eq!(setup_values(false, &request("1234567")), Err(short.clone()));
    let mut r = request("longenough");
    r.server_ip = "  ".to_string();
    assert_eq!(setup_values(false, &r), Err(short));
    // Four characters (eight bytes in UTF-8) are too few; eight characters do.
    assert_eq!(
        setup_values(false, &request("çççç")),
        Err(bad("preencha todos os campos; a senha deve ter pelo menos 8 caracteres"))
    );
    assert!(setup_values(false, &request("çççççççç")).is_ok());
    let v = setup_values(false, &request("longenough")).unwrap();
    assert_eq!(v.tenant_name, "Ação Médica Ltda.");
    assert_eq!(v.slug, "ação-médica-ltda");
    assert_eq!(v.email, "owner@acme.test");
    assert_eq!(v.name, "Owner");
    assert_eq!(v.server_ip, "1.2.3.4");
    assert_eq!(v.api_url, "https://api.test");
}
