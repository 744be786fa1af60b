//! The Windows installer built per client: the server settings it needs,
//! the files it is cached as, when the cached build can be served, and the
//! link flags that embed the client's settings in the agent and installer.
use vstd::prelude::*;

use crate::ids::{uuid_string, uuid_text};
use crate::text::{blank, chars_of, is_blank, joined, join_texts, owned};

verus! {

/// The server settings shared by every client.
#[derive(Debug, Clone, PartialEq, Eq)]
pub struct ServerConfig {
    /// IP address or domain of the RustDesk server.
    pub server_ip: String,
    /// Public key of the RustDesk server.
    pub server_key: String,
    /// Public URL of this API.
    pub api_url: String,
}

/// The installer build number; installed agents update themselves when it changes.
pub const INSTALLER_BUILD: &'static str = "17";

/// The message given when the server is not configured yet.
pub open spec fn unconfigured_message() -> Seq<char> {
    "configure o servidor antes de baixar o instalador"@
}

/// `build` (check): an installer can only be built once the server's
/// address, key and API URL are all set.
pub fn check_server(config: &ServerConfig) -> (r: Result<(), String>)
    ensures
        (is_blank(config.server_ip@) || is_blank(config.server_key@) || is_blank(config.api_url@))
            <==> r is Err,
        r matches Err(m) ==> m@ == unconfigured_message(),
{
    if blank(&chars_of(config.server_ip.as_str())) || blank(&chars_of(config.server_key.as_str()))
        || blank(&chars_of(config.api_url.as_str())) {
        return Err(owned("configure o servidor antes de baixar o instalador"));
    }
    Ok(())
}

/// `<prefix><client id><suffix>`.
fn named_for(prefix: &str, tenant_id: u128, suffix: &str) -> (r: String)
    ensures
        r@ == prefix@ + uuid_text(tenant_id) + suffix@,
{
    let id = uuid_string(tenant_id);
    let parts = [prefix, id.as_str(), suffix];
    let r = join_texts(&parts);
    proof {
        reveal_with_fuel(joined, 4);
    }
    r
}

/// `build` / `agent_binary_path`: the file names a client's installer,
/// agent and build metadata are cached under.
pub fn installer_file(tenant_id: u128) -> (r: String)
    ensures
        r@ == "installer-"@ + uuid_text(tenant_id) + ".exe"@,
{
    named_for("installer-", tenant_id, ".exe")
}

/// The file name of a client's agent executable.
pub fn agent_file(tenant_id: u128) -> (r: String)
    ensures
        r@ == "agent-"@ + uuid_text(tenant_id) + ".exe"@,
{
    named_for("agent-", tenant_id, ".exe")
}

/// The file name of the metadata of a client's cached installer.
pub fn metadata_file(tenant_id: u128) -> (r: String)
    ensures
        r@ == "installer-config-"@ + uuid_text(tenant_id) + ".json"@,
{
    named_for("installer-config-", tenant_id, ".json")
}

/// `build` (cache): the cached installer is served when it exists, the
/// agent executable exists too when the agent is on, and it was built with
/// the same settings.
pub fn installer_cached(
    installer_exists: bool,
    agent_on: bool,
    agent_exists: bool,
    metadata_matches: bool,
) -> (r: bool)
    ensures
        r == (installer_exists && (!agent_on || agent_exists) && metadata_matches),
{
    installer_exists && (!agent_on || agent_exists) && metadata_matches
}

/// The text of a boolean as Rust writes it.
pub open spec fn bool_text(b: bool) -> Seq<char> {
    if b {
        "true"@
    } else {
        "false"@
    }
}

fn bool_str(b: bool) -> (r: &'static str)
    ensures
        r@ == bool_text(b),
{
    if b {
        "true"
    } else {
        "false"
    }
}

/// The link flags of the agent: it is stripped, built as a GUI program,
/// and told the API URL, the client, the install code and its version.
pub open spec fn agent_ldflags_text(api_url: Seq<char>, tenant: Seq<char>, code: Seq<char>) -> Seq<char> {
    "-s -w -H=windowsgui -X main.apiURL="@ + api_url + " -X main.tenantID="@ + tenant
        + " -X main.installCode="@ + code + " -X main.agentVersion="@ + INSTALLER_BUILD@
}

/// `build`: the link flags of a client's agent.
pub fn agent_ldflags(config: &ServerConfig, tenant_id: u128, install_code: &str) -> (r: String)
    ensures
        r@ == agent_ldflags_text(config.api_url@, uuid_text(tenant_id), install_code@),
{
    let id = uuid_string(tenant_id);
    let parts = [
        "-s -w -H=windowsgui -X main.apiURL=",
        config.api_url.as_str(),
        " -X main.tenantID=",
        id.as_str(),
        " -X main.installCode=",
        install_code,
        " -X main.agentVersion=",
        INSTALLER_BUILD,
    ];
    let r = join_texts(&parts);
    proof {
        reveal_with_fuel(joined, 9);
    }
    r
}

/// The link flags of the installer: it is stripped, built as a GUI
/// program, and told the server, its key, the API URL, the client's
/// unattended-access password, the client, the install code and whether
/// to install the agent.
pub open spec fn installer_ldflags_text(
    config: ServerConfig,
    password: Seq<char>,
    tenant: Seq<char>,
    code: Seq<char>,
    agent_on: bool,
) -> Seq<char> {
    "-s -w -H=windowsgui -X main.serverIP="@ + config.server_ip@ + " -X main.serverKey="@
        + config.server_key@ + " -X main.apiURL="@ + config.api_url@
        + " -X main.unattendedPassword="@ + password + " -X main.tenantID="@ + tenant
        + " -X main.installCode="@ + code + " -X main.agentEnabled="@ + bool_text(agent_on)
}

/// `build`: the link flags of a client's installer.
pub fn installer_ldflags(
    config: &ServerConfig,
    tenant_id: u128,
    rustdesk_password: &str,
    install_code: &str,
    agent_on: bool,
) -> (r: String)
    ensures
        r@ == installer_ldflags_text(
            *config,
            rustdesk_password@,
            uuid_text(tenant_id),
            install_code@,
            agent_on,
        ),
{
    let id = uuid_string(tenant_id);
    let parts = [
        "-s -w -H=windowsgui -X main.serverIP=",
        config.server_ip.as_str(),
        " -X main.serverKey=",
        config.server_key.as_str(),
        " -X main.apiURL=",
        config.api_url.as_str(),
        " -X main.unattendedPassword=",
        rustdesk_password,
        " -X main.tenantID=",
        id.as_str(),
        " -X main.installCode=",
        install_code,
        " -X main.agentEnabled=",
        bool_str(agent_on),
    ];
    let r = join_texts(&parts);
    proof {
        reveal_with_fuel(joined, 15);
    }
    r
}

} // verus!
