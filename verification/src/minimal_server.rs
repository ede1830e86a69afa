//! The stage-one server's own logic: its configuration, the port a wallet
//! gets, the free services, and the scripts and replies of deploying a
//! second instance, rebuilding and cross-compiling.
use vstd::prelude::*;
use crate::text;
use crate::text::decimal;

verus! {

/// Where the server listens and for how many users.
pub struct ServerConfig {
    pub http_port: u16,
    pub domain: String,
    pub max_users: u32,
}

/// The port named by a setting: a number up to 65535, else 8080.
pub open spec fn port_setting(s: Option<Seq<char>>) -> u16 {
    match s {
        Some(v) => match text::parse_u32(v) {
            Ok(n) => if n <= 65535 {
                n as u16
            } else {
                8080
            },
            Err(_) => 8080,
        },
        None => 8080,
    }
}

impl ServerConfig {
    /// The configuration from the settings `ZOS_HTTP_PORT` and `ZOS_DOMAIN`
    /// (absent ones given as `None`): the port, 8080 where the setting is
    /// missing or is no port number; the domain, `localhost` where it is
    /// missing; and 50 users.
    pub fn from_settings(port: Option<&str>, domain: Option<&str>) -> (c: Self)
        ensures
            c.http_port == port_setting(
                match port {
                    Some(p) => Some(p@),
                    None => None,
                },
            ),
            c.domain@ == (match domain {
                Some(d) => d@,
                None => "localhost"@,
            }),
            c.max_users == 50,
    {
        let p = match port {
            Some(s) => match text::parse_u32_str(s) {
                Ok(n) => if n <= 65535 {
                    n as u16
                } else {
                    8080
                },
                Err(_) => 8080,
            },
            None => 8080,
        };
        let d = match domain {
            Some(s) => String::from_str(s),
            None => String::from_str("localhost"),
        };
        ServerConfig { http_port: p, domain: d, max_users: 50 }
    }
}

/// The port a wallet is given: 20000 plus its length in bytes modulo 1000.
pub open spec fn wallet_port(wallet: Seq<char>) -> u16 {
    (20000 + (vstd::utf8::encode_utf8(wallet).len() as usize) % 1000) as u16
}

/// Computes `wallet_port`.
pub fn port_for_wallet(wallet: &str) -> (p: u16)
    ensures
        p == wallet_port(wallet@),
{
    let n = wallet.len() % 1000;
    20000 + n as u16
}

/// What a free service answers.
pub open spec fn service_result(service: Seq<char>) -> Seq<char> {
    if service == "pi"@ {
        "π ≈ 3.1415926536 (calculated using Leibniz formula)"@
    } else if service == "fibonacci"@ {
        "🐰 Fibonacci sequence: 1, 1, 2, 3, 5, 8, 13, 21, 34, 55..."@
    } else if service == "primes"@ {
        "🎭 Prime numbers: 2, 3, 5, 7, 11, 13, 17, 19, 23, 29..."@
    } else {
        "Unknown service: "@ + service
    }
}

/// Computes `service_result`.
pub fn call_service(service: &str) -> (r: String)
    ensures
        r@ == service_result(service@),
{
    if text::str_eq(service, "pi") {
        String::from_str("π ≈ 3.1415926536 (calculated using Leibniz formula)")
    } else if text::str_eq(service, "fibonacci") {
        String::from_str("🐰 Fibonacci sequence: 1, 1, 2, 3, 5, 8, 13, 21, 34, 55...")
    } else if text::str_eq(service, "primes") {
        String::from_str("🎭 Prime numbers: 2, 3, 5, 7, 11, 13, 17, 19, 23, 29...")
    } else {
        let mut r = String::from_str("Unknown service: ");
        r.append(service);
        r
    }
}

/// A request to deploy a second instance.
pub struct DeployRequest {
    pub target_port: u16,
    pub instance_name: String,
    pub rebuild_self: bool,
    pub prepare_windows: bool,
}

/// The reply to a deployment.
pub struct DeployResponse {
    pub status: String,
    pub instance_name: String,
    pub port: u16,
    pub message: String,
}

/// How running the deployment script went.
pub enum DeployOutcome {
    /// The script ran and succeeded.
    Succeeded,
    /// The script ran and failed; its error output.
    ScriptFailed(String),
    /// The script could not be started; why.
    LaunchFailed(String),
    /// The task running the script failed; why.
    TaskFailed(String),
}

/// The script that installs a second instance under `/opt/<name>` as a
/// systemd service listening on `port`.
pub open spec fn deploy_script_text(name: Seq<char>, port: u16) -> Seq<char> {
    "#!/bin/bash\nset -e\necho \"🔧 ZOS1 deploying ZOS2 on port "@ + decimal(port as nat) + "\"\n\n# Build ZOS2 binary\ncargo build --release --bin zos-minimal-server\n\n# Create ZOS2 user and directories\nsudo useradd -r -s /bin/false -d /opt/"@ + name + " -m "@ + name + " 2>/dev/null || true\nsudo mkdir -p /opt/"@ + name + "/{bin,data,config,logs}\nsudo chown -R "@ + name + ":"@ + name + " /opt/"@ + name + "\n\n# Install ZOS2 binary\nsudo cp target/release/zos-minimal-server /opt/"@ + name + "/bin/\nsudo chmod +x /opt/"@ + name + "/bin/zos-minimal-server\n\n# Create ZOS2 systemd service\nsudo tee /etc/systemd/system/"@ + name + ".service > /dev/null <<EOF\n[Unit]\nDescription=ZOS2 Server - Deployed by ZOS1\nAfter=network.target zos-server.service\nWants=network.target\n\n[Service]\nType=simple\nUser="@ + name + "\nGroup="@ + name + "\nWorkingDirectory=/opt/"@ + name + "\nExecStart=/opt/"@ + name + "/bin/zos-minimal-server\nRestart=always\nRestartSec=5\nEnvironment=ZOS_HTTP_PORT="@ + decimal(port as nat) + "\nEnvironment=ZOS_DATA_DIR=/opt/"@ + name + "/data\nEnvironment=ZOS_LOG_LEVEL=info\n\nNoNewPrivileges=true\nPrivateTmp=true\nProtectSystem=strict\nProtectHome=true\nReadWritePaths=/opt/"@ + name + "/data /opt/"@ + name + "/logs\n\n[Install]\nWantedBy=multi-user.target\nEOF\n\n# Enable and start ZOS2\nsudo systemctl daemon-reload\nsudo systemctl enable "@ + name + ".service\nsudo systemctl start "@ + name + ".service\n\necho \"✅ ZOS2 deployed successfully\"\n"@
}

/// Builds `deploy_script_text`.
pub fn deploy_script(instance_name: &str, target_port: u16) -> (r: String)
    ensures
        r@ == deploy_script_text(instance_name@, target_port),
{
    let p = text::decimal_string(target_port as u64);
    let mut r = String::new();
    r.append("#!/bin/bash\nset -e\necho \"🔧 ZOS1 deploying ZOS2 on port ");
    r.append(p.as_str());
    r.append("\"\n\n# Build ZOS2 binary\ncargo build --release --bin zos-minimal-server\n\n# Create ZOS2 user and directories\nsudo useradd -r -s /bin/false -d /opt/");
    r.append(instance_name);
    r.append(" -m ");
    r.append(instance_name);
    r.append(" 2>/dev/null || true\nsudo mkdir -p /opt/");
    r.append(instance_name);
    r.append("/{bin,data,config,logs}\nsudo chown -R ");
    r.append(instance_name);
    r.append(":");
    r.append(instance_name);
    r.append(" /opt/");
    r.append(instance_name);
    r.append("\n\n# Install ZOS2 binary\nsudo cp target/release/zos-minimal-server /opt/");
    r.append(instance_name);
    r.append("/bin/\nsudo chmod +x /opt/");
    r.append(instance_name);
    r.append("/bin/zos-minimal-server\n\n# Create ZOS2 systemd service\nsudo tee /etc/systemd/system/");
    r.append(instance_name);
    r.append(".service > /dev/null <<EOF\n[Unit]\nDescription=ZOS2 Server - Deployed by ZOS1\nAfter=network.target zos-server.service\nWants=network.target\n\n[Service]\nType=simple\nUser=");
    r.append(instance_name);
    r.append("\nGroup=");
    r.append(instance_name);
    r.append("\nWorkingDirectory=/opt/");
    r.append(instance_name);
    r.append("\nExecStart=/opt/");
    r.append(instance_name);
    r.append("/bin/zos-minimal-server\nRestart=always\nRestartSec=5\nEnvironment=ZOS_HTTP_PORT=");
    r.append(p.as_str());
    r.append("\nEnvironment=ZOS_DATA_DIR=/opt/");
    r.append(instance_name);
    r.append("/data\nEnvironment=ZOS_LOG_LEVEL=info\n\nNoNewPrivileges=true\nPrivateTmp=true\nProtectSystem=strict\nProtectHome=true\nReadWritePaths=/opt/");
    r.append(instance_name);
    r.append("/data /opt/");
    r.append(instance_name);
    r.append("/logs\n\n[Install]\nWantedBy=multi-user.target\nEOF\n\n# Enable and start ZOS2\nsudo systemctl daemon-reload\nsudo systemctl enable ");
    r.append(instance_name);
    r.append(".service\nsudo systemctl start ");
    r.append(instance_name);
    r.append(".service\n\necho \"✅ ZOS2 deployed successfully\"\n");
    r
}

/// The status and message of a deployment's reply.
pub open spec fn deploy_reply(o: DeployOutcome) -> (Seq<char>, Seq<char>) {
    match o {
        DeployOutcome::Succeeded => ("success"@, "ZOS2 deployed successfully"@),
        DeployOutcome::ScriptFailed(e) => ("error"@, "Deployment failed: "@ + e@),
        DeployOutcome::LaunchFailed(e) => ("error"@, "Failed to execute deployment: "@ + e@),
        DeployOutcome::TaskFailed(e) => ("error"@, "Task failed: "@ + e@),
    }
}

/// The reply to a deployment: the instance, its port, and how it went.
pub fn deploy_response(req: &DeployRequest, outcome: DeployOutcome) -> (r: DeployResponse)
    ensures
        r.instance_name@ == req.instance_name@,
        r.port == req.target_port,
        (r.status@, r.message@) == deploy_reply(outcome),
{
    let (status, message) = match outcome {
        DeployOutcome::Succeeded => (String::from_str("success"), String::from_str("ZOS2 deployed successfully")),
        DeployOutcome::ScriptFailed(e) => {
            let mut m = String::from_str("Deployment failed: ");
            m.append(e.as_str());
            (String::from_str("error"), m)
        },
        DeployOutcome::LaunchFailed(e) => {
            let mut m = String::from_str("Failed to execute deployment: ");
            m.append(e.as_str());
            (String::from_str("error"), m)
        },
        DeployOutcome::TaskFailed(e) => {
            let mut m = String::from_str("Task failed: ");
            m.append(e.as_str());
            (String::from_str("error"), m)
        },
    };
    DeployResponse { status, instance_name: req.instance_name.clone(), port: req.target_port, message }
}

/// After a successful deployment asked to rebuild, the new instance is
/// told to rebuild itself at this address.
pub open spec fn rebuild_address(port: u16) -> Seq<char> {
    "http://localhost:"@ + decimal(port as nat) + "/rebuild"@
}

/// Where to ask the new instance to rebuild, if the deployment succeeded
/// and a rebuild was asked for.
pub fn rebuild_url(req: &DeployRequest, succeeded: bool) -> (r: Option<String>)
    ensures
        match r {
            Some(u) => succeeded && req.rebuild_self && u@ == rebuild_address(req.target_port),
            None => !(succeeded && req.rebuild_self),
        },
{
    if succeeded && req.rebuild_self {
        let mut u = String::from_str("http://localhost:");
        let p = text::decimal_string(req.target_port as u64);
        u.append(p.as_str());
        u.append("/rebuild");
        Some(u)
    } else {
        None
    }
}

/// The extra steps that build Windows binaries too.
pub open spec fn windows_steps() -> Seq<char> {
    "\n# Prepare Windows binaries\necho \"🪟 Preparing Windows binaries\"\nrustup target add x86_64-pc-windows-gnu\ncargo build --release --target x86_64-pc-windows-gnu --bin zos-minimal-server\n\n# Create Windows deployment package\nmkdir -p /opt/zos2/data/windows-binaries\ncp target/x86_64-pc-windows-gnu/release/zos-minimal-server.exe /opt/zos2/data/windows-binaries/\necho \"✅ Windows binaries prepared\"\n"@
}

/// The script that rebuilds the instance, building Windows binaries too
/// when asked.
pub open spec fn rebuild_script_text(prepare_windows: bool) -> Seq<char> {
    let extra = if prepare_windows {
        windows_steps()
    } else {
        Seq::empty()
    };
    "#!/bin/bash\nset -e\necho \"🔄 ZOS2 self-rebuild initiated\"\n\n# Rebuild from source\ncargo build --release --bin zos-minimal-server\n\n# Update binary (will restart via systemd)\nsudo cp target/release/zos-minimal-server /opt/zos2/bin/\nsudo systemctl restart zos2.service\n\n"@ + extra + "\n\necho \"✅ ZOS2 self-rebuild completed\"\n"@
}

/// Builds `rebuild_script_text`.
pub fn rebuild_script(prepare_windows: bool) -> (r: String)
    ensures
        r@ == rebuild_script_text(prepare_windows),
{
    let extra = if prepare_windows {
        "\n# Prepare Windows binaries\necho \"🪟 Preparing Windows binaries\"\nrustup target add x86_64-pc-windows-gnu\ncargo build --release --target x86_64-pc-windows-gnu --bin zos-minimal-server\n\n# Create Windows deployment package\nmkdir -p /opt/zos2/data/windows-binaries\ncp target/x86_64-pc-windows-gnu/release/zos-minimal-server.exe /opt/zos2/data/windows-binaries/\necho \"✅ Windows binaries prepared\"\n"
    } else {
        ""
    };
    proof {
        reveal_strlit("");
    }
    let mut r = String::new();
    r.append("#!/bin/bash\nset -e\necho \"🔄 ZOS2 self-rebuild initiated\"\n\n# Rebuild from source\ncargo build --release --bin zos-minimal-server\n\n# Update binary (will restart via systemd)\nsudo cp target/release/zos-minimal-server /opt/zos2/bin/\nsudo systemctl restart zos2.service\n\n");
    r.append(extra);
    r.append("\n\necho \"✅ ZOS2 self-rebuild completed\"\n");
    r
}

/// The build line of one target.
pub open spec fn target_line(t: Seq<char>) -> Seq<char> {
    "echo \"Building for "@ + t + "...\" && cargo build --release --target "@ + t
}

/// The script that builds for each target in turn.
pub open spec fn cross_build_text(targets: Seq<Seq<char>>) -> Seq<char> {
    let body = text::join(targets.map_values(|t: Seq<char>| target_line(t)), "\n"@);
    "#!/bin/bash\nset -e\necho \"🔨 Starting cross-platform builds\"\n\ncd zos-minimal-server\n\n"@ + body + "\n\necho \"✅ Cross-platform builds completed\"\n"@
}

/// Builds `cross_build_text`.
pub fn cross_build_script(targets: &Vec<String>) -> (r: String)
    ensures
        r@ == cross_build_text(text::string_views(targets@)),
{
    let ghost want = text::string_views(targets@).map_values(|t: Seq<char>| target_line(t));
    let mut lines: Vec<String> = Vec::new();
    let mut i: usize = 0;
    while i < targets.len()
        invariant
            i <= targets@.len(),
            want == text::string_views(targets@).map_values(|t: Seq<char>| target_line(t)),
            text::string_views(lines@) == want.take(i as int),
        decreases targets@.len() - i,
    {
        let t = targets[i].as_str();
        let mut l = String::from_str("echo \"Building for ");
        l.append(t);
        l.append("...\" && cargo build --release --target ");
        l.append(t);
        let ghost before = text::string_views(lines@);
        lines.push(l);
        assert(text::string_views(lines@) =~= before.push(want[i as int]));
        assert(want.take(i + 1) =~= want.take(i as int).push(want[i as int]));
        i = i + 1;
    }
    assert(want.take(targets@.len() as int) =~= want);
    let body = text::join_strings(&lines, "\n");
    let mut r = String::new();
    r.append("#!/bin/bash\nset -e\necho \"🔨 Starting cross-platform builds\"\n\ncd zos-minimal-server\n\n");
    r.append(body.as_str());
    r.append("\n\necho \"✅ Cross-platform builds completed\"\n");
    r
}

} // verus!
