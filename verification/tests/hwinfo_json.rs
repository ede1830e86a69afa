use zos_server::hwinfo::{CapabilityProbes, HwInfo};

fn probes() -> CapabilityProbes {
    CapabilityProbes {
        git: true,
        docker: false,
        systemctl: true,
        wsl_distro: true,
        termux: false,
        tmux: false,
        curl: false,
        wget: true,
        rustc: true,
        cargo_target_dir: false,
    }
}

#[test]
fn linux_capabilities() {
    let mut h = HwInfo::new();
    h.os = "linux".to_string();
    h.detect_capabilities(&probes());
    assert_eq!(h.capabilities, vec!["git", "systemd", "network", "rust_native"]);
}

#[test]
fn windows_capabilities() {
    let mut h = HwInfo::new();
    h.os = "windows".to_string();
    h.detect_capabilities(&probes());
    assert_eq!(h.capabilities, vec!["git", "wsl", "network", "rust_native"]);
}

#[test]
fn json_form() {
    let mut h = HwInfo::new();
    h.os = "linux".to_string();
    h.arch = "x86_64".to_string();
    h.cores = 8;
    h.hostname = "node1".to_string();
    h.rust_version = "unknown".to_string();
    h.capabilities = vec!["git".to_string(), "tmux".to_string()];
    assert_eq!(
        h.to_json(1700000000),
        "{\n  \"os\": \"linux\",\n  \"arch\": \"x86_64\",\n  \"cores\": 8,\n  \"memory_kb\": 0,\n  \"hostname\": \"node1\",\n  \"rust_version\": \"unknown\",\n  \"capabilities\": [\"git\", \"tmux\"],\n  \"timestamp\": \"1700000000\"\n}"
    );
}
