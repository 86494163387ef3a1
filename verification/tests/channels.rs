use lot::caps::{parse_caps, Cap, Caps};
use lot::plugin::{call_target, hash_check, kind_check, PluginFound, PluginManifest, HASH_MISMATCH, NO_PLUGIN, NO_WASM, UNDECLARED};
use lot::show::VERSION;
use lot::version::{upgrade_channel, upgrade_report, NO_CHANNEL, NO_MANIFEST};

#[test]
fn upgrade_check_without_channel_is_honest() {
    let e = upgrade_channel(None).unwrap_err().message();
    assert!(e.contains(NO_CHANNEL), "{e}");
    let e = upgrade_channel(Some("   ")).unwrap_err().message();
    assert!(e.contains(NO_CHANNEL), "{e}");
}

#[test]
fn upgrade_check_reads_file_channel() {
    let channel = upgrade_channel(Some(" file:///tmp/latest.json ")).unwrap();
    assert_eq!(channel, "file:///tmp/latest.json");
    let r = upgrade_report(&channel, r#"{"version":"9.9.9"}"#).unwrap();
    assert_eq!(r.latest, "9.9.9");
    assert!(r.update);
    assert_eq!(r.version, VERSION);
    assert_eq!(r.channel, "file:///tmp/latest.json");
}

#[test]
fn upgrade_check_same_version_is_not_an_update() {
    let body = format!(r#"{{"latest":"{VERSION}"}}"#);
    let r = upgrade_report("file:///tmp/same.json", &body).unwrap();
    assert_eq!(r.latest, VERSION);
    assert!(!r.update);
}

#[test]
fn upgrade_check_empty_manifest_does_not_invent() {
    let e = upgrade_report("file:///tmp/empty.txt", "").unwrap_err().message();
    assert!(e.contains(NO_MANIFEST), "{e}");
}

fn found(id: &str, kind: &str, sha: &str) -> PluginFound {
    PluginFound {
        manifest: PluginManifest {
            id: id.into(),
            section: "color".into(),
            kind: kind.into(),
            command: format!("{id}.cmd"),
            args: Vec::new(),
            wasm: String::new(),
            sha256: sha.into(),
        },
        dir: format!("/plugins/{id}"),
    }
}

#[test]
fn undeclared_and_hash_mismatch_refuse() {
    let all = Caps::all();
    let list = vec![found("bare", "stdio", ""), found("color", "stdio", "deadbeef")];
    let err = call_target(all, "bare", &list).unwrap_err().message();
    assert!(err.contains(UNDECLARED), "{err}");
    let k = call_target(all, "color", &list).unwrap();
    assert_eq!(k, 1);
    let err = hash_check("0123abcd", &list[k].manifest.sha256).unwrap_err().message();
    assert!(err.contains(HASH_MISMATCH), "{err}");
    assert!(hash_check("DEADBEEF", " deadbeef ").is_ok());
}

#[test]
fn wasm_is_honest_no_runtime() {
    let err = kind_check("wasm").unwrap_err().message();
    assert!(err.contains(NO_WASM), "{err}");
    assert!(kind_check("stdio").is_ok());
    assert!(kind_check("native").is_err());
}

#[test]
fn unknown_plugin_is_honest() {
    let err = call_target(Caps::all(), "color", &Vec::new()).unwrap_err().message();
    assert!(err.contains(NO_PLUGIN), "{err}");
}

#[test]
fn read_only_agent_cannot_call_plugins() {
    let list = vec![found("color", "stdio", "deadbeef")];
    assert!(call_target(Caps::read_only(), "color", &list).is_err());
}

#[test]
fn cap_names_read_back() {
    for c in [Cap::Read, Cap::Write, Cap::Render, Cap::Export, Cap::Spend] {
        let caps = parse_caps(c.as_str()).unwrap();
        assert!(caps.allows(c), "{}", c.as_str());
    }
}

#[test]
fn cap_names_keep_their_order() {
    assert_eq!(Caps::all().names(), vec!["read", "write", "render", "export", "spend"]);
    assert_eq!(Caps::read_only().names(), vec!["read"]);
    let some = Caps { read: true, write: false, render: true, export: false, spend: true };
    assert_eq!(some.names(), vec!["read", "render", "spend"]);
    for c in [Cap::Read, Cap::Write, Cap::Render, Cap::Export, Cap::Spend] {
        assert_eq!(some.names().contains(&c.as_str().to_string()), some.allows(c));
    }
}
