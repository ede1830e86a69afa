use serde_json::Value;
use zos_server::plugin_server::{parse_text_verb, parse_verb, text_message_complete, P2PPluginServer, P2PVerb, VerbOutcome};
use zos_server::sync::{
    identities_to_json, identity_to_json, normalize_backing_ref, normalize_digest, normalize_identity,
    parse_sync_identity_kind, SyncIdentityKind, SyncInventoryIdentityMessage,
};

fn text_field(obj: &serde_json::Map<String, Value>, names: &[&str]) -> Option<String> {
    for name in names {
        if let Some(Value::String(s)) = obj.get(*name) {
            return Some(s.clone());
        }
    }
    None
}

/// Reads a JSON identity message the way the wire format defines it: verb and
/// plugin default, the identity, digest and backing reference accept their
/// producer-side names.
fn decode_identity(msg: &str) -> Option<SyncInventoryIdentityMessage> {
    let value: Value = serde_json::from_str(msg).ok()?;
    let obj = value.as_object()?;
    let kind = match obj.get("kind")?.as_str()? {
        "artifact" => SyncIdentityKind::Artifact,
        "receipt" => SyncIdentityKind::Receipt,
        _ => return None,
    };
    Some(SyncInventoryIdentityMessage {
        verb: text_field(obj, &["verb"]).unwrap_or_else(|| "attach_inventory_identity".to_string()),
        plugin: text_field(obj, &["plugin"]).unwrap_or_else(|| "sync-runtime".to_string()),
        kind,
        identity: text_field(obj, &["identity", "object_id", "artifact_id", "receipt_id"])?,
        digest: text_field(obj, &["digest", "content_digest", "sha256", "hash"])?,
        backing_ref: text_field(obj, &["backing_ref", "related_artifact_ref", "artifact_ref", "source_ref"]),
    })
}

fn message(plugin: &str, kind: SyncIdentityKind, identity: &str, digest: &str, backing: Option<&str>) -> SyncInventoryIdentityMessage {
    SyncInventoryIdentityMessage::new(
        plugin.to_string(),
        kind,
        identity.to_string(),
        digest.to_string(),
        backing.map(|b| b.to_string()),
    )
}

#[test]
fn parse_inventory_identity_json_message() {
    let msg = identity_to_json(&message(
        "sync-runtime",
        SyncIdentityKind::Artifact,
        "artifact:wikidata-2026-demo",
        "sha256:stream-container-example",
        Some("receipt:zkperf-run-20260329-a"),
    ));

    let parsed = parse_verb(&msg, decode_identity(&msg)).expect("parse inventory identity json");
    match parsed {
        P2PVerb::AttachInventoryIdentity(message) => {
            assert_eq!(message.plugin, "sync-runtime");
            assert_eq!(message.kind, SyncIdentityKind::Artifact);
            assert_eq!(message.identity, "artifact:wikidata-2026-demo");
            assert_eq!(message.digest, "sha256:stream-container-example");
            assert_eq!(message.backing_ref.as_deref(), Some("receipt:zkperf-run-20260329-a"));
        }
        _ => panic!("expected inventory identity verb"),
    }
}

#[test]
fn parse_inventory_identity_json_message_normalizes_producer_shape() {
    let msg = r#"{
            "verb":"attach_inventory_identity",
            "kind":"receipt",
            "object_id":"zkperf-run-20260329-a",
            "hash":"obs-0001",
            "related_artifact_ref":"wikidata-2026-demo"
        }"#;

    let parsed = parse_verb(msg, decode_identity(msg)).expect("parse inventory identity json");
    match parsed {
        P2PVerb::AttachInventoryIdentity(message) => {
            assert_eq!(message.plugin, "sync-runtime");
            assert_eq!(message.kind, SyncIdentityKind::Receipt);
            assert_eq!(message.identity, "receipt:zkperf-run-20260329-a");
            assert_eq!(message.digest, "sha256:obs-0001");
            assert_eq!(message.backing_ref.as_deref(), Some("artifact:wikidata-2026-demo"));
        }
        _ => panic!("expected inventory identity verb"),
    }
}

#[test]
fn parse_sync_identity_kind_accepts_producer_aliases() {
    assert_eq!(parse_sync_identity_kind("manifest").expect("manifest"), SyncIdentityKind::Artifact);
    assert_eq!(
        parse_sync_identity_kind("zkperf_observation").expect("observation"),
        SyncIdentityKind::Receipt
    );
}

#[test]
fn capture_result_prefers_inventory_identity_payloads() {
    let mut server = P2PPluginServer::new();
    server.inventory_identities.insert(
        "sync-runtime".to_string(),
        vec![message(
            "sync-runtime",
            SyncIdentityKind::Receipt,
            "receipt:zkperf-run-20260329-a",
            "sha256:obs-0001",
            Some("artifact:wikidata-2026-demo"),
        )],
    );

    let result = server.capture_result("sync-runtime");
    assert_eq!(result, "Captured 1 inventory identities for sync-runtime");

    let stored = server.results.get("sync-runtime").expect("stored result");
    let decoded: Value = serde_json::from_slice(stored).expect("decode stored inventory identities");
    let list = decoded.as_array().expect("array");
    assert_eq!(list.len(), 1);
    assert_eq!(list[0]["identity"], "receipt:zkperf-run-20260329-a");
}

#[test]
fn kind_names_are_case_and_space_insensitive() {
    assert_eq!(parse_sync_identity_kind("  Shard ").unwrap(), SyncIdentityKind::Artifact);
    assert_eq!(parse_sync_identity_kind("PROOF").unwrap(), SyncIdentityKind::Receipt);
    assert_eq!(parse_sync_identity_kind("erdfa_manifest").unwrap(), SyncIdentityKind::Artifact);
    assert_eq!(parse_sync_identity_kind("blob").unwrap_err(), "Unknown sync identity kind");
}

#[test]
fn identity_gets_its_kind_prefix_unless_it_has_one() {
    assert_eq!(normalize_identity(SyncIdentityKind::Artifact, " x1 ").unwrap(), "artifact:x1");
    assert_eq!(normalize_identity(SyncIdentityKind::Artifact, "receipt:r").unwrap(), "receipt:r");
    assert_eq!(normalize_identity(SyncIdentityKind::Receipt, "receipt:r").unwrap(), "receipt:r");
    assert_eq!(normalize_identity(SyncIdentityKind::Receipt, "   ").unwrap_err(), "identity cannot be empty");
}

#[test]
fn digest_gets_sha256_prefix() {
    assert_eq!(normalize_digest("abc").unwrap(), "sha256:abc");
    assert_eq!(normalize_digest(" sha256:abc ").unwrap(), "sha256:abc");
    assert_eq!(normalize_digest("").unwrap_err(), "digest cannot be empty");
}

#[test]
fn backing_ref_gets_counterpart_prefix() {
    assert_eq!(normalize_backing_ref(SyncIdentityKind::Artifact, Some("r1")).as_deref(), Some("receipt:r1"));
    assert_eq!(normalize_backing_ref(SyncIdentityKind::Receipt, Some("a1")).as_deref(), Some("artifact:a1"));
    assert_eq!(normalize_backing_ref(SyncIdentityKind::Receipt, Some("artifact:a1")).as_deref(), Some("artifact:a1"));
    assert_eq!(normalize_backing_ref(SyncIdentityKind::Receipt, Some("  ")), None);
    assert_eq!(normalize_backing_ref(SyncIdentityKind::Receipt, None), None);
}

#[test]
fn normalizing_twice_changes_nothing() {
    let once = message(" p ", SyncIdentityKind::Receipt, "r1", "d1", Some("a1")).normalized().unwrap();
    let twice = once.duplicate().normalized().unwrap();
    assert_eq!(once.plugin, twice.plugin);
    assert_eq!(once.identity, twice.identity);
    assert_eq!(once.digest, twice.digest);
    assert_eq!(once.backing_ref, twice.backing_ref);
    assert_eq!(twice.identity, "receipt:r1");
    assert_eq!(twice.plugin, "p");
}

#[test]
fn identity_json_matches_serde_layout() {
    let m = message("p\"q", SyncIdentityKind::Artifact, "artifact:a", "sha256:d", None);
    assert_eq!(
        identity_to_json(&m),
        r#"{"verb":"attach_inventory_identity","plugin":"p\"q","kind":"artifact","identity":"artifact:a","digest":"sha256:d"}"#
    );
    let list = identities_to_json(&vec![m.duplicate(), m]);
    let v: Value = serde_json::from_str(&list).unwrap();
    assert_eq!(v.as_array().unwrap().len(), 2);
}

#[test]
fn text_grammar_reads_each_keyword() {
    match parse_text_verb("REGISTER plug 42").unwrap() {
        P2PVerb::RegisterEvent(p, n) => {
            assert_eq!(p, "plug");
            assert_eq!(n, 42);
        }
        _ => panic!("register"),
    }
    match parse_text_verb("COMPILE_SRC lib fn  main() {}").unwrap() {
        P2PVerb::CompileSource(n, s) => {
            assert_eq!(n, "lib");
            assert_eq!(s, "fn main() {}");
        }
        _ => panic!("compile"),
    }
    match parse_text_verb("INVOKE p f x").unwrap() {
        P2PVerb::InvokeFunction(_, _, n) => assert_eq!(n, 0),
        _ => panic!("invoke"),
    }
    match parse_text_verb("ATTACH_INVENTORY p receipt r1 d1").unwrap() {
        P2PVerb::AttachInventoryIdentity(m) => {
            assert_eq!(m.identity, "r1");
            assert_eq!(m.backing_ref, None);
        }
        _ => panic!("attach inventory"),
    }
    assert_eq!(parse_text_verb("REGISTER plug x").unwrap_err(), "invalid digit found in string");
    assert_eq!(parse_text_verb("REGISTER plug 99999999999").unwrap_err(), "number too large to fit in target type");
    assert_eq!(parse_text_verb("   ").unwrap_err(), "Empty message");
    assert_eq!(parse_text_verb("HELLO").unwrap_err(), "Unknown verb");
    assert_eq!(parse_text_verb("ATTACH_INVENTORY p blob r d").unwrap_err(), "Unknown sync identity kind");
}

#[test]
fn incomplete_text_messages_are_detected() {
    assert!(!text_message_complete("LOAD_SO only"));
    assert!(text_message_complete("LOAD_SO name path"));
    assert!(!text_message_complete("ATTACH_INVENTORY p receipt r"));
    assert!(text_message_complete("ATTACH_INVENTORY p blob"));
    assert!(text_message_complete(""));
}

#[test]
fn json_with_a_blank_identity_is_refused() {
    let msg = r#"{"kind":"artifact","identity":"  ","digest":"d"}"#;
    assert_eq!(
        parse_verb(msg, decode_identity(msg)).unwrap_err(),
        "normalize sync inventory identity: identity cannot be empty"
    );
}

#[test]
fn plugin_server_state_verbs() {
    let mut server = P2PPluginServer::new();
    match server.execute_verb(P2PVerb::RegisterEvent("p".to_string(), 7)) {
        VerbOutcome::Done(Ok(r)) => assert_eq!(r, "Registered p for event 7"),
        _ => panic!("register"),
    }
    match server.execute_verb(P2PVerb::AttachData("p".to_string(), vec![1, 2])) {
        VerbOutcome::Done(Ok(r)) => assert_eq!(r, "Attached data to p"),
        _ => panic!("attach"),
    }
    assert_eq!(server.stored_data.get("p"), Some(&vec![1, 2]));
    match server.execute_verb(P2PVerb::AttachInventoryIdentity(message("q", SyncIdentityKind::Artifact, "a1", "d1", None))) {
        VerbOutcome::Done(Ok(r)) => assert_eq!(r, "Attached artifact inventory identity artifact:a1 to q"),
        _ => panic!("attach identity"),
    }
    assert_eq!(server.capture_result("none"), "Captured result: \"Result from none\"");
    assert_eq!(server.results.get("none"), Some(&b"Result from none".to_vec()));
    match server.execute_verb(P2PVerb::LoadSo("a".to_string(), "b".to_string())) {
        VerbOutcome::NeedsRuntime(P2PVerb::LoadSo(a, b)) => {
            assert_eq!(a, "a");
            assert_eq!(b, "b");
        }
        _ => panic!("load so needs the loader"),
    }
}
