//! Component-level checks: name derivation, hashing and encoding,
//! walking, manifest serialization, response interpretation, and the
//! error reply helper.

use now_importer::content::{decode_payload, hash_content};
use now_importer::deploy::{first_alias, parse_alias_response, parse_deployment_response,
    resolve_final_url};
use now_importer::errors::{error_response, ErrorKind, ImportError};
use now_importer::hex::to_hex;
use now_importer::manifest::build_manifest;
use now_importer::name::create_name;
use now_importer::walker::{collect_files, FsEntry, FsNode};
use base64::Engine;
use sha1::Digest;

#[test]
fn derived_name_replaces_dots_with_dashes() {
    assert_eq!(create_name("https://example.com").unwrap(), b"example-com".to_vec());
    assert_eq!(
        create_name("https://static.files.example.org/a/b?q=1").unwrap(),
        b"static-files-example-org".to_vec()
    );
}

#[test]
fn sources_without_host_are_invalid() {
    assert_eq!(create_name("not a url").unwrap_err().kind(), ErrorKind::InvalidSource);
    assert_eq!(
        create_name("data:text/plain,hello").unwrap_err().kind(),
        ErrorKind::InvalidSource
    );
}

#[test]
fn hex_rendering_is_lowercase_two_digits_per_byte() {
    assert_eq!(to_hex(&vec![]), b"".to_vec());
    assert_eq!(to_hex(&vec![0x00, 0xff, 0x1a]), b"00ff1a".to_vec());
}

#[test]
fn text_content_keeps_raw_payload_and_digest_of_raw_bytes() {
    let d = hash_content(b"index.html".to_vec(), b"hello world\n".to_vec());
    assert!(d.is_text);
    assert_eq!(d.size_bytes, 12);
    assert_eq!(d.transport_payload, b"hello world\n".to_vec());
    assert_eq!(d.content_digest, b"22596363b3de40b06f981fb85d82312e8c0ed511".to_vec());
}

#[test]
fn binary_content_is_base64_encoded_with_raw_size_and_raw_digest() {
    let raw = vec![0xffu8, 0xfe, 0x00, 0x01];
    let d = hash_content(b"blob.bin".to_vec(), raw.clone());
    assert!(!d.is_text);
    assert_eq!(d.size_bytes, 4);
    let expected = base64::engine::general_purpose::STANDARD.encode(&raw).into_bytes();
    assert_eq!(d.transport_payload, expected);
    let mut hex = String::new();
    for b in sha1::Sha1::digest(&raw) {
        hex.push_str(&format!("{:02x}", b));
    }
    assert_eq!(d.content_digest, hex.into_bytes());
}

#[test]
fn hashing_is_deterministic_across_calls() {
    let a = hash_content(b"a".to_vec(), vec![1, 2, 3, 250]);
    let b = hash_content(b"b".to_vec(), vec![1, 2, 3, 250]);
    assert_eq!(a.content_digest, b.content_digest);
    assert_eq!(a.transport_payload, b.transport_payload);
    assert_eq!(a.size_bytes, b.size_bytes);
}

#[test]
fn payload_round_trips_for_text_and_binary() {
    let text = hash_content(b"a.txt".to_vec(), b"some text".to_vec());
    assert_eq!(decode_payload(&text).unwrap(), b"some text".to_vec());
    let raw: Vec<u8> = (0u16..=255).map(|b| b as u8).collect();
    let binary = hash_content(b"b.bin".to_vec(), raw.clone());
    assert_ne!(binary.transport_payload, raw);
    assert_eq!(decode_payload(&binary).unwrap(), raw);
}

#[test]
fn walker_visits_nested_files_in_listing_order() {
    let tree = FsNode::Dir {
        entries: vec![
            FsEntry {
                name: b"assets".to_vec(),
                node: FsNode::Dir {
                    entries: vec![
                        FsEntry {
                            name: b"app.css".to_vec(),
                            node: FsNode::File { content: b"body{}".to_vec() },
                        },
                        FsEntry { name: b"tmp".to_vec(), node: FsNode::Skipped },
                    ],
                },
            },
            FsEntry {
                name: b"index.html".to_vec(),
                node: FsNode::File { content: b"<html>".to_vec() },
            },
        ],
    };
    let files = collect_files(&tree).unwrap();
    assert_eq!(files.len(), 2);
    assert_eq!(files[0].relative_path, b"assets/app.css".to_vec());
    assert_eq!(files[1].relative_path, b"index.html".to_vec());
}

#[test]
fn walker_skips_unopenable_entries_but_fails_on_unreadable_file() {
    let skipping = FsNode::Dir {
        entries: vec![FsEntry { name: b"dev".to_vec(), node: FsNode::Skipped }],
    };
    assert_eq!(collect_files(&skipping).unwrap().len(), 0);

    let failing = FsNode::Dir {
        entries: vec![FsEntry { name: b"partial".to_vec(), node: FsNode::UnreadableFile }],
    };
    assert_eq!(collect_files(&failing).unwrap_err().kind(), ErrorKind::CollectionFailed);
}

#[test]
fn manifest_matches_expected_document_exactly() {
    let files = vec![hash_content(b"index.html".to_vec(), b"hello world\n".to_vec())];
    let manifest = build_manifest(&b"example-com".to_vec(), &files);
    let expected = "{\"version\":2,\"name\":\"example-com\",\"builds\":[{\"src\":\"**/*\",\"use\":\"@now/static\"}],\"files\":[{\"file\":\"index.html\",\"sha\":\"22596363b3de40b06f981fb85d82312e8c0ed511\",\"size\":12}],\"target\":\"staging\",\"meta\":{\"imported\":\"true\"}}";
    assert_eq!(String::from_utf8(manifest).unwrap(), expected);
}

#[test]
fn manifest_is_byte_identical_when_rebuilt() {
    let files = vec![
        hash_content(b"a.txt".to_vec(), b"aaa".to_vec()),
        hash_content(b"b.bin".to_vec(), vec![0, 159, 146, 150]),
    ];
    let name = b"example-com".to_vec();
    assert_eq!(build_manifest(&name, &files), build_manifest(&name, &files));
}

#[test]
fn manifest_escapes_quotes_backslashes_and_controls() {
    let files = vec![hash_content(b"we\"ird\\na\tme".to_vec(), b"x".to_vec())];
    let manifest = String::from_utf8(build_manifest(&b"n".to_vec(), &files)).unwrap();
    assert!(manifest.contains("\"file\":\"we\\\"ird\\\\na\\u0009me\""));
    let parsed: serde_json::Value = serde_json::from_str(&manifest).unwrap();
    assert_eq!(parsed["files"][0]["file"].as_str().unwrap(), "we\"ird\\na\tme");
}

#[test]
fn deployment_response_parsing() {
    let ok = parse_deployment_response(Some("{\"id\":\"dep_9\",\"url\":\"https://u\"}")).unwrap();
    assert_eq!(ok.deployment_id, "dep_9".to_string());
    assert_eq!(ok.provisional_url, "https://u".to_string());
    assert!(ok.resolved_alias.is_none());

    let missing = parse_deployment_response(Some("{\"id\":\"dep_9\"}"));
    assert_eq!(missing.unwrap_err().kind(), ErrorKind::DeployFailed);
    let garbage = parse_deployment_response(Some("no json at all"));
    assert_eq!(garbage.unwrap_err().kind(), ErrorKind::DeployFailed);
    let transport = parse_deployment_response(None);
    assert_eq!(transport.unwrap_err().kind(), ErrorKind::DeployFailed);
}

#[test]
fn alias_response_parsing_never_fails() {
    assert_eq!(
        parse_alias_response(Some("{\"aliasFinal\":[\"a.host\",\"b.host\"]}")),
        Some("a.host".to_string())
    );
    assert_eq!(parse_alias_response(Some("{\"aliasFinal\":[]}")), None);
    assert_eq!(parse_alias_response(Some("{\"aliasFinal\":[7,\"a.host\"]}")), None);
    assert_eq!(parse_alias_response(Some("{\"aliasFinal\":\"a.host\"}")), None);
    assert_eq!(parse_alias_response(Some("{\"other\":1}")), None);
    assert_eq!(parse_alias_response(Some("best effort, not json")), None);
    assert_eq!(parse_alias_response(None), None);
}

#[test]
fn alias_fallback_rule() {
    assert_eq!(first_alias(&vec![]), None);
    assert_eq!(
        first_alias(&vec!["x.host".to_string(), "y.host".to_string()]),
        Some("x.host".to_string())
    );
    assert_eq!(
        resolve_final_url(Some("x.host".to_string()), "https://prov".to_string()),
        "x.host".to_string()
    );
    assert_eq!(
        resolve_final_url(None, "https://prov".to_string()),
        "https://prov".to_string()
    );
}

#[test]
fn error_reply_carries_detail_only_in_debug() {
    let detail = Some("tcp reset".to_string());
    let verbose = error_response("upload failed", true, &detail);
    assert!(verbose.url.is_none());
    assert_eq!(verbose.error.as_deref(), Some("upload failed: tcp reset"));

    let quiet = error_response("upload failed", false, &detail);
    assert_eq!(quiet.error.as_deref(), Some("upload failed"));

    let bare = error_response("upload failed", true, &None);
    assert_eq!(bare.error.as_deref(), Some("upload failed"));
}

#[test]
fn error_kinds_are_preserved() {
    let e = ImportError::InternalError(Some("mkdir failed".to_string()));
    assert_eq!(e.kind(), ErrorKind::InternalError);
    assert_eq!(e.detail().as_deref(), Some("mkdir failed"));
    assert_eq!(ImportError::CollectionFailed(None).kind(), ErrorKind::CollectionFailed);
}
