//! End-to-end runs of the pipeline state machine over in-memory
//! snapshots and canned service responses.

use now_importer::errors::ErrorKind;
use now_importer::pipeline::{Pipeline, PipelineState};
use now_importer::walker::{FsEntry, FsNode};

fn text_file() -> Vec<u8> {
    b"hello world\n".to_vec()
}

fn binary_file() -> Vec<u8> {
    let mut bytes = vec![0x89u8, 0x50, 0x4E, 0x47, 0x0D, 0x0A, 0x1A, 0x0A];
    for b in 0xF0u16..=0xFF {
        bytes.push(b as u8);
    }
    bytes.extend(std::iter::repeat(0x80u8).take(16));
    assert_eq!(bytes.len(), 40);
    bytes
}

fn staging_tree() -> FsNode {
    FsNode::Dir {
        entries: vec![
            FsEntry { name: b"index.html".to_vec(), node: FsNode::File { content: text_file() } },
            FsEntry { name: b"logo.png".to_vec(), node: FsNode::File { content: binary_file() } },
        ],
    }
}

fn run_until_uploads(source: &str) -> Pipeline {
    let p = Pipeline::new();
    let p = p.derive_name(source);
    assert!(matches!(p.state, PipelineState::NameDerived { .. }));
    assert_eq!(p.project_name(), &b"example-com".to_vec());
    let p = p.directory_prepared();
    let p = p.collect(&staging_tree());
    assert!(matches!(p.state, PipelineState::FilesCollected { .. }));
    p
}

#[test]
fn full_import_resolves_alias() {
    let mut p = run_until_uploads("https://example.com");
    assert_eq!(p.uploads_remaining(), 2);

    let first = p.upload_request("tok_1");
    assert_eq!(first.content_length, 12);
    assert_eq!(
        first.content_digest,
        b"22596363b3de40b06f981fb85d82312e8c0ed511".to_vec()
    );
    assert_eq!(first.authorization, "Bearer tok_1".to_string());
    assert_eq!(first.body, text_file());
    p = p.upload_succeeded();

    let second = p.upload_request("tok_1");
    assert_eq!(second.content_length, 40);
    assert_eq!(
        second.content_digest,
        b"2f3bcf1d847ef34ca4ae5622ae2bdaf8791d00b8".to_vec()
    );
    assert_eq!(
        second.body,
        b"iVBORw0KGgrw8fLz9PX29/j5+vv8/f7/gICAgICAgICAgICAgICAgA==".to_vec()
    );
    p = p.upload_succeeded();
    assert_eq!(p.uploads_remaining(), 0);

    let manifest = p.manifest_document();
    let manifest_text = String::from_utf8(manifest).unwrap();
    assert!(manifest_text.starts_with("{\"version\":2,\"name\":\"example-com\","));
    assert!(manifest_text.contains(
        "{\"file\":\"index.html\",\"sha\":\"22596363b3de40b06f981fb85d82312e8c0ed511\",\"size\":12}"
    ));
    assert!(manifest_text.contains(
        "{\"file\":\"logo.png\",\"sha\":\"2f3bcf1d847ef34ca4ae5622ae2bdaf8791d00b8\",\"size\":40}"
    ));

    let p = p.submit_response(Some("{\"id\":\"dep_1\",\"url\":\"https://dep1.host\"}"));
    assert!(matches!(p.state, PipelineState::DeploymentCreated { .. }));
    let p = p.alias_response(Some("{\"aliasFinal\":[\"example-com.host\"]}"));
    assert_eq!(p.into_result().unwrap(), "example-com.host".to_string());
}

#[test]
fn empty_alias_list_falls_back_to_provisional_url() {
    let mut p = run_until_uploads("https://example.com");
    p = p.upload_succeeded();
    p = p.upload_succeeded();
    let p = p.submit_response(Some("{\"id\":\"dep_1\",\"url\":\"https://dep1.host\"}"));
    let p = p.alias_response(Some("{\"aliasFinal\":[]}"));
    assert_eq!(p.into_result().unwrap(), "https://dep1.host".to_string());
}

#[test]
fn alias_transport_failure_falls_back_to_provisional_url() {
    let mut p = run_until_uploads("https://example.com");
    p = p.upload_succeeded();
    p = p.upload_succeeded();
    let p = p.submit_response(Some("{\"id\":\"dep_1\",\"url\":\"https://dep1.host\"}"));
    let p = p.alias_response(None);
    assert_eq!(p.into_result().unwrap(), "https://dep1.host".to_string());
}

#[test]
fn invalid_source_fails_before_any_work() {
    let p = Pipeline::new();
    let p = p.derive_name("not a url");
    match &p.state {
        PipelineState::Failed { error } => {
            assert_eq!(error.kind(), ErrorKind::InvalidSource);
        }
        _ => panic!("expected the run to fail on the source"),
    }
    assert_eq!(p.into_result().unwrap_err().kind(), ErrorKind::InvalidSource);
}

#[test]
fn upload_failure_aborts_batch_with_deploy_failed() {
    let mut p = run_until_uploads("https://example.com");
    p = p.upload_succeeded();
    let p = p.upload_failed(Some("connection reset".to_string()));
    match &p.state {
        PipelineState::Failed { error } => {
            assert_eq!(error.kind(), ErrorKind::DeployFailed);
            assert_eq!(error.detail().as_deref(), Some("connection reset"));
        }
        _ => panic!("expected the run to fail after the upload"),
    }
    let err = p.into_result().unwrap_err();
    assert_eq!(err.kind(), ErrorKind::DeployFailed);
}

#[test]
fn unreadable_directory_fails_collection() {
    let p = Pipeline::new().derive_name("https://example.com").directory_prepared();
    let tree = FsNode::Dir {
        entries: vec![
            FsEntry { name: b"ok.txt".to_vec(), node: FsNode::File { content: b"fine".to_vec() } },
            FsEntry { name: b"locked".to_vec(), node: FsNode::UnreadableDir },
        ],
    };
    let p = p.collect(&tree);
    assert_eq!(p.into_result().unwrap_err().kind(), ErrorKind::CollectionFailed);
}

#[test]
fn malformed_deployment_response_is_deploy_failed() {
    let p = Pipeline::new().derive_name("https://example.com").directory_prepared();
    let p = p.collect(&FsNode::Dir { entries: vec![] });
    let manifest = p.manifest_document();
    assert!(String::from_utf8(manifest).unwrap().contains("\"files\":[]"));
    let p = p.submit_response(Some("{\"unexpected\":true}"));
    assert_eq!(p.into_result().unwrap_err().kind(), ErrorKind::DeployFailed);
}
