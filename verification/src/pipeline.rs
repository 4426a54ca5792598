//! The pipeline orchestrator: a strictly sequential state machine.
//!
//! `Idle → NameDerived → DirectoryPrepared → FilesCollected (one upload
//! at a time) → DeploymentCreated → Done`, with `Failed` reachable from
//! every non-terminal state.  The surrounding application performs the
//! filesystem and network work between steps and feeds the outcomes
//! back; every decision about what those outcomes mean is made here.
//! The first failing step halts the run: in particular a failed blob
//! upload moves the machine to `Failed` with kind `DeployFailed`, from
//! which manifest submission is no longer enabled.

use vstd::prelude::*;
use crate::bytes::copy_bytes;
use crate::content::FileDescriptor;
use crate::deploy::{parse_alias_response, parse_deployment_response, resolve_final_url,
    DeploymentHandle};
use crate::errors::ImportError;
use crate::manifest::{build_manifest, manifest_json};
use crate::name::{create_name, dashed};
use crate::trusted::{json_str_field, json_string_list_field, url_host};
use crate::walker::{collect_files, files_under, match_records, subtree_readable, FsNode};

verus! {

/// One planned blob upload: the transport payload as body, the raw
/// size for the length header, the hex digest for the integrity
/// header, and the bearer credential for the authorization header.
pub struct UploadRequest {
    pub content_length: usize,
    pub content_digest: Vec<u8>,
    pub authorization: String,
    pub body: Vec<u8>,
}

/// Where a pipeline run stands.
pub enum PipelineState {
    Idle,
    NameDerived { name: Vec<u8> },
    DirectoryPrepared { name: Vec<u8> },
    FilesCollected { name: Vec<u8>, files: Vec<FileDescriptor>, uploaded: usize },
    DeploymentCreated { handle: DeploymentHandle },
    Done { url: String },
    Failed { error: ImportError },
}

/// One import run, advanced step by step by the caller.
pub struct Pipeline {
    pub state: PipelineState,
}

impl Pipeline {
    /// The upload counter never runs past the collected file list.
    pub open spec fn wf(&self) -> bool {
        match self.state {
            PipelineState::FilesCollected { uploaded, files, .. } => uploaded <= files@.len(),
            _ => true,
        }
    }

    /// Whether the manifest may be submitted: all collected files, and
    /// no fewer, have been uploaded.
    pub open spec fn submission_enabled(&self) -> bool {
        match self.state {
            PipelineState::FilesCollected { uploaded, files, .. } => uploaded == files@.len(),
            _ => false,
        }
    }

    /// A fresh, idle run.
    pub fn new() -> (p: Pipeline)
        ensures
            p.state is Idle,
            p.wf(),
    {
        Pipeline { state: PipelineState::Idle }
    }

    /// Derives the project name from the source identifier, failing the
    /// run with `InvalidSource` where the source has no host.
    pub fn derive_name(self, source: &str) -> (p: Pipeline)
        requires
            self.state is Idle,
        ensures
            p.wf(),
            match url_host(source@) {
                Some(h) => p.state matches PipelineState::NameDerived { name } && name@ == dashed(
                    h,
                ),
                None => (p.state matches PipelineState::Failed { error }
                    && error == ImportError::InvalidSource(None::<String>)),
            },
    {
        match create_name(source) {
            Ok(name) => Pipeline { state: PipelineState::NameDerived { name } },
            Err(error) => Pipeline { state: PipelineState::Failed { error } },
        }
    }

    /// The derived project name, also used for the local staging
    /// directory.
    pub fn project_name(&self) -> (r: &Vec<u8>)
        requires
            self.state matches PipelineState::NameDerived { .. },
        ensures
            self.state matches PipelineState::NameDerived { name } && r@ == name@,
    {
        match &self.state {
            PipelineState::NameDerived { name } => name,
            _ => vstd::pervasive::unreached(),
        }
    }

    /// Records that the staging directory was prepared and populated.
    pub fn directory_prepared(self) -> (p: Pipeline)
        requires
            self.state matches PipelineState::NameDerived { .. },
        ensures
            p.wf(),
            self.state matches PipelineState::NameDerived { name }
                && p.state == (PipelineState::DirectoryPrepared { name }),
    {
        match self.state {
            PipelineState::NameDerived { name } => Pipeline {
                state: PipelineState::DirectoryPrepared { name },
            },
            _ => vstd::pervasive::unreached(),
        }
    }

    /// Fails the run from any non-terminal state; the error is kept
    /// unchanged for the caller.
    pub fn fail(self, error: ImportError) -> (p: Pipeline)
        requires
            !(self.state is Done),
            !(self.state is Failed),
        ensures
            p.wf(),
            p.state == (PipelineState::Failed { error }),
    {
        Pipeline { state: PipelineState::Failed { error } }
    }

    /// Walks the staged snapshot and collects every file descriptor,
    /// failing the run with `CollectionFailed` exactly where part of
    /// the snapshot was not read completely.
    pub fn collect(self, root: &FsNode) -> (p: Pipeline)
        requires
            self.state matches PipelineState::DirectoryPrepared { .. },
        ensures
            p.wf(),
            subtree_readable(*root) ==> {
                &&& p.state matches PipelineState::FilesCollected { name, files, uploaded }
                &&& (self.state matches PipelineState::DirectoryPrepared { name: n0 } && name@
                    == n0@)
                &&& match_records(files@, files_under(Seq::<u8>::empty(), *root))
                &&& uploaded == 0
            },
            !subtree_readable(*root) ==> (p.state matches PipelineState::Failed { error }
                && error == ImportError::CollectionFailed(None::<String>)),
    {
        match self.state {
            PipelineState::DirectoryPrepared { name } => match collect_files(root) {
                Ok(files) => Pipeline {
                    state: PipelineState::FilesCollected { name, files, uploaded: 0 },
                },
                Err(error) => Pipeline { state: PipelineState::Failed { error } },
            },
            _ => vstd::pervasive::unreached(),
        }
    }

    /// How many collected files still await upload.
    pub fn uploads_remaining(&self) -> (r: usize)
        requires
            self.state matches PipelineState::FilesCollected { .. },
            self.wf(),
        ensures
            self.state matches PipelineState::FilesCollected { files, uploaded, .. } && r
                == files@.len() - uploaded,
    {
        match &self.state {
            PipelineState::FilesCollected { files, uploaded, .. } => files.len() - *uploaded,
            _ => vstd::pervasive::unreached(),
        }
    }

    /// Plans the next blob upload: the payload travels as the body, the
    /// raw (pre-encoding) size as the length header, the digest as the
    /// integrity header, and the credential as a bearer token.
    pub fn upload_request(&self, token: &str) -> (r: UploadRequest)
        requires
            self.state matches PipelineState::FilesCollected { files, uploaded, .. } && uploaded
                < files@.len(),
        ensures
            self.state matches PipelineState::FilesCollected { files, uploaded, .. } && {
                &&& r.content_length == files@[uploaded as int].size_bytes
                &&& r.content_digest@ == files@[uploaded as int].content_digest@
                &&& r.body@ == files@[uploaded as int].transport_payload@
                &&& r.authorization@ == "Bearer "@ + token@
            },
    {
        match &self.state {
            PipelineState::FilesCollected { files, uploaded, .. } => {
                let file = &files[*uploaded];
                let mut authorization = String::from_str("Bearer ");
                authorization.append(token);
                UploadRequest {
                    content_length: file.size_bytes,
                    content_digest: copy_bytes(&file.content_digest),
                    authorization,
                    body: copy_bytes(&file.transport_payload),
                }
            },
            _ => vstd::pervasive::unreached(),
        }
    }

    /// Records one successful blob upload.
    pub fn upload_succeeded(self) -> (p: Pipeline)
        requires
            self.state matches PipelineState::FilesCollected { files, uploaded, .. } && uploaded
                < files@.len(),
        ensures
            p.wf(),
            self.state matches PipelineState::FilesCollected { name, files, uploaded } && p.state
                == (PipelineState::FilesCollected { name, files, uploaded: (uploaded + 1) as usize
            }),
    {
        match self.state {
            PipelineState::FilesCollected { name, files, uploaded } => {
                proof {
                    vstd::std_specs::vec::axiom_spec_len(&files);
                }
                Pipeline {
                    state: PipelineState::FilesCollected { name, files, uploaded: uploaded + 1 },
                }
            },
            _ => vstd::pervasive::unreached(),
        }
    }

    /// Records a failed blob upload: the whole batch is abandoned and
    /// the run fails with `DeployFailed`.  Nothing already uploaded is
    /// rolled back; the remote store is content-addressed, so a re-run
    /// simply covers the same blobs again.
    pub fn upload_failed(self, detail: Option<String>) -> (p: Pipeline)
        requires
            self.state matches PipelineState::FilesCollected { .. },
        ensures
            p.wf(),
            p.state == (PipelineState::Failed { error: ImportError::DeployFailed(detail) }),
            !p.submission_enabled(),
    {
        Pipeline { state: PipelineState::Failed { error: ImportError::DeployFailed(detail) } }
    }

    /// Serializes the deployment manifest; only enabled once every
    /// collected file has been uploaded.
    pub fn manifest_document(&self) -> (r: Vec<u8>)
        requires
            self.submission_enabled(),
        ensures
            self.state matches PipelineState::FilesCollected { name, files, .. } && r@
                == manifest_json(name@, files@),
    {
        match &self.state {
            PipelineState::FilesCollected { name, files, .. } => build_manifest(name, files),
            _ => vstd::pervasive::unreached(),
        }
    }

    /// Interprets the deployment service's creation response: exactly
    /// where a body is present and is a JSON object with string fields
    /// `id` and `url`, the run advances with a handle carrying those
    /// two verbatim; a missing body or anything else in it fails the
    /// run with `DeployFailed`.
    pub fn submit_response(self, body: Option<&str>) -> (p: Pipeline)
        requires
            self.submission_enabled(),
        ensures
            p.wf(),
            match body {
                None => p.state == (PipelineState::Failed {
                    error: ImportError::DeployFailed(None::<String>),
                }),
                Some(t) => match (json_str_field(t@, "id"@), json_str_field(t@, "url"@)) {
                    (Some(id), Some(url)) => (p.state matches PipelineState::DeploymentCreated {
                        handle,
                    } && handle.deployment_id@ == id && handle.provisional_url@ == url
                        && handle.resolved_alias is None),
                    _ => p.state == (PipelineState::Failed {
                        error: ImportError::DeployFailed(None::<String>),
                    }),
                },
            },
    {
        match parse_deployment_response(body) {
            Ok(handle) => Pipeline { state: PipelineState::DeploymentCreated { handle } },
            Err(error) => Pipeline { state: PipelineState::Failed { error } },
        }
    }

    /// Finishes the run with the outcome of alias resolution: the
    /// finalized alias where one was found, and the provisional URL
    /// from the submission step otherwise.  Either way the run ends in
    /// `Done` — a missing alias is never an error.
    pub fn resolve_alias(self, alias: Option<String>) -> (p: Pipeline)
        requires
            self.state matches PipelineState::DeploymentCreated { .. },
        ensures
            p.wf(),
            self.state matches PipelineState::DeploymentCreated { handle } && match alias {
                Some(a) => p.state matches PipelineState::Done { url } && url@ == a@,
                None => p.state matches PipelineState::Done { url } && url@
                    == handle.provisional_url@,
            },
    {
        match self.state {
            PipelineState::DeploymentCreated { handle } => {
                let url = resolve_final_url(alias, handle.provisional_url);
                Pipeline { state: PipelineState::Done { url } }
            },
            _ => vstd::pervasive::unreached(),
        }
    }

    /// Interprets the alias lookup response.  Alias resolution is best
    /// effort: whatever the response looks like, the run finishes in
    /// `Done` — with the first finalized alias exactly where the body's
    /// `aliasFinal` field is a nonempty array of strings, and with the
    /// provisional URL from the submission step otherwise.
    pub fn alias_response(self, body: Option<&str>) -> (p: Pipeline)
        requires
            self.state matches PipelineState::DeploymentCreated { .. },
        ensures
            p.wf(),
            p.state is Done,
            self.state matches PipelineState::DeploymentCreated { handle } ==> match body {
                None => (p.state matches PipelineState::Done { url } && url@
                    == handle.provisional_url@),
                Some(t) => match json_string_list_field(t@, "aliasFinal"@) {
                    Some(aliases) => if aliases.len() > 0 {
                        p.state matches PipelineState::Done { url } && url@ == aliases[0]
                    } else {
                        p.state matches PipelineState::Done { url } && url@
                            == handle.provisional_url@
                    },
                    None => (p.state matches PipelineState::Done { url } && url@
                        == handle.provisional_url@),
                },
            },
    {
        let alias = parse_alias_response(body);
        self.resolve_alias(alias)
    }

    /// The outcome of a finished run: the published URL, or the first
    /// error, unchanged.
    pub fn into_result(self) -> (r: Result<String, ImportError>)
        requires
            self.state is Done || self.state is Failed,
        ensures
            self.state matches PipelineState::Done { url } ==> (r matches Ok(u) && u == url),
            self.state matches PipelineState::Failed { error } ==> (r matches Err(e) && e
                == error),
    {
        match self.state {
            PipelineState::Done { url } => Ok(url),
            PipelineState::Failed { error } => Err(error),
            _ => vstd::pervasive::unreached(),
        }
    }
}

/// Law: once a run has failed — in particular after a failed upload,
/// which `upload_failed` sends to `Failed` with kind `DeployFailed` —
/// manifest submission is not enabled, so the run never proceeds to
/// deployment creation.
pub proof fn lemma_failure_blocks_submission(p: Pipeline)
    requires
        p.state is Failed,
    ensures
        !p.submission_enabled(),
{
}

/// Law: manifest submission is enabled only when every collected file,
/// the last of `n` included, has been uploaded.
pub proof fn lemma_submission_needs_all_uploads(p: Pipeline)
    requires
        p.submission_enabled(),
    ensures
        p.state matches PipelineState::FilesCollected { files, uploaded, .. } && uploaded
            == files@.len(),
{
}

} // verus!
