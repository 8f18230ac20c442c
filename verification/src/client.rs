//! The update client's configuration and lifecycle states, and the cloud
//! API's paths, request bodies and response fields.

use vstd::prelude::*;
use crate::bytesutil::push_bytes;
use crate::jsonext::{json_find_string, json_string_value};
use crate::menderutils::{KeyStore, MenderStatus};

verus! {

/// Configuration of the update client.
pub struct MenderClientConfig {
    pub identity: KeyStore,
    pub artifact_name: String,
    pub device_type: String,
    pub host: String,
    pub tenant_token: Option<String>,
    pub authentication_poll_interval: u32,
    pub update_poll_interval: u32,
    pub recommissioning: bool,
    pub device_update_done_reset: bool,
}

impl MenderClientConfig {
    /// A configuration with the given identity and endpoints; intervals
    /// zero, recommissioning and update-done reset off.
    pub fn new(
        identity: KeyStore,
        artifact_name: &str,
        device_type: &str,
        host: &str,
        tenant_token: Option<&str>,
    ) -> (r: MenderClientConfig)
        ensures
            r.identity.entries() == identity.entries(),
            r.artifact_name@ == artifact_name@,
            r.device_type@ == device_type@,
            r.host@ == host@,
            match tenant_token {
                Some(t) => r.tenant_token matches Some(s) && s@ == t@,
                None => r.tenant_token is None,
            },
            r.authentication_poll_interval == 0,
            r.update_poll_interval == 0,
            !r.recommissioning,
            !r.device_update_done_reset,
    {
        MenderClientConfig {
            identity,
            artifact_name: String::from_str(artifact_name),
            device_type: String::from_str(device_type),
            host: String::from_str(host),
            tenant_token: match tenant_token {
                Some(t) => Some(String::from_str(t)),
                None => None,
            },
            authentication_poll_interval: 0,
            update_poll_interval: 0,
            recommissioning: false,
            device_update_done_reset: false,
        }
    }

    /// The same configuration with another host.
    pub fn with_host(self, host: &str) -> (r: MenderClientConfig)
        ensures
            r == (MenderClientConfig { host: r.host, ..self }),
            r.host@ == host@,
    {
        MenderClientConfig { host: String::from_str(host), ..self }
    }

    /// The same configuration with another authentication poll interval.
    pub fn with_auth_interval(self, interval: u32) -> (r: MenderClientConfig)
        ensures
            r == (MenderClientConfig { authentication_poll_interval: interval, ..self }),
    {
        MenderClientConfig { authentication_poll_interval: interval, ..self }
    }

    /// The same configuration with another update poll interval.
    pub fn with_update_interval(self, interval: u32) -> (r: MenderClientConfig)
        ensures
            r == (MenderClientConfig { update_poll_interval: interval, ..self }),
    {
        MenderClientConfig { update_poll_interval: interval, ..self }
    }

    /// The same configuration with recommissioning set.
    pub fn with_recommissioning(self, recommissioning: bool) -> (r: MenderClientConfig)
        ensures
            r == (MenderClientConfig { recommissioning, ..self }),
    {
        MenderClientConfig { recommissioning, ..self }
    }

    /// The same configuration with the update-done reset set.
    pub fn with_device_update_done_reset(self, device_update_done_reset: bool) -> (r:
        MenderClientConfig)
        ensures
            r == (MenderClientConfig { device_update_done_reset, ..self }),
    {
        MenderClientConfig { device_update_done_reset, ..self }
    }
}

/// Lifecycle of the client.
#[derive(Debug, Clone, Copy, PartialEq, Eq, Structural)]
pub enum MenderClientState {
    Initialization,
    Authentication,
    Authenticated,
}

/// Configuration of the cloud API layer.
pub struct MenderApiConfig {
    pub identity: KeyStore,
    pub artifact_name: String,
    pub device_type: String,
    pub host: String,
    pub tenant_token: Option<String>,
}

/// Configuration of the inventory add-on.
pub struct MenderInventoryConfig {
    pub refresh_interval: u32,
}

/// Configuration of the device-configuration add-on.
pub struct MenderConfigureConfig {
    pub refresh_interval: u32,
}

/// Events of the WebSocket transport.
#[derive(Debug, Clone, Copy, PartialEq, Eq, Structural)]
pub enum WebSocketEvent {
    Connected,
    DataReceived,
    Disconnected,
    Error,
}

/// Configuration of the WebSocket transport.
pub struct WebSocketConfig {
    pub host: String,
}

/// The deployment-status path for a deployment, with the identifier spliced
/// into the fixed template.
pub open spec fn spec_deployment_status_path(id: Seq<u8>) -> Seq<u8> {
    "/api/devices/v1/deployments/device/deployments/"@.map_values(|c: char| c as u8) + id
        + "/status"@.map_values(|c: char| c as u8)
}

/// The path a deployment's status is reported on.
pub fn get_deployment_status_path(deployment_id: &[u8]) -> (r: Vec<u8>)
    ensures
        r@ == spec_deployment_status_path(deployment_id@),
{
    let mut r: Vec<u8> = Vec::new();
    push_bytes(
        &mut r,
        &[
            47, 97, 112, 105, 47, 100, 101, 118, 105, 99, 101, 115, 47, 118, 49, 47, 100, 101,
            112, 108, 111, 121, 109, 101, 110, 116, 115, 47, 100, 101, 118, 105, 99, 101, 47, 100,
            101, 112, 108, 111, 121, 109, 101, 110, 116, 115, 47,
        ],
    );
    push_bytes(&mut r, deployment_id);
    push_bytes(&mut r, &[47, 115, 116, 97, 116, 117, 115]);
    proof {
        reveal_strlit("/api/devices/v1/deployments/device/deployments/");
        reveal_strlit("/status");
        assert(r@ =~= spec_deployment_status_path(deployment_id@));
    }
    r
}

/// The fields of a deployment offer: its identifier, artifact name and
/// download URI, read from the response by key.
pub open spec fn spec_deployment_fields(body: Seq<u8>) -> Option<(Seq<u8>, Seq<u8>, Seq<u8>)> {
    let id = json_string_value(body, "id"@.map_values(|c: char| c as u8));
    let name = json_string_value(body, "artifact_name"@.map_values(|c: char| c as u8));
    let uri = json_string_value(body, "uri"@.map_values(|c: char| c as u8));
    match (id, name, uri) {
        (Some(i), Some(n), Some(u)) => Some((i, n, u)),
        _ => None,
    }
}

/// Extracts the deployment identifier, artifact name and artifact URI from
/// a deployment offer; fails when any of the three is missing. The fields
/// are read by quoted-key extraction (see `jsonext`): the offer arrives
/// over the device's authenticated TLS session from the configured server,
/// not from an arbitrary peer, and its values carry no escaped quotes.
pub fn parse_deployment_response(body: &[u8]) -> (r: Result<
    (Vec<u8>, Vec<u8>, Vec<u8>),
    MenderStatus,
>)
    ensures
        match r {
            Ok((i, n, u)) => spec_deployment_fields(body@) == Some((i@, n@, u@)),
            Err(e) => e == MenderStatus::Failed && spec_deployment_fields(body@) is None,
        },
{
    let id_key: [u8; 2] = [105, 100];
    let name_key: [u8; 13] = [97, 114, 116, 105, 102, 97, 99, 116, 95, 110, 97, 109, 101];
    let uri_key: [u8; 3] = [117, 114, 105];
    proof {
        reveal_strlit("id");
        reveal_strlit("artifact_name");
        reveal_strlit("uri");
        assert(id_key@ =~= "id"@.map_values(|c: char| c as u8));
        assert(name_key@ =~= "artifact_name"@.map_values(|c: char| c as u8));
        assert(uri_key@ =~= "uri"@.map_values(|c: char| c as u8));
    }
    let id: Vec<u8> = match json_find_string(body, id_key.as_slice()) {
        Some(v) => v,
        None => {
            return Err(MenderStatus::Failed);
        },
    };
    let name: Vec<u8> = match json_find_string(body, name_key.as_slice()) {
        Some(v) => v,
        None => {
            return Err(MenderStatus::Failed);
        },
    };
    let uri: Vec<u8> = match json_find_string(body, uri_key.as_slice()) {
        Some(v) => v,
        None => {
            return Err(MenderStatus::Failed);
        },
    };
    Ok((id, name, uri))
}

/// A byte string with every line feed replaced by the two characters `\n`,
/// as a JSON string value requires.
pub open spec fn spec_escape_newlines(s: Seq<u8>) -> Seq<u8>
    decreases s.len(),
{
    if s.len() == 0 {
        Seq::empty()
    } else {
        spec_escape_newlines(s.drop_last()) + if s.last() == 10 {
            seq![92u8, 110u8]
        } else {
            seq![s.last()]
        }
    }
}

/// Escapes line feeds for embedding in a JSON string.
pub fn escape_newlines(s: &[u8]) -> (r: Vec<u8>)
    ensures
        r@ == spec_escape_newlines(s@),
{
    let n: usize = s.len();
    let mut r: Vec<u8> = Vec::new();
    let mut i: usize = 0;
    while i < n
        invariant
            i <= n,
            n == s@.len(),
            r@ == spec_escape_newlines(s@.take(i as int)),
        decreases n - i,
    {
        proof {
            assert(s@.take(i + 1).drop_last() =~= s@.take(i as int));
        }
        if s[i] == 10 {
            r.push(92);
            r.push(110);
        } else {
            r.push(s[i]);
        }
        i = i + 1;
    }
    proof {
        assert(s@.take(n as int) =~= s@);
    }
    r
}

/// The body of an authentication request: the device identity, the escaped
/// public key, and the tenant token when the device has one.
pub open spec fn spec_auth_request_body(
    mac: Seq<u8>,
    pubkey: Seq<u8>,
    tenant: Option<Seq<u8>>,
) -> Seq<u8> {
    let head = "{\"id_data\": \"{\\\"mac\\\":\\\""@.map_values(|c: char| c as u8) + mac
        + "\\\"}\", \"pubkey\": \""@.map_values(|c: char| c as u8) + spec_escape_newlines(pubkey);
    match tenant {
        Some(t) => head + "\", \"tenant_token\": \""@.map_values(|c: char| c as u8) + t
            + "\"}"@.map_values(|c: char| c as u8),
        None => head + "\"}"@.map_values(|c: char| c as u8),
    }
}

/// Builds the authentication request body for the given identity, public
/// key (PEM, line feeds escaped) and optional tenant token.
pub fn build_auth_request_body(mac: &[u8], pubkey: &[u8], tenant: Option<&[u8]>) -> (r: Vec<u8>)
    ensures
        r@ == spec_auth_request_body(
            mac@,
            pubkey@,
            match tenant {
                Some(t) => Some(t@),
                None => None,
            },
        ),
{
    let mut r: Vec<u8> = Vec::new();
    push_bytes(
        &mut r,
        &[
            123, 34, 105, 100, 95, 100, 97, 116, 97, 34, 58, 32, 34, 123, 92, 34, 109, 97, 99, 92,
            34, 58, 92, 34,
        ],
    );
    push_bytes(&mut r, mac);
    push_bytes(
        &mut r,
        &[92, 34, 125, 34, 44, 32, 34, 112, 117, 98, 107, 101, 121, 34, 58, 32, 34],
    );
    let esc: Vec<u8> = escape_newlines(pubkey);
    push_bytes(&mut r, esc.as_slice());
    match tenant {
        Some(t) => {
            push_bytes(
                &mut r,
                &[34, 44, 32, 34, 116, 101, 110, 97, 110, 116, 95, 116, 111, 107, 101, 110, 34,
                    58, 32, 34],
            );
            push_bytes(&mut r, t);
            push_bytes(&mut r, &[34, 125]);
        },
        None => {
            push_bytes(&mut r, &[34, 125]);
        },
    }
    proof {
        reveal_strlit("{\"id_data\": \"{\\\"mac\\\":\\\"");
        reveal_strlit("\\\"}\", \"pubkey\": \"");
        reveal_strlit("\", \"tenant_token\": \"");
        reveal_strlit("\"}");
        assert(r@ =~= spec_auth_request_body(
            mac@,
            pubkey@,
            match tenant {
                Some(t) => Some(t@),
                None => None,
            },
        ));
    }
    r
}

/// The query path for the next-deployment poll: the fixed endpoint with the
/// device's artifact name and type as parameters.
pub open spec fn spec_deployment_query_path(artifact_name: Seq<u8>, device_type: Seq<u8>) -> Seq<
    u8,
> {
    "/api/devices/v1/deployments/device/deployments/next?artifact_name="@.map_values(
        |c: char| c as u8,
    ) + artifact_name + "&device_type="@.map_values(|c: char| c as u8) + device_type
}

/// Builds the query path the device polls for its next deployment.
pub fn build_deployment_query_path(artifact_name: &[u8], device_type: &[u8]) -> (r: Vec<u8>)
    ensures
        r@ == spec_deployment_query_path(artifact_name@, device_type@),
{
    let mut r: Vec<u8> = Vec::new();
    push_bytes(
        &mut r,
        &[
            47, 97, 112, 105, 47, 100, 101, 118, 105, 99, 101, 115, 47, 118, 49, 47, 100, 101,
            112, 108, 111, 121, 109, 101, 110, 116, 115, 47, 100, 101, 118, 105, 99, 101, 47, 100,
            101, 112, 108, 111, 121, 109, 101, 110, 116, 115, 47, 110, 101, 120, 116, 63, 97, 114,
            116, 105, 102, 97, 99, 116, 95, 110, 97, 109, 101, 61,
        ],
    );
    push_bytes(&mut r, artifact_name);
    push_bytes(&mut r, &[38, 100, 101, 118, 105, 99, 101, 95, 116, 121, 112, 101, 61]);
    push_bytes(&mut r, device_type);
    proof {
        reveal_strlit("/api/devices/v1/deployments/device/deployments/next?artifact_name=");
        reveal_strlit("&device_type=");
        assert(r@ =~= spec_deployment_query_path(artifact_name@, device_type@));
    }
    r
}

/// The URI with every JSON-escaped ampersand (`&`) replaced by `&`,
/// occurrences taken left to right.
pub open spec fn spec_unescape_uri(s: Seq<u8>) -> Seq<u8>
    decreases s.len(),
{
    let pat = seq![92u8, 117u8, 48u8, 48u8, 50u8, 54u8];
    match crate::bytesutil::first_occurrence(s, pat) {
        Some(p) => if 0 <= p && p + 6 <= s.len() {
            s.take(p) + seq![38u8] + spec_unescape_uri(s.skip(p + 6))
        } else {
            s
        },
        None => s,
    }
}

/// Replaces the JSON escape `&` by `&` throughout a download URI.
pub fn unescape_uri(uri: &[u8]) -> (r: Vec<u8>)
    ensures
        r@ == spec_unescape_uri(uri@),
{
    let pat: [u8; 6] = [92, 117, 48, 48, 50, 54];
    proof {
        assert(pat@ =~= seq![92u8, 117u8, 48u8, 48u8, 50u8, 54u8]);
    }
    let mut out: Vec<u8> = Vec::new();
    let mut rest: Vec<u8> = crate::bytesutil::copy_range(uri, 0, uri.len());
    proof {
        assert(rest@ =~= uri@);
    }
    loop
        invariant_except_break
            pat@ == seq![92u8, 117u8, 48u8, 48u8, 50u8, 54u8],
            spec_unescape_uri(uri@) =~= out@ + spec_unescape_uri(rest@),
        ensures
            out@ == spec_unescape_uri(uri@),
        decreases rest@.len(),
    {
        let rl: usize = rest.len();
        match crate::bytesutil::find_first(rest.as_slice(), pat.as_slice()) {
            Some(p) => {
                proof {
                    crate::bytesutil::lemma_first_occ_from_is_occ(
                        rest@,
                        seq![92u8, 117u8, 48u8, 48u8, 50u8, 54u8],
                        0,
                        p as int,
                    );
                    assert(rest@.take(p as int) =~= rest@.subrange(0, p as int));
                }
                let ghost pre = out@;
                let head: Vec<u8> = crate::bytesutil::copy_range(rest.as_slice(), 0, p);
                push_bytes(&mut out, head.as_slice());
                out.push(38);
                let next: Vec<u8> = crate::bytesutil::copy_range(rest.as_slice(), p + 6, rl);
                proof {
                    assert(next@ =~= rest@.skip(p + 6));
                    assert(out@ =~= pre + (rest@.take(p as int) + seq![38u8]));
                    assert(pre + (rest@.take(p as int) + seq![38u8]) + spec_unescape_uri(next@)
                        =~= pre + spec_unescape_uri(rest@));
                }
                rest = next;
            },
            None => {
                let ghost pre = out@;
                push_bytes(&mut out, rest.as_slice());
                proof {
                    assert(out@ =~= pre + spec_unescape_uri(rest@));
                }
                break ;
            },
        }
    }
    out
}

/// Where the deployment workflow stands.
#[derive(Debug, Clone, Copy, PartialEq, Eq, Structural)]
pub enum DeployPhase {
    Checking,
    Downloading,
    Installing,
    Persisting,
    Restarting,
    Complete,
    Aborted,
}

/// The workflow's state: its phase, and whether the streamed payload asked
/// for a boot-slot switch and a restart.
#[derive(Debug, Clone, Copy, PartialEq, Eq, Structural)]
pub struct DeployState {
    pub phase: DeployPhase,
    pub needs_set_pending_image: bool,
    pub needs_restart: bool,
}

/// What happened since the last decision.
#[derive(Debug, Clone, Copy, PartialEq, Eq, Structural)]
pub enum DeployEvent {
    OfferMissing,
    OfferReceived,
    PayloadStaged,
    DownloadFailed,
    DownloadDone,
    InstallStepDone,
    PendingImageFailed,
    StateSaved,
    StateSaveFailed,
}

/// What the runner performs next.
#[derive(Debug, Clone, Copy, PartialEq, Eq, Structural)]
pub enum DeployAction {
    Hold,
    StartDownload,
    SetPendingImage,
    AbortDeployment,
    SaveState,
    Restart,
    ClearRecord,
}

impl DeployState {
    /// A fresh workflow, about to poll for an offer.
    pub fn init() -> (r: DeployState)
        ensures
            r == (DeployState {
                phase: DeployPhase::Checking,
                needs_set_pending_image: false,
                needs_restart: false,
            }),
    {
        DeployState {
            phase: DeployPhase::Checking,
            needs_set_pending_image: false,
            needs_restart: false,
        }
    }
}

/// The deployment workflow's decision table: next state, the deployment
/// status to publish on the edge (if any), and the action the runner
/// performs. An empty or failed poll completes quietly; an offer publishes
/// `Downloading` and starts the download; a staged payload records that the
/// boot slot must switch and the device restart; a failed download
/// publishes `Failure` and aborts the flash when a slot switch was pending,
/// else just clears the record; a finished download publishes `Installing`
/// and switches the boot slot when needed; after installing, the record is
/// persisted and `Rebooting` published when a restart is due, else
/// `Success`; a failed slot switch or persist publishes `Failure` and
/// clears the record. Any other event holds the state.
pub open spec fn spec_deploy_step(s: DeployState, ev: DeployEvent) -> (
    DeployState,
    Option<crate::menderutils::DeploymentStatus>,
    DeployAction,
) {
    match (s.phase, ev) {
        (DeployPhase::Checking, DeployEvent::OfferMissing) => (
            DeployState { phase: DeployPhase::Complete, ..s },
            None,
            DeployAction::Hold,
        ),
        (DeployPhase::Checking, DeployEvent::OfferReceived) => (
            DeployState { phase: DeployPhase::Downloading, ..s },
            Some(crate::menderutils::DeploymentStatus::Downloading),
            DeployAction::StartDownload,
        ),
        (DeployPhase::Downloading, DeployEvent::PayloadStaged) => (
            DeployState { needs_set_pending_image: true, needs_restart: true, ..s },
            None,
            DeployAction::Hold,
        ),
        (DeployPhase::Downloading, DeployEvent::DownloadFailed) => (
            DeployState { phase: DeployPhase::Aborted, ..s },
            Some(crate::menderutils::DeploymentStatus::Failure),
            if s.needs_set_pending_image {
                DeployAction::AbortDeployment
            } else {
                DeployAction::ClearRecord
            },
        ),
        (DeployPhase::Downloading, DeployEvent::DownloadDone) => (
            DeployState { phase: DeployPhase::Installing, ..s },
            Some(crate::menderutils::DeploymentStatus::Installing),
            if s.needs_set_pending_image {
                DeployAction::SetPendingImage
            } else {
                DeployAction::Hold
            },
        ),
        (DeployPhase::Installing, DeployEvent::PendingImageFailed) => (
            DeployState { phase: DeployPhase::Aborted, ..s },
            Some(crate::menderutils::DeploymentStatus::Failure),
            DeployAction::ClearRecord,
        ),
        (DeployPhase::Installing, DeployEvent::InstallStepDone) => if s.needs_restart {
            (DeployState { phase: DeployPhase::Persisting, ..s }, None, DeployAction::SaveState)
        } else {
            (
                DeployState { phase: DeployPhase::Complete, ..s },
                Some(crate::menderutils::DeploymentStatus::Success),
                DeployAction::ClearRecord,
            )
        },
        (DeployPhase::Persisting, DeployEvent::StateSaved) => (
            DeployState { phase: DeployPhase::Restarting, ..s },
            Some(crate::menderutils::DeploymentStatus::Rebooting),
            DeployAction::Restart,
        ),
        (DeployPhase::Persisting, DeployEvent::StateSaveFailed) => (
            DeployState { phase: DeployPhase::Aborted, ..s },
            Some(crate::menderutils::DeploymentStatus::Failure),
            DeployAction::ClearRecord,
        ),
        _ => (s, None, DeployAction::Hold),
    }
}

/// Takes one step of the deployment workflow.
pub fn deploy_step(s: DeployState, ev: DeployEvent) -> (r: (
    DeployState,
    Option<crate::menderutils::DeploymentStatus>,
    DeployAction,
))
    ensures
        r == spec_deploy_step(s, ev),
{
    match (s.phase, ev) {
        (DeployPhase::Checking, DeployEvent::OfferMissing) => (
            DeployState { phase: DeployPhase::Complete, ..s },
            None,
            DeployAction::Hold,
        ),
        (DeployPhase::Checking, DeployEvent::OfferReceived) => (
            DeployState { phase: DeployPhase::Downloading, ..s },
            Some(crate::menderutils::DeploymentStatus::Downloading),
            DeployAction::StartDownload,
        ),
        (DeployPhase::Downloading, DeployEvent::PayloadStaged) => (
            DeployState { needs_set_pending_image: true, needs_restart: true, ..s },
            None,
            DeployAction::Hold,
        ),
        (DeployPhase::Downloading, DeployEvent::DownloadFailed) => (
            DeployState { phase: DeployPhase::Aborted, ..s },
            Some(crate::menderutils::DeploymentStatus::Failure),
            if s.needs_set_pending_image {
                DeployAction::AbortDeployment
            } else {
                DeployAction::ClearRecord
            },
        ),
        (DeployPhase::Downloading, DeployEvent::DownloadDone) => (
            DeployState { phase: DeployPhase::Installing, ..s },
            Some(crate::menderutils::DeploymentStatus::Installing),
            if s.needs_set_pending_image {
                DeployAction::SetPendingImage
            } else {
                DeployAction::Hold
            },
        ),
        (DeployPhase::Installing, DeployEvent::PendingImageFailed) => (
            DeployState { phase: DeployPhase::Aborted, ..s },
            Some(crate::menderutils::DeploymentStatus::Failure),
            DeployAction::ClearRecord,
        ),
        (DeployPhase::Installing, DeployEvent::InstallStepDone) => if s.needs_restart {
            (DeployState { phase: DeployPhase::Persisting, ..s }, None, DeployAction::SaveState)
        } else {
            (
                DeployState { phase: DeployPhase::Complete, ..s },
                Some(crate::menderutils::DeploymentStatus::Success),
                DeployAction::ClearRecord,
            )
        },
        (DeployPhase::Persisting, DeployEvent::StateSaved) => (
            DeployState { phase: DeployPhase::Restarting, ..s },
            Some(crate::menderutils::DeploymentStatus::Rebooting),
            DeployAction::Restart,
        ),
        (DeployPhase::Persisting, DeployEvent::StateSaveFailed) => (
            DeployState { phase: DeployPhase::Aborted, ..s },
            Some(crate::menderutils::DeploymentStatus::Failure),
            DeployAction::ClearRecord,
        ),
        _ => (s, None, DeployAction::Hold),
    }
}

} // verus!

