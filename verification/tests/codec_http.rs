//! Encoders, parsers and request builders: hex, base64, PEM, JSON field
//! extraction, HTTP framing, and the cloud API helpers.

use telemetry_gateway::client::{
    build_auth_request_body, build_deployment_query_path, deploy_step, escape_newlines,
    get_deployment_status_path, parse_deployment_response, unescape_uri, DeployAction,
    DeployEvent, DeployPhase, DeployState,
};
use telemetry_gateway::menderutils::DeploymentStatus;
use telemetry_gateway::hexutil::decode_hex;
use telemetry_gateway::httpmsg::{
    build_header_request, convert_ws_to_http_url, extract_host, get_transfer_encoding,
    mender_api_http_text_callback, method_bytes, parse_chunk_size, parse_headers, parse_hex_u32,
    ChunkDecoder, HttpClientEvent, HttpMethod, MenderHttpResponseData, TransferEncoding,
};
use telemetry_gateway::dns::DnsBuilder;
use telemetry_gateway::jsonext::{json_find_string, json_int_equals};
use telemetry_gateway::tlsutil::{base64_no_std_encode, mender_tls_pem_write_buffer};

#[test]
fn hex_decoding() {
    assert_eq!(decode_hex(b"00ff10Ab"), Some(vec![0x00, 0xFF, 0x10, 0xAB]));
    assert_eq!(decode_hex(b""), Some(vec![]));
    assert_eq!(decode_hex(b"abc"), None, "odd length");
    assert_eq!(decode_hex(b"zz"), None, "not hex");
}

#[test]
fn base64_known_vectors() {
    assert_eq!(base64_no_std_encode(b""), b"");
    assert_eq!(base64_no_std_encode(b"f"), b"Zg==");
    assert_eq!(base64_no_std_encode(b"fo"), b"Zm8=");
    assert_eq!(base64_no_std_encode(b"foo"), b"Zm9v");
    assert_eq!(base64_no_std_encode(b"foob"), b"Zm9vYg==");
    assert_eq!(base64_no_std_encode(b"fooba"), b"Zm9vYmE=");
    assert_eq!(base64_no_std_encode(b"foobar"), b"Zm9vYmFy");
}

#[test]
fn pem_rendering() {
    // 60 bytes encode to 80 base64 characters: one full 64-column line and
    // one of 16.
    let der = vec![7u8; 60];
    let pem = mender_tls_pem_write_buffer(&der);
    let text = String::from_utf8(pem).expect("ascii");
    let lines: Vec<&str> = text.lines().collect();
    assert_eq!(lines[0], "-----BEGIN PUBLIC KEY-----");
    assert_eq!(lines[1].len(), 64);
    assert_eq!(lines[2].len(), 16);
    assert_eq!(lines[3], "-----END PUBLIC KEY-----");
    assert_eq!(
        lines[1..3].concat(),
        String::from_utf8(base64_no_std_encode(&der)).unwrap()
    );
}

#[test]
fn json_field_extraction() {
    let doc = br#"{"format": "mender", "version": 3, "nested": {"uri": "https://x/y"}}"#;
    assert_eq!(json_find_string(doc, b"format"), Some(b"mender".to_vec()));
    assert_eq!(json_find_string(doc, b"uri"), Some(b"https://x/y".to_vec()));
    assert_eq!(json_find_string(doc, b"missing"), None);
    assert!(json_int_equals(doc, b"version", 3));
    assert!(!json_int_equals(doc, b"version", 4));
    assert!(!json_int_equals(doc, b"format", 3));
}

#[test]
fn deployment_response_fields() {
    let body = br#"{"id":"d-1","artifact":{"artifact_name":"fw-2","source":{"uri":"https://cdn/a"}}}"#;
    let (id, name, uri) = parse_deployment_response(body).expect("fields");
    assert_eq!(id, b"d-1");
    assert_eq!(name, b"fw-2");
    assert_eq!(uri, b"https://cdn/a");
    assert!(parse_deployment_response(br#"{"id":"d-1"}"#).is_err());
}

#[test]
fn deployment_status_path() {
    assert_eq!(
        get_deployment_status_path(b"d-17"),
        b"/api/devices/v1/deployments/device/deployments/d-17/status".to_vec()
    );
}

#[test]
fn auth_request_body_shape() {
    let body = build_auth_request_body(b"aa:bb", b"-----KEY-----\nABC\n", None);
    assert_eq!(
        String::from_utf8(body).unwrap(),
        "{\"id_data\": \"{\\\"mac\\\":\\\"aa:bb\\\"}\", \"pubkey\": \"-----KEY-----\\nABC\\n\"}"
    );
    let with_token = build_auth_request_body(b"aa", b"K", Some(b"tok"));
    assert!(String::from_utf8(with_token).unwrap().ends_with("\"tenant_token\": \"tok\"}"));
    assert_eq!(escape_newlines(b"a\nb"), b"a\\nb".to_vec());
}

#[test]
fn http_request_head() {
    let head = build_header_request(
        HttpMethod::Post,
        b"/api/auth",
        Some(b"JWT1"),
        Some(b"SIG1"),
        Some(b"{\"x\":1}"),
        b"hosted.example",
        false,
    );
    let text = String::from_utf8(head).unwrap();
    assert!(text.starts_with("POST /api/auth HTTP/1.1\r\n"));
    assert!(text.contains("Host: hosted.example\r\n"));
    assert!(text.contains("Connection: close\r\n"));
    assert!(text.contains("Authorization: Bearer JWT1\r\n"));
    assert!(text.contains("X-MEN-Signature: SIG1\r\n"));
    assert!(text.contains("Content-Length: 7\r\n"));
    assert!(text.ends_with("\r\n\r\n"));

    let download = build_header_request(
        HttpMethod::Get,
        b"/a",
        None,
        None,
        None,
        b"h",
        true,
    );
    let text = String::from_utf8(download).unwrap();
    assert!(text.contains("Keep-Alive: timeout=30\r\n"));
    assert!(text.contains("Content-Length: 0\r\n"));
    assert_eq!(method_bytes(HttpMethod::Put), b"PUT");
}

#[test]
fn response_header_framing() {
    let resp = b"HTTP/1.1 204 No Content\r\nServer: x\r\n\r\nBODY";
    let (end, code) = parse_headers(resp).expect("framed");
    assert_eq!(code, 204);
    assert_eq!(&resp[end..], b"BODY");
    assert_eq!(parse_headers(b"HTTP/1.1 200 OK\r\n"), None, "head not complete");
}

#[test]
fn chunked_transfer_sizes() {
    let (size, consumed) = parse_chunk_size(b"1a3;ext=1\r\ndata").expect("size");
    assert_eq!(size, 0x1a3);
    assert_eq!(consumed, 11);
    assert_eq!(parse_chunk_size(b"zz\r\n"), None);
    assert_eq!(parse_chunk_size(b"10"), None, "no line break yet");
    assert_eq!(parse_hex_u32(b"ffffffff"), Some(0xFFFF_FFFF));
    assert_eq!(parse_hex_u32(b"100000000"), None, "does not fit 32 bits");
}

#[test]
fn transfer_encoding_detection() {
    let chunked = b"HTTP/1.1 200 OK\r\nTransfer-Encoding: chunked\r\n\r\n";
    assert_eq!(get_transfer_encoding(chunked), TransferEncoding::Chunked);
    let sized = b"HTTP/1.1 200 OK\r\ncontent-LENGTH: 512\r\n\r\n";
    assert_eq!(get_transfer_encoding(sized), TransferEncoding::ContentLength(512));
    let neither = b"HTTP/1.1 200 OK\r\nServer: x\r\n\r\n";
    assert_eq!(get_transfer_encoding(neither), TransferEncoding::Unknown);
}

#[test]
fn host_extraction_and_ws_urls() {
    assert_eq!(extract_host(b"https://app.example.io/api/x"), Ok(b"app.example.io".to_vec()));
    assert_eq!(extract_host(b"http://h"), Ok(b"h".to_vec()));
    assert!(extract_host(b"ftp://h/x").is_err());
    assert_eq!(convert_ws_to_http_url(b"ws://h/p"), b"http://h/p".to_vec());
    assert_eq!(convert_ws_to_http_url(b"wss://h/p"), b"https://h/p".to_vec());
    assert_eq!(convert_ws_to_http_url(b"https://h/p"), b"https://h/p".to_vec());
}

#[test]
fn dns_query_and_response() {
    let q = DnsBuilder::build(b"broker.example.ai").query_data();
    // Length prefix, then the fixed header, then the labels.
    let body = &q[2..];
    assert_eq!(u16::from_be_bytes([q[0], q[1]]) as usize, body.len());
    assert_eq!(&body[..12], &[0xAB, 0xCD, 1, 0, 0, 1, 0, 0, 0, 0, 0, 0]);
    let mut name = vec![6u8];
    name.extend_from_slice(b"broker");
    name.push(7);
    name.extend_from_slice(b"example");
    name.push(2);
    name.extend_from_slice(b"ai");
    name.push(0);
    assert_eq!(&body[12..12 + name.len()], &name[..]);
    assert_eq!(&body[12 + name.len()..], &[0, 1, 0, 1]);

    // A response: same question, one answer with a compressed name, type A,
    // class IN, a TTL and four address bytes.
    let mut resp: Vec<u8> = body[..12].to_vec();
    resp.extend_from_slice(&name);
    resp.extend_from_slice(&[0, 1, 0, 1]);
    resp.extend_from_slice(&[0xC0, 0x0C, 0, 1, 0, 1, 0, 0, 0, 60]);
    resp.extend_from_slice(&[0, 4, 93, 184, 216, 34]);
    assert_eq!(DnsBuilder::parse_dns_response(&resp), Ok([93, 184, 216, 34]));
    assert!(DnsBuilder::parse_dns_response(&resp[..20]).is_err());
}

#[test]
fn deployment_query_path_and_uri_unescape() {
    assert_eq!(
        build_deployment_query_path(b"release-7", b"tcu"),
        b"/api/devices/v1/deployments/device/deployments/next?artifact_name=release-7&device_type=tcu"
            .to_vec()
    );
    assert_eq!(
        unescape_uri(br"https://cdn/a?x=1\u0026y=2\u0026z=3"),
        b"https://cdn/a?x=1&y=2&z=3".to_vec()
    );
    assert_eq!(unescape_uri(b"plain"), b"plain".to_vec());
}

#[test]
fn deployment_workflow_happy_path() {
    // Offer -> download (payload staged) -> install -> persist -> reboot,
    // with the statuses the cloud sees on each edge.
    let s = DeployState::init();
    let (s, st, act) = deploy_step(s, DeployEvent::OfferReceived);
    assert_eq!((st, act), (Some(DeploymentStatus::Downloading), DeployAction::StartDownload));
    let (s, st, act) = deploy_step(s, DeployEvent::PayloadStaged);
    assert_eq!((st, act), (None, DeployAction::Hold));
    let (s, st, act) = deploy_step(s, DeployEvent::DownloadDone);
    assert_eq!((st, act), (Some(DeploymentStatus::Installing), DeployAction::SetPendingImage));
    let (s, st, act) = deploy_step(s, DeployEvent::InstallStepDone);
    assert_eq!((st, act), (None, DeployAction::SaveState));
    let (s, st, act) = deploy_step(s, DeployEvent::StateSaved);
    assert_eq!((st, act), (Some(DeploymentStatus::Rebooting), DeployAction::Restart));
    assert_eq!(s.phase, DeployPhase::Restarting);
}

#[test]
fn deployment_workflow_failures() {
    // No offer: quiet completion.
    let (s, st, act) = deploy_step(DeployState::init(), DeployEvent::OfferMissing);
    assert_eq!((s.phase, st, act), (DeployPhase::Complete, None, DeployAction::Hold));

    // Download fails after the payload was staged: failure + flash abort.
    let s = DeployState::init();
    let (s, _, _) = deploy_step(s, DeployEvent::OfferReceived);
    let (s, _, _) = deploy_step(s, DeployEvent::PayloadStaged);
    let (s, st, act) = deploy_step(s, DeployEvent::DownloadFailed);
    assert_eq!((s.phase, st, act), (
        DeployPhase::Aborted,
        Some(DeploymentStatus::Failure),
        DeployAction::AbortDeployment,
    ));

    // Download fails before any payload: failure, record cleared only.
    let s = DeployState::init();
    let (s, _, _) = deploy_step(s, DeployEvent::OfferReceived);
    let (_, st, act) = deploy_step(s, DeployEvent::DownloadFailed);
    assert_eq!((st, act), (Some(DeploymentStatus::Failure), DeployAction::ClearRecord));

    // A download with no staged payload completes with Success.
    let s = DeployState::init();
    let (s, _, _) = deploy_step(s, DeployEvent::OfferReceived);
    let (s, _, act) = deploy_step(s, DeployEvent::DownloadDone);
    assert_eq!(act, DeployAction::Hold);
    let (s, st, act) = deploy_step(s, DeployEvent::InstallStepDone);
    assert_eq!((s.phase, st, act), (
        DeployPhase::Complete,
        Some(DeploymentStatus::Success),
        DeployAction::ClearRecord,
    ));
}

#[test]
fn text_callback_accumulates() {
    let mut rd = MenderHttpResponseData::new();
    mender_api_http_text_callback(HttpClientEvent::Connected, b"", &mut rd).expect("connect");
    assert!(rd.text.is_none());
    mender_api_http_text_callback(HttpClientEvent::DataReceived, b"", &mut rd).expect("empty");
    assert!(rd.text.is_none(), "empty data leaves the accumulator untouched");
    mender_api_http_text_callback(HttpClientEvent::DataReceived, b"hel", &mut rd).expect("data");
    mender_api_http_text_callback(HttpClientEvent::DataReceived, b"lo", &mut rd).expect("data");
    assert_eq!(rd.text.as_deref(), Some(b"hello".as_slice()));
    assert!(
        mender_api_http_text_callback(HttpClientEvent::Error, b"", &mut rd).is_err()
    );
    assert_eq!(rd.text.as_deref(), Some(b"hello".as_slice()), "error leaves the text");
    // Bytes that are not valid UTF-8 are rejected and leave the text.
    assert!(
        mender_api_http_text_callback(HttpClientEvent::DataReceived, &[0xFF, 0xFE], &mut rd)
            .is_err()
    );
    assert_eq!(rd.text.as_deref(), Some(b"hello".as_slice()));
    // A lone continuation byte and a truncated sequence are invalid too.
    let mut fresh = MenderHttpResponseData::new();
    assert!(
        mender_api_http_text_callback(HttpClientEvent::DataReceived, &[0x80], &mut fresh).is_err()
    );
    assert!(
        mender_api_http_text_callback(HttpClientEvent::DataReceived, &[0xC3], &mut fresh).is_err()
    );
    assert!(fresh.text.is_none());
    // Multi-byte UTF-8 passes.
    mender_api_http_text_callback(HttpClientEvent::DataReceived, "héllo".as_bytes(), &mut fresh)
        .expect("utf8");
    assert_eq!(fresh.text.as_deref(), Some("héllo".as_bytes()));
}

#[test]
fn chunked_body_reassembly() {
    // A chunked body delivered whole: the decoder yields the body bytes and
    // reports completion at the zero-size chunk.
    let body = b"7\r\nMozilla\r\n9\r\nDeveloper\r\n7\r\nNetwork\r\n0\r\n\r\n";
    let mut dec = ChunkDecoder::new();
    let out = dec.feed(body).expect("decode");
    assert_eq!(out, b"MozillaDeveloperNetwork".to_vec());
    assert!(dec.finished());

    // The same body split into reads of every small size, including splits
    // inside the size lines: the carry state keeps the partial line, and
    // the concatenated output never changes.
    for step in 1..=6usize {
        let mut dec = ChunkDecoder::new();
        let mut got: Vec<u8> = Vec::new();
        for piece in body.chunks(step) {
            got.extend(dec.feed(piece).expect("decode piece"));
        }
        assert_eq!(got, b"MozillaDeveloperNetwork".to_vec(), "read size {}", step);
        assert!(dec.finished());
    }

    // A malformed size field fails; bytes after the final chunk are ignored.
    let mut bad = ChunkDecoder::new();
    assert!(bad.feed(b"zz\r\n").is_err());
    let mut done = ChunkDecoder::new();
    done.feed(b"0\r\n").expect("final chunk");
    assert!(done.finished());
    assert_eq!(done.feed(b"ignored").expect("after end"), Vec::<u8>::new());
}
