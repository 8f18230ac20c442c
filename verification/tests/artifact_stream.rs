//! Streaming the deployment artifact: the minimal tar-in-tar bundle, the
//! emitted events, and invariance under chunking.

use telemetry_gateway::artifact::{ArtifactEvent, MenderArtifactContext};

fn tar_header(name: &str, size: usize) -> Vec<u8> {
    let mut h = vec![0u8; 512];
    h[..name.len()].copy_from_slice(name.as_bytes());
    let oct = format!("{:011o}", size);
    h[124..124 + 11].copy_from_slice(oct.as_bytes());
    h[257..262].copy_from_slice(b"ustar");
    h
}

fn padded(content: &[u8]) -> Vec<u8> {
    let mut v = content.to_vec();
    let pad = (512 - content.len() % 512) % 512;
    v.extend(std::iter::repeat(0u8).take(pad));
    v
}

/// The minimal artifact: version, header.tar with one rootfs-image payload,
/// and one data tar holding 1024 bytes of 0xAA.
fn minimal_artifact() -> Vec<u8> {
    let version = br#"{"format":"mender","version":3}"#;
    let header_info = br#"{"payloads":[{"type":"rootfs-image"}]}"#;
    let type_info =
        br#"{"type":"rootfs-image","artifact_provides":{"rootfs-image.checksum":"abcd0123"}}"#;

    // inner header.tar
    let mut header_tar: Vec<u8> = Vec::new();
    header_tar.extend(tar_header("header-info", header_info.len()));
    header_tar.extend(padded(header_info));
    header_tar.extend(tar_header("headers/0000/type-info", type_info.len()));
    header_tar.extend(padded(type_info));
    header_tar.extend(tar_header("headers/0000/meta-data", 0));
    header_tar.extend(vec![0u8; 1024]);

    // inner data tar: one file of 1024 bytes of 0xAA
    let payload = vec![0xAAu8; 1024];
    let mut data_tar: Vec<u8> = Vec::new();
    data_tar.extend(tar_header("image.bin", payload.len()));
    data_tar.extend(padded(&payload));
    data_tar.extend(vec![0u8; 1024]);

    let mut a: Vec<u8> = Vec::new();
    a.extend(tar_header("version", version.len()));
    a.extend(padded(version));
    a.extend(tar_header("header.tar", header_tar.len()));
    a.extend(header_tar);
    a.extend(tar_header("data/0000.tar", data_tar.len()));
    a.extend(data_tar);
    a.extend(vec![0u8; 1024]);
    a
}

fn describe(events: &[ArtifactEvent]) -> Vec<String> {
    events
        .iter()
        .map(|e| match e {
            ArtifactEvent::Begin { payload_type, meta, checksum } => format!(
                "begin type={} meta={} chk={}",
                String::from_utf8_lossy(payload_type),
                String::from_utf8_lossy(meta),
                String::from_utf8_lossy(checksum),
            ),
            ArtifactEvent::Chunk { filename, size, data, offset, total, checksum } => format!(
                "chunk file={} size={} len={} off={} total={} chk={} all_aa={}",
                String::from_utf8_lossy(filename),
                size,
                data.len(),
                offset,
                total,
                String::from_utf8_lossy(checksum),
                data.iter().all(|b| *b == 0xAA),
            ),
        })
        .collect()
}

#[test]
fn artifact_minimal_bundle_events() {
    let artifact = minimal_artifact();
    let mut ctx = MenderArtifactContext::new();
    let events = ctx.mender_artifact_process_data(&artifact).expect("parse");
    let desc = describe(&events);
    assert_eq!(
        desc,
        vec![
            "begin type=rootfs-image meta= chk=abcd0123".to_string(),
            "chunk file=image.bin size=1024 len=512 off=0 total=512 chk=abcd0123 all_aa=true"
                .to_string(),
            "chunk file=image.bin size=1024 len=512 off=512 total=512 chk=abcd0123 all_aa=true"
                .to_string(),
        ]
    );
}

#[test]
fn artifact_chunking_invariance() {
    // The same artifact fed in chunks of 1, 7, 100, 511 and 4096 bytes
    // yields exactly the event sequence of a single feed.
    let artifact = minimal_artifact();
    let mut whole = MenderArtifactContext::new();
    let baseline = describe(&whole.mender_artifact_process_data(&artifact).expect("parse"));

    for chunk_size in [1usize, 7, 100, 511, 4096] {
        let mut ctx = MenderArtifactContext::new();
        let mut got: Vec<String> = Vec::new();
        for chunk in artifact.chunks(chunk_size) {
            let events = ctx.mender_artifact_process_data(chunk).expect("parse chunked");
            got.extend(describe(&events));
        }
        assert_eq!(got, baseline, "chunk size {}", chunk_size);
    }
}

#[test]
fn artifact_meta_data_travels_with_begin() {
    // As the minimal bundle, but the meta-data member carries content: the
    // Begin event must hand it over verbatim.
    let version = br#"{"format":"mender","version":3}"#;
    let header_info = br#"{"payloads":[{"type":"rootfs-image"}]}"#;
    let type_info =
        br#"{"type":"rootfs-image","artifact_provides":{"rootfs-image.checksum":"00ff"}}"#;
    let meta = br#"{"note":"staged"}"#;

    let mut header_tar: Vec<u8> = Vec::new();
    header_tar.extend(tar_header("header-info", header_info.len()));
    header_tar.extend(padded(header_info));
    header_tar.extend(tar_header("headers/0000/type-info", type_info.len()));
    header_tar.extend(padded(type_info));
    header_tar.extend(tar_header("headers/0000/meta-data", meta.len()));
    header_tar.extend(padded(meta));
    header_tar.extend(vec![0u8; 1024]);

    let payload = vec![0x55u8; 100];
    let mut data_tar: Vec<u8> = Vec::new();
    data_tar.extend(tar_header("cfg.bin", payload.len()));
    data_tar.extend(padded(&payload));
    data_tar.extend(vec![0u8; 1024]);

    let mut a: Vec<u8> = Vec::new();
    a.extend(tar_header("version", version.len()));
    a.extend(padded(version));
    a.extend(tar_header("header.tar", header_tar.len()));
    a.extend(header_tar);
    a.extend(tar_header("data/0000.tar", data_tar.len()));
    a.extend(data_tar);
    a.extend(vec![0u8; 1024]);

    let mut ctx = MenderArtifactContext::new();
    let events = ctx.mender_artifact_process_data(&a).expect("parse");
    let desc = describe(&events);
    assert_eq!(desc.len(), 2);
    assert_eq!(desc[0], r#"begin type=rootfs-image meta={"note":"staged"} chk=00ff"#);
    // A 100-byte file still arrives as one block, with the real residual in
    // the total field.
    assert!(desc[1].starts_with("chunk file=cfg.bin size=100 len=100 off=0 total=100"));
}

#[test]
fn artifact_rejects_bad_magic() {
    let mut block = tar_header("version", 10);
    block[257] = b'x';
    let mut ctx = MenderArtifactContext::new();
    assert!(ctx.mender_artifact_process_data(&block).is_err());
}

#[test]
fn artifact_rejects_wrong_version() {
    let version = br#"{"format":"mender","version":2}"#;
    let mut a = tar_header("version", version.len());
    a.extend(padded(version));
    let mut ctx = MenderArtifactContext::new();
    assert!(ctx.mender_artifact_process_data(&a).is_err());
}

#[test]
fn artifact_waits_for_more_data() {
    // A half block produces no events and no failure.
    let artifact = minimal_artifact();
    let mut ctx = MenderArtifactContext::new();
    let events = ctx.mender_artifact_process_data(&artifact[..256]).expect("partial");
    assert!(events.is_empty());
}
