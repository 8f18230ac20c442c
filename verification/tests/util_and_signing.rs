//! The key store, string utilities, scheduler, outbox, block store, MMU
//! arithmetic, AT command rendering, and the RSA signing path against a
//! real key.

use rsa::signature::digest::Digest;
use telemetry_gateway::atcmds::{
    ActivatePDPContext, DeactivatePDPContext, EchoOn, FileDel, FileUpl, FunctionalityLevelOfUE,
    GetModelId, GetNetworkNitzTime, MqttClose, MqttConfig, MqttConnect, MqttOpen,
    MqttPublishExtended, PowerDown, PowerDownMode, RetrieveGpsData, SetEcho, SetUeFunctionality,
    SslConfigCert, SslConfigOther,
};
use telemetry_gateway::canbus::{can_frame_json, frame_accepted, mqtt_topic, CanFrame, Outbox};
use telemetry_gateway::flashdev::{FlashMedia, RamFlash};
use telemetry_gateway::menderutils::{
    mender_utils_http_status_to_string, mender_utils_keystore_to_json, mender_utils_strrstr,
    DeploymentStatus, KeyStore,
};
use telemetry_gateway::mmu::{
    esp_get_current_running_partition, mmu_hal_pages_to_bytes, mmu_ll_get_entry_id,
    mmu_ll_get_page_size,
};
use telemetry_gateway::nvm::{BlockId, Nvm, NvsError};
use telemetry_gateway::sched::{apply_command, MenderSchedulerWorkContext, SchedulerCommand};
use telemetry_gateway::storage::FlashKey;
use telemetry_gateway::tlsutil::{base64_no_std_encode, mender_tls_init, mender_tls_sign_payload};

#[test]
fn keystore_updates_in_place() {
    let mut ks = KeyStore::new();
    assert!(ks.is_empty());
    ks.set_item("mac", "aa:bb").expect("set");
    ks.set_item("site", "plant-1").expect("set");
    ks.set_item("mac", "cc:dd").expect("overwrite");
    assert!(!ks.is_empty());
    assert_eq!(ks.items.len(), 2);
    assert_eq!(ks.items[0].name, "mac");
    assert_eq!(ks.items[0].value, "cc:dd");
    assert_eq!(ks.items[1].name, "site");
}

#[test]
fn keystore_renders_as_json() {
    let mut ks = KeyStore::new();
    ks.set_item("mac", "aa:bb").expect("set");
    let (_, json) = mender_utils_keystore_to_json(&ks).expect("json");
    assert_eq!(json, "{\"mac\":\"aa:bb\"}");
    ks.set_item("site", "plant-1").expect("set");
    let (_, json) = mender_utils_keystore_to_json(&ks).expect("json");
    assert_eq!(json, "{\"mac\":\"aa:bb\",\"site\":\"plant-1\"}");
    let (_, empty) = mender_utils_keystore_to_json(&KeyStore::new()).expect("json");
    assert_eq!(empty, "{}");
}

#[test]
fn strrstr_finds_last_occurrence() {
    assert_eq!(mender_utils_strrstr("a.tar/b.tar/c", ".tar"), Some(".tar/c"));
    assert_eq!(mender_utils_strrstr("abc", "zz"), None);
    assert_eq!(mender_utils_strrstr("abc", ""), Some(""));
    assert_eq!(mender_utils_strrstr("xx", "xx"), Some("xx"));
}

#[test]
fn status_words() {
    assert_eq!(DeploymentStatus::Downloading.as_str(), "downloading");
    assert_eq!(DeploymentStatus::AlreadyInstalled.as_str(), "already-installed");
    assert_eq!(mender_utils_http_status_to_string(200), Some("OK"));
    assert_eq!(mender_utils_http_status_to_string(404), Some("Not Found"));
    assert_eq!(mender_utils_http_status_to_string(599), None);
}

#[test]
fn scheduler_commands() {
    let mut works: Vec<MenderSchedulerWorkContext> = Vec::new();
    let mut w = MenderSchedulerWorkContext::new(b"poll".to_vec(), 60);
    w.activate();
    apply_command(&mut works, SchedulerCommand::AddWork(w));
    assert_eq!(works.len(), 1);
    // A duplicate name is dropped; the original entry stays.
    let dup = MenderSchedulerWorkContext::new(b"poll".to_vec(), 999);
    apply_command(&mut works, SchedulerCommand::AddWork(dup));
    assert_eq!(works.len(), 1);
    assert_eq!(works[0].period, 60);
    // Due immediately on first run, then only after the period.
    assert!(works[0].should_execute(0));
    works[0].last_execution = Some(10_000);
    assert!(!works[0].should_execute(69_999));
    assert!(works[0].should_execute(70_000));
    apply_command(&mut works, SchedulerCommand::RemoveWork(b"poll".to_vec()));
    assert!(works.is_empty());
    let w2 = MenderSchedulerWorkContext::new(b"a".to_vec(), 1);
    apply_command(&mut works, SchedulerCommand::AddWork(w2));
    apply_command(&mut works, SchedulerCommand::RemoveAllWorks);
    assert!(works.is_empty());
}

#[test]
fn outbox_keeps_fifo_order() {
    let mut q = Outbox::new();
    let mk = |id: u32| CanFrame { id, len: 8, data: [id as u8; 8] };
    for id in 0..5 {
        assert!(q.try_send(mk(id)));
    }
    // Frames queued before a transport switch come out in arrival order
    // afterwards: the switch never touches the queue.
    for id in 0..5 {
        assert_eq!(q.try_receive().map(|f| f.id), Some(id));
    }
    assert_eq!(q.try_receive(), None);
    // Only extended frames with the telemetry identifier are accepted.
    assert!(frame_accepted(true, 0x1234));
    assert!(!frame_accepted(false, 0x1234));
    assert!(!frame_accepted(true, 0x999));
}

#[test]
fn frame_publish_formatting() {
    let frame = CanFrame { id: 0x1234, len: 8, data: [0, 1, 0xAB, 0xFF, 4, 5, 6, 7] };
    assert_eq!(
        String::from_utf8(can_frame_json(&frame)).unwrap(),
        "{\"id\": \"00001234\", \"len\": 8, \"data\": \"[00, 01, AB, FF, 04, 05, 06, 07]\"}"
    );
    assert_eq!(
        mqtt_topic(b"c-17", b"can"),
        b"channels/c-17/messages/client/can".to_vec()
    );
}

#[test]
fn outbox_drops_newest_when_full() {
    let mut q = Outbox::new();
    let mk = |id: u32| CanFrame { id, len: 0, data: [0; 8] };
    for id in 0..16 {
        assert!(q.try_send(mk(id)));
    }
    assert!(!q.try_send(mk(99)), "overflow is dropped at the producer");
    assert_eq!(q.len(), 16);
    assert_eq!(q.try_receive().map(|f| f.id), Some(0));
}

#[test]
fn block_store_round_trip() {
    let flash = RamFlash::filled(64 * 1024, 0xFF);
    let mut nvm = Nvm::init(flash);
    let cert = vec![0x42u8; 2574];
    nvm.nvs_write(BlockId::CrtPemId, &cert).expect("write");
    assert_eq!(nvm.nvs_read(BlockId::CrtPemId).expect("read"), cert);
    assert_eq!(nvm.nvs_write(BlockId::CrtPemId, &[0u8; 10]), Err(NvsError::LenInvalid));
}

#[test]
fn persisted_records_round_trip() {
    // A key-data partition (type 1, subtype 2) large enough for all four
    // records; the derived offsets follow the fixed layout.
    let mut mem = vec![0xFFu8; 64 * 1024];
    let mut e = vec![0xAAu8, 0x50, 1, 2];
    e.extend_from_slice(&0x4000u32.to_le_bytes());
    e.extend_from_slice(&0x5000u32.to_le_bytes());
    e.extend_from_slice(&[0u8; 20]);
    mem[0x8000..0x8020].copy_from_slice(&e);
    // the helpers read the table at its fixed offset; keep it inside 64 KiB
    let mut full = vec![0xFFu8; 128 * 1024];
    full[..mem.len()].copy_from_slice(&mem);
    let flash = RamFlash::from_vec(full);
    let mut fk = FlashKey::new(flash).expect("layout");
    assert_eq!(fk.pinfo.privatekey_offset, 0x4000);
    assert_eq!(fk.pinfo.publickey_offset, 0x4000 + 2048);
    assert_eq!(fk.pinfo.deployment_data_offset, 0x4000 + 2048 + 384);
    assert_eq!(fk.pinfo.device_config_offset, 0x4000 + 2048 + 384 + 1024);

    // Fresh flash holds no keys.
    assert!(fk.get_authentication_keys().is_err());
    fk.set_authentication_keys(b"priv-der", b"pub-der").expect("set keys");
    let (_, (privk, pubk)) = fk.get_authentication_keys().expect("get keys");
    assert_eq!(privk, b"priv-der");
    assert_eq!(pubk, b"pub-der");
    fk.delete_authentication_keys().expect("delete");
    assert!(fk.get_authentication_keys().is_err());

    fk.set_deployment_data(br#"{"id":"d1"}"#).expect("set dd");
    let (_, dd) = fk.get_deployment_data().expect("get dd");
    assert_eq!(dd, br#"{"id":"d1"}"#);
    fk.delete_deployment_data().expect("clear dd");
    assert!(fk.get_deployment_data().is_err());

    fk.set_device_config(br#"{"cfg":1}"#).expect("set cfg");
    let (_, cfg) = fk.get_device_config().expect("get cfg");
    assert_eq!(cfg, br#"{"cfg":1}"#);

    // A record must fit its reservation with its length word: 2044 bytes of
    // private key are the most that fit the 2048-byte slot.
    assert!(fk.set_authentication_keys(&vec![1u8; 2044], b"pub").is_ok());
    assert!(fk.set_authentication_keys(&vec![1u8; 2045], b"pub").is_err());
    assert!(fk.set_deployment_data(&vec![2u8; 1021]).is_err());
}

#[test]
fn mmu_arithmetic_and_partition_scan() {
    assert_eq!(mmu_ll_get_page_size(0), 0x10000);
    assert_eq!(mmu_ll_get_entry_id(0, 0x4200_1234), (0x4200_1234u32 & 0x7FFFFF) >> 16);
    assert_eq!(mmu_hal_pages_to_bytes(0, 1), 0x10000);
    let parts = vec![(0x10000u32, 0x100000u32), (0x110000, 0x100000)];
    assert_eq!(esp_get_current_running_partition(&parts, 0x10000), Some(0));
    assert_eq!(esp_get_current_running_partition(&parts, 0x110000), Some(1));
    assert_eq!(esp_get_current_running_partition(&parts, 0x20FFFF), Some(1));
    assert_eq!(esp_get_current_running_partition(&parts, 0x210000), None);
}

#[test]
fn at_command_wire_text() {
    assert_eq!(GetModelId.command_bytes(), b"AT+CGMM\r\n");
    assert_eq!(SetEcho { on: EchoOn::Off }.command_bytes(), b"ATE0\r\n");
    assert_eq!(
        SetUeFunctionality { fun: FunctionalityLevelOfUE::Full }.command_bytes(),
        b"AT+CFUN=1\r\n"
    );
    assert_eq!(
        FileDel { name: b"crt.pem".to_vec() }.command_bytes(),
        b"AT+QFDEL=\"crt.pem\"\r\n"
    );
    assert_eq!(
        FileUpl { name: b"crt.pem".to_vec(), size: 2574 }.command_bytes(),
        b"AT+QFUPL=\"crt.pem\",2574\r\n"
    );
    assert_eq!(
        MqttOpen { link_id: 0, server: b"broker.example".to_vec(), port: 8883 }.command_bytes(),
        b"AT+QMTOPEN=0,\"broker.example\",8883\r\n"
    );
    assert_eq!(
        MqttConnect {
            tcp_connect_id: 0,
            client_id: b"tcu".to_vec(),
            username: Some(b"u".to_vec()),
            password: Some(b"p".to_vec()),
        }
        .command_bytes(),
        b"AT+QMTCONN=0,\"tcu\",\"u\",\"p\"\r\n"
    );
    assert_eq!(
        MqttPublishExtended {
            tcp_connect_id: 0,
            msg_id: 0,
            qos: 0,
            retain: 0,
            topic: b"channels/c1/messages/client/trip".to_vec(),
            payload: b"{'t':1}".to_vec(),
        }
        .command_bytes(),
        b"AT+QMTPUB=0,0,0,0,\"channels/c1/messages/client/trip\",\"{'t':1}\"\r\n"
    );
    assert_eq!(
        MqttConfig {
            name: b"SSL".to_vec(),
            param_1: Some(0),
            param_2: Some(1),
            param_3: Some(2),
        }
        .command_bytes(),
        b"AT+QMTCFG=\"SSL\",0,1,2\r\n"
    );
    assert_eq!(
        SslConfigCert {
            name: b"cacert".to_vec(),
            context_id: 2,
            cert_path: Some(b"UFS:crt.pem".to_vec()),
        }
        .command_bytes(),
        b"AT+QSSLCFG=\"cacert\",2,\"UFS:crt.pem\"\r\n"
    );
    assert_eq!(
        SslConfigOther { name: b"seclevel".to_vec(), context_id: 2, level: 2 }.command_bytes(),
        b"AT+QSSLCFG=\"seclevel\",2,2\r\n"
    );
    assert_eq!(MqttClose { tcp_connect_id: 0 }.command_bytes(), b"AT+QMTCLOSE=0\r\n");
    assert_eq!(ActivatePDPContext { context_id: 1 }.command_bytes(), b"AT+QIACT=1\r\n");
    assert_eq!(DeactivatePDPContext { context_id: 1 }.command_bytes(), b"AT+QIDEACT=1\r\n");
    assert_eq!(GetNetworkNitzTime { mode: 2 }.command_bytes(), b"AT+QLTS=2\r\n");
    assert_eq!(RetrieveGpsData.command_bytes(), b"AT+QGPSGNMEA=\"RMC\"\r\n");
    assert_eq!(PowerDown { mode: PowerDownMode::Normal }.command_bytes(), b"AT+QPOWD=1\r\n");
}

#[test]
fn rsa_signing_round_trip() {
    // Generate a real key, sign a payload through the library, and verify
    // the signature against the public key: the wrapper must hand back a
    // genuine PKCS#1 v1.5 SHA-256 signature in base64.
    assert!(mender_tls_init().is_ok());
    let mut rng = rand::thread_rng();
    let key = rsa::RsaPrivateKey::new(&mut rng, 1024).expect("keygen");
    let der = rsa::pkcs8::EncodePrivateKey::to_pkcs8_der(&key).expect("der");
    let payload = b"{\"id_data\": \"x\"}";

    let b64_sig = mender_tls_sign_payload(der.as_bytes(), payload).expect("sign");

    // Recompute the expected signature directly with the rsa crate.
    let digest = sha2::Sha256::digest(payload);
    let prefix: Box<[u8]> = vec![
        0x30, 0x31, 0x30, 0x0d, 0x06, 0x09, 0x60, 0x86, 0x48, 0x01, 0x65, 0x03, 0x04, 0x02, 0x01,
        0x05, 0x00, 0x04, 0x20,
    ]
    .into_boxed_slice();
    let padding = rsa::Pkcs1v15Sign { hash_len: Some(32), prefix };
    let expected = key.sign(padding.clone(), &digest).expect("reference signature");
    assert_eq!(b64_sig, base64_no_std_encode(&expected));

    // And the signature verifies against the public key.
    let public = rsa::RsaPublicKey::from(&key);
    public.verify(padding, &digest, &expected).expect("verifies");
}
