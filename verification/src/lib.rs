//! Core subsystems of a connected telematics gateway firmware: the OTA
//! engine with its dual-slot boot selector, the streamed deployment-artifact
//! parser, the dual-transport connection manager, and the decision core of
//! the AT-command modem driver, together with the byte-level codecs they
//! rest on.

// Shared byte-level helpers and codecs.
pub mod bytesutil;
pub mod crc32;
pub mod hexutil;
pub mod jsonext;
pub mod sha256;

// The OTA engine: flash, partition table, boot selector, streaming writer.
pub mod flashdev;
pub mod mmu;
pub mod ota;
pub mod otadata;
pub mod partitions;

// The deployment client: artifact stream, cloud API, persistence.
pub mod artifact;
pub mod client;
pub mod httpmsg;
pub mod menderutils;
pub mod sched;
pub mod storage;
pub mod tlsutil;

// Uplink: connection management, CAN telemetry, DNS, the modem driver.
pub mod atcmds;
pub mod canbus;
pub mod connmgr;
pub mod dns;
pub mod modem;
pub mod nvm;
pub mod timeconv;
