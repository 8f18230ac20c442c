//! The AT command matrix of the modem driver, with each command's exact
//! wire text, and the response and unsolicited-result-code records the
//! driver reads back.

use vstd::prelude::*;
use crate::bytesutil::{dec_digits, push_bytes, push_dec};

verus! {

/// The bytes of a quoted string argument.
pub open spec fn quoted(s: Seq<u8>) -> Seq<u8> {
    seq![34u8] + s + seq![34u8]
}

/// The line terminator of a command.
pub open spec fn crlf() -> Seq<u8> {
    seq![13u8, 10u8]
}

/// Disable command echo.
#[derive(Debug, Clone, Copy, PartialEq, Eq, Structural)]
pub struct DisableEchoMode;

/// The wire text of `ATE0`.
pub open spec fn spec_disableechomode_cmd() -> Seq<u8> {
    seq![65u8, 84u8, 69u8, 48u8, 13u8, 10u8]
}

impl DisableEchoMode {
    /// The full command line sent on the wire.
    pub fn command_bytes(&self) -> (r: Vec<u8>)
        ensures
            r@ == spec_disableechomode_cmd(),
    {
        let mut r: Vec<u8> = Vec::new();
        r.push(65u8);
        r.push(84u8);
        r.push(69u8);
        r.push(48u8);
        r.push(13u8);
        r.push(10u8);
        proof {
            assert(r@ =~= spec_disableechomode_cmd());
        }
        r
    }
}

/// Manufacturer identification.
#[derive(Debug, Clone, Copy, PartialEq, Eq, Structural)]
pub struct GetManufacturerId;

/// The wire text of `AT+CGMI`.
pub open spec fn spec_getmanufacturerid_cmd() -> Seq<u8> {
    seq![65u8, 84u8, 43u8, 67u8, 71u8, 77u8, 73u8, 13u8, 10u8]
}

impl GetManufacturerId {
    /// The full command line sent on the wire.
    pub fn command_bytes(&self) -> (r: Vec<u8>)
        ensures
            r@ == spec_getmanufacturerid_cmd(),
    {
        let mut r: Vec<u8> = Vec::new();
        r.push(65u8);
        r.push(84u8);
        r.push(43u8);
        r.push(67u8);
        r.push(71u8);
        r.push(77u8);
        r.push(73u8);
        r.push(13u8);
        r.push(10u8);
        proof {
            assert(r@ =~= spec_getmanufacturerid_cmd());
        }
        r
    }
}

/// Model identification.
#[derive(Debug, Clone, Copy, PartialEq, Eq, Structural)]
pub struct GetModelId;

/// The wire text of `AT+CGMM`.
pub open spec fn spec_getmodelid_cmd() -> Seq<u8> {
    seq![65u8, 84u8, 43u8, 67u8, 71u8, 77u8, 77u8, 13u8, 10u8]
}

impl GetModelId {
    /// The full command line sent on the wire.
    pub fn command_bytes(&self) -> (r: Vec<u8>)
        ensures
            r@ == spec_getmodelid_cmd(),
    {
        let mut r: Vec<u8> = Vec::new();
        r.push(65u8);
        r.push(84u8);
        r.push(43u8);
        r.push(67u8);
        r.push(71u8);
        r.push(77u8);
        r.push(77u8);
        r.push(13u8);
        r.push(10u8);
        proof {
            assert(r@ =~= spec_getmodelid_cmd());
        }
        r
    }
}

/// Software version identification.
#[derive(Debug, Clone, Copy, PartialEq, Eq, Structural)]
pub struct GetSoftwareVersion;

/// The wire text of `AT+CGMR`.
pub open spec fn spec_getsoftwareversion_cmd() -> Seq<u8> {
    seq![65u8, 84u8, 43u8, 67u8, 71u8, 77u8, 82u8, 13u8, 10u8]
}

impl GetSoftwareVersion {
    /// The full command line sent on the wire.
    pub fn command_bytes(&self) -> (r: Vec<u8>)
        ensures
            r@ == spec_getsoftwareversion_cmd(),
    {
        let mut r: Vec<u8> = Vec::new();
        r.push(65u8);
        r.push(84u8);
        r.push(43u8);
        r.push(67u8);
        r.push(71u8);
        r.push(77u8);
        r.push(82u8);
        r.push(13u8);
        r.push(10u8);
        proof {
            assert(r@ =~= spec_getsoftwareversion_cmd());
        }
        r
    }
}

/// Set full-functionality mode.
#[derive(Debug, Clone, Copy, PartialEq, Eq, Structural)]
pub struct SetFullFuncMode;

/// The wire text of `AT+CFUN=1`.
pub open spec fn spec_setfullfuncmode_cmd() -> Seq<u8> {
    seq![65u8, 84u8, 43u8, 67u8, 70u8, 85u8, 78u8, 61u8, 49u8, 13u8, 10u8]
}

impl SetFullFuncMode {
    /// The full command line sent on the wire.
    pub fn command_bytes(&self) -> (r: Vec<u8>)
        ensures
            r@ == spec_setfullfuncmode_cmd(),
    {
        let mut r: Vec<u8> = Vec::new();
        r.push(65u8);
        r.push(84u8);
        r.push(43u8);
        r.push(67u8);
        r.push(70u8);
        r.push(85u8);
        r.push(78u8);
        r.push(61u8);
        r.push(49u8);
        r.push(13u8);
        r.push(10u8);
        proof {
            assert(r@ =~= spec_setfullfuncmode_cmd());
        }
        r
    }
}

/// SIM card status.
#[derive(Debug, Clone, Copy, PartialEq, Eq, Structural)]
pub struct GetSimCardStatus;

/// The wire text of `AT+CPIN?`.
pub open spec fn spec_getsimcardstatus_cmd() -> Seq<u8> {
    seq![65u8, 84u8, 43u8, 67u8, 80u8, 73u8, 78u8, 63u8, 13u8, 10u8]
}

impl GetSimCardStatus {
    /// The full command line sent on the wire.
    pub fn command_bytes(&self) -> (r: Vec<u8>)
        ensures
            r@ == spec_getsimcardstatus_cmd(),
    {
        let mut r: Vec<u8> = Vec::new();
        r.push(65u8);
        r.push(84u8);
        r.push(43u8);
        r.push(67u8);
        r.push(80u8);
        r.push(73u8);
        r.push(78u8);
        r.push(63u8);
        r.push(13u8);
        r.push(10u8);
        proof {
            assert(r@ =~= spec_getsimcardstatus_cmd());
        }
        r
    }
}

/// Software reset of the module.
#[derive(Debug, Clone, Copy, PartialEq, Eq, Structural)]
pub struct SoftwareReset;

/// The wire text of `AT+QRST=1`.
pub open spec fn spec_softwarereset_cmd() -> Seq<u8> {
    seq![65u8, 84u8, 43u8, 81u8, 82u8, 83u8, 84u8, 61u8, 49u8, 13u8, 10u8]
}

impl SoftwareReset {
    /// The full command line sent on the wire.
    pub fn command_bytes(&self) -> (r: Vec<u8>)
        ensures
            r@ == spec_softwarereset_cmd(),
    {
        let mut r: Vec<u8> = Vec::new();
        r.push(65u8);
        r.push(84u8);
        r.push(43u8);
        r.push(81u8);
        r.push(82u8);
        r.push(83u8);
        r.push(84u8);
        r.push(61u8);
        r.push(49u8);
        r.push(13u8);
        r.push(10u8);
        proof {
            assert(r@ =~= spec_softwarereset_cmd());
        }
        r
    }
}

/// Network registration status.
#[derive(Debug, Clone, Copy, PartialEq, Eq, Structural)]
pub struct GetNetworkRegisStatus;

/// The wire text of `AT+CREG?`.
pub open spec fn spec_getnetworkregisstatus_cmd() -> Seq<u8> {
    seq![65u8, 84u8, 43u8, 67u8, 82u8, 69u8, 71u8, 63u8, 13u8, 10u8]
}

impl GetNetworkRegisStatus {
    /// The full command line sent on the wire.
    pub fn command_bytes(&self) -> (r: Vec<u8>)
        ensures
            r@ == spec_getnetworkregisstatus_cmd(),
    {
        let mut r: Vec<u8> = Vec::new();
        r.push(65u8);
        r.push(84u8);
        r.push(43u8);
        r.push(67u8);
        r.push(82u8);
        r.push(69u8);
        r.push(71u8);
        r.push(63u8);
        r.push(13u8);
        r.push(10u8);
        proof {
            assert(r@ =~= spec_getnetworkregisstatus_cmd());
        }
        r
    }
}

/// Network signal quality.
#[derive(Debug, Clone, Copy, PartialEq, Eq, Structural)]
pub struct GetNetworkSignalQuality;

/// The wire text of `AT+CSQ`.
pub open spec fn spec_getnetworksignalquality_cmd() -> Seq<u8> {
    seq![65u8, 84u8, 43u8, 67u8, 83u8, 81u8, 13u8, 10u8]
}

impl GetNetworkSignalQuality {
    /// The full command line sent on the wire.
    pub fn command_bytes(&self) -> (r: Vec<u8>)
        ensures
            r@ == spec_getnetworksignalquality_cmd(),
    {
        let mut r: Vec<u8> = Vec::new();
        r.push(65u8);
        r.push(84u8);
        r.push(43u8);
        r.push(67u8);
        r.push(83u8);
        r.push(81u8);
        r.push(13u8);
        r.push(10u8);
        proof {
            assert(r@ =~= spec_getnetworksignalquality_cmd());
        }
        r
    }
}

/// Network operator name.
#[derive(Debug, Clone, Copy, PartialEq, Eq, Structural)]
pub struct GetNetworkOperatorName;

/// The wire text of `AT+COPS?`.
pub open spec fn spec_getnetworkoperatorname_cmd() -> Seq<u8> {
    seq![65u8, 84u8, 43u8, 67u8, 79u8, 80u8, 83u8, 63u8, 13u8, 10u8]
}

impl GetNetworkOperatorName {
    /// The full command line sent on the wire.
    pub fn command_bytes(&self) -> (r: Vec<u8>)
        ensures
            r@ == spec_getnetworkoperatorname_cmd(),
    {
        let mut r: Vec<u8> = Vec::new();
        r.push(65u8);
        r.push(84u8);
        r.push(43u8);
        r.push(67u8);
        r.push(79u8);
        r.push(80u8);
        r.push(83u8);
        r.push(63u8);
        r.push(13u8);
        r.push(10u8);
        proof {
            assert(r@ =~= spec_getnetworkoperatorname_cmd());
        }
        r
    }
}

/// Attach to the packet-switched network.
#[derive(Debug, Clone, Copy, PartialEq, Eq, Structural)]
pub struct AttachPacketSwitch;

/// The wire text of `AT+CGATT=1`.
pub open spec fn spec_attachpacketswitch_cmd() -> Seq<u8> {
    seq![65u8, 84u8, 43u8, 67u8, 71u8, 65u8, 84u8, 84u8, 61u8, 49u8, 13u8, 10u8]
}

impl AttachPacketSwitch {
    /// The full command line sent on the wire.
    pub fn command_bytes(&self) -> (r: Vec<u8>)
        ensures
            r@ == spec_attachpacketswitch_cmd(),
    {
        let mut r: Vec<u8> = Vec::new();
        r.push(65u8);
        r.push(84u8);
        r.push(43u8);
        r.push(67u8);
        r.push(71u8);
        r.push(65u8);
        r.push(84u8);
        r.push(84u8);
        r.push(61u8);
        r.push(49u8);
        r.push(13u8);
        r.push(10u8);
        proof {
            assert(r@ =~= spec_attachpacketswitch_cmd());
        }
        r
    }
}

/// Enable GPS.
#[derive(Debug, Clone, Copy, PartialEq, Eq, Structural)]
pub struct EnableGpsFunc;

/// The wire text of `AT+QGPS=1`.
pub open spec fn spec_enablegpsfunc_cmd() -> Seq<u8> {
    seq![65u8, 84u8, 43u8, 81u8, 71u8, 80u8, 83u8, 61u8, 49u8, 13u8, 10u8]
}

impl EnableGpsFunc {
    /// The full command line sent on the wire.
    pub fn command_bytes(&self) -> (r: Vec<u8>)
        ensures
            r@ == spec_enablegpsfunc_cmd(),
    {
        let mut r: Vec<u8> = Vec::new();
        r.push(65u8);
        r.push(84u8);
        r.push(43u8);
        r.push(81u8);
        r.push(71u8);
        r.push(80u8);
        r.push(83u8);
        r.push(61u8);
        r.push(49u8);
        r.push(13u8);
        r.push(10u8);
        proof {
            assert(r@ =~= spec_enablegpsfunc_cmd());
        }
        r
    }
}

/// Enable assisted GPS.
#[derive(Debug, Clone, Copy, PartialEq, Eq, Structural)]
pub struct EnableAssistGpsFunc;

/// The wire text of `AT+QAGPS=1`.
pub open spec fn spec_enableassistgpsfunc_cmd() -> Seq<u8> {
    seq![65u8, 84u8, 43u8, 81u8, 65u8, 71u8, 80u8, 83u8, 61u8, 49u8, 13u8, 10u8]
}

impl EnableAssistGpsFunc {
    /// The full command line sent on the wire.
    pub fn command_bytes(&self) -> (r: Vec<u8>)
        ensures
            r@ == spec_enableassistgpsfunc_cmd(),
    {
        let mut r: Vec<u8> = Vec::new();
        r.push(65u8);
        r.push(84u8);
        r.push(43u8);
        r.push(81u8);
        r.push(65u8);
        r.push(71u8);
        r.push(80u8);
        r.push(83u8);
        r.push(61u8);
        r.push(49u8);
        r.push(13u8);
        r.push(10u8);
        proof {
            assert(r@ =~= spec_enableassistgpsfunc_cmd());
        }
        r
    }
}

/// Enable GNSS.
#[derive(Debug, Clone, Copy, PartialEq, Eq, Structural)]
pub struct EnableGnssFunc;

/// The wire text of `AT+QGPSCFG="gnssconfig",1`.
pub open spec fn spec_enablegnssfunc_cmd() -> Seq<u8> {
    seq![65u8, 84u8, 43u8, 81u8, 71u8, 80u8, 83u8, 67u8, 70u8, 71u8, 61u8, 34u8, 103u8, 110u8, 115u8, 115u8, 99u8, 111u8, 110u8, 102u8, 105u8, 103u8, 34u8, 44u8, 49u8, 13u8, 10u8]
}

impl EnableGnssFunc {
    /// The full command line sent on the wire.
    pub fn command_bytes(&self) -> (r: Vec<u8>)
        ensures
            r@ == spec_enablegnssfunc_cmd(),
    {
        let mut r: Vec<u8> = Vec::new();
        r.push(65u8);
        r.push(84u8);
        r.push(43u8);
        r.push(81u8);
        r.push(71u8);
        r.push(80u8);
        r.push(83u8);
        r.push(67u8);
        r.push(70u8);
        r.push(71u8);
        r.push(61u8);
        r.push(34u8);
        r.push(103u8);
        r.push(110u8);
        r.push(115u8);
        r.push(115u8);
        r.push(99u8);
        r.push(111u8);
        r.push(110u8);
        r.push(102u8);
        r.push(105u8);
        r.push(103u8);
        r.push(34u8);
        r.push(44u8);
        r.push(49u8);
        r.push(13u8);
        r.push(10u8);
        proof {
            assert(r@ =~= spec_enablegnssfunc_cmd());
        }
        r
    }
}

/// Read the latest RMC sentence.
#[derive(Debug, Clone, Copy, PartialEq, Eq, Structural)]
pub struct RetrieveGpsRmc;

/// The wire text of `AT+QGPSGNMEA="RMC"`.
pub open spec fn spec_retrievegpsrmc_cmd() -> Seq<u8> {
    seq![65u8, 84u8, 43u8, 81u8, 71u8, 80u8, 83u8, 71u8, 78u8, 77u8, 69u8, 65u8, 61u8, 34u8, 82u8, 77u8, 67u8, 34u8, 13u8, 10u8]
}

impl RetrieveGpsRmc {
    /// The full command line sent on the wire.
    pub fn command_bytes(&self) -> (r: Vec<u8>)
        ensures
            r@ == spec_retrievegpsrmc_cmd(),
    {
        let mut r: Vec<u8> = Vec::new();
        r.push(65u8);
        r.push(84u8);
        r.push(43u8);
        r.push(81u8);
        r.push(71u8);
        r.push(80u8);
        r.push(83u8);
        r.push(71u8);
        r.push(78u8);
        r.push(77u8);
        r.push(69u8);
        r.push(65u8);
        r.push(61u8);
        r.push(34u8);
        r.push(82u8);
        r.push(77u8);
        r.push(67u8);
        r.push(34u8);
        r.push(13u8);
        r.push(10u8);
        proof {
            assert(r@ =~= spec_retrievegpsrmc_cmd());
        }
        r
    }
}

/// Reset parameters to factory defaults.
#[derive(Debug, Clone, Copy, PartialEq, Eq, Structural)]
pub struct ResetToFactoryDefault;

/// The wire text of `AT&F`.
pub open spec fn spec_resettofactorydefault_cmd() -> Seq<u8> {
    seq![65u8, 84u8, 38u8, 70u8, 13u8, 10u8]
}

impl ResetToFactoryDefault {
    /// The full command line sent on the wire.
    pub fn command_bytes(&self) -> (r: Vec<u8>)
        ensures
            r@ == spec_resettofactorydefault_cmd(),
    {
        let mut r: Vec<u8> = Vec::new();
        r.push(65u8);
        r.push(84u8);
        r.push(38u8);
        r.push(70u8);
        r.push(13u8);
        r.push(10u8);
        proof {
            assert(r@ =~= spec_resettofactorydefault_cmd());
        }
        r
    }
}

/// Firmware version information.
#[derive(Debug, Clone, Copy, PartialEq, Eq, Structural)]
pub struct GetVersionInfo;

/// The wire text of `AT+QGMR`.
pub open spec fn spec_getversioninfo_cmd() -> Seq<u8> {
    seq![65u8, 84u8, 43u8, 81u8, 71u8, 77u8, 82u8, 13u8, 10u8]
}

impl GetVersionInfo {
    /// The full command line sent on the wire.
    pub fn command_bytes(&self) -> (r: Vec<u8>)
        ensures
            r@ == spec_getversioninfo_cmd(),
    {
        let mut r: Vec<u8> = Vec::new();
        r.push(65u8);
        r.push(84u8);
        r.push(43u8);
        r.push(81u8);
        r.push(71u8);
        r.push(77u8);
        r.push(82u8);
        r.push(13u8);
        r.push(10u8);
        proof {
            assert(r@ =~= spec_getversioninfo_cmd());
        }
        r
    }
}

/// Firmware version information (CGMR form).
#[derive(Debug, Clone, Copy, PartialEq, Eq, Structural)]
pub struct GetVersionInfoCGMR;

/// The wire text of `AT+CGMR`.
pub open spec fn spec_getversioninfocgmr_cmd() -> Seq<u8> {
    seq![65u8, 84u8, 43u8, 67u8, 71u8, 77u8, 82u8, 13u8, 10u8]
}

impl GetVersionInfoCGMR {
    /// The full command line sent on the wire.
    pub fn command_bytes(&self) -> (r: Vec<u8>)
        ensures
            r@ == spec_getversioninfocgmr_cmd(),
    {
        let mut r: Vec<u8> = Vec::new();
        r.push(65u8);
        r.push(84u8);
        r.push(43u8);
        r.push(67u8);
        r.push(71u8);
        r.push(77u8);
        r.push(82u8);
        r.push(13u8);
        r.push(10u8);
        proof {
            assert(r@ =~= spec_getversioninfocgmr_cmd());
        }
        r
    }
}

/// Configure the European band set.
#[derive(Debug, Clone, Copy, PartialEq, Eq, Structural)]
pub struct ConfigureBandsEurope;

/// The wire text of `AT+QCFG="band",3,80084,80084,1`.
pub open spec fn spec_configurebandseurope_cmd() -> Seq<u8> {
    seq![65u8, 84u8, 43u8, 81u8, 67u8, 70u8, 71u8, 61u8, 34u8, 98u8, 97u8, 110u8, 100u8, 34u8, 44u8, 51u8, 44u8, 56u8, 48u8, 48u8, 56u8, 52u8, 44u8, 56u8, 48u8, 48u8, 56u8, 52u8, 44u8, 49u8, 13u8, 10u8]
}

impl ConfigureBandsEurope {
    /// The full command line sent on the wire.
    pub fn command_bytes(&self) -> (r: Vec<u8>)
        ensures
            r@ == spec_configurebandseurope_cmd(),
    {
        let mut r: Vec<u8> = Vec::new();
        r.push(65u8);
        r.push(84u8);
        r.push(43u8);
        r.push(81u8);
        r.push(67u8);
        r.push(70u8);
        r.push(71u8);
        r.push(61u8);
        r.push(34u8);
        r.push(98u8);
        r.push(97u8);
        r.push(110u8);
        r.push(100u8);
        r.push(34u8);
        r.push(44u8);
        r.push(51u8);
        r.push(44u8);
        r.push(56u8);
        r.push(48u8);
        r.push(48u8);
        r.push(56u8);
        r.push(52u8);
        r.push(44u8);
        r.push(56u8);
        r.push(48u8);
        r.push(48u8);
        r.push(56u8);
        r.push(52u8);
        r.push(44u8);
        r.push(49u8);
        r.push(13u8);
        r.push(10u8);
        proof {
            assert(r@ =~= spec_configurebandseurope_cmd());
        }
        r
    }
}

/// Restore the factory configuration.
#[derive(Debug, Clone, Copy, PartialEq, Eq, Structural)]
pub struct RestoreFactoryConfiguration;

/// The wire text of `AT+QCFG="nvrestore",0`.
pub open spec fn spec_restorefactoryconfiguration_cmd() -> Seq<u8> {
    seq![65u8, 84u8, 43u8, 81u8, 67u8, 70u8, 71u8, 61u8, 34u8, 110u8, 118u8, 114u8, 101u8, 115u8, 116u8, 111u8, 114u8, 101u8, 34u8, 44u8, 48u8, 13u8, 10u8]
}

impl RestoreFactoryConfiguration {
    /// The full command line sent on the wire.
    pub fn command_bytes(&self) -> (r: Vec<u8>)
        ensures
            r@ == spec_restorefactoryconfiguration_cmd(),
    {
        let mut r: Vec<u8> = Vec::new();
        r.push(65u8);
        r.push(84u8);
        r.push(43u8);
        r.push(81u8);
        r.push(67u8);
        r.push(70u8);
        r.push(71u8);
        r.push(61u8);
        r.push(34u8);
        r.push(110u8);
        r.push(118u8);
        r.push(114u8);
        r.push(101u8);
        r.push(115u8);
        r.push(116u8);
        r.push(111u8);
        r.push(114u8);
        r.push(101u8);
        r.push(34u8);
        r.push(44u8);
        r.push(48u8);
        r.push(13u8);
        r.push(10u8);
        proof {
            assert(r@ =~= spec_restorefactoryconfiguration_cmd());
        }
        r
    }
}

/// Network information.
#[derive(Debug, Clone, Copy, PartialEq, Eq, Structural)]
pub struct GetNetworkInfo;

/// The wire text of `AT+QNWINFO`.
pub open spec fn spec_getnetworkinfo_cmd() -> Seq<u8> {
    seq![65u8, 84u8, 43u8, 81u8, 78u8, 87u8, 73u8, 78u8, 70u8, 79u8, 13u8, 10u8]
}

impl GetNetworkInfo {
    /// The full command line sent on the wire.
    pub fn command_bytes(&self) -> (r: Vec<u8>)
        ensures
            r@ == spec_getnetworkinfo_cmd(),
    {
        let mut r: Vec<u8> = Vec::new();
        r.push(65u8);
        r.push(84u8);
        r.push(43u8);
        r.push(81u8);
        r.push(78u8);
        r.push(87u8);
        r.push(73u8);
        r.push(78u8);
        r.push(70u8);
        r.push(79u8);
        r.push(13u8);
        r.push(10u8);
        proof {
            assert(r@ =~= spec_getnetworkinfo_cmd());
        }
        r
    }
}

/// EPS network registration status.
#[derive(Debug, Clone, Copy, PartialEq, Eq, Structural)]
pub struct GetEPSNetworkRegistrationStatus;

/// The wire text of `AT+CEREG?`.
pub open spec fn spec_getepsnetworkregistrationstatus_cmd() -> Seq<u8> {
    seq![65u8, 84u8, 43u8, 67u8, 69u8, 82u8, 69u8, 71u8, 63u8, 13u8, 10u8]
}

impl GetEPSNetworkRegistrationStatus {
    /// The full command line sent on the wire.
    pub fn command_bytes(&self) -> (r: Vec<u8>)
        ensures
            r@ == spec_getepsnetworkregistrationstatus_cmd(),
    {
        let mut r: Vec<u8> = Vec::new();
        r.push(65u8);
        r.push(84u8);
        r.push(43u8);
        r.push(67u8);
        r.push(69u8);
        r.push(82u8);
        r.push(69u8);
        r.push(71u8);
        r.push(63u8);
        r.push(13u8);
        r.push(10u8);
        proof {
            assert(r@ =~= spec_getepsnetworkregistrationstatus_cmd());
        }
        r
    }
}

/// EGPRS network registration status.
#[derive(Debug, Clone, Copy, PartialEq, Eq, Structural)]
pub struct GetEGPRSNetworkRegistrationStatus;

/// The wire text of `AT+CGREG?`.
pub open spec fn spec_getegprsnetworkregistrationstatus_cmd() -> Seq<u8> {
    seq![65u8, 84u8, 43u8, 67u8, 71u8, 82u8, 69u8, 71u8, 63u8, 13u8, 10u8]
}

impl GetEGPRSNetworkRegistrationStatus {
    /// The full command line sent on the wire.
    pub fn command_bytes(&self) -> (r: Vec<u8>)
        ensures
            r@ == spec_getegprsnetworkregistrationstatus_cmd(),
    {
        let mut r: Vec<u8> = Vec::new();
        r.push(65u8);
        r.push(84u8);
        r.push(43u8);
        r.push(67u8);
        r.push(71u8);
        r.push(82u8);
        r.push(69u8);
        r.push(71u8);
        r.push(63u8);
        r.push(13u8);
        r.push(10u8);
        proof {
            assert(r@ =~= spec_getegprsnetworkregistrationstatus_cmd());
        }
        r
    }
}

/// Signal strength report.
#[derive(Debug, Clone, Copy, PartialEq, Eq, Structural)]
pub struct GetSignalStrength;

/// The wire text of `AT+QCSQ`.
pub open spec fn spec_getsignalstrength_cmd() -> Seq<u8> {
    seq![65u8, 84u8, 43u8, 81u8, 67u8, 83u8, 81u8, 13u8, 10u8]
}

impl GetSignalStrength {
    /// The full command line sent on the wire.
    pub fn command_bytes(&self) -> (r: Vec<u8>)
        ensures
            r@ == spec_getsignalstrength_cmd(),
    {
        let mut r: Vec<u8> = Vec::new();
        r.push(65u8);
        r.push(84u8);
        r.push(43u8);
        r.push(81u8);
        r.push(67u8);
        r.push(83u8);
        r.push(81u8);
        r.push(13u8);
        r.push(10u8);
        proof {
            assert(r@ =~= spec_getsignalstrength_cmd());
        }
        r
    }
}

/// PDP context information.
#[derive(Debug, Clone, Copy, PartialEq, Eq, Structural)]
pub struct GetPDPContextInfo;

/// The wire text of `AT+QIACT?`.
pub open spec fn spec_getpdpcontextinfo_cmd() -> Seq<u8> {
    seq![65u8, 84u8, 43u8, 81u8, 73u8, 65u8, 67u8, 84u8, 63u8, 13u8, 10u8]
}

impl GetPDPContextInfo {
    /// The full command line sent on the wire.
    pub fn command_bytes(&self) -> (r: Vec<u8>)
        ensures
            r@ == spec_getpdpcontextinfo_cmd(),
    {
        let mut r: Vec<u8> = Vec::new();
        r.push(65u8);
        r.push(84u8);
        r.push(43u8);
        r.push(81u8);
        r.push(73u8);
        r.push(65u8);
        r.push(67u8);
        r.push(84u8);
        r.push(63u8);
        r.push(13u8);
        r.push(10u8);
        proof {
            assert(r@ =~= spec_getpdpcontextinfo_cmd());
        }
        r
    }
}

/// IMEI of the module.
#[derive(Debug, Clone, Copy, PartialEq, Eq, Structural)]
pub struct GetImei;

/// The wire text of `AT+GSN`.
pub open spec fn spec_getimei_cmd() -> Seq<u8> {
    seq![65u8, 84u8, 43u8, 71u8, 83u8, 78u8, 13u8, 10u8]
}

impl GetImei {
    /// The full command line sent on the wire.
    pub fn command_bytes(&self) -> (r: Vec<u8>)
        ensures
            r@ == spec_getimei_cmd(),
    {
        let mut r: Vec<u8> = Vec::new();
        r.push(65u8);
        r.push(84u8);
        r.push(43u8);
        r.push(71u8);
        r.push(83u8);
        r.push(78u8);
        r.push(13u8);
        r.push(10u8);
        proof {
            assert(r@ =~= spec_getimei_cmd());
        }
        r
    }
}

/// ICCID of the SIM.
#[derive(Debug, Clone, Copy, PartialEq, Eq, Structural)]
pub struct GetIccid;

/// The wire text of `AT+QCCID`.
pub open spec fn spec_geticcid_cmd() -> Seq<u8> {
    seq![65u8, 84u8, 43u8, 81u8, 67u8, 67u8, 73u8, 68u8, 13u8, 10u8]
}

impl GetIccid {
    /// The full command line sent on the wire.
    pub fn command_bytes(&self) -> (r: Vec<u8>)
        ensures
            r@ == spec_geticcid_cmd(),
    {
        let mut r: Vec<u8> = Vec::new();
        r.push(65u8);
        r.push(84u8);
        r.push(43u8);
        r.push(81u8);
        r.push(67u8);
        r.push(67u8);
        r.push(73u8);
        r.push(68u8);
        r.push(13u8);
        r.push(10u8);
        proof {
            assert(r@ =~= spec_geticcid_cmd());
        }
        r
    }
}

/// Allow every cipher suite on SSL context 2.
#[derive(Debug, Clone, Copy, PartialEq, Eq, Structural)]
pub struct SslSetCipherSuite;

/// The wire text of `AT+QSSLCFG="ciphersuite",2,0xFFFF`.
pub open spec fn spec_sslsetciphersuite_cmd() -> Seq<u8> {
    seq![65u8, 84u8, 43u8, 81u8, 83u8, 83u8, 76u8, 67u8, 70u8, 71u8, 61u8, 34u8, 99u8, 105u8, 112u8, 104u8, 101u8, 114u8, 115u8, 117u8, 105u8, 116u8, 101u8, 34u8, 44u8, 50u8, 44u8, 48u8, 120u8, 70u8, 70u8, 70u8, 70u8, 13u8, 10u8]
}

impl SslSetCipherSuite {
    /// The full command line sent on the wire.
    pub fn command_bytes(&self) -> (r: Vec<u8>)
        ensures
            r@ == spec_sslsetciphersuite_cmd(),
    {
        let mut r: Vec<u8> = Vec::new();
        r.push(65u8);
        r.push(84u8);
        r.push(43u8);
        r.push(81u8);
        r.push(83u8);
        r.push(83u8);
        r.push(76u8);
        r.push(67u8);
        r.push(70u8);
        r.push(71u8);
        r.push(61u8);
        r.push(34u8);
        r.push(99u8);
        r.push(105u8);
        r.push(112u8);
        r.push(104u8);
        r.push(101u8);
        r.push(114u8);
        r.push(115u8);
        r.push(117u8);
        r.push(105u8);
        r.push(116u8);
        r.push(101u8);
        r.push(34u8);
        r.push(44u8);
        r.push(50u8);
        r.push(44u8);
        r.push(48u8);
        r.push(120u8);
        r.push(70u8);
        r.push(70u8);
        r.push(70u8);
        r.push(70u8);
        r.push(13u8);
        r.push(10u8);
        proof {
            assert(r@ =~= spec_sslsetciphersuite_cmd());
        }
        r
    }
}

/// List the files on the modem filesystem.
#[derive(Debug, Clone, Copy, PartialEq, Eq, Structural)]
pub struct FileList;

/// The wire text of `AT+QFLST`.
pub open spec fn spec_filelist_cmd() -> Seq<u8> {
    seq![65u8, 84u8, 43u8, 81u8, 70u8, 76u8, 83u8, 84u8, 13u8, 10u8]
}

impl FileList {
    /// The full command line sent on the wire.
    pub fn command_bytes(&self) -> (r: Vec<u8>)
        ensures
            r@ == spec_filelist_cmd(),
    {
        let mut r: Vec<u8> = Vec::new();
        r.push(65u8);
        r.push(84u8);
        r.push(43u8);
        r.push(81u8);
        r.push(70u8);
        r.push(76u8);
        r.push(83u8);
        r.push(84u8);
        r.push(13u8);
        r.push(10u8);
        proof {
            assert(r@ =~= spec_filelist_cmd());
        }
        r
    }
}

/// Echo setting.
#[derive(Debug, Clone, Copy, PartialEq, Eq, Structural)]
pub enum EchoOn {
    Off,
    On,
}

/// The digit an echo setting puts on the wire.
pub open spec fn spec_echo_code(e: EchoOn) -> u32 {
    match e {
        EchoOn::Off => 0u32,
        EchoOn::On => 1u32,
    }
}

/// Functionality level of the UE.
#[derive(Debug, Clone, Copy, PartialEq, Eq, Structural)]
pub enum FunctionalityLevelOfUE {
    Minimum,
    Full,
    DisableRF,
}

/// The level code put on the wire.
pub open spec fn spec_fun_code(f: FunctionalityLevelOfUE) -> u32 {
    match f {
        FunctionalityLevelOfUE::Minimum => 0u32,
        FunctionalityLevelOfUE::Full => 1u32,
        FunctionalityLevelOfUE::DisableRF => 4u32,
    }
}

/// When a configuration change takes effect.
#[derive(Debug, Clone, Copy, PartialEq, Eq, Structural)]
pub enum ConfigurationEffect {
    AfterReboot,
    Immediately,
}

/// How the module powers down.
#[derive(Debug, Clone, Copy, PartialEq, Eq, Structural)]
pub enum PowerDownMode {
    Immediate,
    Normal,
}

/// The mode code put on the wire.
pub open spec fn spec_powerdown_code(m: PowerDownMode) -> u32 {
    match m {
        PowerDownMode::Immediate => 0u32,
        PowerDownMode::Normal => 1u32,
    }
}

/// Echo on/off (`ATE<n>`, no value separator).
#[derive(Debug, Clone, Copy, PartialEq, Eq, Structural)]
pub struct SetEcho {
    pub on: EchoOn,
}

impl SetEcho {
    /// The full command line sent on the wire.
    pub fn command_bytes(&self) -> (r: Vec<u8>)
        ensures
            r@ == seq![65u8, 84u8, 69u8] + dec_digits(spec_echo_code(self.on) as nat) + crlf(),
    {
        let mut r: Vec<u8> = Vec::new();
        r.push(65);
        r.push(84);
        r.push(69);
        let code: u32 = match self.on {
            EchoOn::Off => 0,
            EchoOn::On => 1,
        };
        push_dec(&mut r, code);
        r.push(13);
        r.push(10);
        proof {
            assert(r@ =~= seq![65u8, 84u8, 69u8] + dec_digits(spec_echo_code(self.on) as nat)
                + crlf());
        }
        r
    }
}

/// Set UE functionality (`AT+CFUN=<fun>`).
#[derive(Debug, Clone, Copy, PartialEq, Eq, Structural)]
pub struct SetUeFunctionality {
    pub fun: FunctionalityLevelOfUE,
}

impl SetUeFunctionality {
    /// The full command line sent on the wire.
    pub fn command_bytes(&self) -> (r: Vec<u8>)
        ensures
            r@ == seq![65u8, 84u8, 43u8, 67u8, 70u8, 85u8, 78u8, 61u8] + dec_digits(
                spec_fun_code(self.fun) as nat,
            ) + crlf(),
    {
        let mut r: Vec<u8> = Vec::new();
        push_bytes(&mut r, &[65, 84, 43, 67, 70, 85, 78, 61]);
        let code: u32 = match self.fun {
            FunctionalityLevelOfUE::Minimum => 0,
            FunctionalityLevelOfUE::Full => 1,
            FunctionalityLevelOfUE::DisableRF => 4,
        };
        push_dec(&mut r, code);
        push_bytes(&mut r, &[13, 10]);
        proof {
            assert(r@ =~= seq![65u8, 84u8, 43u8, 67u8, 70u8, 85u8, 78u8, 61u8] + dec_digits(
                spec_fun_code(self.fun) as nat,
            ) + crlf());
        }
        r
    }
}

/// Power the module down (`AT+QPOWD=<mode>`).
#[derive(Debug, Clone, Copy, PartialEq, Eq, Structural)]
pub struct PowerDown {
    pub mode: PowerDownMode,
}

impl PowerDown {
    /// The full command line sent on the wire.
    pub fn command_bytes(&self) -> (r: Vec<u8>)
        ensures
            r@ == seq![65u8, 84u8, 43u8, 81u8, 80u8, 79u8, 87u8, 68u8, 61u8] + dec_digits(
                spec_powerdown_code(self.mode) as nat,
            ) + crlf(),
    {
        let mut r: Vec<u8> = Vec::new();
        push_bytes(&mut r, &[65, 84, 43, 81, 80, 79, 87, 68, 61]);
        let code: u32 = match self.mode {
            PowerDownMode::Immediate => 0,
            PowerDownMode::Normal => 1,
        };
        push_dec(&mut r, code);
        push_bytes(&mut r, &[13, 10]);
        proof {
            assert(r@ =~= seq![65u8, 84u8, 43u8, 81u8, 80u8, 79u8, 87u8, 68u8, 61u8] + dec_digits(
                spec_powerdown_code(self.mode) as nat,
            ) + crlf());
        }
        r
    }
}

/// Delete a file on the modem filesystem (`AT+QFDEL="<name>"`).
pub struct FileDel {
    pub name: Vec<u8>,
}

impl FileDel {
    /// The full command line sent on the wire.
    pub fn command_bytes(&self) -> (r: Vec<u8>)
        ensures
            r@ == seq![65u8, 84u8, 43u8, 81u8, 70u8, 68u8, 69u8, 76u8, 61u8] + quoted(self.name@)
                + crlf(),
    {
        let mut r: Vec<u8> = Vec::new();
        push_bytes(&mut r, &[65, 84, 43, 81, 70, 68, 69, 76, 61, 34]);
        push_bytes(&mut r, self.name.as_slice());
        push_bytes(&mut r, &[34, 13, 10]);
        proof {
            assert(r@ =~= seq![65u8, 84u8, 43u8, 81u8, 70u8, 68u8, 69u8, 76u8, 61u8] + quoted(
                self.name@,
            ) + crlf());
        }
        r
    }
}

/// Upload a file to the modem filesystem (`AT+QFUPL="<name>",<size>`); the
/// raw bytes follow separately.
pub struct FileUpl {
    pub name: Vec<u8>,
    pub size: u32,
}

impl FileUpl {
    /// The full command line sent on the wire.
    pub fn command_bytes(&self) -> (r: Vec<u8>)
        ensures
            r@ == seq![65u8, 84u8, 43u8, 81u8, 70u8, 85u8, 80u8, 76u8, 61u8] + quoted(self.name@)
                + seq![44u8] + dec_digits(self.size as nat) + crlf(),
    {
        let mut r: Vec<u8> = Vec::new();
        push_bytes(&mut r, &[65, 84, 43, 81, 70, 85, 80, 76, 61, 34]);
        push_bytes(&mut r, self.name.as_slice());
        push_bytes(&mut r, &[34, 44]);
        push_dec(&mut r, self.size);
        push_bytes(&mut r, &[13, 10]);
        proof {
            assert(r@ =~= seq![65u8, 84u8, 43u8, 81u8, 70u8, 85u8, 80u8, 76u8, 61u8] + quoted(
                self.name@,
            ) + seq![44u8] + dec_digits(self.size as nat) + crlf());
        }
        r
    }
}

/// Raw bytes sent without command framing, e.g. the body after `AT+QFUPL`.
pub struct SendRawData {
    pub raw_data: Vec<u8>,
    pub len: usize,
}

impl SendRawData {
    /// The bytes put on the wire: the first `len` bytes of the buffer.
    pub fn command_bytes(&self) -> (r: Vec<u8>)
        requires
            self.len <= self.raw_data@.len(),
        ensures
            r@ == self.raw_data@.take(self.len as int),
    {
        crate::bytesutil::copy_range(self.raw_data.as_slice(), 0, self.len)
    }
}

/// Open an MQTT network (`AT+QMTOPEN=<link>,"<server>",<port>`).
pub struct MqttOpen {
    pub link_id: u8,
    pub server: Vec<u8>,
    pub port: u16,
}

impl MqttOpen {
    /// The full command line sent on the wire.
    pub fn command_bytes(&self) -> (r: Vec<u8>)
        ensures
            r@ == seq![65u8, 84u8, 43u8, 81u8, 77u8, 84u8, 79u8, 80u8, 69u8, 78u8, 61u8]
                + dec_digits(self.link_id as nat) + seq![44u8] + quoted(self.server@)
                + seq![44u8] + dec_digits(self.port as nat) + crlf(),
    {
        let mut r: Vec<u8> = Vec::new();
        push_bytes(&mut r, &[65, 84, 43, 81, 77, 84, 79, 80, 69, 78, 61]);
        push_dec(&mut r, self.link_id as u32);
        push_bytes(&mut r, &[44, 34]);
        push_bytes(&mut r, self.server.as_slice());
        push_bytes(&mut r, &[34, 44]);
        push_dec(&mut r, self.port as u32);
        push_bytes(&mut r, &[13, 10]);
        proof {
            assert(r@ =~= seq![65u8, 84u8, 43u8, 81u8, 77u8, 84u8, 79u8, 80u8, 69u8, 78u8, 61u8]
                + dec_digits(self.link_id as nat) + seq![44u8] + quoted(self.server@)
                + seq![44u8] + dec_digits(self.port as nat) + crlf());
        }
        r
    }
}

/// Connect an MQTT client (`AT+QMTCONN=<id>,"<client>"[,"<user>","<pass>"]`).
pub struct MqttConnect {
    pub tcp_connect_id: u8,
    pub client_id: Vec<u8>,
    pub username: Option<Vec<u8>>,
    pub password: Option<Vec<u8>>,
}

/// The optional credential tail of the connect command.
pub open spec fn spec_mqtt_connect_tail(user: Option<Seq<u8>>, pass: Option<Seq<u8>>) -> Seq<u8> {
    match user {
        Some(u) => seq![44u8] + quoted(u) + match pass {
            Some(p) => seq![44u8] + quoted(p),
            None => Seq::empty(),
        },
        None => Seq::empty(),
    }
}

impl MqttConnect {
    /// The full command line sent on the wire.
    pub fn command_bytes(&self) -> (r: Vec<u8>)
        ensures
            r@ == seq![65u8, 84u8, 43u8, 81u8, 77u8, 84u8, 67u8, 79u8, 78u8, 78u8, 61u8]
                + dec_digits(self.tcp_connect_id as nat) + seq![44u8] + quoted(self.client_id@)
                + spec_mqtt_connect_tail(
                match self.username {
                    Some(ref u) => Some(u@),
                    None => None,
                },
                match self.password {
                    Some(ref p) => Some(p@),
                    None => None,
                },
            ) + crlf(),
    {
        let mut r: Vec<u8> = Vec::new();
        push_bytes(&mut r, &[65, 84, 43, 81, 77, 84, 67, 79, 78, 78, 61]);
        push_dec(&mut r, self.tcp_connect_id as u32);
        push_bytes(&mut r, &[44, 34]);
        push_bytes(&mut r, self.client_id.as_slice());
        push_bytes(&mut r, &[34]);
        match self.username.as_ref() {
            Some(u) => {
                push_bytes(&mut r, &[44, 34]);
                push_bytes(&mut r, u.as_slice());
                push_bytes(&mut r, &[34]);
                match self.password.as_ref() {
                    Some(p) => {
                        push_bytes(&mut r, &[44, 34]);
                        push_bytes(&mut r, p.as_slice());
                        push_bytes(&mut r, &[34]);
                    },
                    None => {},
                }
            },
            None => {},
        }
        push_bytes(&mut r, &[13, 10]);
        proof {
            assert(r@ =~= seq![65u8, 84u8, 43u8, 81u8, 77u8, 84u8, 67u8, 79u8, 78u8, 78u8, 61u8]
                + dec_digits(self.tcp_connect_id as nat) + seq![44u8] + quoted(self.client_id@)
                + spec_mqtt_connect_tail(
                match self.username {
                    Some(ref u) => Some(u@),
                    None => None,
                },
                match self.password {
                    Some(ref p) => Some(p@),
                    None => None,
                },
            ) + crlf());
        }
        r
    }
}

/// Publish a message
/// (`AT+QMTPUB=<id>,<msgid>,<qos>,<retain>,"<topic>","<payload>"`).
pub struct MqttPublishExtended {
    pub tcp_connect_id: u8,
    pub msg_id: u16,
    pub qos: u8,
    pub retain: u8,
    pub topic: Vec<u8>,
    pub payload: Vec<u8>,
}

impl MqttPublishExtended {
    /// The full command line sent on the wire.
    pub fn command_bytes(&self) -> (r: Vec<u8>)
        ensures
            r@ == seq![65u8, 84u8, 43u8, 81u8, 77u8, 84u8, 80u8, 85u8, 66u8, 61u8] + dec_digits(
                self.tcp_connect_id as nat,
            ) + seq![44u8] + dec_digits(self.msg_id as nat) + seq![44u8] + dec_digits(
                self.qos as nat,
            ) + seq![44u8] + dec_digits(self.retain as nat) + seq![44u8] + quoted(self.topic@)
                + seq![44u8] + quoted(self.payload@) + crlf(),
    {
        let mut r: Vec<u8> = Vec::new();
        push_bytes(&mut r, &[65, 84, 43, 81, 77, 84, 80, 85, 66, 61]);
        push_dec(&mut r, self.tcp_connect_id as u32);
        r.push(44);
        push_dec(&mut r, self.msg_id as u32);
        r.push(44);
        push_dec(&mut r, self.qos as u32);
        r.push(44);
        push_dec(&mut r, self.retain as u32);
        push_bytes(&mut r, &[44, 34]);
        push_bytes(&mut r, self.topic.as_slice());
        push_bytes(&mut r, &[34, 44, 34]);
        push_bytes(&mut r, self.payload.as_slice());
        push_bytes(&mut r, &[34, 13, 10]);
        proof {
            assert(r@ =~= seq![65u8, 84u8, 43u8, 81u8, 77u8, 84u8, 80u8, 85u8, 66u8, 61u8]
                + dec_digits(self.tcp_connect_id as nat) + seq![44u8] + dec_digits(
                self.msg_id as nat,
            ) + seq![44u8] + dec_digits(self.qos as nat) + seq![44u8] + dec_digits(
                self.retain as nat,
            ) + seq![44u8] + quoted(self.topic@) + seq![44u8] + quoted(self.payload@) + crlf());
        }
        r
    }
}

/// Disconnect an MQTT client (`AT+QMTDISC=<id>`).
#[derive(Debug, Clone, Copy, PartialEq, Eq, Structural)]
pub struct MqttDisconnect {
    pub tcp_connect_id: u8,
}

impl MqttDisconnect {
    /// The full command line sent on the wire.
    pub fn command_bytes(&self) -> (r: Vec<u8>)
        ensures
            r@ == seq![65u8, 84u8, 43u8, 81u8, 77u8, 84u8, 68u8, 73u8, 83u8, 67u8, 61u8]
                + dec_digits(self.tcp_connect_id as nat) + crlf(),
    {
        let mut r: Vec<u8> = Vec::new();
        push_bytes(&mut r, &[65, 84, 43, 81, 77, 84, 68, 73, 83, 67, 61]);
        push_dec(&mut r, self.tcp_connect_id as u32);
        push_bytes(&mut r, &[13, 10]);
        proof {
            assert(r@ =~= seq![65u8, 84u8, 43u8, 81u8, 77u8, 84u8, 68u8, 73u8, 83u8, 67u8, 61u8]
                + dec_digits(self.tcp_connect_id as nat) + crlf());
        }
        r
    }
}

/// Close an MQTT network (`AT+QMTCLOSE=<id>`).
#[derive(Debug, Clone, Copy, PartialEq, Eq, Structural)]
pub struct MqttClose {
    pub tcp_connect_id: u8,
}

impl MqttClose {
    /// The full command line sent on the wire.
    pub fn command_bytes(&self) -> (r: Vec<u8>)
        ensures
            r@ == seq![65u8, 84u8, 43u8, 81u8, 77u8, 84u8, 67u8, 76u8, 79u8, 83u8, 69u8, 61u8]
                + dec_digits(self.tcp_connect_id as nat) + crlf(),
    {
        let mut r: Vec<u8> = Vec::new();
        push_bytes(&mut r, &[65, 84, 43, 81, 77, 84, 67, 76, 79, 83, 69, 61]);
        push_dec(&mut r, self.tcp_connect_id as u32);
        push_bytes(&mut r, &[13, 10]);
        proof {
            assert(r@ =~= seq![65u8, 84u8, 43u8, 81u8, 77u8, 84u8, 67u8, 76u8, 79u8, 83u8, 69u8,
                61u8] + dec_digits(self.tcp_connect_id as nat) + crlf());
        }
        r
    }
}

/// Configure an MQTT parameter
/// (`AT+QMTCFG="<name>"[,<p1>[,<p2>[,<p3>]]]`).
pub struct MqttConfig {
    pub name: Vec<u8>,
    pub param_1: Option<u8>,
    pub param_2: Option<u8>,
    pub param_3: Option<u8>,
}

/// The optional numeric tail of a configuration command: each parameter is
/// rendered only when present, each behind a comma.
pub open spec fn spec_opt_params(p1: Option<u8>, p2: Option<u8>, p3: Option<u8>) -> Seq<u8> {
    (match p1 {
        Some(v) => seq![44u8] + dec_digits(v as nat),
        None => Seq::empty(),
    }) + (match p2 {
        Some(v) => seq![44u8] + dec_digits(v as nat),
        None => Seq::empty(),
    }) + (match p3 {
        Some(v) => seq![44u8] + dec_digits(v as nat),
        None => Seq::empty(),
    })
}

impl MqttConfig {
    /// The full command line sent on the wire.
    #[verifier::rlimit(100)]
    #[verifier::spinoff_prover]
    pub fn command_bytes(&self) -> (r: Vec<u8>)
        ensures
            r@ == seq![65u8, 84u8, 43u8, 81u8, 77u8, 84u8, 67u8, 70u8, 71u8, 61u8] + quoted(
                self.name@,
            ) + spec_opt_params(self.param_1, self.param_2, self.param_3) + crlf(),
    {
        let mut r: Vec<u8> = Vec::new();
        push_bytes(&mut r, &[65, 84, 43, 81, 77, 84, 67, 70, 71, 61, 34]);
        push_bytes(&mut r, self.name.as_slice());
        r.push(34);
        match self.param_1 {
            Some(v) => {
                r.push(44);
                push_dec(&mut r, v as u32);
            },
            None => {},
        }
        match self.param_2 {
            Some(v) => {
                r.push(44);
                push_dec(&mut r, v as u32);
            },
            None => {},
        }
        match self.param_3 {
            Some(v) => {
                r.push(44);
                push_dec(&mut r, v as u32);
            },
            None => {},
        }
        push_bytes(&mut r, &[13, 10]);
        proof {
            assert(r@ =~= seq![65u8, 84u8, 43u8, 81u8, 77u8, 84u8, 67u8, 70u8, 71u8, 61u8]
                + quoted(self.name@) + spec_opt_params(self.param_1, self.param_2, self.param_3)
                + crlf());
        }
        r
    }
}

/// Configure a certificate path of an SSL context
/// (`AT+QSSLCFG="<name>",<ctx>[,"<path>"]`).
pub struct SslConfigCert {
    pub name: Vec<u8>,
    pub context_id: u8,
    pub cert_path: Option<Vec<u8>>,
}

impl SslConfigCert {
    /// The full command line sent on the wire.
    pub fn command_bytes(&self) -> (r: Vec<u8>)
        ensures
            r@ == seq![65u8, 84u8, 43u8, 81u8, 83u8, 83u8, 76u8, 67u8, 70u8, 71u8, 61u8]
                + quoted(self.name@) + seq![44u8] + dec_digits(self.context_id as nat) + (
            match self.cert_path {
                Some(ref p) => seq![44u8] + quoted(p@),
                None => Seq::empty(),
            }) + crlf(),
    {
        let mut r: Vec<u8> = Vec::new();
        push_bytes(&mut r, &[65, 84, 43, 81, 83, 83, 76, 67, 70, 71, 61, 34]);
        push_bytes(&mut r, self.name.as_slice());
        push_bytes(&mut r, &[34, 44]);
        push_dec(&mut r, self.context_id as u32);
        match self.cert_path.as_ref() {
            Some(p) => {
                push_bytes(&mut r, &[44, 34]);
                push_bytes(&mut r, p.as_slice());
                r.push(34);
            },
            None => {},
        }
        push_bytes(&mut r, &[13, 10]);
        proof {
            assert(r@ =~= seq![65u8, 84u8, 43u8, 81u8, 83u8, 83u8, 76u8, 67u8, 70u8, 71u8, 61u8]
                + quoted(self.name@) + seq![44u8] + dec_digits(self.context_id as nat) + (
            match self.cert_path {
                Some(ref p) => seq![44u8] + quoted(p@),
                None => Seq::empty(),
            }) + crlf());
        }
        r
    }
}

/// Configure a numeric parameter of an SSL context
/// (`AT+QSSLCFG="<name>",<ctx>,<level>`).
pub struct SslConfigOther {
    pub name: Vec<u8>,
    pub context_id: u8,
    pub level: u8,
}

impl SslConfigOther {
    /// The full command line sent on the wire.
    pub fn command_bytes(&self) -> (r: Vec<u8>)
        ensures
            r@ == seq![65u8, 84u8, 43u8, 81u8, 83u8, 83u8, 76u8, 67u8, 70u8, 71u8, 61u8]
                + quoted(self.name@) + seq![44u8] + dec_digits(self.context_id as nat)
                + seq![44u8] + dec_digits(self.level as nat) + crlf(),
    {
        let mut r: Vec<u8> = Vec::new();
        push_bytes(&mut r, &[65, 84, 43, 81, 83, 83, 76, 67, 70, 71, 61, 34]);
        push_bytes(&mut r, self.name.as_slice());
        push_bytes(&mut r, &[34, 44]);
        push_dec(&mut r, self.context_id as u32);
        r.push(44);
        push_dec(&mut r, self.level as u32);
        push_bytes(&mut r, &[13, 10]);
        proof {
            assert(r@ =~= seq![65u8, 84u8, 43u8, 81u8, 83u8, 83u8, 76u8, 67u8, 70u8, 71u8, 61u8]
                + quoted(self.name@) + seq![44u8] + dec_digits(self.context_id as nat)
                + seq![44u8] + dec_digits(self.level as nat) + crlf());
        }
        r
    }
}

/// The plain `AT` probe.
#[derive(Debug, Clone, Copy, PartialEq, Eq, Structural)]
pub struct AT;

/// Empty response to a command that only answers OK.
#[derive(Debug, Clone, Copy, PartialEq, Eq, Structural)]
pub struct NoResponse;

/// The modem is ready.
#[derive(Debug, Clone, Copy, PartialEq, Eq, Structural)]
pub struct Ready;

/// The application core is ready.
#[derive(Debug, Clone, Copy, PartialEq, Eq, Structural)]
pub struct AppReady;

/// A message-waiting indication.
#[derive(Debug, Clone, Copy, PartialEq, Eq, Structural)]
pub struct MessageWaitingIndication;

/// Signal quality report: received signal strength and bit error rate.
#[derive(Debug, Clone, Copy, PartialEq, Eq, Structural)]
pub struct NetworkSignalQuality {
    pub rssi: u8,
    pub ber: u8,
}

/// `+QMTOPEN` result code.
#[derive(Debug, Clone, Copy, PartialEq, Eq, Structural)]
pub struct MqttOpenResponse {
    pub tcpconnect_id: u8,
    pub result: i8,
}

/// `+QMTSTAT` connection status report.
#[derive(Debug, Clone, Copy, PartialEq, Eq, Structural)]
pub struct MqttStatusResponse {
    pub tcpconnect_id: u8,
    pub err: u8,
}

/// `+QMTCONN` result and CONNACK return code.
#[derive(Debug, Clone, Copy, PartialEq, Eq, Structural)]
pub struct MqttConnectResponse {
    pub tcpconnect_id: u8,
    pub result: u8,
    pub ret_code: u8,
}

/// `+QMTPUB` result code.
#[derive(Debug, Clone, Copy, PartialEq, Eq, Structural)]
pub struct MqttPublishResponse {
    pub tcpconnect_id: u8,
    pub message_id: u16,
    pub result: u8,
    pub value: Option<u8>,
}

/// `+QMTDISC` result code.
#[derive(Debug, Clone, Copy, PartialEq, Eq, Structural)]
pub struct MqttDisconnectResponse {
    pub tcpconnect_id: u8,
    pub result: i8,
}

/// `+QMTCLOSE` result code.
#[derive(Debug, Clone, Copy, PartialEq, Eq, Structural)]
pub struct MqttCloseResponse {
    pub tcpconnect_id: u8,
    pub result: i8,
}

/// `+CME ERROR` report.
#[derive(Debug, Clone, Copy, PartialEq, Eq, Structural)]
pub struct CmeError {
    pub err: u8,
}

/// Activate a PDP context (`AT+QIACT=<ctx>`).
#[derive(Debug, Clone, Copy, PartialEq, Eq, Structural)]
pub struct ActivatePDPContext {
    pub context_id: u8,
}

impl ActivatePDPContext {
    /// The full command line sent on the wire.
    pub fn command_bytes(&self) -> (r: Vec<u8>)
        ensures
            r@ == seq![65u8, 84u8, 43u8, 81u8, 73u8, 65u8, 67u8, 84u8, 61u8] + dec_digits(
                self.context_id as nat,
            ) + crlf(),
    {
        let mut r: Vec<u8> = Vec::new();
        push_bytes(&mut r, &[65, 84, 43, 81, 73, 65, 67, 84, 61]);
        push_dec(&mut r, self.context_id as u32);
        push_bytes(&mut r, &[13, 10]);
        proof {
            assert(r@ =~= seq![65u8, 84u8, 43u8, 81u8, 73u8, 65u8, 67u8, 84u8, 61u8] + dec_digits(
                self.context_id as nat,
            ) + crlf());
        }
        r
    }
}

/// Deactivate a PDP context (`AT+QIDEACT=<ctx>`).
#[derive(Debug, Clone, Copy, PartialEq, Eq, Structural)]
pub struct DeactivatePDPContext {
    pub context_id: u8,
}

impl DeactivatePDPContext {
    /// The full command line sent on the wire.
    pub fn command_bytes(&self) -> (r: Vec<u8>)
        ensures
            r@ == seq![65u8, 84u8, 43u8, 81u8, 73u8, 68u8, 69u8, 65u8, 67u8, 84u8, 61u8]
                + dec_digits(self.context_id as nat) + crlf(),
    {
        let mut r: Vec<u8> = Vec::new();
        push_bytes(&mut r, &[65, 84, 43, 81, 73, 68, 69, 65, 67, 84, 61]);
        push_dec(&mut r, self.context_id as u32);
        push_bytes(&mut r, &[13, 10]);
        proof {
            assert(r@ =~= seq![65u8, 84u8, 43u8, 81u8, 73u8, 68u8, 69u8, 65u8, 67u8, 84u8, 61u8]
                + dec_digits(self.context_id as nat) + crlf());
        }
        r
    }
}

/// Query network-synchronized time (`AT+QLTS=<mode>`).
#[derive(Debug, Clone, Copy, PartialEq, Eq, Structural)]
pub struct GetNetworkNitzTime {
    pub mode: u8,
}

impl GetNetworkNitzTime {
    /// The full command line sent on the wire.
    pub fn command_bytes(&self) -> (r: Vec<u8>)
        ensures
            r@ == seq![65u8, 84u8, 43u8, 81u8, 76u8, 84u8, 83u8, 61u8] + dec_digits(
                self.mode as nat,
            ) + crlf(),
    {
        let mut r: Vec<u8> = Vec::new();
        push_bytes(&mut r, &[65, 84, 43, 81, 76, 84, 83, 61]);
        push_dec(&mut r, self.mode as u32);
        push_bytes(&mut r, &[13, 10]);
        proof {
            assert(r@ =~= seq![65u8, 84u8, 43u8, 81u8, 76u8, 84u8, 83u8, 61u8] + dec_digits(
                self.mode as nat,
            ) + crlf());
        }
        r
    }
}

/// Read the latest RMC sentence (`AT+QGPSGNMEA="RMC"`, raw-framed form).
#[derive(Debug, Clone, Copy, PartialEq, Eq, Structural)]
pub struct RetrieveGpsData;

impl RetrieveGpsData {
    /// The full command line sent on the wire.
    pub fn command_bytes(&self) -> (r: Vec<u8>)
        ensures
            r@ == spec_retrievegpsrmc_cmd(),
    {
        RetrieveGpsRmc.command_bytes()
    }
}

} // verus!

