//! Mass storage devices.

use extender::client::mass_storage::{
    Cbw, Csw, CswStatus, ScsiCommand, CBW_SIGNATURE, CSW_SIGNATURE,
};

#[test]
fn test_cbw_signature() {
    let cbw = Cbw {
        signature: CBW_SIGNATURE,
        tag: 1,
        data_transfer_length: 0,
        flags: 0x00,
        lun: 0,
        cb_length: 6,
        cb: [0u8; 16],
    };
    let bytes = cbw.to_bytes();
    // "USBC" in little-endian: 0x55, 0x53, 0x42, 0x43
    assert_eq!(&bytes[0..4], &[0x55, 0x53, 0x42, 0x43]);
}

#[test]
fn test_cbw_size() {
    let cbw = Cbw {
        signature: CBW_SIGNATURE,
        tag: 0xAABBCCDD,
        data_transfer_length: 512,
        flags: 0x80,
        lun: 0,
        cb_length: 10,
        cb: [0u8; 16],
    };
    let bytes = cbw.to_bytes();
    assert_eq!(bytes.len(), 31);
}

#[test]
fn test_cbw_roundtrip() {
    let cbw = Cbw {
        signature: CBW_SIGNATURE,
        tag: 42,
        data_transfer_length: 1024,
        flags: 0x80,
        lun: 0,
        cb_length: 10,
        cb: {
            let mut cb = [0u8; 16];
            cb[0] = 0x28; // READ(10)
            cb[2] = 0x00;
            cb[3] = 0x00;
            cb[4] = 0x00;
            cb[5] = 0x08;
            cb[7] = 0x00;
            cb[8] = 0x02;
            cb
        },
    };
    let bytes = cbw.to_bytes();
    let decoded = Cbw::from_bytes(&bytes).unwrap();
    assert_eq!(decoded, cbw);
}

#[test]
fn test_cbw_invalid_signature() {
    let mut bytes = [0u8; 31];
    // Wrong signature
    bytes[0..4].copy_from_slice(&[0x00, 0x00, 0x00, 0x00]);
    let result = Cbw::from_bytes(&bytes);
    assert!(result.is_err());
}

#[test]
fn test_cbw_fields() {
    let cbw = Cbw {
        signature: CBW_SIGNATURE,
        tag: 0x0102_0304,
        data_transfer_length: 0x0506_0708,
        flags: 0x80,
        lun: 2,
        cb_length: 10,
        cb: [0xAA; 16],
    };
    let bytes = cbw.to_bytes();

    // Tag (little-endian)
    assert_eq!(&bytes[4..8], &[0x04, 0x03, 0x02, 0x01]);
    // Data transfer length (little-endian)
    assert_eq!(&bytes[8..12], &[0x08, 0x07, 0x06, 0x05]);
    // Flags
    assert_eq!(bytes[12], 0x80);
    // LUN
    assert_eq!(bytes[13], 2);
    // CB length
    assert_eq!(bytes[14], 10);
    // CB bytes
    assert_eq!(&bytes[15..31], &[0xAA; 16]);
}

#[test]
fn test_csw_signature() {
    let csw = Csw {
        signature: CSW_SIGNATURE,
        tag: 1,
        data_residue: 0,
        status: CswStatus::Passed,
    };
    let bytes = csw.to_bytes();
    // "USBS" in little-endian: 0x55, 0x53, 0x42, 0x53
    assert_eq!(&bytes[0..4], &[0x55, 0x53, 0x42, 0x53]);
}

#[test]
fn test_csw_size() {
    let csw = Csw {
        signature: CSW_SIGNATURE,
        tag: 1,
        data_residue: 0,
        status: CswStatus::Passed,
    };
    let bytes = csw.to_bytes();
    assert_eq!(bytes.len(), 13);
}

#[test]
fn test_csw_roundtrip() {
    let csw = Csw {
        signature: CSW_SIGNATURE,
        tag: 42,
        data_residue: 100,
        status: CswStatus::Failed,
    };
    let bytes = csw.to_bytes();
    let decoded = Csw::from_bytes(&bytes).unwrap();
    assert_eq!(decoded, csw);
}

#[test]
fn test_csw_status_values() {
    assert_eq!(CswStatus::from_byte(0), CswStatus::Passed);
    assert_eq!(CswStatus::from_byte(1), CswStatus::Failed);
    assert_eq!(CswStatus::from_byte(2), CswStatus::PhaseError);
    assert_eq!(CswStatus::from_byte(3), CswStatus::Unknown(3));

    assert_eq!(CswStatus::Passed.to_byte(), 0);
    assert_eq!(CswStatus::Failed.to_byte(), 1);
    assert_eq!(CswStatus::PhaseError.to_byte(), 2);
    assert_eq!(CswStatus::Unknown(0xFF).to_byte(), 0xFF);
}

#[test]
fn test_csw_invalid_signature() {
    let mut bytes = [0u8; 13];
    bytes[0..4].copy_from_slice(&[0xFF, 0xFF, 0xFF, 0xFF]);
    let result = Csw::from_bytes(&bytes);
    assert!(result.is_err());
}

#[test]
fn test_test_unit_ready_cdb() {
    let cmd = ScsiCommand::TestUnitReady;
    let cdb = cmd.encode_cdb();
    assert_eq!(cdb[0], 0x00);
    assert_eq!(cmd.cdb_length(), 6);
    // All other bytes should be zero.
    assert!(cdb[1..16].iter().all(|&b| b == 0));
}

#[test]
fn test_inquiry_cdb() {
    let cmd = ScsiCommand::Inquiry;
    let cdb = cmd.encode_cdb();
    assert_eq!(cdb[0], 0x12);
    assert_eq!(cdb[4], 36); // allocation length
    assert_eq!(cmd.cdb_length(), 6);
}

#[test]
fn test_read_capacity10_cdb() {
    let cmd = ScsiCommand::ReadCapacity10;
    let cdb = cmd.encode_cdb();
    assert_eq!(cdb[0], 0x25);
    assert_eq!(cmd.cdb_length(), 10);
}

#[test]
fn test_read10_cdb() {
    let cmd = ScsiCommand::Read10 {
        lba: 0x0000_0100,
        blocks: 8,
    };
    let cdb = cmd.encode_cdb();
    assert_eq!(cdb[0], 0x28);
    // LBA in bytes 2-5 (big-endian)
    assert_eq!(&cdb[2..6], &[0x00, 0x00, 0x01, 0x00]);
    // Transfer length in bytes 7-8 (big-endian)
    assert_eq!(&cdb[7..9], &[0x00, 0x08]);
    assert_eq!(cmd.cdb_length(), 10);
}

#[test]
fn test_write10_cdb() {
    let cmd = ScsiCommand::Write10 {
        lba: 0x0000_0200,
        blocks: 4,
    };
    let cdb = cmd.encode_cdb();
    assert_eq!(cdb[0], 0x2A);
    assert_eq!(&cdb[2..6], &[0x00, 0x00, 0x02, 0x00]);
    assert_eq!(&cdb[7..9], &[0x00, 0x04]);
    assert_eq!(cmd.cdb_length(), 10);
}

#[test]
fn test_request_sense_cdb() {
    let cmd = ScsiCommand::RequestSense;
    let cdb = cmd.encode_cdb();
    assert_eq!(cdb[0], 0x03);
    assert_eq!(cdb[4], 18); // allocation length
    assert_eq!(cmd.cdb_length(), 6);
}

#[test]
fn test_mode_sense6_cdb() {
    let cmd = ScsiCommand::ModeSense6;
    let cdb = cmd.encode_cdb();
    assert_eq!(cdb[0], 0x1A);
    assert_eq!(cdb[2], 0x3F); // all pages
    assert_eq!(cdb[4], 192); // allocation length
    assert_eq!(cmd.cdb_length(), 6);
}

#[test]
fn test_read10_large_lba() {
    let cmd = ScsiCommand::Read10 {
        lba: 0xFFFF_FFFF,
        blocks: 0xFFFF,
    };
    let cdb = cmd.encode_cdb();
    assert_eq!(&cdb[2..6], &[0xFF, 0xFF, 0xFF, 0xFF]);
    assert_eq!(&cdb[7..9], &[0xFF, 0xFF]);
}
