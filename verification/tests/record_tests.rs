use gcd_rs::record::descriptor::descriptor_data::DescriptorData;
use gcd_rs::record::descriptor::descriptor_data::DescriptorDecoded;
use gcd_rs::record::descriptor::descriptor_type::DescriptorType;
use gcd_rs::record::descriptor::DescriptorRecord;
use gcd_rs::record::descriptor::DescriptorTypeRecord;
use gcd_rs::record::filler::FillerRecord;
use gcd_rs::record::main::MainRecord;
use gcd_rs::record::text::TextRecord;
use gcd_rs::Endianness;
use gcd_rs::GcdError;
use gcd_rs::PartNumber;
use gcd_rs::RecordHeader;
use gcd_rs::Version;

#[test]
fn header_from_value_maps_reserved_ids() {
    assert_eq!(RecordHeader::from_value(1, 1), RecordHeader::Checksum);
    assert_eq!(RecordHeader::from_value(1, 5), RecordHeader::Unknown { id: 1, len: 5 });
    assert_eq!(RecordHeader::from_value(2, 10), RecordHeader::Filler(10));
    assert_eq!(RecordHeader::from_value(3, 9), RecordHeader::MainHeader(9));
    assert_eq!(RecordHeader::from_value(5, 7), RecordHeader::Text(7));
    assert_eq!(RecordHeader::from_value(6, 4), RecordHeader::DescriptorType(4));
    assert_eq!(RecordHeader::from_value(7, 4), RecordHeader::DescriptorData(4));
    assert_eq!(RecordHeader::from_value(0xffff, 0), RecordHeader::End);
    assert_eq!(RecordHeader::from_value(0xffff, 1), RecordHeader::Unknown { id: 0xffff, len: 1 });
    assert_eq!(RecordHeader::from_value(0x1234, 2), RecordHeader::Unknown { id: 0x1234, len: 2 });
}

#[test]
fn header_raw_round_trip() {
    for e in [Endianness::Little, Endianness::Big] {
        let header = RecordHeader::Text(0x1234);
        let mut out: Vec<u8> = Vec::new();
        header.to_raw(e, &mut out);
        assert_eq!(out.len(), 4);
        assert_eq!(RecordHeader::from_raw(e, &out), Ok(header));
    }
    let header = RecordHeader::Filler(3);
    let mut out: Vec<u8> = Vec::new();
    header.to_raw(Endianness::Little, &mut out);
    assert_eq!(out, vec![0x02, 0x00, 0x03, 0x00]);
}

#[test]
fn header_too_small() {
    assert_eq!(
        RecordHeader::from_raw(Endianness::Little, &vec![1, 0, 1]),
        Err(GcdError::HeaderTooSmall)
    );
}

#[test]
fn filler_accepts_only_zeros() {
    assert_eq!(FillerRecord::new(&vec![0u8; 100]), Ok(FillerRecord::Zeros(100)));
    let mut payload = vec![0u8; 100];
    payload[41] = 1;
    assert_eq!(FillerRecord::new(&payload), Err(GcdError::InvalidFiller));
    assert_eq!(FillerRecord::Zeros(7).header(), RecordHeader::Filler(7));
}

#[test]
fn main_record_accepts_only_known_values() {
    let hwid = vec![0x37, 0x00];
    assert_eq!(MainRecord::new(Endianness::Little, &hwid), Ok(MainRecord::DefaultHWID));
    let bad = vec![0x38, 0x00];
    assert_eq!(MainRecord::new(Endianness::Little, &bad), Err(GcdError::InvalidMainRecord));

    let pn = gcd_rs::record::main::DEFAULT_PART_NUMBER.to_le_bytes()[..9].to_vec();
    assert_eq!(MainRecord::new(Endianness::Little, &pn), Ok(MainRecord::DefaultPartNumber));
    let mut bad_pn = pn.clone();
    bad_pn[0] ^= 1;
    assert_eq!(MainRecord::new(Endianness::Little, &bad_pn), Err(GcdError::InvalidMainRecord));
    assert_eq!(MainRecord::new(Endianness::Little, &vec![0u8; 5]), Err(GcdError::InvalidMainRecord));
}

#[test]
fn text_record_prefers_text() {
    // If the UTF-8 wrapper handed bytes back unchanged, this would be a blob.
    let t = TextRecord::new(b"one line".to_vec());
    assert_eq!(t, TextRecord::Simple("one line".to_string()));
    assert_eq!(t.value(), b"one line");

    let raw = vec![0xFF, 0xFE, 0x00];
    let t = TextRecord::new(raw.clone());
    assert_eq!(t, TextRecord::Blob(raw.clone()));
    assert_eq!(t.value(), raw.as_slice());
}

#[test]
fn descriptor_type_units() {
    let t = DescriptorType::Other { id: 3, lenght: 7 };
    assert_eq!(t.kind(), 4);
    assert_eq!(t.id(), 3);
    assert_eq!(t.value(), 0x4003);
    assert_eq!(t.len(), 4);
    assert_eq!(t.data_len(), 7);
    assert_eq!(DescriptorType::End.value(), 0x5003);
    assert_eq!(DescriptorType::U64 { id: 9 }.data_len(), 8);

    let mut out: Vec<u8> = Vec::new();
    t.to_raw(Endianness::Little, &mut out);
    assert_eq!(out, vec![0x03, 0x40, 0x07, 0x00]);
    let (next, parsed) = DescriptorType::from_raw(Endianness::Little, &out, 0).unwrap();
    assert_eq!(next, 4);
    assert_eq!(parsed, t);
}

#[test]
fn descriptor_type_errors() {
    // A sized slot whose explicit length is missing.
    let bytes = vec![0x03, 0x40];
    assert_eq!(
        DescriptorType::from_raw(Endianness::Little, &bytes, 0),
        Err(GcdError::DescriptorTruncated)
    );
    // Kind bits above the known range.
    let bytes = vec![0x01, 0x60];
    assert_eq!(
        DescriptorType::from_raw(Endianness::Little, &bytes, 0),
        Err(GcdError::UnknownDescriptorKind)
    );
    // An odd type record payload.
    assert_eq!(
        DescriptorTypeRecord::new(Endianness::Little, &vec![0x01, 0x00, 0x02]),
        Err(GcdError::DescriptorTypeOddLength)
    );
}

#[test]
fn descriptor_pairing_needs_exact_length() {
    // U16 slot and U32 slot declare six bytes of data.
    let types =
        DescriptorTypeRecord::new(Endianness::Little, &vec![0x0A, 0x10, 0x15, 0x20]).unwrap();
    assert_eq!(types.len(), 2);
    assert_eq!(types.data_len(), 6);

    let exact = vec![0x01, 0x03, 0x04, 0x00, 0x00, 0x00];
    let parsed = DescriptorRecord::new(Endianness::Little, &exact, &types).unwrap();
    assert_eq!(
        parsed,
        DescriptorRecord::Simple(vec![
            DescriptorData::U16 { id: 10, data: 0x0301 },
            DescriptorData::U32 { id: 21, data: 4 },
        ])
    );

    let short = vec![0x01, 0x03, 0x04, 0x00, 0x00];
    assert_eq!(
        DescriptorRecord::new(Endianness::Little, &short, &types),
        Err(GcdError::DescriptorDataLenMismatch)
    );
    let long = vec![0x01, 0x03, 0x04, 0x00, 0x00, 0x00, 0x00];
    assert_eq!(
        DescriptorRecord::new(Endianness::Little, &long, &types),
        Err(GcdError::DescriptorDataLenMismatch)
    );
}

#[test]
fn descriptor_decode_advisory_lookup() {
    assert_eq!(
        DescriptorData::U16 { id: 10, data: 7 }.decode(),
        Some(DescriptorDecoded::FirmwareId(7))
    );
    assert_eq!(
        DescriptorData::U32 { id: 21, data: 9 }.decode(),
        Some(DescriptorDecoded::FirmwareLen(9))
    );
    assert_eq!(
        DescriptorData::U8 { id: 10, data: 3 }.decode(),
        Some(DescriptorDecoded::XorKey(3))
    );
    assert_eq!(
        DescriptorData::U16 { id: 13, data: 380 }.decode(),
        Some(DescriptorDecoded::VersionSw(Version::Simple { major: 3, minor: 80 }))
    );
    assert_eq!(DescriptorData::End.decode(), Some(DescriptorDecoded::End));
    // An unrecognized pair means nothing, but is no error.
    assert_eq!(DescriptorData::U16 { id: 999, data: 1 }.decode(), None);
    assert_eq!(DescriptorData::U64 { id: 10, data: 1 }.decode(), None);
}

#[test]
fn version_units() {
    assert_eq!(Version::new_raw(380), Version::Simple { major: 3, minor: 80 });
    assert_eq!(Version::new_raw(380).value(), 380);
    assert_eq!(Version::new_raw(0xffff), Version::Null);
    assert_eq!(Version::Null.value(), 0xffff);
    assert_eq!(Version::new(12, 5).value(), 1205);
}

#[test]
fn part_number_from_bytes() {
    let bytes_little: Vec<u8> = vec![0x10, 0xD4, 0x5C, 0x13, 0x04, 0x45, 0x0D, 0x14, 0x41];
    let bytes_big: Vec<u8> = bytes_little.iter().rev().copied().collect();

    let pn_little = PartNumber::from_raw(Endianness::Little, &bytes_little).unwrap();
    let pn_big = PartNumber::from_raw(Endianness::Big, &bytes_big).unwrap();

    for pn in [pn_little, pn_big].iter() {
        assert_eq!(pn.to_string(), "010-10037-00");
    }
}

#[test]
#[should_panic]
fn part_number_invalid_str1() {
    let text = "010-\u{0e23}\u{0e07}0037-00";
    PartNumber::from_str(text).unwrap();
}

#[test]
#[should_panic]
fn part_number_invalid_str2() {
    let text = "010-0037-00";
    PartNumber::from_str(text).unwrap();
}

#[test]
fn part_number_text_round_trip() {
    let pn = PartNumber::from_str("123-45678-90").unwrap();
    assert_eq!(pn.to_string(), "123-45678-90");
    assert_eq!(PartNumber::from_str("12-45678-90x"), Err(GcdError::PartNumberInvalid));
    assert_eq!(PartNumber::from_str("short"), Err(GcdError::PartNumberTooSmall));
}
