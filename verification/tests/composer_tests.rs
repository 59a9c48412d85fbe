use gcd_rs::composer::Composer;
use gcd_rs::record::descriptor::descriptor_data::DescriptorData;
use gcd_rs::record::descriptor::DescriptorRecord;
use gcd_rs::record::filler::FillerRecord;
use gcd_rs::record::main::MainRecord;
use gcd_rs::record::main::DEFAULT_HWID;
use gcd_rs::record::main::DEFAULT_PART_NUMBER;
use gcd_rs::record::text::TextRecord;
use gcd_rs::wire::sum_range;
use gcd_rs::Endianness;
use gcd_rs::Record;

fn extend_u16(e: Endianness, vec: &mut Vec<u8>, x: u16) {
    match e {
        Endianness::Little => vec.extend(x.to_le_bytes()),
        Endianness::Big => vec.extend(x.to_be_bytes()),
    }
}

fn signature(e: Endianness) -> Vec<u8> {
    let mut result = vec![b'G', b'A', b'R', b'M', b'I', b'N'];
    extend_u16(e, &mut result, 100);
    result
}

#[test]
fn check_sum() {
    let mut stream: Vec<u8> = Vec::new();
    stream.extend([0x1]);
    stream.extend([0x2]);
    stream.extend([0x3, 0x4]);
    stream.extend([0x1, 0x00, 0x00, 0x00, 0x00, 0x00, 0x1]);
    assert_eq!(stream.len(), 11);
    let sum = sum_range(&stream, 0, stream.len(), 0);
    assert_eq!(sum.wrapping_neg(), 244);
}

fn check_main(e: Endianness, header: &MainRecord, data: &[u8]) {
    let mut composer = Composer::new(e);
    composer.write_record(&Record::MainHeader(header.clone())).unwrap();

    let mut result = signature(e);
    extend_u16(e, &mut result, 0x03);
    extend_u16(e, &mut result, data.len() as u16);
    result.extend(data.iter());
    assert_eq!(composer.into_bytes(), result);
}

#[test]
fn write_main() {
    let main_header_hwid = MainRecord::DefaultHWID;
    let main_header_pn = MainRecord::DefaultPartNumber;

    let default_hwid_le = DEFAULT_HWID.to_le_bytes();
    let default_hwid_be = DEFAULT_HWID.to_be_bytes();
    check_main(Endianness::Little, &main_header_hwid, &default_hwid_le);
    check_main(Endianness::Big, &main_header_hwid, &default_hwid_be);

    let default_pn_le = &DEFAULT_PART_NUMBER.to_le_bytes()[..9];
    let default_pn_be = &DEFAULT_PART_NUMBER.to_be_bytes()[7..16];
    check_main(Endianness::Little, &main_header_pn, default_pn_le);
    check_main(Endianness::Big, &main_header_pn, default_pn_be);
}

fn check_text(e: Endianness, text: &TextRecord) {
    let mut composer = Composer::new(e);
    composer.write_record(&Record::Text(text.clone())).unwrap();
    composer.write_record(&Record::End).unwrap();

    let value: &[u8] = text.value();
    let mut result = signature(e);
    extend_u16(e, &mut result, 0x05);
    extend_u16(e, &mut result, value.len() as u16);
    result.extend(value);
    extend_u16(e, &mut result, 0xffff);
    extend_u16(e, &mut result, 0x0000);
    assert_eq!(composer.into_bytes(), result);
}

#[test]
fn write_text() {
    let text = TextRecord::Simple("The text is XXXXXXXXX".to_string());
    check_text(Endianness::Little, &text);
    check_text(Endianness::Big, &text);
    let text = TextRecord::Blob(b"The text is YYYYYYYYY".to_vec());
    check_text(Endianness::Little, &text);
    check_text(Endianness::Big, &text);
}

fn check_filler(e: Endianness, len: u16) {
    let mut composer = Composer::new(e);
    let filler = FillerRecord::Zeros(len);
    composer.write_record(&Record::Filler(filler)).unwrap();

    let mut result = signature(e);
    extend_u16(e, &mut result, 0x02);
    extend_u16(e, &mut result, len);
    result.extend(vec![0u8; len as usize]);
    assert_eq!(composer.into_bytes(), result);
}

#[test]
fn write_filler() {
    check_filler(Endianness::Little, 100);
    check_filler(Endianness::Big, 100);
}

fn check_checkpoint(e: Endianness) {
    let mut composer = Composer::new(e);
    composer
        .write_record(&Record::Checksum(gcd_rs::record::checksum::ChecksumRecord::Simple))
        .unwrap();

    let mut result = signature(e);
    extend_u16(e, &mut result, 0x01);
    extend_u16(e, &mut result, 1);
    result.push(0xDC);
    assert_eq!(composer.into_bytes(), result);
}

#[test]
fn write_checksum() {
    check_checkpoint(Endianness::Little);
    check_checkpoint(Endianness::Big);
}

fn check_descriptor(e: Endianness, desc: &DescriptorRecord) {
    let mut composer = Composer::new(e);
    composer.write_record(&Record::Descriptor(desc.clone())).unwrap();

    let mut result = signature(e);
    // descriptor type record: 4 plain slots, one sized slot, the end slot
    extend_u16(e, &mut result, 0x06);
    extend_u16(e, &mut result, 14);
    extend_u16(e, &mut result, 0x0001);
    extend_u16(e, &mut result, 0x1001);
    extend_u16(e, &mut result, 0x2001);
    extend_u16(e, &mut result, 0x3001);
    extend_u16(e, &mut result, 0x4001);
    extend_u16(e, &mut result, 0x0003);
    extend_u16(e, &mut result, 0x5003);
    // descriptor data record: the values, slot by slot
    extend_u16(e, &mut result, 0x07);
    extend_u16(e, &mut result, 18);
    result.push(0);
    extend_u16(e, &mut result, 0);
    result.extend([0u8; 4]);
    result.extend([0u8; 8]);
    result.extend([0, 1, 2]);
    assert_eq!(composer.into_bytes(), result);
}

#[test]
fn write_descriptor() {
    let descriptor = DescriptorRecord::Simple(vec![
        DescriptorData::U8 { id: 1, data: 0 },
        DescriptorData::U16 { id: 1, data: 0 },
        DescriptorData::U32 { id: 1, data: 0 },
        DescriptorData::U64 { id: 1, data: 0 },
        DescriptorData::Other { id: 1, data: vec![0, 1, 2] },
        DescriptorData::End,
    ]);
    check_descriptor(Endianness::Little, &descriptor.clone());
    check_descriptor(Endianness::Big, &descriptor);
}

#[test]
fn compose_sample_file() {
    // Composing one text record and the end record must be byte-exact.
    let mut composer = Composer::new(Endianness::Little);
    composer
        .write_record(&Record::Text(TextRecord::Simple("Sample File".to_string())))
        .unwrap();
    composer.write_record(&Record::End).unwrap();

    let mut expected = vec![b'G', b'A', b'R', b'M', b'I', b'N', 100, 0];
    expected.extend([0x05, 0x00, 0x0B, 0x00]);
    expected.extend(b"Sample File");
    expected.extend([0xFF, 0xFF, 0x00, 0x00]);
    assert_eq!(composer.into_bytes(), expected);
}

#[test]
fn write_record_raw_bypasses_encoding() {
    let mut composer = Composer::new(Endianness::Little);
    composer.write_record_raw(0x1234, &vec![9, 8, 7]).unwrap();
    let mut expected = signature(Endianness::Little);
    expected.extend([0x34, 0x12, 0x03, 0x00, 9, 8, 7]);
    assert_eq!(composer.into_bytes(), expected);
}

#[test]
fn checkpoint_closes_sum() {
    // After a checksum record the running sum of the whole stream is zero.
    let mut composer = Composer::new(Endianness::Big);
    composer
        .write_record(&Record::Text(TextRecord::Simple("data".to_string())))
        .unwrap();
    composer
        .write_record(&Record::Checksum(gcd_rs::record::checksum::ChecksumRecord::Simple))
        .unwrap();
    assert_eq!(composer.sum(), 0);
    let bytes = composer.into_bytes();
    assert_eq!(sum_range(&bytes, 0, bytes.len(), 0), 0);
}
