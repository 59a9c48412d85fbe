use gcd_rs::composer::Composer;
use gcd_rs::parser::Parser;
use gcd_rs::record::checksum::ChecksumRecord;
use gcd_rs::record::descriptor::descriptor_data::DescriptorData;
use gcd_rs::record::descriptor::DescriptorRecord;
use gcd_rs::record::firmware::FirmwareRecord;
use gcd_rs::record::main::MainRecord;
use gcd_rs::record::text::TextRecord;
use gcd_rs::Endianness;
use gcd_rs::GcdError;
use gcd_rs::Record;

fn sig_le() -> Vec<u8> {
    vec![b'G', b'A', b'R', b'M', b'I', b'N', 100, 0]
}

fn descriptor(fw_id: u16, fw_len: u32) -> DescriptorRecord {
    DescriptorRecord::Simple(vec![
        DescriptorData::U16 { id: 10, data: fw_id },
        DescriptorData::U32 { id: 21, data: fw_len },
    ])
}

#[test]
fn grammar_accepts_known_order() {
    // Text, MainHeader, Text, DescriptorType, DescriptorData, chunk, End.
    let desc = descriptor(0x0301, 4);
    let mut composer = Composer::new(Endianness::Little);
    composer
        .write_record(&Record::Text(TextRecord::Simple("hello".to_string())))
        .unwrap();
    composer.write_record(&Record::MainHeader(MainRecord::DefaultHWID)).unwrap();
    composer
        .write_record(&Record::Text(TextRecord::Simple("world".to_string())))
        .unwrap();
    composer.write_record(&Record::Descriptor(desc.clone())).unwrap();
    composer
        .write_record(&Record::FirmwareData(FirmwareRecord::new(vec![1, 2, 3, 4], 0x0301)))
        .unwrap();
    composer.write_record(&Record::End).unwrap();

    let mut parser = Parser::new(composer.into_bytes(), Endianness::Little).unwrap();
    assert_eq!(
        parser.read_record().unwrap(),
        Record::Text(TextRecord::Simple("hello".to_string()))
    );
    assert_eq!(parser.read_record().unwrap(), Record::MainHeader(MainRecord::DefaultHWID));
    assert_eq!(
        parser.read_record().unwrap(),
        Record::Text(TextRecord::Simple("world".to_string()))
    );
    assert_eq!(parser.read_record().unwrap(), Record::Descriptor(desc));
    assert_eq!(
        parser.read_record().unwrap(),
        Record::FirmwareData(FirmwareRecord::new(vec![1, 2, 3, 4], 0x0301))
    );
    assert_eq!(parser.read_record().unwrap(), Record::End);
    assert_eq!(parser.read_record(), Err(GcdError::ReadAfterEnd));
}

#[test]
fn grammar_rejects_data_before_type() {
    // A descriptor data record before any type record violates the grammar.
    let mut bytes = sig_le();
    bytes.extend([0x07, 0x00, 0x00, 0x00]);
    let mut parser = Parser::new(bytes, Endianness::Little).unwrap();
    assert_eq!(parser.read_record(), Err(GcdError::GrammarViolation));
}

#[test]
fn checksum_record_validates() {
    let mut composer = Composer::new(Endianness::Little);
    composer
        .write_record(&Record::Text(TextRecord::Simple("data".to_string())))
        .unwrap();
    composer.write_record(&Record::Checksum(ChecksumRecord::Simple)).unwrap();
    let bytes = composer.into_bytes();

    let mut parser = Parser::new(bytes.clone(), Endianness::Little).unwrap();
    parser.read_record().unwrap();
    assert_eq!(parser.read_record().unwrap(), Record::Checksum(ChecksumRecord::Simple));

    // Any other byte value in the checksum payload must fail validation.
    let mut corrupted = bytes;
    let last = corrupted.len() - 1;
    corrupted[last] = corrupted[last].wrapping_add(1);
    let mut parser = Parser::new(corrupted, Endianness::Little).unwrap();
    parser.read_record().unwrap();
    assert_eq!(parser.read_record(), Err(GcdError::InvalidChecksum));
}

#[test]
fn filler_of_zeros_parses() {
    // A 100-byte filler decodes only when every payload byte is zero.
    let mut bytes = sig_le();
    bytes.extend([0x02, 0x00, 100, 0x00]);
    bytes.extend(vec![0u8; 100]);
    let mut parser = Parser::new(bytes.clone(), Endianness::Little).unwrap();
    assert_eq!(
        parser.read_record().unwrap(),
        Record::Filler(gcd_rs::record::filler::FillerRecord::Zeros(100))
    );

    for position in [0usize, 57, 99] {
        let mut corrupted = bytes.clone();
        corrupted[12 + position] = 0x55;
        let mut parser = Parser::new(corrupted, Endianness::Little).unwrap();
        assert_eq!(parser.read_record(), Err(GcdError::InvalidFiller));
    }
}

fn firmware_stream(desc: DescriptorRecord, chunks: &[(u16, Vec<u8>)], end: bool) -> Vec<u8> {
    let mut composer = Composer::new(Endianness::Little);
    composer.write_record(&Record::MainHeader(MainRecord::DefaultHWID)).unwrap();
    composer.write_record(&Record::Descriptor(desc)).unwrap();
    for (id, data) in chunks {
        composer.write_record_raw(*id, data).unwrap();
    }
    if end {
        composer.write_record(&Record::End).unwrap();
    }
    composer.into_bytes()
}

fn skip_main_and_descriptor(parser: &mut Parser) {
    parser.read_record().unwrap();
    parser.read_record().unwrap();
}

#[test]
fn firmware_chunks_close_cleanly() {
    // Chunks summing to the declared length close the block at the end.
    let bytes = firmware_stream(
        descriptor(0x0301, 6),
        &[(0x0301, vec![1, 2, 3, 4]), (0x0301, vec![5, 6])],
        true,
    );
    let mut parser = Parser::new(bytes, Endianness::Little).unwrap();
    skip_main_and_descriptor(&mut parser);
    assert_eq!(
        parser.read_record().unwrap(),
        Record::FirmwareData(FirmwareRecord::new(vec![1, 2, 3, 4], 0x0301))
    );
    assert_eq!(
        parser.read_record().unwrap(),
        Record::FirmwareData(FirmwareRecord::new(vec![5, 6], 0x0301))
    );
    assert_eq!(parser.read_record().unwrap(), Record::End);
}

#[test]
fn firmware_shortfall_fails_at_close() {
    let bytes = firmware_stream(descriptor(0x0301, 6), &[(0x0301, vec![1, 2, 3, 4])], true);
    let mut parser = Parser::new(bytes, Endianness::Little).unwrap();
    skip_main_and_descriptor(&mut parser);
    parser.read_record().unwrap();
    assert_eq!(parser.read_record(), Err(GcdError::FirmwareTruncated));
}

#[test]
fn firmware_oversized_chunk_fails_immediately() {
    let bytes = firmware_stream(descriptor(0x0301, 3), &[(0x0301, vec![1, 2, 3, 4])], true);
    let mut parser = Parser::new(bytes, Endianness::Little).unwrap();
    skip_main_and_descriptor(&mut parser);
    assert_eq!(parser.read_record(), Err(GcdError::FirmwareChunkTooBig));
}

#[test]
fn firmware_chunk_id_must_match() {
    let bytes = firmware_stream(descriptor(0x0301, 4), &[(0x0302, vec![1, 2, 3, 4])], true);
    let mut parser = Parser::new(bytes, Endianness::Little).unwrap();
    skip_main_and_descriptor(&mut parser);
    assert_eq!(parser.read_record(), Err(GcdError::FirmwareIdMismatch));
}

#[test]
fn descriptor_must_declare_id_and_length() {
    let only_len = DescriptorRecord::Simple(vec![DescriptorData::U32 { id: 21, data: 4 }]);
    let mut parser =
        Parser::new(firmware_stream(only_len, &[], false), Endianness::Little).unwrap();
    parser.read_record().unwrap();
    assert_eq!(parser.read_record(), Err(GcdError::FirmwareIdMissing));

    let only_id = DescriptorRecord::Simple(vec![DescriptorData::U16 { id: 10, data: 7 }]);
    let mut parser =
        Parser::new(firmware_stream(only_id, &[], false), Endianness::Little).unwrap();
    parser.read_record().unwrap();
    assert_eq!(parser.read_record(), Err(GcdError::FirmwareLenMissing));
}

#[test]
fn font_chunks_are_unobfuscated() {
    // Chunks for the font resource id come out XORed with 0x76.
    let bytes = firmware_stream(descriptor(0x05A5, 3), &[(0x05A5, vec![0x10, 0x20, 0x30])], true);
    let mut parser = Parser::new(bytes, Endianness::Little).unwrap();
    skip_main_and_descriptor(&mut parser);
    assert_eq!(
        parser.read_record().unwrap(),
        Record::FirmwareData(FirmwareRecord::new(vec![0x66, 0x56, 0x46], 0x05A5))
    );
}

#[test]
fn font_chunks_apply_key_then_constant() {
    // With an XOR key declared too, both passes apply: (byte ^ key) ^ 0x76.
    let desc = DescriptorRecord::Simple(vec![
        DescriptorData::U16 { id: 10, data: 0x05A5 },
        DescriptorData::U32 { id: 21, data: 3 },
        DescriptorData::U8 { id: 10, data: 0x0F },
    ]);
    let wire = vec![0x10u8, 0x20, 0x30];
    let expected: Vec<u8> = wire.iter().map(|b| (b ^ 0x0F) ^ 0x76).collect();
    let bytes = firmware_stream(desc, &[(0x05A5, wire)], true);
    let mut parser = Parser::new(bytes, Endianness::Little).unwrap();
    skip_main_and_descriptor(&mut parser);
    assert_eq!(
        parser.read_record().unwrap(),
        Record::FirmwareData(FirmwareRecord::new(expected, 0x05A5))
    );
}

#[test]
fn keyed_chunks_without_font_id() {
    // A plain firmware id with a key applies only the key.
    let desc = DescriptorRecord::Simple(vec![
        DescriptorData::U16 { id: 10, data: 0x0301 },
        DescriptorData::U32 { id: 21, data: 2 },
        DescriptorData::U8 { id: 10, data: 0xFF },
    ]);
    let bytes = firmware_stream(desc, &[(0x0301, vec![0x00, 0x0F])], true);
    let mut parser = Parser::new(bytes, Endianness::Little).unwrap();
    skip_main_and_descriptor(&mut parser);
    assert_eq!(
        parser.read_record().unwrap(),
        Record::FirmwareData(FirmwareRecord::new(vec![0xFF, 0xF0], 0x0301))
    );
}

#[test]
fn bad_signature_is_rejected() {
    let mut bytes = sig_le();
    bytes[3] = b'X';
    assert!(matches!(Parser::new(bytes, Endianness::Little), Err(GcdError::InvalidSignature)));
}

#[test]
fn bad_version_is_rejected() {
    let mut bytes = sig_le();
    bytes[6] = 99;
    assert!(matches!(Parser::new(bytes, Endianness::Little), Err(GcdError::InvalidVersion)));
}

#[test]
fn short_stream_is_rejected() {
    let bytes = vec![b'G', b'A', b'R'];
    assert!(matches!(Parser::new(bytes, Endianness::Little), Err(GcdError::UnexpectedEof)));
    let mut parser = Parser::new(sig_le(), Endianness::Little).unwrap();
    assert_eq!(parser.read_record(), Err(GcdError::UnexpectedEof));
}

#[test]
fn big_endian_streams_parse() {
    let mut composer = Composer::new(Endianness::Big);
    composer.write_record(&Record::MainHeader(MainRecord::DefaultPartNumber)).unwrap();
    composer.write_record(&Record::Descriptor(descriptor(0x0042, 0))).unwrap();
    composer.write_record(&Record::End).unwrap();
    let mut parser = Parser::new(composer.into_bytes(), Endianness::Big).unwrap();
    assert_eq!(parser.read_record().unwrap(), Record::MainHeader(MainRecord::DefaultPartNumber));
    assert_eq!(parser.read_record().unwrap(), Record::Descriptor(descriptor(0x0042, 0)));
    assert_eq!(parser.read_record().unwrap(), Record::End);
}

#[test]
fn empty_firmware_chunk() {
    // A declared length of zero is satisfied by an explicit empty chunk.
    let bytes = firmware_stream(descriptor(0x0301, 0), &[(0x0301, vec![])], true);
    let mut parser = Parser::new(bytes, Endianness::Little).unwrap();
    skip_main_and_descriptor(&mut parser);
    assert_eq!(
        parser.read_record().unwrap(),
        Record::FirmwareData(FirmwareRecord::EmptyChunk { id: 0x0301 })
    );
    assert_eq!(parser.read_record().unwrap(), Record::End);
}

#[test]
fn trailing_bytes_stay_unread() {
    // The reader refuses reads after the end record; whether trailing bytes
    // are an error is the caller's decision, via the remaining count.
    let mut bytes = firmware_stream(descriptor(0x0301, 0), &[], true);
    bytes.extend([1, 2, 3]);
    let mut parser = Parser::new(bytes, Endianness::Little).unwrap();
    skip_main_and_descriptor(&mut parser);
    assert_eq!(parser.read_record().unwrap(), Record::End);
    assert_eq!(parser.remaining(), 3);
    assert_eq!(parser.read_record(), Err(GcdError::ReadAfterEnd));
}

#[test]
fn running_sum_is_exposed() {
    let parser = Parser::new(sig_le(), Endianness::Little).unwrap();
    // The signature bytes sum to 546, which is 34 modulo 256.
    assert_eq!(parser.sum(), 34);
}
