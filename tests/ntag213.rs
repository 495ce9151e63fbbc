use tools_core::error::{NfcError, TransportFault};
use tools_core::ntag213::{
    scan, set_uid_mirror, validate, with_card, write_url, CardSession, SessionAction,
    CFG0_PAGE_ADDR, GET_VERSION_RESPONSE,
};
use tools_core::paging::{read, PageReader, PageWriter};
use tools_core::uri::{strip_uri_prefix, url_to_msgtlv_payload, url_to_write_bytes};

const MEMORY_LEN: usize = 180;

/// An NTAG213 held in memory. Like the real tag, it drops the link right after
/// acknowledging a write.
struct SimulatedTag {
    memory: [u8; MEMORY_LEN],
    exchanges: usize,
}

impl SimulatedTag {
    fn new() -> Self {
        SimulatedTag { memory: [0u8; MEMORY_LEN], exchanges: 0 }
    }

    fn transceive(&mut self, tx: &[u8]) -> Result<Vec<u8>, TransportFault> {
        self.exchanges += 1;
        match tx[0] {
            0x30 => {
                let base = 4 * tx[1] as usize;
                Ok((0..16).map(|i| self.memory[(base + i) % MEMORY_LEN]).collect())
            }
            0xA2 => {
                let base = 4 * tx[1] as usize;
                self.memory[base..base + 4].copy_from_slice(&tx[2..6]);
                Err(TransportFault::RfTransmissionError)
            }
            0x60 => Ok(GET_VERSION_RESPONSE.to_vec()),
            _ => Err(TransportFault::InvalidArgument),
        }
    }
}

fn run_read(mut reader: PageReader, tag: &mut SimulatedTag) -> Result<Vec<u8>, NfcError> {
    while let Some(tx) = reader.next_command() {
        let response = tag.transceive(&tx);
        reader.accept(response)?;
    }
    Ok(reader.finish())
}

fn run_write(mut writer: PageWriter, tag: &mut SimulatedTag) -> Result<(), NfcError> {
    while let Some(tx) = writer.next_command() {
        let outcome = tag.transceive(&tx);
        writer.accept(outcome)?;
    }
    Ok(())
}

fn read_from(tag: &mut SimulatedTag, page: usize, len: usize) -> Result<Vec<u8>, NfcError> {
    let reader = read(page, len)?;
    run_read(reader, tag)
}

fn write_to(tag: &mut SimulatedTag, data: &[u8], page: usize) -> Result<(), NfcError> {
    let writer = tools_core::paging::write(data, page)?;
    run_write(writer, tag)
}

fn configure_mirror(tag: &mut SimulatedTag, page: usize, offset: usize) -> Result<(), NfcError> {
    let mirror = set_uid_mirror(page, offset)?;
    let cfg = run_read(mirror.read_config(), tag)?;
    run_write(mirror.write_config(&cfg), tag)
}

#[test]
fn ntag213_test() {
    let mut tag = SimulatedTag::new();
    let uid = [0x04u8, 0x11, 0x22, 0x33, 0x44, 0x55, 0x66, 0, 0, 0];
    let version = tag.transceive(&[0x60]);
    let scanned = scan(&uid, version).unwrap();
    println!("Scanned NTAG213 card with UID: {:?}", scanned);

    let url = "https://example.com?uid=11223344556677";
    run_write(write_url(url).unwrap(), &mut tag).unwrap();
    let mirror_page = 0x04_usize + 7;
    let byte_offset = 0_usize;
    configure_mirror(&mut tag, mirror_page, byte_offset).unwrap();
    let read_rs = read_from(&mut tag, 4, 64).unwrap();
    println!("Read data: {:?}", read_rs);
    assert_eq!(read_rs.len(), 64);
    let expected = url_to_write_bytes(url);
    assert_eq!(&read_rs[..expected.len()], &expected[..]);
}

#[test]
fn read_returns_exactly_the_requested_bytes() {
    let mut tag = SimulatedTag::new();
    for (i, b) in tag.memory.iter_mut().enumerate() {
        *b = i as u8;
    }
    let all = read_from(&mut tag, 0, 180).unwrap();
    assert_eq!(all.len(), 180);
    assert_eq!(all[179], 179);
    let tail = read_from(&mut tag, 0x2B, 5).unwrap();
    assert_eq!(tail, vec![172, 173, 174, 175, 176]);
    let one = read_from(&mut tag, 3, 1).unwrap();
    assert_eq!(one, vec![12]);
    let seventeen = read_from(&mut tag, 1, 17).unwrap();
    assert_eq!(seventeen, (4u8..21).collect::<Vec<u8>>());
}

#[test]
fn read_of_nothing_sends_nothing() {
    let mut tag = SimulatedTag::new();
    let r = read_from(&mut tag, 0x40, 0).unwrap();
    assert!(r.is_empty());
    assert_eq!(tag.exchanges, 0);
}

#[test]
fn out_of_range_access_is_rejected_before_any_exchange() {
    let mut tag = SimulatedTag::new();
    assert_eq!(read_from(&mut tag, 0x2C, 5).unwrap_err(), NfcError::InvalidArgument);
    assert_eq!(read_from(&mut tag, 0x2D, 1).unwrap_err(), NfcError::InvalidArgument);
    assert_eq!(read_from(&mut tag, 0, 181).unwrap_err(), NfcError::InvalidArgument);
    assert_eq!(read_from(&mut tag, usize::MAX, 1).unwrap_err(), NfcError::InvalidArgument);
    assert_eq!(write_to(&mut tag, &[1], 1).unwrap_err(), NfcError::InvalidArgument);
    assert_eq!(write_to(&mut tag, &[1, 2, 3, 4, 5], 0x2C).unwrap_err(), NfcError::InvalidArgument);
    assert_eq!(write_to(&mut tag, &[1], 0x2D).unwrap_err(), NfcError::InvalidArgument);
    assert_eq!(tag.exchanges, 0);
    assert!(write_to(&mut tag, &[1, 2, 3, 4], 0x2C).is_ok());
    assert!(write_to(&mut tag, &[], 0).is_ok());
}

#[test]
fn write_then_read_round_trip() {
    let mut tag = SimulatedTag::new();
    tag.memory = [0xEE; MEMORY_LEN];
    let data = [1u8, 2, 3, 4, 5, 6, 7];
    write_to(&mut tag, &data, 5).unwrap();
    assert_eq!(tag.exchanges, 2);
    assert_eq!(read_from(&mut tag, 5, data.len()).unwrap(), data.to_vec());
    assert_eq!(&tag.memory[20..28], &[1, 2, 3, 4, 5, 6, 7, 0]);
    assert_eq!(tag.memory[28], 0xEE);
}

#[test]
fn write_pads_the_last_page_with_zeros() {
    let mut writer = tools_core::paging::write(&[9, 8, 7, 6, 5], 2).unwrap();
    assert_eq!(writer.next_command().unwrap(), vec![0xA2, 2, 9, 8, 7, 6]);
    writer.accept(Ok(vec![])).unwrap();
    assert_eq!(writer.next_command().unwrap(), vec![0xA2, 3, 5, 0, 0, 0]);
    writer.accept(Err(TransportFault::Timeout)).unwrap();
    assert_eq!(writer.next_command(), None);
}

#[test]
fn write_fault_other_than_the_ack_quirk_is_fatal() {
    let mut writer = tools_core::paging::write(&[1, 2, 3, 4, 5, 6, 7, 8], 4).unwrap();
    assert_eq!(
        writer.accept(Err(TransportFault::Io)),
        Err(NfcError::CommunicationFault(TransportFault::Io))
    );
    assert_eq!(writer.next_command().unwrap(), vec![0xA2, 4, 1, 2, 3, 4]);
    assert!(writer.accept(Err(TransportFault::RfTransmissionError)).is_ok());
    assert_eq!(writer.next_command().unwrap(), vec![0xA2, 5, 5, 6, 7, 8]);
}

#[test]
fn read_rejects_a_short_response() {
    let mut reader = read(0, 8).unwrap();
    assert_eq!(reader.next_command().unwrap(), vec![0x30, 0]);
    assert_eq!(reader.accept(Ok(vec![0u8; 15])), Err(NfcError::UnexpectedResponse));
    assert_eq!(
        reader.accept(Err(TransportFault::Timeout)),
        Err(NfcError::CommunicationFault(TransportFault::Timeout))
    );
}

#[test]
fn read_sends_one_command_per_four_pages() {
    let mut reader = read(2, 20).unwrap();
    assert_eq!(reader.next_command().unwrap(), vec![0x30, 2]);
    reader.accept(Ok((0u8..16).collect())).unwrap();
    assert_eq!(reader.next_command().unwrap(), vec![0x30, 6]);
    reader.accept(Ok((100u8..116).collect())).unwrap();
    assert_eq!(reader.next_command(), None);
    let r = reader.finish();
    let mut expected: Vec<u8> = (0u8..16).collect();
    expected.extend(100u8..104);
    assert_eq!(r, expected);
}

#[test]
fn uri_prefixes_are_abbreviated() {
    let mut https_www = vec![0x02u8];
    https_www.extend_from_slice(b"example.com");
    assert_eq!(url_to_msgtlv_payload("https://www.example.com"), https_www);
    let mut http = vec![0x03u8];
    http.extend_from_slice(b"example.com");
    assert_eq!(url_to_msgtlv_payload("http://example.com"), http);
    let mut tel = vec![0x05u8];
    tel.extend_from_slice(b"12345");
    assert_eq!(url_to_msgtlv_payload("tel:12345"), tel);
    let mut plain = vec![0x00u8];
    plain.extend_from_slice(b"plainstring");
    assert_eq!(url_to_msgtlv_payload("plainstring"), plain);
}

#[test]
fn strip_uri_prefix_covers_the_whole_table() {
    assert_eq!(strip_uri_prefix("http://www.a.b"), (0x01, "a.b"));
    assert_eq!(strip_uri_prefix("https://www.a.b"), (0x02, "a.b"));
    assert_eq!(strip_uri_prefix("http://a.b"), (0x03, "a.b"));
    assert_eq!(strip_uri_prefix("https://a.b"), (0x04, "a.b"));
    assert_eq!(strip_uri_prefix("tel:+4912"), (0x05, "+4912"));
    assert_eq!(strip_uri_prefix("mailto:a@b.c"), (0x06, "a@b.c"));
    assert_eq!(strip_uri_prefix("ftp://x"), (0x00, "ftp://x"));
    assert_eq!(strip_uri_prefix(""), (0x00, ""));
    assert_eq!(strip_uri_prefix("tel:é"), (0x05, "é"));
    assert_eq!(strip_uri_prefix("https:/"), (0x00, "https:/"));
}

#[test]
fn url_message_has_the_ndef_envelope() {
    let bytes = url_to_write_bytes("https://ab.c");
    assert_eq!(
        bytes,
        vec![0x01, 0x03, 0xA0, 0x0C, 0x34, 0x03, 9, 0xD1, 0x01, 5, 0x55, 0x04, b'a', b'b', b'.', b'c', 0xFE]
    );
    assert_eq!(url_to_write_bytes("").len(), 13);
}

#[test]
fn write_url_rejects_a_message_that_does_not_fit() {
    let long = "a".repeat(152);
    assert_eq!(write_url(&long).err(), Some(NfcError::InvalidArgument));
    let fits = "a".repeat(151);
    assert!(write_url(&fits).is_ok());
    let huge = "b".repeat(1000);
    assert_eq!(write_url(&huge).err(), Some(NfcError::InvalidArgument));
}

#[test]
fn mirror_at_the_last_page_allows_only_low_offsets() {
    assert_eq!(set_uid_mirror(0x27 - 3, 2).err(), Some(NfcError::InvalidArgument));
    assert!(set_uid_mirror(0x27 - 3, 1).is_ok());
    assert_eq!(set_uid_mirror(0x03, 0).err(), Some(NfcError::InvalidArgument));
    assert_eq!(set_uid_mirror(0x25, 0).err(), Some(NfcError::InvalidArgument));
    assert_eq!(set_uid_mirror(0x10, 4).err(), Some(NfcError::InvalidArgument));
}

#[test]
fn mirror_configuration_sets_page_and_enable_bits() {
    let mut tag = SimulatedTag::new();
    let cfg = 4 * CFG0_PAGE_ADDR;
    tag.memory[cfg..cfg + 4].copy_from_slice(&[0x0B, 0x77, 0xFF, 0x66]);
    configure_mirror(&mut tag, 0x04, 0).unwrap();
    assert_eq!(tag.memory[cfg + 2], 0x04);
    assert_eq!(tag.memory[cfg] >> 6, 0b01);
    assert_eq!(&tag.memory[cfg..cfg + 4], &[0x4B, 0x77, 0x04, 0x66]);
    configure_mirror(&mut tag, 0x10, 3).unwrap();
    assert_eq!(&tag.memory[cfg..cfg + 4], &[0x7B, 0x77, 0x10, 0x66]);
}

#[test]
fn scan_validates_and_reports_the_uid_in_hex() {
    let uid = [0x04u8, 0xA1, 0xB2, 0xC3, 0xD4, 0xE5, 0xF6, 0x99, 0x98, 0x97];
    let ok = scan(&uid, Ok(GET_VERSION_RESPONSE.to_vec())).unwrap();
    assert_eq!(ok, "04a1b2c3d4e5f6");
    let wrong = scan(&uid, Ok(vec![0x00, 0x04, 0x04, 0x02, 0x01, 0x00, 0x11, 0x03]));
    assert_eq!(wrong, Err(NfcError::InvalidTarget));
    assert_eq!(validate(Ok(vec![])), Err(NfcError::InvalidTarget));
    assert_eq!(
        scan(&uid, Err(TransportFault::Timeout)),
        Err(NfcError::CommunicationFault(TransportFault::Timeout))
    );
}

#[test]
fn session_deselects_and_keeps_the_operation_error() {
    let session: CardSession<u32> = with_card();
    assert_eq!(session.next_action(), SessionAction::Scan);
    let session = session.on_scan(Ok("04a1b2c3d4e5f6".to_string()));
    assert_eq!(session.next_action(), SessionAction::Operate);
    let session = session.on_operation(Err(NfcError::UnexpectedResponse));
    assert_eq!(session.next_action(), SessionAction::Deselect);
    let session = session.on_deselect(Err(TransportFault::Io));
    assert_eq!(session.next_action(), SessionAction::Finish);
    assert_eq!(session.finish(), Err(NfcError::UnexpectedResponse));
}

#[test]
fn session_without_a_card_skips_deselection() {
    let session: CardSession<u32> = with_card();
    let session = session.on_scan(Err(NfcError::InvalidTarget));
    assert_eq!(session.next_action(), SessionAction::Finish);
    assert_eq!(session.finish(), Err(NfcError::InvalidTarget));
}

#[test]
fn session_returns_the_operation_value() {
    let session: CardSession<u32> = with_card();
    let session = session.on_scan(Ok(String::new()));
    let session = session.on_operation(Ok(7));
    let session = session.on_deselect(Ok(()));
    assert_eq!(session.finish(), Ok(7));
}
