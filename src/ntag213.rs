use vstd::prelude::*;
use vstd::string::StringSliceAdditionalSpecFns;
use crate::error::{NfcError, TransportFault};
use crate::paging::{CMD_GET_VERSION, PageReader, PageWriter, read, write_range_ok};
use crate::uri::{MAX_URI_PAYLOAD_LEN, ndef_message, uri_payload, url_to_write_bytes, lemma_payload_len};

verus! {

/// Length of the tag's unique identifier.
pub const UID_LEN: usize = 7;

/// First page of user memory, where messages are written.
pub const USER_DATA_PAGE_ADDR: usize = 0x04;

/// Configuration page holding the mirror settings.
pub const CFG0_PAGE_ADDR: usize = 0x29;

/// Range of pages that the identifier may be mirrored into: from the start of user
/// memory to three pages before the last user page, 0x27.
pub const MIRROR_PAGE_MIN: usize = 0x04;
pub const MIRROR_PAGE_MAX: usize = 0x27 - 3;

/// Highest byte offset within a page, and the highest one allowed on the last page.
pub const MIRROR_BYTE_MAX: usize = 0x03;
pub const MIRROR_BYTE_MAX_ON_LAST_PAGE: usize = 0x01;

/// Configuration bits 6-7 that enable mirroring of the identifier.
pub const MIRROR_CONF_UID: u8 = 0x40;

/// The answer of an NTAG213 to the version command.
pub const GET_VERSION_RESPONSE: [u8; 8] = [0x00, 0x04, 0x04, 0x02, 0x01, 0x00, 0x0F, 0x03];

/// The bytes written for a URL, if they fit in user memory.
pub open spec fn url_fits(url: Seq<u8>) -> bool {
    write_range_ok(USER_DATA_PAGE_ADDR as int, (uri_payload(url).len() + 12) as int)
}

/// Starts writing the message for `url` at the start of user memory. Fails with
/// `InvalidArgument` when the message does not fit.
pub fn write_url(url: &str) -> (r: Result<PageWriter, NfcError>)
    ensures
        url_fits(url.spec_bytes()) <==> r is Ok,
        !url_fits(url.spec_bytes()) ==> r == Err::<PageWriter, NfcError>(NfcError::InvalidArgument),
        r matches Ok(w) ==> {
            &&& w.wf()
            &&& w.start() == USER_DATA_PAGE_ADDR
            &&& w.data() == ndef_message(url.spec_bytes())
            &&& w.written() == 0
        },
{
    proof {
        lemma_payload_len(url.spec_bytes());
    }
    // A URL this long makes a message far larger than user memory, with a payload
    // length that the record's length byte could not hold.
    if url.as_bytes().len() >= MAX_URI_PAYLOAD_LEN - 1 {
        return Err(NfcError::InvalidArgument);
    }
    let data = url_to_write_bytes(url);
    crate::paging::write(data.as_slice(), USER_DATA_PAGE_ADDR)
}

/// Whether `(page_addr, byte_offset)` places the 7-byte mirrored identifier inside
/// the writable pages.
pub open spec fn mirror_args_ok(page_addr: int, byte_offset: int) -> bool {
    &&& MIRROR_PAGE_MIN <= page_addr <= MIRROR_PAGE_MAX
    &&& 0 <= byte_offset <= MIRROR_BYTE_MAX
    &&& page_addr == MIRROR_PAGE_MAX ==> byte_offset <= MIRROR_BYTE_MAX_ON_LAST_PAGE
}

/// The first configuration byte with mirroring of the identifier enabled at
/// `byte_offset`: bits 0-3 kept, bits 4-5 the offset, bits 6-7 `01`.
pub open spec fn mirror_conf_byte(b: u8, byte_offset: u8) -> u8 {
    ((b & 0x0F) | MIRROR_CONF_UID | (byte_offset << 4u8)) as u8
}

/// The configuration page with mirroring set up at `(page_addr, byte_offset)`.
pub open spec fn mirror_config(cfg: Seq<u8>, page_addr: u8, byte_offset: u8) -> Seq<u8> {
    cfg.update(0, mirror_conf_byte(cfg[0], byte_offset)).update(2, page_addr)
}

/// What the mirror byte holds, bit by bit.
pub proof fn lemma_mirror_conf_byte(b: u8, byte_offset: u8)
    requires
        byte_offset <= 3,
    ensures
        mirror_conf_byte(b, byte_offset) & 0x0F == b & 0x0F,
        (mirror_conf_byte(b, byte_offset) >> 4u8) & 0x03 == byte_offset,
        mirror_conf_byte(b, byte_offset) >> 6u8 == 1,
{
    assert(((b & 0x0F) | 0x40u8 | (byte_offset << 4u8)) & 0x0F == b & 0x0F) by (bit_vector)
        requires
            byte_offset <= 3,
    ;
    assert((((b & 0x0F) | 0x40u8 | (byte_offset << 4u8)) >> 4u8) & 0x03 == byte_offset)
        by (bit_vector)
        requires
            byte_offset <= 3,
    ;
    assert(((b & 0x0F) | 0x40u8 | (byte_offset << 4u8)) >> 6u8 == 1) by (bit_vector)
        requires
            byte_offset <= 3,
    ;
}

/// A checked request to mirror the tag's identifier into its memory.
pub struct UidMirror {
    page_addr: u8,
    byte_offset: u8,
}

impl UidMirror {
    pub closed spec fn page_addr(&self) -> u8 {
        self.page_addr
    }

    pub closed spec fn byte_offset(&self) -> u8 {
        self.byte_offset
    }

    /// The read of the current configuration page, the first step of the update.
    pub fn read_config(&self) -> (r: PageReader)
        ensures
            r.wf(),
            r.start() == CFG0_PAGE_ADDR,
            r.byte_len() == 4,
            r.next_page() == CFG0_PAGE_ADDR,
            r.end() == CFG0_PAGE_ADDR,
            r.data().len() == 0,
    {
        match read(CFG0_PAGE_ADDR, 4) {
            Ok(r) => r,
            Err(_) => unreached(),
        }
    }

    /// The write of the updated configuration page, given its current contents.
    pub fn write_config(&self, cfg: &[u8]) -> (r: PageWriter)
        requires
            cfg@.len() == 4,
        ensures
            r.wf(),
            r.start() == CFG0_PAGE_ADDR,
            r.data() == mirror_config(cfg@, self.page_addr(), self.byte_offset()),
            r.written() == 0,
    {
        let mut page: Vec<u8> = Vec::new();
        page.push(((cfg[0] & 0x0F) | MIRROR_CONF_UID | (self.byte_offset << 4u8)) as u8);
        page.push(cfg[1]);
        page.push(self.page_addr);
        page.push(cfg[3]);
        assert(page@ =~= mirror_config(cfg@, self.page_addr, self.byte_offset));
        match crate::paging::write(page.as_slice(), CFG0_PAGE_ADDR) {
            Ok(w) => w,
            Err(_) => unreached(),
        }
    }
}

/// Checks a request to mirror the identifier at `(page_addr, byte_offset)`. Fails
/// with `InvalidArgument`, before any exchange, unless the identifier fits.
pub fn set_uid_mirror(page_addr: usize, byte_offset: usize) -> (r: Result<UidMirror, NfcError>)
    ensures
        mirror_args_ok(page_addr as int, byte_offset as int) <==> r is Ok,
        !mirror_args_ok(page_addr as int, byte_offset as int) ==> r == Err::<UidMirror, NfcError>(
            NfcError::InvalidArgument,
        ),
        r matches Ok(m) ==> m.page_addr() == page_addr && m.byte_offset() == byte_offset,
{
    if page_addr < MIRROR_PAGE_MIN || page_addr > MIRROR_PAGE_MAX {
        return Err(NfcError::InvalidArgument);
    }
    if byte_offset > MIRROR_BYTE_MAX || (page_addr == MIRROR_PAGE_MAX && byte_offset
        > MIRROR_BYTE_MAX_ON_LAST_PAGE) {
        return Err(NfcError::InvalidArgument);
    }
    Ok(UidMirror { page_addr: page_addr as u8, byte_offset: byte_offset as u8 })
}

/// The lowercase hexadecimal digit for a value below 16.
pub open spec fn hex_digit(n: u8) -> char {
    seq!['0', '1', '2', '3', '4', '5', '6', '7', '8', '9', 'a', 'b', 'c', 'd', 'e', 'f'][n as int]
}

/// Lowercase hexadecimal text of a byte string, two digits per byte, high nibble first.
pub open spec fn hex_of(b: Seq<u8>) -> Seq<char> {
    Seq::new(
        2 * b.len(),
        |i: int|
            if i % 2 == 0 {
                hex_digit(b[i / 2] >> 4u8)
            } else {
                hex_digit(b[i / 2] & 0x0Fu8)
            },
    )
}

/// Relies on hex::encode: two lowercase hex digits for each byte, high nibble first.
#[verifier::external_body]
fn encode_hex(b: &[u8]) -> (r: String)
    ensures
        r@ == hex_of(b@),
{
    hex::encode(b)
}

/// The version command.
pub fn get_version_command() -> (r: Vec<u8>)
    ensures
        r@ == seq![CMD_GET_VERSION],
{
    let r = vec![CMD_GET_VERSION];
    assert(r@ =~= seq![CMD_GET_VERSION]);
    r
}

/// Checks the answer to the version command: the target is an NTAG213 exactly
/// when it answers with the known eight bytes.
pub fn validate(version: Result<Vec<u8>, TransportFault>) -> (r: Result<(), NfcError>)
    ensures
        version matches Err(f) ==> r == Err::<(), NfcError>(NfcError::CommunicationFault(f)),
        version matches Ok(v) ==> {
            &&& v@ == GET_VERSION_RESPONSE@ ==> r is Ok
            &&& v@ != GET_VERSION_RESPONSE@ ==> r == Err::<(), NfcError>(NfcError::InvalidTarget)
        },
{
    match version {
        Err(f) => Err(NfcError::CommunicationFault(f)),
        Ok(v) => {
            if v.len() != GET_VERSION_RESPONSE.len() {
                return Err(NfcError::InvalidTarget);
            }
            let mut i: usize = 0;
            while i < GET_VERSION_RESPONSE.len()
                invariant
                    version matches Ok(w) && w@ == v@,
                    v@.len() == 8,
                    i <= 8,
                    forall|j: int| 0 <= j < i ==> v@[j] == GET_VERSION_RESPONSE@[j],
                decreases 8 - i,
            {
                if v[i] != GET_VERSION_RESPONSE[i] {
                    return Err(NfcError::InvalidTarget);
                }
                i = i + 1;
            }
            assert(v@ =~= GET_VERSION_RESPONSE@);
            Ok(())
        },
    }
}

/// The result of scanning a selected target, given the identifier it was selected
/// with and its answer to the version command: the identifier's first seven bytes
/// as hexadecimal text, once the target has been validated.
pub fn scan(uid: &[u8], version: Result<Vec<u8>, TransportFault>) -> (r: Result<String, NfcError>)
    requires
        uid@.len() >= UID_LEN,
    ensures
        version matches Err(f) ==> r == Err::<String, NfcError>(NfcError::CommunicationFault(f)),
        version matches Ok(v) ==> {
            &&& v@ == GET_VERSION_RESPONSE@ ==> (r matches Ok(s) && s@ == hex_of(
                uid@.subrange(0, UID_LEN as int),
            ))
            &&& v@ != GET_VERSION_RESPONSE@ ==> r == Err::<String, NfcError>(NfcError::InvalidTarget)
        },
{
    let (id, _) = uid.split_at(UID_LEN);
    let text = encode_hex(id);
    match validate(version) {
        Ok(()) => Ok(text),
        Err(e) => Err(e),
    }
}

/// What a card session asks its driver to do next.
#[derive(Debug, Clone, Copy, PartialEq, Eq, Structural)]
pub enum SessionAction {
    /// Select and validate a target, then report the scan's result.
    Scan,
    /// Run the caller's operation on the selected target and report its result.
    Operate,
    /// Deselect the target and report the outcome.
    Deselect,
    /// The session is over: take its result.
    Finish,
}

/// A unit of work on one card: scan, the caller's operation, then deselection,
/// which is never skipped once a card was selected.
pub enum CardSession<R> {
    Scanning,
    Operating,
    Closing(Result<R, NfcError>),
    Closed(Result<R, NfcError>),
}

pub open spec fn session_action<R>(s: CardSession<R>) -> SessionAction {
    match s {
        CardSession::Scanning => SessionAction::Scan,
        CardSession::Operating => SessionAction::Operate,
        CardSession::Closing(_) => SessionAction::Deselect,
        CardSession::Closed(_) => SessionAction::Finish,
    }
}

/// The session after its operation returned `outcome`.
pub open spec fn after_operation<R>(
    s: CardSession<R>,
    outcome: Result<R, NfcError>,
) -> CardSession<R> {
    match s {
        CardSession::Operating => CardSession::Closing(outcome),
        _ => s,
    }
}

/// The session after deselection returned `outcome`: the operation's result stands.
pub open spec fn after_deselect<R>(
    s: CardSession<R>,
    outcome: Result<(), TransportFault>,
) -> CardSession<R> {
    match s {
        CardSession::Closing(result) => CardSession::Closed(result),
        _ => s,
    }
}

/// Starts a card session.
pub fn with_card<R>() -> (r: CardSession<R>)
    ensures
        r == CardSession::<R>::Scanning,
{
    CardSession::Scanning
}

impl<R> CardSession<R> {
    pub fn next_action(&self) -> (r: SessionAction)
        ensures
            r == session_action(*self),
    {
        match self {
            CardSession::Scanning => SessionAction::Scan,
            CardSession::Operating => SessionAction::Operate,
            CardSession::Closing(_) => SessionAction::Deselect,
            CardSession::Closed(_) => SessionAction::Finish,
        }
    }

    /// Takes the scan's result. A failed scan ends the session with its error and
    /// without deselection, since nothing was selected.
    pub fn on_scan(self, scanned: Result<String, NfcError>) -> (r: Self)
        requires
            self is Scanning,
        ensures
            scanned is Ok ==> r is Operating,
            scanned matches Err(e) ==> r == CardSession::<R>::Closed(Err(e)),
    {
        match scanned {
            Ok(_) => CardSession::Operating,
            Err(e) => CardSession::Closed(Err(e)),
        }
    }

    /// Takes the operation's result; deselection comes next in every case.
    pub fn on_operation(self, outcome: Result<R, NfcError>) -> (r: Self)
        requires
            self is Operating,
        ensures
            r == after_operation(self, outcome),
            r == CardSession::<R>::Closing(outcome),
    {
        CardSession::Closing(outcome)
    }

    /// Takes the outcome of deselection, which never replaces the operation's result.
    pub fn on_deselect(self, outcome: Result<(), TransportFault>) -> (r: Self)
        requires
            self is Closing,
        ensures
            r == after_deselect(self, outcome),
            r == CardSession::<R>::Closed(self->Closing_0),
    {
        match self {
            CardSession::Closing(result) => CardSession::Closed(result),
            _ => unreached(),
        }
    }

    /// The session's result.
    pub fn finish(self) -> (r: Result<R, NfcError>)
        requires
            self is Closed,
        ensures
            r == self->Closed_0,
    {
        match self {
            CardSession::Closed(result) => result,
            _ => unreached(),
        }
    }
}

/// Once a card has been selected, a failed operation is still followed by
/// deselection, and the session ends with the operation's own error whatever the
/// deselection returned.
pub proof fn lemma_session_keeps_operation_error<R>(e: NfcError, deselect: Result<(), TransportFault>)
    ensures
        session_action(after_operation(CardSession::<R>::Operating, Err(e))) == SessionAction::Deselect,
        after_deselect(after_operation(CardSession::<R>::Operating, Err(e)), deselect)
            == CardSession::<R>::Closed(Err(e)),
{
}

} // verus!
