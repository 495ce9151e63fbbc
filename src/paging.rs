use vstd::prelude::*;
use vstd::arithmetic::div_mod::lemma_small_mod;
use crate::error::{NfcError, TransportFault, is_write_ack_fault, write_fault_is_ack};

verus! {

/// Bytes in one page of tag memory.
pub const PAGE_SIZE: usize = 4;

/// Lowest and highest page that a read may touch.
pub const READ_PAGE_ADDR_MIN: usize = 0x00;
pub const READ_PAGE_ADDR_MAX: usize = 0x2C;

/// Lowest and highest page that a write may touch.
pub const WRITE_PAGE_ADDR_MIN: usize = 0x02;
pub const WRITE_PAGE_ADDR_MAX: usize = 0x2C;

/// Pages returned by one read command, and its length in bytes.
pub const READ_CHUNK_PAGES: usize = 4;
pub const READ_RESPONSE_LEN: usize = 16;

/// Command opcodes.
pub const CMD_GET_VERSION: u8 = 0x60;
pub const CMD_READ: u8 = 0x30;
pub const CMD_WRITE: u8 = 0xA2;

/// Pages needed to hold `byte_len` bytes.
pub open spec fn page_count(byte_len: int) -> int {
    (byte_len + 3) / 4
}

/// The last page that an access of `byte_len` bytes from `start` touches.
pub open spec fn last_page(start: int, byte_len: int) -> int {
    start + page_count(byte_len) - 1
}

/// Whether a read of `byte_len` bytes from page `start` stays within the readable pages.
pub open spec fn read_range_ok(start: int, byte_len: int) -> bool {
    byte_len == 0 || (READ_PAGE_ADDR_MIN <= start && last_page(start, byte_len)
        <= READ_PAGE_ADDR_MAX)
}

/// Whether a write of `byte_len` bytes from page `start` stays within the writable pages.
pub open spec fn write_range_ok(start: int, byte_len: int) -> bool {
    byte_len == 0 || (WRITE_PAGE_ADDR_MIN <= start && last_page(start, byte_len)
        <= WRITE_PAGE_ADDR_MAX)
}

/// The read command for a page.
pub open spec fn read_frame(page: int) -> Seq<u8> {
    seq![CMD_READ, page as u8]
}

/// How many bytes of the read response at `page` fall within a range ending at `end`.
pub open spec fn chunk_len(page: int, end: int) -> int {
    if end - page + 1 < 4 {
        (end - page + 1) * 4
    } else {
        16
    }
}

/// The bytes that a read ending at page `end` keeps of the response for `page`.
pub open spec fn chunk_bytes(response: Seq<u8>, page: int, end: int) -> Seq<u8> {
    response.subrange(0, chunk_len(page, end))
}

/// The bytes a read from page `start` to page `end` keeps of `responses`, the k-th
/// of which answers the read command for page `start + 4k`.
pub open spec fn gathered(responses: Seq<Seq<u8>>, start: int, end: int) -> Seq<u8>
    decreases responses.len(),
{
    if responses.len() == 0 {
        Seq::empty()
    } else {
        let k = responses.len() - 1;
        gathered(responses.drop_last(), start, end) + chunk_bytes(
            responses.last(),
            start + 4 * k,
            end,
        )
    }
}

/// Page `k` of `data`, zero-padded to a full page.
pub open spec fn padded_page(data: Seq<u8>, k: int) -> Seq<u8> {
    Seq::new(4, |i: int| if 4 * k + i < data.len() { data[4 * k + i] } else { 0u8 })
}

/// The write command that stores page `k` of `data`, for data placed from page `start`.
pub open spec fn write_frame(data: Seq<u8>, start: int, k: int) -> Seq<u8> {
    seq![CMD_WRITE, (start + k) as u8] + padded_page(data, k)
}

/// Number of pages of `n` bytes, computed without overflow.
fn pages_for(n: usize) -> (r: usize)
    ensures
        r == page_count(n as int),
{
    if n % 4 == 0 {
        n / 4
    } else {
        n / 4 + 1
    }
}

/// A read in progress: it asks for one read command per four pages, collects the
/// bytes that fall within the range, and ends with exactly the requested bytes.
pub struct PageReader {
    start: usize,
    byte_len: usize,
    end: usize,
    next_page: usize,
    data: Vec<u8>,
    responses: Ghost<Seq<Seq<u8>>>,
}

impl PageReader {
    pub closed spec fn start(&self) -> int {
        self.start as int
    }

    pub closed spec fn byte_len(&self) -> int {
        self.byte_len as int
    }

    /// The last page of the range.
    pub closed spec fn end(&self) -> int {
        self.end as int
    }

    /// The page that the next read command starts at.
    pub closed spec fn next_page(&self) -> int {
        self.next_page as int
    }

    /// The bytes collected so far.
    pub closed spec fn data(&self) -> Seq<u8> {
        self.data@
    }

    /// The responses accepted so far, in order.
    pub closed spec fn responses(&self) -> Seq<Seq<u8>> {
        self.responses@
    }

    pub open spec fn done(&self) -> bool {
        self.byte_len() == 0 || self.next_page() > self.end()
    }

    pub closed spec fn wf(&self) -> bool {
        &&& self.byte_len == 0 ==> self.data@.len() == 0 && self.responses@.len() == 0
        &&& self.byte_len > 0 ==> {
            &&& self.end == last_page(self.start as int, self.byte_len as int)
            &&& self.end <= READ_PAGE_ADDR_MAX
            &&& self.start <= self.next_page <= self.end + 4
            &&& (self.next_page - self.start) % 4 == 0
            &&& self.responses@.len() == (self.next_page - self.start) / 4
            &&& self.data@ == gathered(self.responses@, self.start as int, self.end as int)
            &&& forall|k: int|
                0 <= k < self.responses@.len() ==> #[trigger] self.responses@[k].len() == 16
            &&& self.data@.len() == 4 * (if self.next_page <= self.end {
                self.next_page - self.start
            } else {
                self.end + 1 - self.start
            })
        }
    }

    /// The read command to send next, if the read is not complete.
    pub fn next_command(&self) -> (r: Option<Vec<u8>>)
        requires
            self.wf(),
        ensures
            self.done() <==> r is None,
            r matches Some(f) ==> f@ == read_frame(self.next_page()),
    {
        if self.byte_len == 0 || self.next_page > self.end {
            None
        } else {
            let f = vec![CMD_READ, self.next_page as u8];
            assert(f@ =~= read_frame(self.next_page()));
            Some(f)
        }
    }

    /// Takes the outcome of the read command for `next_page`. Any transport fault,
    /// or a response that is not exactly 16 bytes, ends the read with an error.
    pub fn accept(&mut self, response: Result<Vec<u8>, TransportFault>) -> (r: Result<(), NfcError>)
        requires
            old(self).wf(),
            !old(self).done(),
        ensures
            final(self).wf(),
            final(self).start() == old(self).start(),
            final(self).byte_len() == old(self).byte_len(),
            final(self).end() == old(self).end(),
            response matches Err(f) ==> r == Err::<(), NfcError>(NfcError::CommunicationFault(f)),
            response matches Ok(b) ==> {
                if b@.len() == READ_RESPONSE_LEN {
                    &&& r is Ok
                    &&& final(self).next_page() == old(self).next_page() + 4
                    &&& final(self).responses() == old(self).responses().push(b@)
                    &&& final(self).data() == old(self).data() + chunk_bytes(
                        b@,
                        old(self).next_page(),
                        old(self).end(),
                    )
                } else {
                    r == Err::<(), NfcError>(NfcError::UnexpectedResponse)
                }
            },
    {
        match response {
            Err(f) => Err(NfcError::CommunicationFault(f)),
            Ok(b) => {
                if b.len() != READ_RESPONSE_LEN {
                    return Err(NfcError::UnexpectedResponse);
                }
                let left = self.end - self.next_page + 1;
                let needed = if left < READ_CHUNK_PAGES {
                    left * PAGE_SIZE
                } else {
                    READ_RESPONSE_LEN
                };
                let ghost before = self.data@;
                let mut i: usize = 0;
                while i < needed
                    invariant
                        needed <= b@.len(),
                        i <= needed,
                        self.start == old(self).start,
                        self.byte_len == old(self).byte_len,
                        self.end == old(self).end,
                        self.next_page == old(self).next_page,
                        self.responses == old(self).responses,
                        self.data@ == before + b@.subrange(0, i as int),
                    decreases needed - i,
                {
                    self.data.push(b[i]);
                    i = i + 1;
                    assert(self.data@ =~= before + b@.subrange(0, i as int));
                }
                self.next_page = self.next_page + READ_CHUNK_PAGES;
                self.responses = Ghost(self.responses@.push(b@));
                assert(self.responses@.drop_last() =~= old(self).responses@);
                Ok(())
            },
        }
    }

    /// The bytes read, once every command has been answered.
    pub fn finish(self) -> (r: Vec<u8>)
        requires
            self.wf(),
            self.done(),
        ensures
            r@.len() == self.byte_len(),
            r@ == self.data().subrange(0, self.byte_len()),
            self.byte_len() > 0 ==> r@ == gathered(
                self.responses(),
                self.start(),
                self.end(),
            ).subrange(0, self.byte_len()),
            self.byte_len() > 0 ==> self.responses().len() == read_command_count(self.byte_len()),
    {
        let mut data = self.data;
        data.truncate(self.byte_len);
        data
    }
}

/// Starts a read of `byte_len` bytes from page `page_addr`. Fails with
/// `InvalidArgument`, before any exchange, when the range leaves the readable pages.
pub fn read(page_addr: usize, byte_len: usize) -> (r: Result<PageReader, NfcError>)
    ensures
        read_range_ok(page_addr as int, byte_len as int) <==> r is Ok,
        !read_range_ok(page_addr as int, byte_len as int) ==> r == Err::<PageReader, NfcError>(
            NfcError::InvalidArgument,
        ),
        r matches Ok(p) ==> {
            &&& p.wf()
            &&& p.start() == page_addr
            &&& p.byte_len() == byte_len
            &&& p.data().len() == 0
            &&& p.responses().len() == 0
            &&& byte_len > 0 ==> p.end() == last_page(page_addr as int, byte_len as int)
                && p.next_page() == page_addr
        },
{
    if byte_len == 0 {
        return Ok(
            PageReader {
                start: page_addr,
                byte_len,
                end: page_addr,
                next_page: page_addr,
                data: Vec::new(),
                responses: Ghost(Seq::empty()),
            },
        );
    }
    let pages = pages_for(byte_len);
    if page_addr > READ_PAGE_ADDR_MAX || pages > READ_PAGE_ADDR_MAX + 1 - page_addr {
        return Err(NfcError::InvalidArgument);
    }
    let end = page_addr + pages - 1;
    Ok(
        PageReader {
            start: page_addr,
            byte_len,
            end,
            next_page: page_addr,
            data: Vec::with_capacity(byte_len),
            responses: Ghost(Seq::empty()),
        },
    )
}

/// A write in progress: one write command per page, the last page zero-padded.
pub struct PageWriter {
    start: usize,
    data: Vec<u8>,
    pages: usize,
    written: usize,
}

impl PageWriter {
    pub closed spec fn start(&self) -> int {
        self.start as int
    }

    /// The bytes being written.
    pub closed spec fn data(&self) -> Seq<u8> {
        self.data@
    }

    /// Pages written so far.
    pub closed spec fn written(&self) -> int {
        self.written as int
    }

    pub open spec fn pages(&self) -> int {
        page_count(self.data().len() as int)
    }

    pub open spec fn done(&self) -> bool {
        self.written() == self.pages()
    }

    pub closed spec fn wf(&self) -> bool {
        &&& self.pages == page_count(self.data@.len() as int)
        &&& self.written <= self.pages
        &&& write_range_ok(self.start as int, self.data@.len() as int)
    }

    /// The write command to send next, if pages are left.
    pub fn next_command(&self) -> (r: Option<Vec<u8>>)
        requires
            self.wf(),
        ensures
            self.done() <==> r is None,
            r matches Some(f) ==> f@ == write_frame(self.data(), self.start(), self.written()),
    {
        if self.written == self.pages {
            return None;
        }
        let page = self.start + self.written;
        let mut f = vec![CMD_WRITE, page as u8];
        let base = self.written * PAGE_SIZE;
        let mut i: usize = 0;
        while i < PAGE_SIZE
            invariant
                self.wf(),
                self.written < self.pages,
                base == 4 * self.written,
                i <= 4,
                f@ == seq![CMD_WRITE, (self.start + self.written) as u8] + padded_page(
                    self.data@,
                    self.written as int,
                ).subrange(0, i as int),
            decreases 4 - i,
        {
            let b = if base + i < self.data.len() {
                self.data[base + i]
            } else {
                0u8
            };
            f.push(b);
            i = i + 1;
            assert(f@ =~= seq![CMD_WRITE, (self.start + self.written) as u8] + padded_page(
                self.data@,
                self.written as int,
            ).subrange(0, i as int));
        }
        assert(padded_page(self.data@, self.written as int).subrange(0, 4) =~= padded_page(
            self.data@,
            self.written as int,
        ));
        Some(f)
    }

    /// Takes the outcome of the write command for the next page. A transmission
    /// fault or timeout is the tag's acknowledgement and counts as success; any
    /// other fault ends the write.
    pub fn accept(&mut self, outcome: Result<Vec<u8>, TransportFault>) -> (r: Result<(), NfcError>)
        requires
            old(self).wf(),
            !old(self).done(),
        ensures
            final(self).wf(),
            final(self).start() == old(self).start(),
            final(self).data() == old(self).data(),
            (outcome is Ok || is_write_ack_fault(outcome->Err_0)) ==> {
                &&& r is Ok
                &&& final(self).written() == old(self).written() + 1
            },
            (outcome is Err && !is_write_ack_fault(outcome->Err_0)) ==> {
                &&& r == Err::<(), NfcError>(NfcError::CommunicationFault(outcome->Err_0))
                &&& final(self).written() == old(self).written()
            },
    {
        match outcome {
            Ok(_) => {
                self.written = self.written + 1;
                Ok(())
            },
            Err(f) => {
                if write_fault_is_ack(f) {
                    self.written = self.written + 1;
                    Ok(())
                } else {
                    Err(NfcError::CommunicationFault(f))
                }
            },
        }
    }
}

/// Starts a write of `data` from page `page_addr`. Fails with `InvalidArgument`,
/// before any exchange, when the pages touched leave the writable pages. Empty
/// data gives a write with nothing to send.
pub fn write(data: &[u8], page_addr: usize) -> (r: Result<PageWriter, NfcError>)
    ensures
        write_range_ok(page_addr as int, data@.len() as int) <==> r is Ok,
        !write_range_ok(page_addr as int, data@.len() as int) ==> r == Err::<PageWriter, NfcError>(
            NfcError::InvalidArgument,
        ),
        r matches Ok(w) ==> {
            &&& w.wf()
            &&& w.start() == page_addr
            &&& w.data() == data@
            &&& w.written() == 0
        },
{
    let pages = pages_for(data.len());
    if data.len() > 0 && (page_addr < WRITE_PAGE_ADDR_MIN || page_addr > WRITE_PAGE_ADDR_MAX
        || pages > WRITE_PAGE_ADDR_MAX + 1 - page_addr) {
        return Err(NfcError::InvalidArgument);
    }
    let mut copy: Vec<u8> = Vec::with_capacity(data.len());
    let mut i: usize = 0;
    while i < data.len()
        invariant
            i <= data@.len(),
            copy@ == data@.subrange(0, i as int),
        decreases data@.len() - i,
    {
        copy.push(data[i]);
        i = i + 1;
        assert(copy@ =~= data@.subrange(0, i as int));
    }
    assert(copy@ =~= data@);
    Ok(PageWriter { start: page_addr, data: copy, pages, written: 0 })
}

/// Bytes of tag memory: pages 0x00 to 0x2C.
pub open spec fn tag_memory_len() -> int {
    4 * (READ_PAGE_ADDR_MAX + 1)
}

/// A tag's answer to the read command for `page`: sixteen bytes from that page on,
/// wrapping to page 0 past the last page.
pub open spec fn tag_read(mem: Seq<u8>, page: int) -> Seq<u8> {
    Seq::new(16, |i: int| mem[(4 * page + i) % tag_memory_len()])
}

/// Tag memory after a write command: the addressed page takes the four data bytes.
pub open spec fn tag_write(mem: Seq<u8>, frame: Seq<u8>) -> Seq<u8> {
    let base = 4 * frame[1];
    Seq::new(mem.len(), |j: int| if base <= j < base + 4 { frame[2 + j - base] } else { mem[j] })
}

/// Tag memory after the first `n` write commands of a write of `data` from `start`.
pub open spec fn tag_after_writes(mem: Seq<u8>, data: Seq<u8>, start: int, n: nat) -> Seq<u8>
    decreases n,
{
    if n == 0 {
        mem
    } else {
        tag_write(tag_after_writes(mem, data, start, (n - 1) as nat), write_frame(data, start, n - 1))
    }
}

/// The tag's answers to the first `n` read commands of a read from `start`.
pub open spec fn tag_read_responses(mem: Seq<u8>, start: int, n: int) -> Seq<Seq<u8>> {
    Seq::new(n as nat, |k: int| tag_read(mem, start + 4 * k))
}

/// The number of read commands that a read of `byte_len` bytes sends.
pub open spec fn read_command_count(byte_len: int) -> int {
    (page_count(byte_len) + 3) / 4
}

proof fn lemma_writes_place_data(mem: Seq<u8>, data: Seq<u8>, start: int, n: nat)
    requires
        mem.len() == tag_memory_len(),
        data.len() > 0,
        write_range_ok(start, data.len() as int),
        n <= page_count(data.len() as int),
    ensures
        tag_after_writes(mem, data, start, n).len() == mem.len(),
        forall|j: int|
            4 * start <= j < 4 * (start + n) ==> #[trigger] tag_after_writes(mem, data, start, n)[j]
                == if j - 4 * start < data.len() {
                data[j - 4 * start]
            } else {
                0u8
            },
    decreases n,
{
    if n > 0 {
        lemma_writes_place_data(mem, data, start, (n - 1) as nat);
        let prev = tag_after_writes(mem, data, start, (n - 1) as nat);
        let frame = write_frame(data, start, n - 1);
        assert(frame[1] == start + n - 1);
        let cur = tag_after_writes(mem, data, start, n);
        assert forall|j: int| 4 * start <= j < 4 * (start + n) implies #[trigger] cur[j] == if j - 4
            * start < data.len() {
            data[j - 4 * start]
        } else {
            0u8
        } by {
            if j >= 4 * (start + n - 1) {
                assert(frame[2 + j - 4 * (start + n - 1)] == padded_page(data, n - 1)[j - 4 * (start
                    + n - 1)]);
            } else {
                assert(cur[j] == prev[j]);
            }
        }
    }
}

proof fn lemma_gathered_is_memory(mem: Seq<u8>, start: int, end: int, k: int)
    requires
        mem.len() == tag_memory_len(),
        0 <= start <= end <= READ_PAGE_ADDR_MAX,
        0 <= k,
        start + 4 * (k - 1) <= end,
    ensures
        gathered(tag_read_responses(mem, start, k), start, end) == mem.subrange(
            4 * start,
            4 * (if start + 4 * k <= end + 1 {
                start + 4 * k
            } else {
                end + 1
            }),
        ),
    decreases k,
{
    let rs = tag_read_responses(mem, start, k);
    if k == 0 {
        assert(mem.subrange(4 * start, 4 * start) =~= Seq::<u8>::empty());
    } else {
        lemma_gathered_is_memory(mem, start, end, k - 1);
        assert(rs.drop_last() =~= tag_read_responses(mem, start, k - 1));
        let p = start + 4 * (k - 1);
        let chunk = chunk_bytes(tag_read(mem, p), p, end);
        assert(4 * p + chunk_len(p, end) <= 4 * (end + 1));
        assert forall|i: int| 0 <= i < chunk_len(p, end) implies #[trigger] chunk[i] == mem[4 * p
            + i] by {
            assert(0 <= 4 * p + i < tag_memory_len());
            lemma_small_mod((4 * p + i) as nat, tag_memory_len() as nat);
        }
        assert(chunk =~= mem.subrange(4 * p, 4 * p + chunk_len(p, end)));
        assert(gathered(rs, start, end) =~= mem.subrange(
            4 * start,
            4 * (if start + 4 * k <= end + 1 {
                start + 4 * k
            } else {
                end + 1
            }),
        ));
    }
}

/// Writing `data` from page `start` and then reading `data.len()` bytes from the same
/// page gives `data` back: the zero padding of the last page stays beyond the bytes
/// read. The read's result is what a reader gathers from the tag's answers.
pub proof fn lemma_write_then_read(mem: Seq<u8>, data: Seq<u8>, start: int)
    requires
        mem.len() == tag_memory_len(),
        data.len() > 0,
        write_range_ok(start, data.len() as int),
    ensures
        ({
            let written = tag_after_writes(mem, data, start, page_count(data.len() as int) as nat);
            let end = last_page(start, data.len() as int);
            let responses = tag_read_responses(written, start, read_command_count(data.len() as int));
            &&& read_range_ok(start, data.len() as int)
            &&& gathered(responses, start, end).subrange(0, data.len() as int) == data
        }),
{
    let len = data.len() as int;
    let n = page_count(len);
    let written = tag_after_writes(mem, data, start, n as nat);
    let end = last_page(start, len);
    let count = read_command_count(len);
    lemma_writes_place_data(mem, data, start, n as nat);
    lemma_gathered_is_memory(written, start, end, count);
    assert(start + 4 * count >= end + 1);
    let g = gathered(tag_read_responses(written, start, count), start, end);
    assert(g.subrange(0, len) =~= data) by {
        assert forall|i: int| 0 <= i < len implies #[trigger] g.subrange(0, len)[i] == data[i] by {
            assert(g[i] == written[4 * start + i]);
        }
    }
}

} // verus!
