//! The on-demand resource streamer: a request for a cache entry or for the
//! master index is answered with a small header and the payload cut into
//! blocks, a marker byte between each two.

use crate::packet::Packet;
use crate::wire::{
    be4, be_bytes, byte_at, lemma_truncated_octets, lemma_written_twice, signed32, window, written,
    zeros,
};
use vstd::prelude::*;

verus! {

/// The reserved id: as archive and group at once it names the master index.
pub const ARCHIVESET: u8 = 255;

/// How many bytes the header of a response takes: one for the archive, two
/// for the group, one for the flags.
pub const BLOCK_HEADER_SIZE: usize = 1 + 2 + 1;

/// How many bytes mark the start of each block after the first.
pub const BLOCK_DELIMITER_SIZE: usize = 1;

/// How many payload bytes follow the header before the first marker.
pub const BYTES_BEFORE_BLOCK: usize = 509;

/// How many payload bytes follow each marker.
pub const BYTES_AFTER_BLOCK: usize = 511;

/// The byte that starts each block after the first.
pub const BLOCK_MARKER: u8 = 0xFF;

/// What a client of the resource streamer may ask or tell.
#[derive(Debug)]
pub enum Js5Request {
    Group { urgent: bool, archive: u8, group: u16 },
    LoggedIn,
    LoggedOut,
    Rekey { key: u8 },
    Connected,
    Disconnect,
    Invalid,
}

/// Why a request was not answered.
#[derive(Clone, Copy, Debug, PartialEq, Eq)]
pub enum Js5Error {
    /// The request is none that asks for data.
    InvalidRequest,
    /// The master index was asked for before it was built.
    MasterIndexNotInitialized,
    /// An entry was asked for before the cache was opened.
    CacheNotInitialized,
    /// The cache holds no such entry.
    CacheMiss,
    /// The entry is shorter than its own header says.
    MalformedEntry,
}

/// What a request needs from the cache before it can be answered.
#[derive(Clone, Copy, Debug, PartialEq, Eq)]
pub enum Js5Source {
    Nothing,
    MasterIndex,
    Entry { archive: u8, group: u32 },
}

/// What the cache gave for an entry.
#[derive(Debug)]
pub enum CacheRead {
    NotInitialized,
    Missing,
    Found(Vec<u8>),
}

/// `a / b`, rounded up.
pub open spec fn ceil_div(a: int, b: int) -> int {
    (a + b - 1) / b
}

/// The size that the buffer of a response is given before anything is
/// written, for a payload of `payload_len` bytes.
pub open spec fn response_len(payload_len: int) -> int {
    2 + payload_len + ceil_div(payload_len, BYTES_BEFORE_BLOCK as int) + ceil_div(
        payload_len,
        BYTES_AFTER_BLOCK as int,
    ) + 1
}

/// How many markers a payload of `payload_len` bytes takes.
pub open spec fn markers(payload_len: int) -> int {
    if payload_len <= BYTES_BEFORE_BLOCK {
        0
    } else {
        ceil_div(payload_len - BYTES_BEFORE_BLOCK, BYTES_AFTER_BLOCK as int)
    }
}

/// Byte `j` of a payload cut into blocks: the first 509 bytes as they are,
/// then a marker before each further 511.
pub open spec fn framed_byte(payload: Seq<u8>, j: int) -> u8 {
    let block = BLOCK_DELIMITER_SIZE + BYTES_AFTER_BLOCK;
    if j < BYTES_BEFORE_BLOCK {
        payload[j]
    } else if (j - BYTES_BEFORE_BLOCK) % block == 0 {
        BLOCK_MARKER
    } else {
        payload[j - 1 - (j - BYTES_BEFORE_BLOCK) / block]
    }
}

/// A payload cut into blocks.
pub open spec fn framed(payload: Seq<u8>) -> Seq<u8> {
    Seq::new(
        (payload.len() + markers(payload.len() as int)) as nat,
        |j: int| framed_byte(payload, j),
    )
}

/// Whether archive and group name the master index.
pub open spec fn names_master_index(archive: u8, group: u16) -> bool {
    archive == ARCHIVESET && group == ARCHIVESET
}

/// The answer to a request for the master index: the reserved id as archive
/// and as group, no compression, the length in four bytes, the index.
pub open spec fn master_response(master: Seq<u8>) -> Seq<u8> {
    seq![ARCHIVESET, 0u8, ARCHIVESET, 0u8] + be_bytes(master.len() as int, 4) + master
}

/// The length of an entry's payload as its header gives it: the four bytes
/// behind the compression type, plus 4, or plus 8 where it is compressed.
pub open spec fn entry_size(entry: Seq<u8>) -> int {
    signed32(be4(window(entry, 1, 4))) + if byte_at(entry, 0) != 0 {
        8int
    } else {
        4int
    }
}

/// Whether an entry holds the payload that its header announces.
pub open spec fn entry_whole(entry: Seq<u8>) -> bool {
    0 <= entry_size(entry) && 1 + entry_size(entry) <= entry.len()
}

/// The payload of an entry: what follows its compression type.
pub open spec fn entry_payload(entry: Seq<u8>) -> Seq<u8> {
    entry.subrange(1, 1 + entry_size(entry))
}

/// The flags of a response: the entry's compression type, with the top bit set
/// for an urgent request.
pub open spec fn entry_flags(entry: Seq<u8>, urgent: bool) -> u8 {
    if urgent && byte_at(entry, 0) < 128 {
        (byte_at(entry, 0) + 128) as u8
    } else {
        byte_at(entry, 0)
    }
}

/// What a response to a request for an entry holds before its buffer's
/// padding: archive, group, flags, and the payload cut into blocks.
pub open spec fn entry_content(urgent: bool, archive: u8, group: u16, entry: Seq<u8>) -> Seq<u8> {
    seq![archive] + be_bytes(group as int, 2) + seq![entry_flags(entry, urgent)] + framed(
        entry_payload(entry),
    )
}

/// The answer to a request for an entry: a buffer of the size that
/// `response_len` gives, zero where nothing was written, with the content
/// written from its start.
pub open spec fn entry_response(urgent: bool, archive: u8, group: u16, entry: Seq<u8>) -> Seq<
    u8,
> {
    written(
        zeros(response_len(entry_size(entry)) as nat),
        0,
        entry_content(urgent, archive, group, entry),
    )
}

/// A payload of at least one byte fits the buffer that `response_len` sizes
/// for it, header and markers included.
pub proof fn lemma_response_fits(payload_len: int)
    requires
        1 <= payload_len,
    ensures
        4 + payload_len + markers(payload_len) <= response_len(payload_len),
{
}

/// A prefix of the payload that ends where a block ends, cut into blocks, then
/// a marker and the next block, is the longer prefix cut into blocks.
proof fn lemma_framed_grows(payload: Seq<u8>, blocks: int, done: int, next: int)
    requires
        0 <= blocks,
        done == 509 + 511 * blocks,
        done < next <= payload.len(),
        next <= done + 511,
    ensures
        framed(payload.subrange(0, done)) + seq![BLOCK_MARKER] + payload.subrange(done, next)
            =~= framed(payload.subrange(0, next)),
        markers(done) == blocks,
        markers(next) == blocks + 1,
{
    let short = payload.subrange(0, done);
    let long = payload.subrange(0, next);
    let left = framed(short) + seq![BLOCK_MARKER] + payload.subrange(done, next);
    let right = framed(long);
    assert(markers(done) == blocks);
    assert(markers(next) == blocks + 1);
    assert(left.len() == right.len());
    assert forall|j: int| 0 <= j < left.len() implies left[j] == right[j] by {
        if j < done + blocks {
            assert(left[j] == framed_byte(short, j));
            if j >= 509 {
                assert((j - 509) / 512 < blocks);
            }
        } else if j == done + blocks {
            assert(j - 509 == 512 * blocks);
        } else {
            assert((j - 509) / 512 == blocks);
            assert((j - 509) % 512 == j - 509 - 512 * blocks);
        }
    }
}

/// Fills `outbound` with the answer to a request for the master index.
fn write_master_index(outbound: &mut Packet, master: &Vec<u8>)
    requires
        master@.len() + 8 <= usize::MAX,
    ensures
        final(outbound).data@ == master_response(master@),
        final(outbound).position == 8 + master@.len(),
        final(outbound).bit_position == 0,
{
    let n: usize = master.len();
    *outbound = Packet::new(8 + n);
    let ghost blank = outbound.data@;
    outbound.p1(ARCHIVESET as i32);
    outbound.p2(ARCHIVESET as i32);
    outbound.p1(0);
    outbound.p4(#[verifier::truncate] (n as i32));
    outbound.pbytes(master.as_slice(), 0, n);
    proof {
        lemma_truncated_octets(n);
        let a = be_bytes(ARCHIVESET as int, 1);
        let b = be_bytes(ARCHIVESET as int, 2);
        let c = be_bytes(0, 1);
        let d = be_bytes(n as int, 4);
        let e = master@.subrange(0, n as int);
        assert(e =~= master@);
        lemma_written_twice(blank, 0, a, b);
        lemma_written_twice(blank, 0, a + b, c);
        lemma_written_twice(blank, 0, a + b + c, d);
        lemma_written_twice(blank, 0, a + b + c + d, e);
        assert(a + b + c + d + e =~= master_response(master@));
        assert(outbound.data@ =~= master_response(master@));
    }
}

/// Fills `outbound` with the answer to a request for `entry`, whose
/// compression type and payload length the caller has read from its header.
fn write_entry(
    outbound: &mut Packet,
    urgent: bool,
    archive: u8,
    group: u16,
    entry: &Vec<u8>,
    compression: u8,
    size: usize,
)
    requires
        entry_whole(entry@),
        compression == byte_at(entry@, 0),
        size == entry_size(entry@),
    ensures
        final(outbound).data@ == entry_response(urgent, archive, group, entry@),
        final(outbound).position == BLOCK_HEADER_SIZE + entry_size(entry@) + markers(
            entry_size(entry@),
        ),
        final(outbound).bit_position == 0,
{
    let ghost payload = entry_payload(entry@);
    let capacity: usize = 2 + size + (size + BYTES_BEFORE_BLOCK - 1) / BYTES_BEFORE_BLOCK + (size
        + BYTES_AFTER_BLOCK - 1) / BYTES_AFTER_BLOCK + 1;
    *outbound = Packet::new(capacity);
    let ghost blank = outbound.data@;
    let flags: u8 = if urgent {
        compression | 0x80
    } else {
        compression
    };
    assert(flags == entry_flags(entry@, urgent)) by {
        assert(compression | 0x80 == if compression < 128 {
            (compression + 128) as u8
        } else {
            compression
        }) by (bit_vector);
    }
    outbound.p1(archive as i32);
    outbound.p2(group as i32);
    outbound.p1(flags as i32);
    let ghost header = seq![archive] + be_bytes(group as int, 2) + seq![flags];
    proof {
        let a = be_bytes(archive as int, 1);
        let b = be_bytes(group as int, 2);
        let c = be_bytes(flags as int, 1);
        lemma_written_twice(blank, 0, a, b);
        lemma_written_twice(blank, 0, a + b, c);
        assert(a + b + c =~= header);
    }
    let mut done: usize = if size < BYTES_BEFORE_BLOCK {
        size
    } else {
        BYTES_BEFORE_BLOCK
    };
    outbound.pbytes(entry.as_slice(), BLOCK_DELIMITER_SIZE, done);
    let ghost mut blocks: int = 0;
    proof {
        let first = entry@.subrange(1, 1 + done);
        lemma_written_twice(blank, 0, header, first);
        assert(first =~= framed(payload.subrange(0, done as int)));
    }
    while done < size
        invariant
            entry_whole(entry@),
            size == entry_size(entry@),
            payload == entry_payload(entry@),
            blank.len() <= usize::MAX,
            header.len() == 4,
            0 <= blocks,
            done <= size,
            done < size ==> done == 509 + 511 * blocks,
            outbound.bit_position == 0,
            outbound.position == 4 + done + markers(done as int),
            outbound.data@ == written(
                blank,
                0,
                header + framed(payload.subrange(0, done as int)),
            ),
        decreases size - done,
    {
        let ghost so_far = header + framed(payload.subrange(0, done as int));
        outbound.p1(BLOCK_MARKER as i32);
        let chunk: usize = if size - done < BYTES_AFTER_BLOCK {
            size - done
        } else {
            BYTES_AFTER_BLOCK
        };
        outbound.pbytes(entry.as_slice(), done + BLOCK_DELIMITER_SIZE, chunk);
        proof {
            let marker = be_bytes(BLOCK_MARKER as int, 1);
            let block = entry@.subrange(done + 1, done + 1 + chunk);
            lemma_written_twice(blank, 0, so_far, marker);
            lemma_written_twice(blank, 0, so_far + marker, block);
            lemma_framed_grows(payload, blocks, done as int, done + chunk);
            assert(marker =~= seq![BLOCK_MARKER]);
            assert(block =~= payload.subrange(done as int, done + chunk));
            assert(so_far + marker + block =~= header + framed(
                payload.subrange(0, done + chunk),
            ));
            blocks = blocks + 1;
        }
        done += chunk;
    }
    proof {
        assert(payload.subrange(0, done as int) =~= payload);
        assert(blank =~= zeros(response_len(entry_size(entry@)) as nat));
    }
}

impl Js5Request {
    /// What the request needs from the cache: the master index where archive
    /// and group are both the reserved id, the entry they name else, nothing
    /// where it asks for no data.
    pub open spec fn source_of(&self) -> Js5Source {
        match *self {
            Js5Request::Group { urgent, archive, group } => if names_master_index(archive, group) {
                Js5Source::MasterIndex
            } else {
                Js5Source::Entry { archive, group: group as u32 }
            },
            _ => Js5Source::Nothing,
        }
    }

    /// What must be fetched before `fulfill_request` can answer.
    pub fn source(&self) -> (source: Js5Source)
        ensures
            source == self.source_of(),
    {
        match self {
            Js5Request::Group { urgent: _, archive, group } => {
                if *archive == ARCHIVESET && *group == ARCHIVESET as u16 {
                    Js5Source::MasterIndex
                } else {
                    Js5Source::Entry { archive: *archive, group: *group as u32 }
                }
            },
            _ => Js5Source::Nothing,
        }
    }

    /// What `fulfill_request` returns for a request, given what the cache holds.
    pub open spec fn outcome(
        &self,
        master_index: Option<&Vec<u8>>,
        cache: CacheRead,
    ) -> Result<(), Js5Error> {
        match self.source_of() {
            Js5Source::Nothing => Err(Js5Error::InvalidRequest),
            Js5Source::MasterIndex => match master_index {
                Some(_) => Ok(()),
                None => Err(Js5Error::MasterIndexNotInitialized),
            },
            Js5Source::Entry { archive, group } => match cache {
                CacheRead::NotInitialized => Err(Js5Error::CacheNotInitialized),
                CacheRead::Missing => Err(Js5Error::CacheMiss),
                CacheRead::Found(entry) => if entry_whole(entry@) {
                    Ok(())
                } else {
                    Err(Js5Error::MalformedEntry)
                },
            },
        }
    }

    /// The bytes of the answer to a request that `outcome` accepts.
    pub open spec fn answer(&self, master_index: Option<&Vec<u8>>, cache: CacheRead) -> Seq<u8> {
        match (*self, master_index, cache) {
            (Js5Request::Group { urgent, archive, group }, Some(master), _) if names_master_index(
                archive,
                group,
            ) => master_response(master@),
            (Js5Request::Group { urgent, archive, group }, _, CacheRead::Found(entry)) => {
                entry_response(urgent, archive, group, entry@)
            },
            _ => Seq::empty(),
        }
    }

    /// How many bytes of the answer carry content, the buffer's zero padding
    /// left out.
    pub open spec fn answer_len(&self, master_index: Option<&Vec<u8>>, cache: CacheRead) -> int {
        match (*self, master_index, cache) {
            (Js5Request::Group { urgent, archive, group }, Some(master), _) if names_master_index(
                archive,
                group,
            ) => 8 + master@.len() as int,
            (Js5Request::Group { urgent, archive, group }, _, CacheRead::Found(entry)) => {
                BLOCK_HEADER_SIZE + entry_size(entry@) + markers(entry_size(entry@))
            },
            _ => 0,
        }
    }

    /// Answers `request` into `outbound`: with the master index where the
    /// request names it, else with the entry that the cache gave. A request that
    /// cannot be answered leaves `outbound` as it was and says why.
    pub fn fulfill_request(
        outbound: &mut Packet,
        request: &Js5Request,
        master_index: Option<&Vec<u8>>,
        cache: CacheRead,
    ) -> (result: Result<(), Js5Error>)
        requires
            request.source_of() == Js5Source::MasterIndex && master_index is Some
                ==> master_index.unwrap()@.len() + 8 <= usize::MAX,
        ensures
            result == request.outcome(master_index, cache),
            result is Err ==> *final(outbound) == *old(outbound),
            result is Ok ==> final(outbound).data@ == request.answer(master_index, cache),
            result is Ok ==> final(outbound).position == request.answer_len(master_index, cache),
            result is Ok ==> final(outbound).bit_position == 0,
    {
        match request {
            Js5Request::Group { urgent, archive, group } => {
                if *archive == ARCHIVESET && *group == ARCHIVESET as u16 {
                    match master_index {
                        Some(master) => {
                            write_master_index(outbound, master);
                            Ok(())
                        },
                        None => Err(Js5Error::MasterIndexNotInitialized),
                    }
                } else {
                    match cache {
                        CacheRead::NotInitialized => Err(Js5Error::CacheNotInitialized),
                        CacheRead::Missing => Err(Js5Error::CacheMiss),
                        CacheRead::Found(entry) => {
                            let total: usize = entry.len();
                            let mut reader: Packet = Packet::from(entry);
                            let compression: u8 = reader.g1();
                            let stated: i32 = reader.g4();
                            let size: i64 = stated as i64 + if compression != 0 {
                                8i64
                            } else {
                                4i64
                            };
                            if size >= 0 && total >= 1 && size as u64 <= (total - 1) as u64 {
                                write_entry(
                                    outbound,
                                    *urgent,
                                    *archive,
                                    *group,
                                    &reader.data,
                                    compression,
                                    size as usize,
                                );
                                Ok(())
                            } else {
                                Err(Js5Error::MalformedEntry)
                            }
                        },
                    }
                }
            },
            _ => Err(Js5Error::InvalidRequest),
        }
    }
}

/// The length field of the answer to a request for the master index is the
/// length of the index, for an index of less than 2^32 bytes.
pub proof fn lemma_master_length_field(master: Seq<u8>)
    requires
        master.len() < 0x1_0000_0000,
    ensures
        master_response(master).len() == 8 + master.len(),
        be4(master_response(master).subrange(4, 8)) == master.len(),
        master_response(master).subrange(8, 8 + master.len() as int) == master,
{
    let n = master.len() as int;
    let field = master_response(master).subrange(4, 8);
    assert(field =~= be_bytes(n, 4));
    assert(n / 0x100 / 0x100 == n / 0x1_0000);
    assert(n / 0x1_0000 / 0x100 == n / 0x100_0000);
    assert(master_response(master).subrange(8, 8 + master.len() as int) =~= master);
}

/// How many markers stand before byte `i` of the payload.
pub open spec fn markers_before(i: int) -> int {
    if i < 509 {
        0
    } else {
        (i - 509) / 511 + 1
    }
}

/// The answer to a request for an entry with a payload of at least one byte
/// is as long as `response_len` says; marker `k` stands at offset
/// `4 + 509 + 512 * k`, byte `i` of the payload behind the header and the
/// markers before it, and what follows the content is zero.
pub proof fn lemma_entry_response_layout(
    urgent: bool,
    archive: u8,
    group: u16,
    entry: Seq<u8>,
)
    requires
        entry_whole(entry),
    ensures
        ({
            let size = entry_size(entry);
            let answer = entry_response(urgent, archive, group, entry);
            let content = 4 + size + markers(size);
            &&& size >= 1 ==> answer.len() == response_len(size)
            &&& size == 0 ==> answer.len() == 4
            &&& answer[0] == archive
            &&& be_bytes(group as int, 2) == answer.subrange(1, 3)
            &&& answer[3] == entry_flags(entry, urgent)
            &&& forall|k: int|
                0 <= k < markers(size) ==> #[trigger] answer[4 + 509 + 512 * k] == BLOCK_MARKER
            &&& forall|i: int|
                0 <= i < size ==> answer[4 + i + markers_before(i)] == #[trigger] entry[1 + i]
            &&& forall|j: int| content <= j < answer.len() ==> #[trigger] answer[j] == 0
        }),
{
    let size = entry_size(entry);
    let payload = entry_payload(entry);
    let answer = entry_response(urgent, archive, group, entry);
    let content = entry_content(urgent, archive, group, entry);
    assert(content.len() == 4 + size + markers(size));
    if size >= 1 {
        lemma_response_fits(size);
    }
    assert(forall|j: int| 0 <= j < content.len() ==> answer[j] == content[j]);
    assert(answer.subrange(1, 3) =~= be_bytes(group as int, 2));
    assert forall|k: int| 0 <= k < markers(size) implies #[trigger] answer[4 + 509 + 512 * k]
        == BLOCK_MARKER by {
        let j = 509 + 512 * k;
        assert(j < size + markers(size));
        assert(content[4 + j] == framed_byte(payload, j));
        assert((j - 509) % 512 == 0);
    }
    assert forall|i: int| 0 <= i < size implies answer[4 + i + markers_before(i)]
        == #[trigger] entry[1 + i] by {
        let j = i + markers_before(i);
        assert(j < size + markers(size));
        assert(content[4 + j] == framed_byte(payload, j));
        if i >= 509 {
            let k = (i - 509) / 511;
            assert(j == 509 + 512 * k + 1 + (i - 509) % 511);
            assert((j - 509) / 512 == k);
            assert((j - 509) % 512 != 0);
        }
    }
}

} // verus!
