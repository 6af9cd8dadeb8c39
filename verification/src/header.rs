//! The header that opens every transfer stream: what is asked for, and of which
//! file. One byte selects the contents (0) or the digest (1), four bytes give the
//! length of the file name in network byte order, and the name follows in UTF-8.

use std::string::FromUtf8Error;
use vstd::prelude::*;

verus! {

/// What a peer asks for on a transfer stream.
#[derive(Clone, Copy, Debug, PartialEq, Eq, Structural)]
pub enum TransmitRequest {
    /// The contents of the file.
    FileContents,
    /// The digest of the file.
    FileDigest,
}

/// The byte that stands for a request.
pub open spec fn request_byte(request: TransmitRequest) -> u8 {
    match request {
        TransmitRequest::FileContents => 0,
        TransmitRequest::FileDigest => 1,
    }
}

/// How many lengths four bytes can tell apart.
pub open spec fn length_modulus() -> int {
    0x1_0000_0000
}

/// A number below `length_modulus()` in network byte order.
pub open spec fn network_order(n: int) -> Seq<u8> {
    seq![
        (n / 0x100_0000) as u8,
        (n / 0x1_0000 % 0x100) as u8,
        (n / 0x100 % 0x100) as u8,
        (n % 0x100) as u8,
    ]
}

/// The number that four bytes give in network byte order.
pub open spec fn network_value(bytes: Seq<u8>) -> int {
    bytes[0] * 0x100_0000 + bytes[1] * 0x1_0000 + bytes[2] * 0x100 + bytes[3]
}

/// The header of a request for a file.
pub open spec fn header(request: TransmitRequest, file_name: Seq<char>) -> Seq<u8> {
    let name = vstd::utf8::encode_utf8(file_name);
    seq![request_byte(request)] + network_order(name.len() as int % length_modulus()) + name
}

/// The bytes of a number in network byte order.
pub fn to_network_order(n: u32) -> (bytes: Vec<u8>)
    ensures
        bytes@ == network_order(n as int),
{
    let mut bytes: Vec<u8> = Vec::new();
    bytes.push((n / 0x100_0000) as u8);
    bytes.push((n / 0x1_0000 % 0x100) as u8);
    bytes.push((n / 0x100 % 0x100) as u8);
    bytes.push((n % 0x100) as u8);
    bytes
}

/// The number that four bytes give in network byte order.
pub fn from_network_order(bytes: &[u8]) -> (n: u32)
    requires
        bytes@.len() == 4,
    ensures
        n == network_value(bytes@),
{
    bytes[0] as u32 * 0x100_0000 + bytes[1] as u32 * 0x1_0000 + bytes[2] as u32 * 0x100
        + bytes[3] as u32
}

/// Reads a header from a stream, in however many reads it comes. Its view is what
/// has come of the header so far.
pub struct HeaderReader {
    front: Vec<u8>,
    name: Vec<u8>,
}

/// What a read of the stream leads to.
pub enum HeaderStep {
    /// There is more of the header to read.
    More(HeaderReader),
    /// The header is complete.
    Done { request: TransmitRequest, file_name: String },
}

/// Why a header was refused.
#[derive(Debug)]
pub enum HeaderError {
    /// The stream ended before the request byte.
    NoRequest,
    /// The request byte stands for no request.
    UnknownRequest,
    /// The stream ended before the length of the name was complete.
    NoNameLength,
    /// The stream ended before the name was complete, or the name is empty.
    NoName,
    /// The name is not UTF-8.
    NameNotUtf8(FromUtf8Error),
}

/// What becomes of a header when part of it has been read, in terms of values.
pub enum HeaderOutcome {
    More(Seq<u8>),
    Done(TransmitRequest, Seq<char>),
    NoRequest,
    UnknownRequest,
    NoNameLength,
    NoName,
    NameNotUtf8,
}

/// The outcome that a result stands for.
pub open spec fn header_outcome(result: Result<HeaderStep, HeaderError>) -> HeaderOutcome {
    match result {
        Ok(HeaderStep::More(reader)) => HeaderOutcome::More(reader@),
        Ok(HeaderStep::Done { request, file_name }) => HeaderOutcome::Done(request, file_name@),
        Err(HeaderError::NoRequest) => HeaderOutcome::NoRequest,
        Err(HeaderError::UnknownRequest) => HeaderOutcome::UnknownRequest,
        Err(HeaderError::NoNameLength) => HeaderOutcome::NoNameLength,
        Err(HeaderError::NoName) => HeaderOutcome::NoName,
        Err(HeaderError::NameNotUtf8(_)) => HeaderOutcome::NameNotUtf8,
    }
}

/// The request that a byte stands for.
pub open spec fn request_of(byte: u8) -> TransmitRequest {
    if byte == 0 {
        TransmitRequest::FileContents
    } else {
        TransmitRequest::FileDigest
    }
}

/// The length of the name in a header of which the first five bytes have come.
pub open spec fn name_length(received: Seq<u8>) -> int {
    network_value(received.subrange(1, 5))
}

/// What the bytes of a header that have come amount to. Bytes behind the name are
/// no part of the header.
pub open spec fn meaning(received: Seq<u8>) -> HeaderOutcome {
    if received.len() > 0 && received[0] > 1 {
        HeaderOutcome::UnknownRequest
    } else if received.len() < 5 {
        HeaderOutcome::More(received)
    } else if name_length(received) == 0 {
        HeaderOutcome::NoName
    } else if received.len() < 5 + name_length(received) {
        HeaderOutcome::More(received)
    } else {
        let name = received.subrange(5, 5 + name_length(received));
        if vstd::utf8::valid_utf8(name) {
            HeaderOutcome::Done(request_of(received[0]), vstd::utf8::decode_utf8(name))
        } else {
            HeaderOutcome::NameNotUtf8
        }
    }
}

/// Why a header is refused when the stream ends with part of it still to come.
pub open spec fn cut_off(received: Seq<u8>) -> HeaderOutcome {
    if received.len() == 0 {
        HeaderOutcome::NoRequest
    } else if received.len() < 5 {
        HeaderOutcome::NoNameLength
    } else {
        HeaderOutcome::NoName
    }
}

/// What a read that delivered `bytes` leads to, after `received` came before. A read
/// that delivers nothing is the end of the stream.
pub open spec fn after_read(received: Seq<u8>, bytes: Seq<u8>) -> HeaderOutcome {
    if bytes.len() == 0 {
        cut_off(received)
    } else {
        meaning(received + bytes)
    }
}

/// What reads lead to, one after another from the front of a stream. Once the
/// header is complete or refused, no more is read.
pub open spec fn after_reads(reads: Seq<Seq<u8>>) -> HeaderOutcome
    decreases reads.len(),
{
    if reads.len() == 0 {
        HeaderOutcome::More(Seq::empty())
    } else {
        match after_reads(reads.drop_last()) {
            HeaderOutcome::More(received) => after_read(received, reads.last()),
            decided => decided,
        }
    }
}

/// How many bytes are still to come of the part of a header that is being read: the
/// request byte, the length of the name, or the name.
pub open spec fn wanted(received: Seq<u8>) -> int {
    if received.len() == 0 {
        1
    } else if received.len() < 5 {
        5 - received.len()
    } else {
        5 + name_length(received) - received.len()
    }
}

impl View for HeaderReader {
    type V = Seq<u8>;

    closed spec fn view(&self) -> Seq<u8> {
        self.front@ + self.name@
    }
}

impl HeaderReader {
    #[verifier::type_invariant]
    spec fn is_incomplete(self) -> bool {
        &&& self.front@.len() <= 5
        &&& self.front@.len() < 5 ==> self.name@.len() == 0
        &&& meaning(self.front@ + self.name@) == HeaderOutcome::More(self.front@ + self.name@)
    }

    /// A header of which nothing has been read.
    pub fn new() -> (reader: HeaderReader)
        ensures
            reader@ == Seq::<u8>::empty(),
    {
        let front: Vec<u8> = Vec::new();
        let name: Vec<u8> = Vec::new();
        assert(front@ + name@ =~= Seq::<u8>::empty());
        HeaderReader { front, name }
    }

    /// The length of the name, once its bytes have come.
    fn announced(front: &Vec<u8>) -> (length: u32)
        requires
            front@.len() == 5,
        ensures
            length == name_length(front@),
    {
        from_network_order(vstd::slice::slice_subrange(front.as_slice(), 1, 5))
    }

    /// The most bytes that the next read may deliver.
    pub fn buffer_size(&self) -> (size: u32)
        ensures
            size == wanted(self@),
            size > 0,
    {
        proof {
            use_type_invariant(self);
        }
        if self.front.len() == 0 {
            1
        } else if self.front.len() < 5 {
            (5 - self.front.len()) as u32
        } else {
            assert(self@.subrange(1, 5) =~= self.front@.subrange(1, 5));
            Self::announced(&self.front) - self.name.len() as u32
        }
    }

    /// Takes the bytes that one read delivered, no more than are wanted.
    pub fn read(self, bytes: &[u8]) -> (step: Result<HeaderStep, HeaderError>)
        requires
            bytes@.len() <= wanted(self@),
        ensures
            header_outcome(step) == after_read(self@, bytes@),
    {
        proof {
            use_type_invariant(&self);
        }
        let HeaderReader { front, name } = self;
        if bytes.len() == 0 {
            return if front.len() == 0 {
                Err(HeaderError::NoRequest)
            } else if front.len() < 5 {
                Err(HeaderError::NoNameLength)
            } else {
                Err(HeaderError::NoName)
            };
        }
        let mut front = front;
        let mut name = name;
        let ghost before = front@ + name@;
        if front.len() < 5 {
            front.extend_from_slice(bytes);
        } else {
            name.extend_from_slice(bytes);
            assert(before.subrange(1, 5) =~= front@.subrange(1, 5));
        }
        let ghost all = before + bytes@;
        assert(front@ + name@ =~= all);
        if front[0] > 1 {
            return Err(HeaderError::UnknownRequest);
        }
        if front.len() < 5 {
            return Ok(HeaderStep::More(HeaderReader { front, name }));
        }
        assert(all.subrange(1, 5) =~= front@.subrange(1, 5));
        let length: u32 = Self::announced(&front);
        if length == 0 {
            return Err(HeaderError::NoName);
        }
        if name.len() < length as usize {
            return Ok(HeaderStep::More(HeaderReader { front, name }));
        }
        assert(all.subrange(5, 5 + length) =~= name@);
        let request = if front[0] == 0 {
            TransmitRequest::FileContents
        } else {
            TransmitRequest::FileDigest
        };
        match String::from_utf8(name) {
            Ok(file_name) => Ok(HeaderStep::Done { request, file_name }),
            Err(error) => Err(HeaderError::NameNotUtf8(error)),
        }
    }
}

impl HeaderError {
    /// The message for the log.
    pub fn message(&self) -> (text: String)
        ensures
            match *self {
                HeaderError::NoRequest => text@ == "No bytes read from stream"@,
                HeaderError::UnknownRequest => text@ == "Invalid transmit request"@,
                HeaderError::NoNameLength => text@
                    == "Did not read file name length from stream"@,
                HeaderError::NoName => text@ == "Did not read file name from stream"@,
                HeaderError::NameNotUtf8(error) => vstd::string::to_string_from_display_ensures(
                    &error,
                    text,
                ),
            },
    {
        match self {
            HeaderError::NoRequest => "No bytes read from stream".to_owned(),
            HeaderError::UnknownRequest => "Invalid transmit request".to_owned(),
            HeaderError::NoNameLength => "Did not read file name length from stream".to_owned(),
            HeaderError::NoName => "Did not read file name from stream".to_owned(),
            HeaderError::NameNotUtf8(error) => error.to_string(),
        }
    }
}

/// Four bytes in network order give back the number that they stand for.
pub proof fn lemma_network_order_round_trip(n: int)
    requires
        0 <= n < length_modulus(),
    ensures
        network_order(n).len() == 4,
        network_value(network_order(n)) == n,
{
}

/// What has been decided of a header is not changed by what comes after it.
proof fn lemma_decided(received: Seq<u8>, more: Seq<u8>)
    requires
        !(meaning(received) is More),
    ensures
        meaning(received + more) == meaning(received),
{
    let all = received + more;
    if received.len() >= 5 {
        assert(all.subrange(1, 5) =~= received.subrange(1, 5));
        let end = 5 + name_length(received);
        if end <= received.len() {
            assert(all.subrange(5, end) =~= received.subrange(5, end));
        }
    }
}

/// Part of a header amounts to no more than that: more of it is to come, and no more
/// is wanted of the stream than is left of it.
pub proof fn lemma_part_of_header(request: TransmitRequest, file_name: Seq<char>, received: Seq<u8>)
    requires
        1 <= vstd::utf8::encode_utf8(file_name).len() < length_modulus(),
        received.is_prefix_of(header(request, file_name)),
    ensures
        received != header(request, file_name) ==> meaning(received) == HeaderOutcome::More(
            received,
        ) && 1 <= wanted(received) <= header(request, file_name).len() - received.len(),
        received == header(request, file_name) ==> meaning(received) == HeaderOutcome::Done(
            request,
            file_name,
        ),
{
    let name = vstd::utf8::encode_utf8(file_name);
    let whole = header(request, file_name);
    let n = name.len() as int;
    lemma_network_order_round_trip(n);
    assert(whole.subrange(1, 5) =~= network_order(n));
    if received.len() >= 5 {
        assert(received.subrange(1, 5) =~= network_order(n));
    }
    if received.len() == whole.len() {
        assert(received =~= whole);
        assert(whole.subrange(5, 5 + n) =~= name);
        vstd::utf8::encode_utf8_valid_utf8(file_name);
        vstd::utf8::encode_utf8_decode_utf8(file_name);
    }
}

/// However the bytes of a stream are split into reads, the outcome for its header is
/// the same: it is what the bytes mean as a whole.
pub proof fn law_reads_may_be_split_anywhere(reads: Seq<Seq<u8>>)
    requires
        forall|i: int| 0 <= i < reads.len() ==> (#[trigger] reads[i]).len() > 0,
    ensures
        after_reads(reads) == meaning(reads.flatten()),
    decreases reads.len(),
{
    reads.lemma_flatten_and_flatten_alt_are_equivalent();
    if reads.len() == 0 {
        assert(reads.flatten() =~= Seq::<u8>::empty());
    } else {
        let earlier = reads.drop_last();
        assert forall|i: int| 0 <= i < earlier.len() implies (#[trigger] earlier[i]).len() > 0 by {
            assert(earlier[i] == reads[i]);
        }
        law_reads_may_be_split_anywhere(earlier);
        earlier.lemma_flatten_and_flatten_alt_are_equivalent();
        assert(reads.flatten() =~= earlier.flatten() + reads.last());
        assert(reads[reads.len() - 1].len() > 0);
        if !(meaning(earlier.flatten()) is More) {
            lemma_decided(earlier.flatten(), reads.last());
        }
    }
}

/// What a peer writes as a header, another reads back, in however many reads it
/// comes: they end in the request and the file name that it was written for. A name
/// must not be empty, and its length must fit in four bytes.
pub proof fn law_header_round_trip(
    request: TransmitRequest,
    file_name: Seq<char>,
    reads: Seq<Seq<u8>>,
)
    requires
        1 <= vstd::utf8::encode_utf8(file_name).len() < length_modulus(),
        forall|i: int| 0 <= i < reads.len() ==> (#[trigger] reads[i]).len() > 0,
        reads.flatten() == header(request, file_name),
    ensures
        after_reads(reads) == HeaderOutcome::Done(request, file_name),
{
    law_reads_may_be_split_anywhere(reads);
    lemma_part_of_header(request, file_name, reads.flatten());
}

/// A header that is cut off is refused, wherever that happens. Until then more of it
/// is awaited, and never more than was written.
pub proof fn law_cut_off_header_is_refused(
    request: TransmitRequest,
    file_name: Seq<char>,
    reads: Seq<Seq<u8>>,
)
    requires
        1 <= vstd::utf8::encode_utf8(file_name).len() < length_modulus(),
        forall|i: int| 0 <= i < reads.len() ==> (#[trigger] reads[i]).len() > 0,
        reads.flatten().is_prefix_of(header(request, file_name)),
        reads.flatten() != header(request, file_name),
    ensures
        after_reads(reads) == HeaderOutcome::More(reads.flatten()),
        1 <= wanted(reads.flatten()) <= header(request, file_name).len() - reads.flatten().len(),
        after_reads(reads.push(Seq::empty())) == cut_off(reads.flatten()),
{
    law_reads_may_be_split_anywhere(reads);
    lemma_part_of_header(request, file_name, reads.flatten());
    assert(reads.push(Seq::empty()).drop_last() =~= reads);
}

/// A header is one byte that is 0 for the contents and 1 for the digest, then four
/// bytes that give the length of the name with the highest byte first, and then the
/// whole name in UTF-8.
pub proof fn law_header_layout(request: TransmitRequest, file_name: Seq<char>)
    ensures
        ({
            let bytes = header(request, file_name);
            let name = vstd::utf8::encode_utf8(file_name);
            &&& bytes.len() == 5 + name.len()
            &&& bytes[0] == 0 <==> request == TransmitRequest::FileContents
            &&& bytes[0] == 1 <==> request == TransmitRequest::FileDigest
            &&& bytes[1] * 0x100_0000 + bytes[2] * 0x1_0000 + bytes[3] * 0x100 + bytes[4]
                == name.len() as int % 0x1_0000_0000
            &&& bytes.skip(5) == name
        }),
{
    let bytes = header(request, file_name);
    let name = vstd::utf8::encode_utf8(file_name);
    let n = name.len() as int % length_modulus();
    lemma_network_order_round_trip(n);
    assert(bytes.subrange(1, 5) =~= network_order(n));
    assert(bytes.subrange(1, 5)[0] == bytes[1] && bytes.subrange(1, 5)[1] == bytes[2]);
    assert(bytes.subrange(1, 5)[2] == bytes[3] && bytes.subrange(1, 5)[3] == bytes[4]);
    assert(bytes.skip(5) =~= name);
}

/// Numbers in network byte order: four bytes, the highest first, and the same four
/// bytes give the number back.
pub proof fn law_network_order(n: int, bytes: Seq<u8>)
    requires
        0 <= n < 0x1_0000_0000,
        bytes.len() == 4,
    ensures
        network_order(n).len() == 4,
        network_order(n)[0] * 0x100_0000 + network_order(n)[1] * 0x1_0000 + network_order(n)[2]
            * 0x100 + network_order(n)[3] == n,
        network_value(bytes) == n <==> bytes == network_order(n),
{
    lemma_network_order_round_trip(n);
    if network_value(bytes) == n {
        lemma_bytes_of_number(bytes[0] as int, bytes[1] as int, bytes[2] as int, bytes[3] as int);
        assert(bytes =~= network_order(n));
    }
}

/// The bytes of a number can be told from it.
proof fn lemma_bytes_of_number(a: int, b: int, c: int, d: int)
    requires
        0 <= a < 0x100,
        0 <= b < 0x100,
        0 <= c < 0x100,
        0 <= d < 0x100,
    ensures
        ({
            let n = a * 0x100_0000 + b * 0x1_0000 + c * 0x100 + d;
            &&& n / 0x100_0000 == a
            &&& n / 0x1_0000 % 0x100 == b
            &&& n / 0x100 % 0x100 == c
            &&& n % 0x100 == d
        }),
{
    let n = a * 0x100_0000 + b * 0x1_0000 + c * 0x100 + d;
    assert(n / 0x100 == a * 0x1_0000 + b * 0x100 + c);
    assert(n / 0x1_0000 == a * 0x100 + b);
}

/// What is read is what was written: bytes mean a request for a file exactly if they
/// begin with the header of that request. The name is not empty, and its length fits in
/// four bytes.
pub proof fn law_headers_mean_what_they_were_written_for(
    received: Seq<u8>,
    request: TransmitRequest,
    file_name: Seq<char>,
)
    ensures
        meaning(received) == HeaderOutcome::Done(request, file_name) <==> {
            &&& 1 <= vstd::utf8::encode_utf8(file_name).len() < 0x1_0000_0000
            &&& header(request, file_name).is_prefix_of(received)
        },
{
    let name = vstd::utf8::encode_utf8(file_name);
    let whole = header(request, file_name);
    if meaning(received) == HeaderOutcome::Done(request, file_name) {
        let n = name_length(received);
        let read = received.subrange(5, 5 + n);
        vstd::utf8::decode_utf8_encode_utf8(read);
        assert(name == read);
        let length = received.subrange(1, 5);
        law_network_order(n, length);
        assert(received.take(whole.len() as int) =~= whole) by {
            assert(length[0] == received[1] && length[1] == received[2]);
            assert(length[2] == received[3] && length[3] == received[4]);
            assert forall|i: int| 0 <= i < whole.len() implies received[i] == whole[i] by {
                if i >= 5 {
                    assert(read[i - 5] == received[i]);
                }
            }
        }
        assert(whole =~= received.subrange(0, whole.len() as int));
    }
    if 1 <= name.len() < 0x1_0000_0000 && whole.is_prefix_of(received) {
        lemma_part_of_header(request, file_name, whole);
        lemma_decided(whole, received.skip(whole.len() as int));
        assert(whole + received.skip(whole.len() as int) =~= received);
    }
}

/// What bytes mean that are no whole header. The first byte is refused unless it is 0
/// or 1, a name of length 0 is refused, a whole name is refused unless it is UTF-8, and
/// otherwise more is awaited, with nothing lost of what came.
pub proof fn law_meaning_of_other_bytes(received: Seq<u8>)
    ensures
        ({
            let length = received[1] * 0x100_0000 + received[2] * 0x1_0000 + received[3] * 0x100
                + received[4];
            let known = received.len() == 0 || received[0] == 0 || received[0] == 1;
            let whole = received.len() >= 5 && received.len() >= 5 + length;
            &&& meaning(received) == HeaderOutcome::UnknownRequest <==> !known
            &&& meaning(received) == HeaderOutcome::NoName <==> known && received.len() >= 5
                && length == 0
            &&& meaning(received) == HeaderOutcome::NameNotUtf8 <==> known && whole && length > 0
                && !vstd::utf8::valid_utf8(received.subrange(5, 5 + length))
            &&& meaning(received) == HeaderOutcome::More(received) <==> known && (received.len() < 5
                || length > 0 && !whole)
            &&& meaning(received) is More ==> meaning(received) == HeaderOutcome::More(received)
            &&& !(meaning(received) is NoRequest) && !(meaning(received) is NoNameLength)
        }),
{
    if received.len() >= 5 {
        let length = received.subrange(1, 5);
        assert(length[0] == received[1] && length[1] == received[2]);
        assert(length[2] == received[3] && length[3] == received[4]);
    }
}

/// A read that delivers something adds it to what came before. One that delivers
/// nothing ends the stream, and the part of the header that is missing is the error.
pub proof fn law_reads_add_up(received: Seq<u8>, bytes: Seq<u8>)
    ensures
        bytes.len() > 0 ==> after_read(received, bytes) == meaning(received + bytes),
        bytes.len() == 0 && received.len() == 0 ==> after_read(received, bytes)
            == HeaderOutcome::NoRequest,
        bytes.len() == 0 && 1 <= received.len() < 5 ==> after_read(received, bytes)
            == HeaderOutcome::NoNameLength,
        bytes.len() == 0 && received.len() >= 5 ==> after_read(received, bytes)
            == HeaderOutcome::NoName,
{
}

/// A read never goes past the part of the header that it is for: the first byte, the
/// length that ends with the fifth, or the name that ends as many bytes later as the
/// length says.
pub proof fn law_reads_stay_in_their_part(received: Seq<u8>)
    ensures
        received.len() == 0 ==> received.len() + wanted(received) == 1,
        1 <= received.len() < 5 ==> received.len() + wanted(received) == 5,
        received.len() >= 5 ==> received.len() + wanted(received) == 5 + received[1] * 0x100_0000
            + received[2] * 0x1_0000 + received[3] * 0x100 + received[4],
        meaning(received) is More ==> wanted(received) > 0,
{
    if received.len() >= 5 {
        let length = received.subrange(1, 5);
        assert(length[0] == received[1] && length[1] == received[2]);
        assert(length[2] == received[3] && length[3] == received[4]);
    }
}

/// Results are told apart: each stands for one outcome, with what it holds.
pub proof fn law_header_results(
    reader: HeaderReader,
    request: TransmitRequest,
    file_name: String,
    error: FromUtf8Error,
)
    ensures
        header_outcome(Ok(HeaderStep::More(reader))) == HeaderOutcome::More(reader@),
        header_outcome(Ok(HeaderStep::Done { request, file_name })) == HeaderOutcome::Done(
            request,
            file_name@,
        ),
        header_outcome(Err(HeaderError::NoRequest)) == HeaderOutcome::NoRequest,
        header_outcome(Err(HeaderError::UnknownRequest)) == HeaderOutcome::UnknownRequest,
        header_outcome(Err(HeaderError::NoNameLength)) == HeaderOutcome::NoNameLength,
        header_outcome(Err(HeaderError::NoName)) == HeaderOutcome::NoName,
        header_outcome(Err(HeaderError::NameNotUtf8(error))) == HeaderOutcome::NameNotUtf8,
{
}

} // verus!
