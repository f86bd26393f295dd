//! The framing codec of the peer protocol.
//!
//! A message travels as one frame: a 1-byte type tag, a 2-byte big-endian
//! payload length, and the payload itself. Text payloads are UTF-8; boolean
//! payloads are the single byte `1` or `0`; a file chunk is packed as its two
//! flag bytes, a 2-byte big-endian name length, the UTF-8 name, and the raw
//! content bytes. `spec_parse` is the mathematical description of the
//! decoder, and the encoder is proved to invert it.

use vstd::prelude::*;
use vstd::slice::{slice_subrange, slice_to_vec};
use vstd::string::StrSliceExecFns;
use vstd::utf8::{decode_utf8, encode_utf8, valid_utf8};

use crate::errors::CustomError;
use crate::utils::file::FileInfo;

verus! {

/// Why a byte buffer failed to decode.
#[derive(Debug, Clone, Copy, PartialEq, Eq, Structural)]
pub enum CodecError {
    /// The buffer ends before the frame does; reading more bytes may help.
    Incomplete,
    /// The frame is malformed: unknown tag, bad boolean byte, bad UTF-8,
    /// or an inner length that overruns the payload.
    InvalidData,
}

/// The error type of `core::str::from_utf8`, opaque to the library.
#[verifier::external_type_specification]
#[verifier::external_body]
pub struct ExUtf8Error(core::str::Utf8Error);

/// Relies on `core::str::from_utf8`: it succeeds exactly on valid UTF-8
/// input, and then returns the string those bytes encode.
pub assume_specification[ core::str::from_utf8 ](v: &[u8]) -> (r: Result<
    &str,
    core::str::Utf8Error,
>)
    ensures
        r is Ok <==> valid_utf8(v@),
        r matches Ok(s) ==> s@ == decode_utf8(v@),
;

/// Abstract value of a `FileBuffer`: one bounded slice of a file.
#[verifier::ext_equal]
pub ghost struct ChunkView {
    pub is_begin: bool,
    pub is_end: bool,
    pub file_name: Seq<char>,
    pub buffer: Seq<u8>,
}

/// One bounded-size slice of a file's bytes, tagged with its position in
/// the stream: `is_begin` only on the first slice, `is_end` only on the
/// last, both on the single slice of a file that fits in one.
#[derive(Debug, Clone, PartialEq)]
pub struct FileBuffer {
    pub is_begin: bool,
    pub is_end: bool,
    pub file_name: String,
    pub buffer: Vec<u8>,
}

impl View for FileBuffer {
    type V = ChunkView;

    open spec fn view(&self) -> ChunkView {
        ChunkView {
            is_begin: self.is_begin,
            is_end: self.is_end,
            file_name: self.file_name@,
            buffer: self.buffer@,
        }
    }
}

/// Abstract value of a protocol message.
#[verifier::ext_equal]
pub ghost enum MessageView {
    Phrase(Seq<char>),
    Auth(Seq<char>),
    Authorize(bool),
    FileBuffer(ChunkView),
    Complete(bool),
}

/// One protocol message: free text, the auth handshake pair, a file chunk,
/// or the reserved completion marker.
#[derive(Debug, Clone, PartialEq)]
pub enum Message {
    Phrase(String),
    Auth(String),
    Authorize(bool),
    FileBuffer(FileBuffer),
    Complete(bool),
}

impl View for Message {
    type V = MessageView;

    open spec fn view(&self) -> MessageView {
        match self {
            Message::Phrase(s) => MessageView::Phrase(s@),
            Message::Auth(s) => MessageView::Auth(s@),
            Message::Authorize(b) => MessageView::Authorize(*b),
            Message::FileBuffer(fb) => MessageView::FileBuffer(fb@),
            Message::Complete(b) => MessageView::Complete(*b),
        }
    }
}

/// The wire byte of a boolean payload.
pub open spec fn bool_byte(b: bool) -> u8 {
    if b {
        1
    } else {
        0
    }
}

/// A length as two big-endian bytes.
pub open spec fn spec_u16_be(n: int) -> Seq<u8>
    recommends
        0 <= n <= 0xFFFF,
{
    seq![(n / 256) as u8, (n % 256) as u8]
}

impl ChunkView {
    /// The packed form of a chunk: flags, name length, name, content.
    pub open spec fn payload(self) -> Seq<u8> {
        seq![bool_byte(self.is_begin), bool_byte(self.is_end)] + spec_u16_be(
            encode_utf8(self.file_name).len() as int,
        ) + encode_utf8(self.file_name) + self.buffer
    }

    /// The chunk's name fits its 2-byte length field.
    pub open spec fn wf(self) -> bool {
        encode_utf8(self.file_name).len() <= 0xFFFF
    }
}

impl MessageView {
    /// The type tag identifying the variant on the wire.
    pub open spec fn tag(self) -> u8 {
        match self {
            MessageView::Phrase(_) => 0,
            MessageView::Auth(_) => 1,
            MessageView::Authorize(_) => 2,
            MessageView::FileBuffer(_) => 3,
            MessageView::Complete(_) => 4,
        }
    }

    /// The variant-specific payload bytes.
    pub open spec fn payload(self) -> Seq<u8> {
        match self {
            MessageView::Phrase(s) => encode_utf8(s),
            MessageView::Auth(s) => encode_utf8(s),
            MessageView::Authorize(b) => seq![bool_byte(b)],
            MessageView::FileBuffer(c) => c.payload(),
            MessageView::Complete(b) => seq![bool_byte(b)],
        }
    }

    /// A message is well formed when its payload fits the 2-byte length
    /// field of the frame. Encoding never fails on a well-formed message.
    pub open spec fn wf(self) -> bool {
        self.payload().len() <= 0xFFFF
    }

    /// The full frame: tag, payload length, payload.
    pub open spec fn wire(self) -> Seq<u8> {
        seq![self.tag()] + spec_u16_be(self.payload().len() as int) + self.payload()
    }
}

/// The meaning of a chunk payload: `Some` exactly when the flag bytes are
/// `0` or `1`, the name length fits, and the name is valid UTF-8.
pub open spec fn spec_parse_chunk(p: Seq<u8>) -> Option<ChunkView> {
    if p.len() < 4 {
        Option::None
    } else {
        let nlen = (p[2] as int) * 256 + (p[3] as int);
        if p.len() < 4 + nlen {
            Option::None
        } else if p[0] > 1 || p[1] > 1 {
            Option::None
        } else {
            let name_bytes = p.subrange(4, 4 + nlen);
            if !valid_utf8(name_bytes) {
                Option::None
            } else {
                Option::Some(
                    ChunkView {
                        is_begin: p[0] == 1,
                        is_end: p[1] == 1,
                        file_name: decode_utf8(name_bytes),
                        buffer: p.subrange(4 + nlen, p.len() as int),
                    },
                )
            }
        }
    }
}

/// The meaning of a byte buffer under the framing codec: the first message
/// it holds and how many bytes that message occupies, or the reason it
/// holds none. Trailing bytes after the first frame are left untouched.
pub open spec fn spec_parse(bytes: Seq<u8>) -> Result<(MessageView, int), CodecError> {
    if bytes.len() < 1 {
        Result::Err(CodecError::Incomplete)
    } else if bytes[0] > 4 {
        Result::Err(CodecError::InvalidData)
    } else if bytes.len() < 3 {
        Result::Err(CodecError::Incomplete)
    } else {
        let plen = (bytes[1] as int) * 256 + (bytes[2] as int);
        if bytes.len() < 3 + plen {
            Result::Err(CodecError::Incomplete)
        } else {
            let p = bytes.subrange(3, 3 + plen);
            let n = 3 + plen;
            if bytes[0] == 0 {
                if valid_utf8(p) {
                    Result::Ok((MessageView::Phrase(decode_utf8(p)), n))
                } else {
                    Result::Err(CodecError::InvalidData)
                }
            } else if bytes[0] == 1 {
                if valid_utf8(p) {
                    Result::Ok((MessageView::Auth(decode_utf8(p)), n))
                } else {
                    Result::Err(CodecError::InvalidData)
                }
            } else if bytes[0] == 2 {
                if plen >= 1 && p[0] <= 1 {
                    Result::Ok((MessageView::Authorize(p[0] == 1), n))
                } else {
                    Result::Err(CodecError::InvalidData)
                }
            } else if bytes[0] == 3 {
                match spec_parse_chunk(p) {
                    Option::Some(c) => Result::Ok((MessageView::FileBuffer(c), n)),
                    Option::None => Result::Err(CodecError::InvalidData),
                }
            } else {
                if plen >= 1 && p[0] <= 1 {
                    Result::Ok((MessageView::Complete(p[0] == 1), n))
                } else {
                    Result::Err(CodecError::InvalidData)
                }
            }
        }
    }
}

impl Message {
    /// The type tag identifying the variant on the wire.
    pub fn type_tag(&self) -> (r: u8)
        ensures
            r == self@.tag(),
    {
        match self {
            Message::Phrase(_) => 0,
            Message::Auth(_) => 1,
            Message::Authorize(_) => 2,
            Message::FileBuffer(_) => 3,
            Message::Complete(_) => 4,
        }
    }

    /// Encodes the message into one frame.
    pub fn encode(&self) -> (r: Vec<u8>)
        requires
            self@.wf(),
        ensures
            r@ == self@.wire(),
    {
        let mut payload: Vec<u8> = match self {
            Message::Phrase(s) => s.as_str().as_bytes_vec(),
            Message::Auth(s) => s.as_str().as_bytes_vec(),
            Message::Authorize(b) => {
                let mut v: Vec<u8> = Vec::new();
                v.push(if *b { 1 } else { 0 });
                v
            },
            Message::FileBuffer(fb) => {
                match fb.encode_chunk() {
                    Ok(v) => v,
                    Err(_) => {
                        // unreachable: wf bounds the name length
                        Vec::new()
                    },
                }
            },
            Message::Complete(b) => {
                let mut v: Vec<u8> = Vec::new();
                v.push(if *b { 1 } else { 0 });
                v
            },
        };
        let mut out: Vec<u8> = Vec::new();
        out.push(self.type_tag());
        out.push((payload.len() / 256) as u8);
        out.push((payload.len() % 256) as u8);
        out.append(&mut payload);
        proof {
            assert(out@ =~= self@.wire());
        }
        out
    }

    /// Encodes the message when it is well formed; reports the oversized
    /// payload otherwise. This is the total-function face of `encode`.
    pub fn try_encode(&self) -> (r: Option<Vec<u8>>)
        ensures
            self@.wf() ==> (r matches Some(v) && v@ == self@.wire()),
            !self@.wf() ==> r is None,
    {
        let fits: bool = match self {
            Message::Phrase(s) => s.as_str().as_bytes().len() <= 0xFFFF,
            Message::Auth(s) => s.as_str().as_bytes().len() <= 0xFFFF,
            Message::Authorize(_) => true,
            Message::FileBuffer(fb) => {
                let name_len = fb.file_name.as_str().as_bytes().len();
                if name_len > 0xFFFF {
                    false
                } else if fb.buffer.len() > 0xFFFF {
                    false
                } else {
                    4 + name_len + fb.buffer.len() <= 0xFFFF
                }
            },
            Message::Complete(_) => true,
        };
        if fits {
            Some(self.encode())
        } else {
            None
        }
    }

    /// Decodes the first frame of the buffer, returning the message and the
    /// number of bytes it occupied, exactly as `spec_parse` describes.
    pub fn decode(bytes: &Vec<u8>) -> (r: Result<(Message, usize), CodecError>)
        ensures
            match r {
                Ok(p) => spec_parse(bytes@) matches Ok(q) && q.0 == p.0@ && q.1 == p.1 as int,
                Err(e) => spec_parse(bytes@) matches Err(e2) && e2 == e,
            },
    {
        if bytes.len() < 1 {
            return Err(CodecError::Incomplete);
        }
        let tag = bytes[0];
        if tag > 4 {
            return Err(CodecError::InvalidData);
        }
        if bytes.len() < 3 {
            return Err(CodecError::Incomplete);
        }
        let plen: usize = (bytes[1] as usize) * 256 + (bytes[2] as usize);
        if bytes.len() - 3 < plen {
            return Err(CodecError::Incomplete);
        }
        let p: Vec<u8> = slice_to_vec(slice_subrange(bytes.as_slice(), 3, 3 + plen));
        let n = 3 + plen;
        if tag == 0 {
            match core::str::from_utf8(p.as_slice()) {
                Ok(s) => Ok((Message::Phrase(s.to_owned()), n)),
                Err(_) => Err(CodecError::InvalidData),
            }
        } else if tag == 1 {
            match core::str::from_utf8(p.as_slice()) {
                Ok(s) => Ok((Message::Auth(s.to_owned()), n)),
                Err(_) => Err(CodecError::InvalidData),
            }
        } else if tag == 2 {
            if plen >= 1 && p[0] <= 1 {
                Ok((Message::Authorize(p[0] == 1), n))
            } else {
                Err(CodecError::InvalidData)
            }
        } else if tag == 3 {
            let mut fb = FileBuffer::default();
            match fb.decode_chunk(p.as_slice()) {
                Ok(_) => Ok((Message::FileBuffer(fb), n)),
                Err(_) => Err(CodecError::InvalidData),
            }
        } else {
            if plen >= 1 && p[0] <= 1 {
                Ok((Message::Complete(p[0] == 1), n))
            } else {
                Err(CodecError::InvalidData)
            }
        }
    }
}

impl FileBuffer {
    /// A chunk that is not yet positioned in its stream: both flags clear.
    pub fn new(file_name: String, buffer: Vec<u8>) -> (r: Self)
        ensures
            r@ == (ChunkView {
                is_begin: false,
                is_end: false,
                file_name: file_name@,
                buffer: buffer@,
            }),
    {
        Self { is_begin: false, is_end: false, file_name, buffer }
    }

    /// How many content bytes the chunk carries.
    pub fn get_buffer_length(&self) -> (r: usize)
        ensures
            r == self@.buffer.len(),
    {
        self.buffer.len()
    }

    /// Packs the chunk into its payload form. Fails exactly when the name
    /// does not fit its 2-byte length field.
    pub fn encode_chunk(&self) -> (r: Result<Vec<u8>, CustomError>)
        ensures
            self@.wf() ==> (r matches Ok(v) && v@ == self@.payload()),
            !self@.wf() ==> r is Err,
    {
        let mut name_bytes = self.file_name.as_str().as_bytes_vec();
        if name_bytes.len() > 0xFFFF {
            return Err(CustomError::new(String::from_str("file name too long")));
        }
        let mut out: Vec<u8> = Vec::new();
        out.push(if self.is_begin { 1 } else { 0 });
        out.push(if self.is_end { 1 } else { 0 });
        out.push((name_bytes.len() / 256) as u8);
        out.push((name_bytes.len() % 256) as u8);
        out.append(&mut name_bytes);
        out.extend_from_slice(self.buffer.as_slice());
        proof {
            assert(out@ =~= self@.payload());
        }
        Ok(out)
    }

    /// Unpacks a chunk payload into `self`, replacing every field; leaves
    /// `self` unchanged on malformed input, exactly as `spec_parse_chunk`
    /// describes.
    pub fn decode_chunk(&mut self, buf: &[u8]) -> (r: Result<(), CustomError>)
        ensures
            match spec_parse_chunk(buf@) {
                Some(c) => r is Ok && final(self)@ == c,
                None => r is Err && final(self)@ == old(self)@,
            },
    {
        if buf.len() < 4 {
            return Err(CustomError::new(String::from_str("chunk payload too short")));
        }
        let b0 = *vstd::slice::slice_index_get(buf, 0);
        let b1 = *vstd::slice::slice_index_get(buf, 1);
        let h = *vstd::slice::slice_index_get(buf, 2);
        let l = *vstd::slice::slice_index_get(buf, 3);
        let nlen: usize = (h as usize) * 256 + (l as usize);
        if buf.len() - 4 < nlen {
            return Err(CustomError::new(String::from_str("chunk name overruns payload")));
        }
        if b0 > 1 || b1 > 1 {
            return Err(CustomError::new(String::from_str("chunk flag byte invalid")));
        }
        let name_slice = slice_subrange(buf, 4, 4 + nlen);
        match core::str::from_utf8(name_slice) {
            Ok(s) => {
                self.is_begin = b0 == 1;
                self.is_end = b1 == 1;
                self.file_name = s.to_owned();
                self.buffer = slice_to_vec(slice_subrange(buf, 4 + nlen, buf.len()));
                Ok(())
            },
            Err(_) => Err(CustomError::new(String::from_str("chunk name is not UTF-8"))),
        }
    }
}

impl Default for FileBuffer {
    /// An empty, unpositioned chunk.
    fn default() -> (r: Self)
        ensures
            r@ == (ChunkView {
                is_begin: false,
                is_end: false,
                file_name: Seq::<char>::empty(),
                buffer: Seq::<u8>::empty(),
            }),
    {
        Self { is_begin: false, is_end: false, file_name: String::new(), buffer: Vec::new() }
    }
}

/// Ability to move a message-like value to and from raw bytes.
pub trait BaseMessage {
    /// Encode the value into a byte buffer.
    fn encode(&self) -> Result<Vec<u8>, CustomError>;

    /// Replace the value with the one decoded from the buffer.
    fn decode(&mut self, buf: &[u8]) -> Result<(), CustomError>;
}

impl BaseMessage for FileBuffer {
    fn encode(&self) -> Result<Vec<u8>, CustomError> {
        self.encode_chunk()
    }

    fn decode(&mut self, buf: &[u8]) -> Result<(), CustomError> {
        self.decode_chunk(buf)
    }
}

/// A list of file records announced in one message.
#[derive(Debug, Clone)]
pub struct FilesInfoMessage {
    pub files: Vec<FileInfo>,
}

impl FilesInfoMessage {
    /// Wraps the records in a message.
    pub fn new(files: Vec<FileInfo>) -> (r: Self)
        ensures
            r.files@ == files@,
    {
        Self { files }
    }
}

/// How many chunks a buffer of `len` bytes yields at maximum chunk size
/// `size`: the ceiling of `len / size`.
pub open spec fn num_chunks(len: int, size: int) -> int
    recommends
        len >= 0,
        size >= 1,
{
    (len + size - 1) / size
}

/// The end of chunk `i` when splitting `len` bytes at size `size`.
pub open spec fn chunk_end(i: int, len: int, size: int) -> int {
    if (i + 1) * size <= len {
        (i + 1) * size
    } else {
        len
    }
}

/// The chunk sequence of splitting `data`, carried under `name`, at maximum
/// chunk size `size`: `is_begin` only on the first chunk, `is_end` only on
/// the last (both on a lone chunk), buffers covering `data` in order.
pub open spec fn spec_cut(name: Seq<char>, data: Seq<u8>, size: int) -> Seq<ChunkView>
    recommends
        size >= 1,
{
    Seq::new(
        num_chunks(data.len() as int, size) as nat,
        |i: int|
            ChunkView {
                is_begin: i == 0,
                is_end: i == num_chunks(data.len() as int, size) - 1,
                file_name: name,
                buffer: data.subrange(i * size, chunk_end(i, data.len() as int, size)),
            },
    )
}

pub proof fn lemma_num_chunks_bounds(len: int, size: int)
    requires
        len >= 0,
        size >= 1,
    ensures
        num_chunks(len, size) >= 0,
        num_chunks(len, size) * size >= len,
        len >= 1 ==> (num_chunks(len, size) - 1) * size <= len - 1,
        len == 0 ==> num_chunks(len, size) == 0,
        len >= 1 ==> num_chunks(len, size) == (len - 1) / size + 1,
{
    vstd::arithmetic::div_mod::lemma_fundamental_div_mod(len + size - 1, size);
    vstd::arithmetic::div_mod::lemma_mod_bound(len + size - 1, size);
    let q = (len + size - 1) / size;
    let r = (len + size - 1) % size;
    assert(num_chunks(len, size) * size >= len) by (nonlinear_arith)
        requires
            len + size - 1 == size * q + r,
            0 <= r < size,
            num_chunks(len, size) == q,
            size >= 1,
    ;
    assert(len >= 1 ==> (num_chunks(len, size) - 1) * size <= len - 1) by (nonlinear_arith)
        requires
            len + size - 1 == size * q + r,
            0 <= r < size,
            num_chunks(len, size) == q,
            size >= 1,
    ;
    assert(len == 0 ==> q == 0) by (nonlinear_arith)
        requires
            len + size - 1 == size * q + r,
            0 <= r < size,
            size >= 1,
            len >= 0,
    ;
    if len >= 1 {
        vstd::arithmetic::div_mod::lemma_fundamental_div_mod(len - 1, size);
        vstd::arithmetic::div_mod::lemma_mod_bound(len - 1, size);
        let q2 = (len - 1) / size;
        let r2 = (len - 1) % size;
        assert(q == q2 + 1) by (nonlinear_arith)
            requires
                len + size - 1 == size * q + r,
                len - 1 == size * q2 + r2,
                0 <= r < size,
                0 <= r2 < size,
                size >= 1,
        ;
    }
}

impl FileBuffer {
    /// Splits the chunk's content into in-order chunks of at most
    /// `max_buffer_length` bytes each, all under the chunk's file name:
    /// `ceil(len / max)` chunks, the first flagged `is_begin`, the last
    /// flagged `is_end`, a lone chunk flagged as both.
    pub fn cut_file_buff(&self, max_buffer_length: usize) -> (r: Vec<FileBuffer>)
        requires
            max_buffer_length >= 1,
        ensures
            r@.len() == num_chunks(self@.buffer.len() as int, max_buffer_length as int),
            forall|i: int|
                0 <= i < r@.len() ==> r@[i]@ == spec_cut(
                    self@.file_name,
                    self@.buffer,
                    max_buffer_length as int,
                )[i],
    {
        let ghost c = max_buffer_length as int;
        let ghost cut = spec_cut(self@.file_name, self@.buffer, c);
        let total = self.buffer.len();
        proof {
            lemma_num_chunks_bounds(total as int, c);
        }
        let mut r: Vec<FileBuffer> = Vec::new();
        if total == 0 {
            return r;
        }
        let n: usize = (total - 1) / max_buffer_length + 1;
        let mut j: usize = 0;
        let mut start: usize = 0;
        while j < n
            invariant
                1 <= total == self@.buffer.len(),
                c == max_buffer_length as int,
                c >= 1,
                n == num_chunks(total as int, c),
                cut == spec_cut(self@.file_name, self@.buffer, c),
                0 <= j <= n,
                j < n ==> start == j * c,
                j < n ==> start < total,
                r@.len() == j,
                forall|i: int| 0 <= i < j ==> r@[i]@ == cut[i],
            decreases n - j,
        {
            let end: usize = if max_buffer_length > total - start {
                total
            } else {
                start + max_buffer_length
            };
            proof {
                assert((j + 1) * c == j * c + c) by (nonlinear_arith);
                assert(end as int == chunk_end(j as int, total as int, c));
            }
            let piece = slice_to_vec(slice_subrange(self.buffer.as_slice(), start, end));
            let fb = FileBuffer {
                is_begin: j == 0,
                is_end: j == n - 1,
                file_name: self.file_name.clone(),
                buffer: piece,
            };
            r.push(fb);
            proof {
                assert(r@[j as int]@ =~= cut[j as int]);
                lemma_num_chunks_bounds(total as int, c);
                if j + 1 < n {
                    vstd::arithmetic::mul::lemma_mul_inequality(j + 1, n - 1, c);
                    assert((n - 1) * c <= total - 1);
                }
            }
            start = end;
            j = j + 1;
        }
        r
    }
}

/// The bytes a chunk stream carries, in order.
pub open spec fn assembled(chunks: Seq<ChunkView>) -> Seq<u8>
    decreases chunks.len(),
{
    if chunks.len() == 0 {
        Seq::empty()
    } else {
        assembled(chunks.drop_last()) + chunks.last().buffer
    }
}

proof fn lemma_assembled_prefix(name: Seq<char>, data: Seq<u8>, size: int, k: int)
    requires
        size >= 1,
        0 <= k <= num_chunks(data.len() as int, size),
    ensures
        assembled(spec_cut(name, data, size).take(k)) =~= data.take(
            if k * size <= data.len() {
                k * size
            } else {
                data.len() as int
            },
        ),
    decreases k,
{
    let cut = spec_cut(name, data, size);
    let len = data.len() as int;
    lemma_num_chunks_bounds(len, size);
    if k == 0 {
        assert(k * size == 0) by (nonlinear_arith)
            requires
                k == 0,
        ;
        assert(cut.take(0) =~= Seq::<ChunkView>::empty());
        assert(data.take(0) =~= Seq::<u8>::empty());
    } else {
        let n = num_chunks(len, size);
        assert(len >= 1);
        lemma_assembled_prefix(name, data, size, k - 1);
        assert(cut.take(k).drop_last() =~= cut.take(k - 1));
        assert(cut.take(k).last() == cut[k - 1]);
        assert((k - 1) * size + size == k * size) by (nonlinear_arith);
        vstd::arithmetic::mul::lemma_mul_inequality(k - 1, n - 1, size);
        assert((k - 1) * size <= (n - 1) * size <= len - 1);
        assert(assembled(cut.take(k)) == assembled(cut.take(k - 1)) + cut[k - 1].buffer);
        assert(cut[k - 1].buffer == data.subrange((k - 1) * size, chunk_end(k - 1, len, size)));
        let prev = if (k - 1) * size <= len {
            (k - 1) * size
        } else {
            len
        };
        assert(prev == (k - 1) * size);
        let cur = if k * size <= len {
            k * size
        } else {
            len
        };
        assert(chunk_end(k - 1, len, size) == cur);
        assert(data.take(prev) + data.subrange(prev, cur) =~= data.take(cur));
        assert(assembled(cut.take(k - 1)) == data.take(prev));
        assert(assembled(cut.take(k)) == data.take(prev) + data.subrange(prev, cur));
        assert(assembled(cut.take(k)) =~= data.take(cur));
    }
}

/// Reassembly: splitting a buffer and concatenating the chunk contents, in
/// order, gives back exactly the original buffer; the chunk count is
/// `ceil(len / size)`, and the position flags mark exactly the first and
/// the last chunk.
pub proof fn lemma_cut_reconstruct(name: Seq<char>, data: Seq<u8>, size: int)
    requires
        size >= 1,
    ensures
        spec_cut(name, data, size).len() == num_chunks(data.len() as int, size),
        forall|i: int|
            0 <= i < spec_cut(name, data, size).len() ==> {
                let c = #[trigger] spec_cut(name, data, size)[i];
                c.file_name == name && c.is_begin == (i == 0) && c.is_end == (i == spec_cut(
                    name,
                    data,
                    size,
                ).len() - 1)
            },
        assembled(spec_cut(name, data, size)) == data,
{
    let len = data.len() as int;
    let n = num_chunks(len, size);
    lemma_num_chunks_bounds(len, size);
    lemma_assembled_prefix(name, data, size, n);
    let cut = spec_cut(name, data, size);
    assert(cut.take(n) =~= cut);
    assert(n * size >= len);
    assert(data.take(len) =~= data);
}

/// Round trip: the frame of a well-formed message decodes back to exactly
/// that message, consuming exactly the frame, whatever bytes follow it on
/// the stream.
pub proof fn lemma_parse_wire(m: MessageView, rest: Seq<u8>)
    requires
        m.wf(),
    ensures
        spec_parse(m.wire() + rest) == Result::<(MessageView, int), CodecError>::Ok(
            (m, m.wire().len() as int),
        ),
{
    broadcast use vstd::utf8::encode_utf8_valid_utf8, vstd::utf8::encode_utf8_decode_utf8;

    let w = m.wire() + rest;
    let pay = m.payload();
    let plen = pay.len() as int;
    assert(w[0] == m.tag());
    assert(w[1] == (plen / 256) as u8);
    assert(w[2] == (plen % 256) as u8);
    assert((w[1] as int) * 256 + (w[2] as int) == plen);
    assert(w.len() >= 3 + plen);
    let p = w.subrange(3, 3 + plen);
    assert(p =~= pay);
    match m {
        MessageView::Phrase(s) => {
            assert(valid_utf8(p));
            assert(decode_utf8(p) == s);
        },
        MessageView::Auth(s) => {
            assert(valid_utf8(p));
            assert(decode_utf8(p) == s);
        },
        MessageView::Authorize(b) => {
            assert(p[0] == bool_byte(b));
        },
        MessageView::FileBuffer(c) => {
            let name = encode_utf8(c.file_name);
            let nlen = name.len() as int;
            assert(p[0] == bool_byte(c.is_begin));
            assert(p[1] == bool_byte(c.is_end));
            assert(p[2] == (nlen / 256) as u8);
            assert(p[3] == (nlen % 256) as u8);
            assert((p[2] as int) * 256 + (p[3] as int) == nlen);
            assert(p.subrange(4, 4 + nlen) =~= name);
            assert(p.subrange(4 + nlen, p.len() as int) =~= c.buffer);
            assert(valid_utf8(name));
            assert(decode_utf8(name) == c.file_name);
            assert(spec_parse_chunk(p) matches Some(parsed) && parsed =~= c);
        },
        MessageView::Complete(b) => {
            assert(p[0] == bool_byte(b));
        },
    }
}

} // verus!
