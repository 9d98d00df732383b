//! The byte format of a change request. A request is an opcode byte
//! followed by length-prefixed UTF-8 fields; each length is eight bytes,
//! little-endian.
use vstd::bytes::{
    lemma_auto_spec_u64_to_from_le_bytes, spec_u64_from_le_bytes, spec_u64_to_le_bytes,
    u64_from_le_bytes, u64_to_le_bytes,
};
use crate::index::{KindModel, Operation, OperationModel};
use vstd::prelude::*;
use vstd::slice::{slice_subrange, slice_to_vec};
use vstd::utf8::{
    decode_utf8, encode_utf8, encode_utf8_decode_utf8, encode_utf8_valid_utf8, valid_utf8,
};

verus! {

pub const CODE_PUT: u8 = 1;

pub const CODE_DEL: u8 = 2;

/// Why a byte stream does not hold a request.
#[derive(Debug, Clone, Copy, PartialEq, Eq, Structural)]
pub enum RequestParseError {
    /// The stream ended before a declared field was complete.
    Truncated,
    /// A path or contents field is not valid UTF-8.
    FromUtf8,
    /// The first byte is no known opcode; it is carried here.
    InvalidCode(u8),
}

/// A change as it travels between peers: the path is relative to the
/// sync root.
#[derive(Debug, Clone, PartialEq, Eq)]
pub enum Request {
    Put { path: String, contents: String },
    Del { path: String },
}

/// The mathematical form of a [`Request`].
pub enum RequestView {
    Put { path: Seq<char>, contents: Seq<char> },
    Del { path: Seq<char> },
}

impl View for Request {
    type V = RequestView;

    open spec fn view(&self) -> RequestView {
        match self {
            Request::Put { path, contents } => RequestView::Put {
                path: path@,
                contents: contents@,
            },
            Request::Del { path } => RequestView::Del { path: path@ },
        }
    }
}

/// The kind of operation that applying `r` records.
pub open spec fn kind_of(r: RequestView) -> KindModel {
    match r {
        RequestView::Put { path, contents } => KindModel::Create { path, contents },
        RequestView::Del { path } => KindModel::Remove { path },
    }
}

/// A text field on the wire: its byte length, then its UTF-8 bytes.
pub open spec fn field(s: Seq<char>) -> Seq<u8> {
    spec_u64_to_le_bytes(encode_utf8(s).len() as u64) + encode_utf8(s)
}

/// The bytes that encode `r`.
pub open spec fn encoding(r: RequestView) -> Seq<u8> {
    match r {
        RequestView::Put { path, contents } => seq![CODE_PUT] + field(path) + field(contents),
        RequestView::Del { path } => seq![CODE_DEL] + field(path),
    }
}

/// Whether each text of `r` has a byte length that its length prefix can hold.
pub open spec fn representable(r: RequestView) -> bool {
    match r {
        RequestView::Put { path, contents } => encode_utf8(path).len() <= u64::MAX
            && encode_utf8(contents).len() <= u64::MAX,
        RequestView::Del { path } => encode_utf8(path).len() <= u64::MAX,
    }
}

/// The length declared by the eight bytes of `b` from `at`.
pub open spec fn declared_len(b: Seq<u8>, at: int) -> int {
    spec_u64_from_le_bytes(b.subrange(at, at + 8)) as int
}

/// Reads the text field that starts at `at`: the text and the position
/// just past it.
pub open spec fn read_field(b: Seq<u8>, at: int) -> Result<(Seq<char>, int), RequestParseError> {
    if b.len() < at + 8 {
        Err(RequestParseError::Truncated)
    } else if b.len() < at + 8 + declared_len(b, at) {
        Err(RequestParseError::Truncated)
    } else {
        let bytes = b.subrange(at + 8, at + 8 + declared_len(b, at));
        if valid_utf8(bytes) {
            Ok((decode_utf8(bytes), at + 8 + declared_len(b, at)))
        } else {
            Err(RequestParseError::FromUtf8)
        }
    }
}

/// What a stream that holds exactly `b` decodes to.
pub open spec fn decoding(b: Seq<u8>) -> Result<RequestView, RequestParseError> {
    if b.len() == 0 {
        Err(RequestParseError::Truncated)
    } else if b[0] == CODE_PUT {
        match read_field(b, 1) {
            Err(e) => Err(e),
            Ok((path, at)) => match read_field(b, at) {
                Err(e) => Err(e),
                Ok((contents, _)) => Ok(RequestView::Put { path, contents }),
            },
        }
    } else if b[0] == CODE_DEL {
        match read_field(b, 1) {
            Err(e) => Err(e),
            Ok((path, _)) => Ok(RequestView::Del { path }),
        }
    } else {
        Err(RequestParseError::InvalidCode(b[0]))
    }
}

/// How many more bytes the text field that starts at `at` needs before it
/// is complete.
pub open spec fn field_wanted(b: Seq<u8>, at: int) -> int {
    if b.len() < at + 8 {
        at + 8 - b.len()
    } else if b.len() < at + 8 + declared_len(b, at) {
        at + 8 + declared_len(b, at) - b.len()
    } else {
        0
    }
}

/// How many more bytes a decoder that has received `b` reads before it
/// knows the outcome; zero once it does.
pub open spec fn wanted(b: Seq<u8>) -> int {
    if b.len() == 0 {
        1
    } else if b[0] == CODE_PUT {
        if field_wanted(b, 1) > 0 {
            field_wanted(b, 1)
        } else {
            match read_field(b, 1) {
                Err(_) => 0,
                Ok((_, at)) => field_wanted(b, at),
            }
        }
    } else if b[0] == CODE_DEL {
        field_wanted(b, 1)
    } else {
        0
    }
}

/// Relies on `String::from_utf8`: it succeeds exactly on valid UTF-8, and
/// the string then holds the characters that the bytes encode.
#[verifier::external_body]
fn text_of(bytes: Vec<u8>) -> (r: Option<String>)
    ensures
        r is Some <==> valid_utf8(bytes@),
        r matches Some(s) ==> s@ == decode_utf8(bytes@),
{
    String::from_utf8(bytes).ok()
}

fn append_bytes(out: &mut Vec<u8>, b: &[u8])
    ensures
        final(out)@ == old(out)@ + b@,
{
    let mut i: usize = 0;
    while i < b.len()
        invariant
            i <= b@.len(),
            out@ == old(out)@ + b@.subrange(0, i as int),
        decreases b@.len() - i,
    {
        out.push(b[i]);
        i = i + 1;
        assert(out@ =~= old(out)@ + b@.subrange(0, i as int));
    }
    assert(b@.subrange(0, b@.len() as int) =~= b@);
}

fn write_field(out: &mut Vec<u8>, text: &String)
    ensures
        final(out)@ == old(out)@ + field(text@),
{
    let bytes = text.as_str().as_bytes();
    let len = u64_to_le_bytes(bytes.len() as u64);
    append_bytes(out, len.as_slice());
    append_bytes(out, bytes);
    assert(final(out)@ =~= old(out)@ + field(text@));
}

/// Reads the text field of `b` that starts at `at`.
fn read_text(b: &[u8], at: usize) -> (r: Result<(String, usize), RequestParseError>)
    requires
        at <= b@.len(),
    ensures
        match r {
            Ok((text, end)) => read_field(b@, at as int) == Ok::<(Seq<char>, int), RequestParseError>((text@, end as int)),
            Err(e) => read_field(b@, at as int) == Err::<(Seq<char>, int), RequestParseError>(e),
        },
{
    if b.len() - at < 8 {
        return Err(RequestParseError::Truncated);
    }
    let n = u64_from_le_bytes(slice_subrange(b, at, at + 8));
    assert(n == declared_len(b@, at as int));
    if n > (b.len() - at - 8) as u64 {
        return Err(RequestParseError::Truncated);
    }
    let end = at + 8 + n as usize;
    let bytes = slice_to_vec(slice_subrange(b, at + 8, end));
    match text_of(bytes) {
        Some(text) => Ok((text, end)),
        None => Err(RequestParseError::FromUtf8),
    }
}

/// How many more bytes the text field of `b` at `at` needs.
fn field_needed(b: &[u8], at: usize) -> (r: u64)
    requires
        at <= b@.len(),
    ensures
        r == field_wanted(b@, at as int),
{
    if b.len() - at < 8 {
        return (8 - (b.len() - at)) as u64;
    }
    let n = u64_from_le_bytes(slice_subrange(b, at, at + 8));
    assert(n == declared_len(b@, at as int));
    let have = (b.len() - at - 8) as u64;
    if n > have {
        n - have
    } else {
        0
    }
}

/// A complete field of text `s` at `at` reads back as `s`.
proof fn lemma_read_field(b: Seq<u8>, at: int, s: Seq<char>)
    requires
        0 <= at,
        encode_utf8(s).len() <= u64::MAX,
        at + field(s).len() <= b.len(),
        b.subrange(at, at + field(s).len()) == field(s),
    ensures
        read_field(b, at) == Ok::<(Seq<char>, int), RequestParseError>((s, at + field(s).len())),
{
    lemma_auto_spec_u64_to_from_le_bytes();
    let e = encode_utf8(s);
    let hdr = spec_u64_to_le_bytes(e.len() as u64);
    assert(hdr.len() == 8);
    assert forall|i: int| 0 <= i < 8 implies b.subrange(at, at + 8)[i] == hdr[i] by {
        assert(b.subrange(at, at + field(s).len())[i] == field(s)[i]);
    }
    assert(b.subrange(at, at + 8) =~= hdr);
    assert(declared_len(b, at) == e.len());
    assert forall|i: int| 0 <= i < e.len() implies b.subrange(at + 8, at + 8 + e.len())[i]
        == e[i] by {
        assert(b.subrange(at, at + field(s).len())[8 + i] == field(s)[8 + i]);
    }
    assert(b.subrange(at + 8, at + 8 + e.len()) =~= e);
    encode_utf8_valid_utf8(s);
    encode_utf8_decode_utf8(s);
}

/// A field of text `s` at `at` that the end of `b` cuts short reads as
/// truncated.
proof fn lemma_read_field_cut(b: Seq<u8>, at: int, s: Seq<char>)
    requires
        0 <= at <= b.len() < at + field(s).len(),
        encode_utf8(s).len() <= u64::MAX,
        b.subrange(at, b.len() as int) == field(s).subrange(0, b.len() - at),
    ensures
        read_field(b, at) == Err::<(Seq<char>, int), RequestParseError>(RequestParseError::Truncated),
{
    lemma_auto_spec_u64_to_from_le_bytes();
    let e = encode_utf8(s);
    let hdr = spec_u64_to_le_bytes(e.len() as u64);
    assert(hdr.len() == 8);
    if b.len() >= at + 8 {
        assert forall|i: int| 0 <= i < 8 implies b.subrange(at, at + 8)[i] == hdr[i] by {
            assert(b.subrange(at, b.len() as int)[i] == field(s).subrange(0, b.len() - at)[i]);
        }
        assert(b.subrange(at, at + 8) =~= hdr);
        assert(declared_len(b, at) == e.len());
    }
}

/// A field that is complete in `b` reads the same whatever follows `b`;
/// one that is not reads as truncated.
proof fn lemma_field_settled(b: Seq<u8>, rest: Seq<u8>, at: int)
    requires
        0 <= at,
    ensures
        field_wanted(b, at) == 0 ==> read_field(b + rest, at) == read_field(b, at),
        field_wanted(b, at) > 0 ==> read_field(b, at) == Err::<(Seq<char>, int), RequestParseError>(
            RequestParseError::Truncated,
        ),
{
    let b2 = b + rest;
    if field_wanted(b, at) == 0 {
        assert(b2.subrange(at, at + 8) =~= b.subrange(at, at + 8));
        let n = declared_len(b, at);
        assert(b2.subrange(at + 8, at + 8 + n) =~= b.subrange(at + 8, at + 8 + n));
    }
}

/// The decoder reads exactly what it declares it wants: while
/// [`wanted`] is positive a stream that ends there is truncated, and once
/// it is zero the bytes that follow change nothing.
pub proof fn lemma_wanted_exact(b: Seq<u8>, rest: Seq<u8>)
    ensures
        wanted(b) > 0 ==> decoding(b) == Err::<RequestView, RequestParseError>(
            RequestParseError::Truncated,
        ),
        wanted(b) == 0 ==> decoding(b + rest) == decoding(b),
{
    if b.len() > 0 {
        let b2 = b + rest;
        assert(b2[0] == b[0]);
        lemma_field_settled(b, rest, 1);
        if b[0] == CODE_PUT && field_wanted(b, 1) == 0 {
            if let Ok((_, at)) = read_field(b, 1) {
                lemma_field_settled(b, rest, at);
            }
        }
    }
}

/// Decoding the encoding of a request gives the request back, whatever
/// follows it on the stream.
pub proof fn lemma_round_trip(r: RequestView, rest: Seq<u8>)
    requires
        representable(r),
    ensures
        decoding(encoding(r) + rest) == Ok::<RequestView, RequestParseError>(r),
{
    let b = encoding(r) + rest;
    match r {
        RequestView::Put { path, contents } => {
            let fp = field(path);
            let n = fp.len() as int;
            let fc = field(contents);
            let m = fc.len() as int;
            assert(b.subrange(1, 1 + n) =~= fp);
            lemma_read_field(b, 1, path);
            assert(b.subrange(1 + n, 1 + n + m) =~= fc);
            lemma_read_field(b, 1 + n, contents);
        },
        RequestView::Del { path } => {
            let fp = field(path);
            let n = fp.len() as int;
            assert(b.subrange(1, 1 + n) =~= fp);
            lemma_read_field(b, 1, path);
        },
    }
}

/// A stream whose first byte is no opcode fails with that byte.
pub proof fn lemma_invalid_code(b: Seq<u8>)
    requires
        b.len() > 0,
        b[0] != CODE_PUT,
        b[0] != CODE_DEL,
    ensures
        decoding(b) == Err::<RequestView, RequestParseError>(RequestParseError::InvalidCode(b[0])),
{
}

/// A stream that ends anywhere inside an encoded request fails as
/// truncated.
pub proof fn lemma_truncated(r: RequestView, k: int)
    requires
        representable(r),
        0 <= k < encoding(r).len(),
    ensures
        decoding(encoding(r).subrange(0, k)) == Err::<RequestView, RequestParseError>(
            RequestParseError::Truncated,
        ),
{
    let e = encoding(r);
    let b = e.subrange(0, k);
    if k > 0 {
        match r {
            RequestView::Put { path, contents } => {
                let fp = field(path);
                let n = fp.len() as int;
                let fc = field(contents);
                if k < 1 + n {
                    assert(b.subrange(1, k) =~= fp.subrange(0, k - 1));
                    lemma_read_field_cut(b, 1, path);
                } else {
                    assert(b.subrange(1, 1 + n) =~= fp);
                    lemma_read_field(b, 1, path);
                    assert(b.subrange(1 + n, k) =~= fc.subrange(0, k - 1 - n));
                    lemma_read_field_cut(b, 1 + n, contents);
                }
            },
            RequestView::Del { path } => {
                let fp = field(path);
                let n = fp.len() as int;
                assert(b.subrange(1, k) =~= fp.subrange(0, k - 1));
                lemma_read_field_cut(b, 1, path);
            },
        }
    }
}

impl Request {
    /// A file at `path` that now holds `contents`.
    pub fn put(path: String, contents: String) -> (r: Request)
        ensures
            r@ == (RequestView::Put { path: path@, contents: contents@ }),
    {
        Request::Put { path, contents }
    }

    /// A file at `path` that was removed.
    pub fn del(path: String) -> (r: Request)
        ensures
            r@ == (RequestView::Del { path: path@ }),
    {
        Request::Del { path }
    }

    /// The operation that records this request as coming from `device_addr`.
    pub fn into_operation(self, device_addr: String) -> (r: Operation)
        ensures
            r@ == (OperationModel { origin: device_addr@, kind: kind_of(self@) }),
    {
        match self {
            Request::Put { path, contents } => Operation::create(device_addr, path, contents),
            Request::Del { path } => Operation::remove(device_addr, path),
        }
    }

    /// Appends the encoding of this request to `writer`.
    pub fn write(self, writer: &mut Vec<u8>)
        ensures
            final(writer)@ == old(writer)@ + encoding(self@),
    {
        match self {
            Request::Put { path, contents } => {
                writer.push(CODE_PUT);
                write_field(writer, &path);
                write_field(writer, &contents);
                assert(final(writer)@ =~= old(writer)@ + encoding(self@));
            },
            Request::Del { path } => {
                writer.push(CODE_DEL);
                write_field(writer, &path);
                assert(final(writer)@ =~= old(writer)@ + encoding(self@));
            },
        }
    }

    /// Decodes the request held by a stream that ended after `bytes`.
    /// Bytes past the request are left aside.
    pub fn parse(bytes: &[u8]) -> (r: Result<Request, RequestParseError>)
        ensures
            match r {
                Ok(q) => decoding(bytes@) == Ok::<RequestView, RequestParseError>(q@),
                Err(e) => decoding(bytes@) == Err::<RequestView, RequestParseError>(e),
            },
    {
        if bytes.len() == 0 {
            return Err(RequestParseError::Truncated);
        }
        let code = bytes[0];
        if code == CODE_PUT {
            let (path, at) = match read_text(bytes, 1) {
                Ok(field) => field,
                Err(e) => return Err(e),
            };
            let (contents, _) = match read_text(bytes, at) {
                Ok(field) => field,
                Err(e) => return Err(e),
            };
            Ok(Request::put(path, contents))
        } else if code == CODE_DEL {
            let (path, _) = match read_text(bytes, 1) {
                Ok(field) => field,
                Err(e) => return Err(e),
            };
            Ok(Request::del(path))
        } else {
            Err(RequestParseError::InvalidCode(code))
        }
    }

    /// How many more bytes a decoder that has received `prefix` must read
    /// before it knows the outcome: zero once the request, or the error,
    /// is settled.
    pub fn bytes_needed(prefix: &[u8]) -> (r: u64)
        ensures
            r == wanted(prefix@),
    {
        if prefix.len() == 0 {
            return 1;
        }
        let code = prefix[0];
        if code == CODE_PUT {
            let first = field_needed(prefix, 1);
            if first > 0 {
                return first;
            }
            match read_text(prefix, 1) {
                Ok((_, at)) => field_needed(prefix, at),
                Err(_) => 0,
            }
        } else if code == CODE_DEL {
            field_needed(prefix, 1)
        } else {
            0
        }
    }
}

} // verus!
