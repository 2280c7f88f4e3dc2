//! Tag-length-value framing: one tag byte, one length byte, then the payload.

use vstd::prelude::*;
use vstd::slice::slice_subrange;

verus! {

/// Why a record could not be framed or read.
#[derive(Clone, Debug, PartialEq, Eq)]
pub enum TlvError {
    /// The tag byte names no record type.
    TagUnknown(u8),
    /// The buffer ends before the record does.
    WrongFormat,
    /// The payload is longer than one length byte can say.
    ExcessiveLength(usize),
}

/// The record types of the protocol.
#[derive(Clone, Copy, Debug, PartialEq, Eq, Structural)]
pub enum TlvType {
    Sum,
    Sub,
    Mul,
    Div,
    Rem,
    Fact,
    Numi64,
}

impl TlvType {
    /// The tag byte that stands for this record type on the wire.
    pub open spec fn code(self) -> u8 {
        match self {
            TlvType::Sum => 1,
            TlvType::Sub => 2,
            TlvType::Mul => 3,
            TlvType::Div => 4,
            TlvType::Rem => 5,
            TlvType::Fact => 6,
            TlvType::Numi64 => 16,
        }
    }

    /// The record type that a tag byte stands for, if any.
    pub open spec fn of_code(v: u8) -> Option<TlvType> {
        if v == 1 {
            Some(TlvType::Sum)
        } else if v == 2 {
            Some(TlvType::Sub)
        } else if v == 3 {
            Some(TlvType::Mul)
        } else if v == 4 {
            Some(TlvType::Div)
        } else if v == 5 {
            Some(TlvType::Rem)
        } else if v == 6 {
            Some(TlvType::Fact)
        } else if v == 16 {
            Some(TlvType::Numi64)
        } else {
            None
        }
    }

    /// The tag byte of this record type.
    pub fn to_byte(self) -> (b: u8)
        ensures
            b == self.code(),
    {
        match self {
            TlvType::Sum => 1,
            TlvType::Sub => 2,
            TlvType::Mul => 3,
            TlvType::Div => 4,
            TlvType::Rem => 5,
            TlvType::Fact => 6,
            TlvType::Numi64 => 16,
        }
    }

    /// Reads a tag byte: the record type it stands for, or `TagUnknown` with
    /// the byte.
    pub fn try_from(v: u8) -> (r: Result<TlvType, TlvError>)
        ensures
            r == match TlvType::of_code(v) {
                Some(t) => Ok::<TlvType, TlvError>(t),
                None => Err(TlvError::TagUnknown(v)),
            },
    {
        match v {
            1 => Ok(TlvType::Sum),
            2 => Ok(TlvType::Sub),
            3 => Ok(TlvType::Mul),
            4 => Ok(TlvType::Div),
            5 => Ok(TlvType::Rem),
            6 => Ok(TlvType::Fact),
            16 => Ok(TlvType::Numi64),
            x => Err(TlvError::TagUnknown(x)),
        }
    }
}

/// Every record type is read back from its own tag byte.
pub proof fn lemma_tag_round_trip(t: TlvType)
    ensures
        TlvType::of_code(t.code()) == Some(t),
{
}

/// What a record says: its type, its length byte and its payload.
pub struct TlvView {
    pub tag: TlvType,
    pub length: u8,
    pub data: Seq<u8>,
}

impl TlvView {
    /// The length byte counts the payload.
    pub open spec fn wf(self) -> bool {
        self.length as int == self.data.len()
    }

    /// The number of bytes that the record takes on the wire.
    pub open spec fn wire_len(self) -> int {
        2 + self.length as int
    }
}

/// The bytes that frame `data` under `tag`: tag byte, length byte, payload.
pub open spec fn encode_spec(tag: TlvType, data: Seq<u8>) -> Seq<u8> {
    seq![tag.code(), data.len() as u8] + data
}

/// The record at the start of `bytes`, or why there is none.
pub open spec fn decode_spec(bytes: Seq<u8>) -> Result<TlvView, TlvError> {
    if bytes.len() < 2 {
        Err(TlvError::WrongFormat)
    } else if TlvType::of_code(bytes[0]) is None {
        Err(TlvError::TagUnknown(bytes[0]))
    } else if bytes.len() < 2 + bytes[1] as int {
        Err(TlvError::WrongFormat)
    } else {
        Ok(
            TlvView {
                tag: TlvType::of_code(bytes[0])->0,
                length: bytes[1],
                data: bytes.subrange(2, 2 + bytes[1] as int),
            },
        )
    }
}

/// A record read from a buffer. It borrows its payload from that buffer.
#[derive(Debug)]
pub struct Tlv<'a> {
    pub tag: TlvType,
    pub length: u8,
    pub data: &'a [u8],
}

impl<'a> View for Tlv<'a> {
    type V = TlvView;

    open spec fn view(&self) -> TlvView {
        TlvView { tag: self.tag, length: self.length, data: self.data@ }
    }
}

impl<'a> Tlv<'a> {
    /// Frames `data` under `tag`. A payload of more than 255 bytes is refused
    /// with `ExcessiveLength` and its length.
    pub fn encode(tag: TlvType, data: &[u8]) -> (r: Result<Vec<u8>, TlvError>)
        ensures
            data@.len() <= 255 ==> (r matches Ok(v) && v@ == encode_spec(tag, data@)),
            data@.len() > 255 ==> r == Err::<Vec<u8>, TlvError>(
                TlvError::ExcessiveLength(data.len()),
            ),
    {
        let n: usize = data.len();
        if n <= 255 {
            let mut res: Vec<u8> = Vec::new();
            res.push(tag.to_byte());
            res.push(n as u8);
            res.extend_from_slice(data);
            assert(res@ =~= encode_spec(tag, data@));
            Ok(res)
        } else {
            Err(TlvError::ExcessiveLength(n))
        }
    }

    /// The number of bytes that this record took from its buffer.
    pub fn consumed(&self) -> (n: usize)
        ensures
            n == self@.wire_len(),
    {
        2 + self.length as usize
    }

    /// Reads the record at the start of `bytes`. Bytes after the record are
    /// left alone; the record takes `2 + length` of them.
    pub fn try_from(bytes: &'a [u8]) -> (r: Result<Tlv<'a>, TlvError>)
        ensures
            match decode_spec(bytes@) {
                Ok(t) => r matches Ok(tlv) && tlv@ == t,
                Err(e) => r matches Err(x) && x == e,
            },
    {
        if bytes.len() < 2 {
            return Err(TlvError::WrongFormat);
        }
        let tag = match TlvType::try_from(bytes[0]) {
            Ok(tag) => tag,
            Err(e) => {
                return Err(e);
            },
        };
        let length: u8 = bytes[1];
        let end: usize = 2 + length as usize;
        if bytes.len() < end {
            return Err(TlvError::WrongFormat);
        }
        Ok(Tlv { tag, length, data: slice_subrange(bytes, 2, end) })
    }
}

/// The records that lie back to back at the start of `bytes`, up to the first
/// place where none can be read.
pub open spec fn records(bytes: Seq<u8>) -> Seq<TlvView>
    decreases bytes.len(),
{
    match decode_spec(bytes) {
        Ok(t) => seq![t] + records(bytes.skip(t.wire_len())),
        Err(_) => Seq::empty(),
    }
}

/// A single pass over the records of one buffer.
pub struct TlvIterator<'a> {
    buf: &'a [u8],
    index: usize,
}

impl<'a> TlvIterator<'a> {
    #[verifier::type_invariant]
    spec fn inv(self) -> bool {
        self.index <= self.buf@.len()
    }

    /// The bytes that the pass has not read yet.
    pub closed spec fn remaining(self) -> Seq<u8> {
        self.buf@.skip(self.index as int)
    }

    /// Starts a pass at the first byte of `buf`.
    pub fn process(buf: &'a [u8]) -> (it: Self)
        ensures
            it.remaining() == buf@,
    {
        let it = Self { buf, index: 0 };
        assert(it.remaining() =~= buf@);
        it
    }

    /// Reads the next record and moves past it. Where no record can be read,
    /// for whatever reason, the pass is over and stays where it is.
    pub fn next(&mut self) -> (r: Option<Tlv<'a>>)
        ensures
            match decode_spec(old(self).remaining()) {
                Ok(t) => r matches Some(tlv) && tlv@ == t && final(self).remaining() == old(
                    self,
                ).remaining().skip(t.wire_len()),
                Err(_) => r is None && final(self).remaining() == old(self).remaining(),
            },
    {
        proof {
            use_type_invariant(&*self);
        }
        let rest = slice_subrange(self.buf, self.index, self.buf.len());
        assert(rest@ =~= self.remaining());
        match Tlv::try_from(rest) {
            Ok(tlv) => {
                assert(self.remaining().skip(tlv@.wire_len()) =~= self.buf@.skip(
                    self.index + tlv@.wire_len(),
                ));
                self.index = self.index + tlv.consumed();
                Some(tlv)
            },
            Err(_) => None,
        }
    }

    /// Reads every record that is left, in order.
    pub fn collect(self) -> (out: Vec<Tlv<'a>>)
        ensures
            out@.len() == records(self.remaining()).len(),
            forall|i: int| 0 <= i < out@.len() ==> (#[trigger] out@[i])@ == records(self.remaining())[i],
    {
        let mut it = self;
        let mut out: Vec<Tlv<'a>> = Vec::new();
        let ghost all = records(self.remaining());
        loop
            invariant
                all == records(self.remaining()),
                out@.len() <= all.len(),
                forall|i: int| 0 <= i < out@.len() ==> (#[trigger] out@[i])@ == all[i],
                all.skip(out@.len() as int) == records(it.remaining()),
            decreases it.remaining().len(),
        {
            let ghost before = it.remaining();
            match it.next() {
                Some(tlv) => {
                    proof {
                        let t = tlv@;
                        assert(records(before) == seq![t] + records(before.skip(t.wire_len())));
                        assert(all.skip(out@.len() as int)[0] == t);
                        assert(all.skip(out@.len() as int + 1) =~= all.skip(
                            out@.len() as int,
                        ).skip(1));
                        assert((seq![t] + records(it.remaining())).skip(1) =~= records(
                            it.remaining(),
                        ));
                    }
                    out.push(tlv);
                },
                None => {
                    proof {
                        assert(records(before) =~= Seq::<TlvView>::empty());
                        assert(all.skip(out@.len() as int).len() == 0);
                    }
                    return out;
                },
            }
        }
    }
}

/// A record that was read holds as many payload bytes as its length byte
/// says, and its frame is the start of the buffer it was read from.
pub proof fn lemma_encode_decoded(bytes: Seq<u8>)
    ensures
        decode_spec(bytes) matches Ok(t) ==> t.wf() && t.wire_len() <= bytes.len() && encode_spec(
            t.tag,
            t.data,
        ) == bytes.take(t.wire_len()),
{
    if let Ok(t) = decode_spec(bytes) {
        assert(encode_spec(t.tag, t.data) =~= bytes.take(t.wire_len()));
    }
}

/// The bytes of the records `rs`, framed one after the other.
pub open spec fn encode_all(rs: Seq<TlvView>) -> Seq<u8>
    decreases rs.len(),
{
    if rs.len() == 0 {
        Seq::empty()
    } else {
        encode_spec(rs[0].tag, rs[0].data) + encode_all(rs.drop_first())
    }
}

/// A framed record is read back as it was, whatever follows it, and reading
/// it takes exactly its own bytes.
pub proof fn lemma_decode_encoded(t: TlvView, rest: Seq<u8>)
    requires
        t.wf(),
    ensures
        decode_spec(encode_spec(t.tag, t.data) + rest) == Ok::<TlvView, TlvError>(t),
        (encode_spec(t.tag, t.data) + rest).skip(t.wire_len()) == rest,
{
    let bytes = encode_spec(t.tag, t.data) + rest;
    lemma_tag_round_trip(t.tag);
    assert(bytes[0] == t.tag.code());
    assert(bytes[1] == t.length);
    assert(bytes.subrange(2, 2 + t.length as int) =~= t.data);
    assert(bytes.skip(t.wire_len()) =~= rest);
}

/// Records framed back to back, followed by bytes that start no record, are
/// read back as exactly those records, in order.
pub proof fn lemma_records_before_unreadable_tail(rs: Seq<TlvView>, tail: Seq<u8>)
    requires
        forall|i: int| 0 <= i < rs.len() ==> (#[trigger] rs[i]).wf(),
        decode_spec(tail) is Err,
    ensures
        records(encode_all(rs) + tail) == rs,
    decreases rs.len(),
{
    if rs.len() == 0 {
        assert(encode_all(rs) + tail =~= tail);
        assert(records(tail) =~= rs);
    } else {
        let first = rs[0];
        let others = rs.drop_first();
        let rest = encode_all(others) + tail;
        assert forall|i: int| 0 <= i < others.len() implies (#[trigger] others[i]).wf() by {
            assert(others[i] == rs[i + 1]);
        }
        lemma_records_before_unreadable_tail(others, tail);
        lemma_decode_encoded(first, rest);
        assert(encode_all(rs) + tail =~= encode_spec(first.tag, first.data) + rest);
        assert(seq![first] + others =~= rs);
    }
}

/// Framing law: reading the concatenation of any number of framed records
/// yields exactly those records, in the order in which they were framed.
pub proof fn lemma_framing(rs: Seq<TlvView>)
    requires
        forall|i: int| 0 <= i < rs.len() ==> (#[trigger] rs[i]).wf(),
    ensures
        records(encode_all(rs)) == rs,
{
    lemma_records_before_unreadable_tail(rs, Seq::empty());
    assert(encode_all(rs) + Seq::<u8>::empty() =~= encode_all(rs));
}

/// Framing law with a cut-off record at the end: the first `k` bytes of one
/// more framed record, `k` short of the whole, add no record to what is read.
pub proof fn lemma_framing_with_partial_record(rs: Seq<TlvView>, last: TlvView, k: int)
    requires
        forall|i: int| 0 <= i < rs.len() ==> (#[trigger] rs[i]).wf(),
        last.wf(),
        0 <= k < last.wire_len(),
    ensures
        records(encode_all(rs) + encode_spec(last.tag, last.data).subrange(0, k)) == rs,
{
    let part = encode_spec(last.tag, last.data).subrange(0, k);
    if k >= 2 {
        lemma_tag_round_trip(last.tag);
        assert(part[0] == last.tag.code());
        assert(part[1] == last.length);
    }
    lemma_records_before_unreadable_tail(rs, part);
}

} // verus!
