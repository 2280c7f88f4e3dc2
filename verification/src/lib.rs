//! TLV1: a length-prefixed binary protocol for requesting arithmetic
//! computations, with the operation model that gives the records meaning.

pub mod arith;
pub mod decimal;
pub mod grammar;
pub mod nonzero;
pub mod operation;
pub mod tlv;

pub use nonzero::NonZeroI8;
pub use tlv::Tlv;
pub use tlv::TlvIterator;

use arith::{
    be_bytes, be_value, byte_of, byte_to_i8, clamp_i64, div_i8, factorial, i64_from_be, i64_to_be,
    i8_to_byte, rem_i8, saturating_factorial, signed_of, signed_of_u64, trunc_div, trunc_rem,
    unsigned_of,
};
use decimal::{decimal_text, digits_of, parse_i8, parse_i8_spec, push_i8, push_u8};
use grammar::{captures_view, line_parts, regex_captures, search, symbol_of, symbol_spec, Symbol, PATTERN};
use tlv::{encode_spec, TlvType, TlvView};
use vstd::prelude::*;
use vstd::string::*;

verus! {

/// Why a record or a line of text is no operation or answer.
#[derive(Clone, Debug, PartialEq, Eq)]
pub enum TCPLibError {
    /// The operator symbol is not one of the protocol's; it is held here.
    UnsupportedOperation(String),
    /// The text has not the shape of an operation.
    Parse,
    /// The payload is shorter or longer than its record type asks.
    NotEnoughData,
    /// An operand is outside the operation's domain: a zero divisor, a
    /// negative factorial.
    InvalidParameter,
    /// An integer is no decimal number between -128 and 127.
    ParseIntError,
    /// Tag and length do not go together for what was asked.
    Generic,
}

/// What a `TCPLibError` says, with the symbol as characters.
pub enum ErrorKind {
    UnsupportedOperation(Seq<char>),
    Parse,
    NotEnoughData,
    InvalidParameter,
    ParseIntError,
    Generic,
}

impl View for TCPLibError {
    type V = ErrorKind;

    open spec fn view(&self) -> ErrorKind {
        match self {
            TCPLibError::UnsupportedOperation(s) => ErrorKind::UnsupportedOperation(s@),
            TCPLibError::Parse => ErrorKind::Parse,
            TCPLibError::NotEnoughData => ErrorKind::NotEnoughData,
            TCPLibError::InvalidParameter => ErrorKind::InvalidParameter,
            TCPLibError::ParseIntError => ErrorKind::ParseIntError,
            TCPLibError::Generic => ErrorKind::Generic,
        }
    }
}

/// A result with its error taken by what it says.
pub open spec fn outcome<T>(r: Result<T, TCPLibError>) -> Result<T, ErrorKind> {
    match r {
        Ok(v) => Ok(v),
        Err(e) => Err(e@),
    }
}

/// A 64-bit signed result, as it travels in a record.
#[derive(Clone, Copy, Debug, PartialEq, Eq)]
pub struct Answer {
    pub num: i64,
}

impl Answer {
    /// The framed bytes of this answer: tag `Numi64`, length 8, then the
    /// number in two's complement, most significant byte first.
    pub open spec fn wire(self) -> Seq<u8> {
        encode_spec(TlvType::Numi64, be_bytes(unsigned_of(self.num)))
    }

    /// The answer that a record holds. A record of another type or length
    /// holds none (`Generic`), nor does one whose payload is not the eight
    /// bytes that its length byte announces (`NotEnoughData`).
    pub open spec fn decode(t: TlvView) -> Result<Answer, ErrorKind> {
        if t.tag == TlvType::Numi64 && t.length == 8 {
            if t.data.len() == 8 {
                Ok(Answer { num: signed_of_u64(be_value(t.data)) })
            } else {
                Err(ErrorKind::NotEnoughData)
            }
        } else {
            Err(ErrorKind::Generic)
        }
    }

    /// Reads the answer that a record holds.
    pub fn try_from(tlv: Tlv) -> (r: Result<Answer, TCPLibError>)
        ensures
            outcome(r) == Answer::decode(tlv@),
    {
        if tlv.tag == TlvType::Numi64 && tlv.length == 8 {
            match i64_from_be(tlv.data) {
                Some(num) => Ok(Answer { num }),
                None => Err(TCPLibError::NotEnoughData),
            }
        } else {
            Err(TCPLibError::Generic)
        }
    }

    /// Frames this answer for the wire.
    pub fn encode(self) -> (v: Vec<u8>)
        ensures
            v@ == self.wire(),
    {
        let payload = i64_to_be(self.num);
        Tlv::encode(TlvType::Numi64, payload.as_slice()).unwrap()
    }
}

impl From<i64> for Answer {
    fn from(num: i64) -> (answer: Answer) {
        Answer { num }
    }
}

impl vstd::std_specs::convert::FromSpecImpl<i64> for Answer {
    open spec fn obeys_from_spec() -> bool {
        true
    }

    open spec fn from_spec(num: i64) -> Answer {
        Answer { num }
    }
}

/// An answer is read back from its own framed bytes.
pub proof fn lemma_answer_round_trip(answer: Answer)
    ensures
        tlv::decode_spec(answer.wire()) matches Ok(t) && Answer::decode(t) == Ok::<
            Answer,
            ErrorKind,
        >(answer),
{
    let payload = be_bytes(unsigned_of(answer.num));
    let t = TlvView { tag: TlvType::Numi64, length: 8, data: payload };
    arith::lemma_signed_round_trip(answer.num);
    arith::lemma_be_value_of_bytes(unsigned_of(answer.num));
    tlv::lemma_decode_encoded(t, Seq::empty());
    assert(answer.wire() + Seq::<u8>::empty() =~= answer.wire());
}

/// One arithmetic request. A divisor cannot be zero, and the operand of a
/// factorial cannot be negative.
#[allow(inconsistent_fields)]
#[derive(Clone, Copy, Debug, PartialEq, Eq)]
pub enum Operation {
    Sum { a: i8, b: i8 },
    Sub { a: i8, b: i8 },
    Mul { a: i8, b: i8 },
    Div { a: i8, b: NonZeroI8 },
    Rem { a: i8, b: NonZeroI8 },
    Fact(u8),
}

impl Operation {
    /// The operands are ones that a record or a line of text can give: a
    /// divisor other than zero, a factorial of at most 127.
    pub open spec fn wf(self) -> bool {
        match self {
            Operation::Div { a, b } => b.value() != 0,
            Operation::Rem { a, b } => b.value() != 0,
            Operation::Fact(n) => n <= 127,
            _ => true,
        }
    }

    /// The record type that carries this operation.
    pub open spec fn tag(self) -> TlvType {
        match self {
            Operation::Sum { .. } => TlvType::Sum,
            Operation::Sub { .. } => TlvType::Sub,
            Operation::Mul { .. } => TlvType::Mul,
            Operation::Div { .. } => TlvType::Div,
            Operation::Rem { .. } => TlvType::Rem,
            Operation::Fact(_) => TlvType::Fact,
        }
    }

    /// The payload of this operation: one byte for each operand.
    pub open spec fn payload(self) -> Seq<u8> {
        match self {
            Operation::Sum { a, b } => seq![byte_of(a), byte_of(b)],
            Operation::Sub { a, b } => seq![byte_of(a), byte_of(b)],
            Operation::Mul { a, b } => seq![byte_of(a), byte_of(b)],
            Operation::Div { a, b } => seq![byte_of(a), byte_of(b.value())],
            Operation::Rem { a, b } => seq![byte_of(a), byte_of(b.value())],
            Operation::Fact(n) => seq![n],
        }
    }

    /// The framed bytes of this operation.
    pub open spec fn wire(self) -> Seq<u8> {
        encode_spec(self.tag(), self.payload())
    }

    /// What this operation evaluates to. Quotient and remainder round toward
    /// zero; a factorial stays at the greatest signed 64-bit integer where
    /// the product is greater.
    pub open spec fn value(self) -> int {
        match self {
            Operation::Sum { a, b } => a + b,
            Operation::Sub { a, b } => a - b,
            Operation::Mul { a, b } => a * b,
            Operation::Div { a, b } => trunc_div(a as int, b.value() as int),
            Operation::Rem { a, b } => trunc_rem(a as int, b.value() as int),
            Operation::Fact(n) => clamp_i64(factorial(n as nat)) as int,
        }
    }

    /// The text of the first operand.
    pub open spec fn left_text(self) -> Seq<char> {
        match self {
            Operation::Sum { a, b } => decimal_text(a as int),
            Operation::Sub { a, b } => decimal_text(a as int),
            Operation::Mul { a, b } => decimal_text(a as int),
            Operation::Div { a, b } => decimal_text(a as int),
            Operation::Rem { a, b } => decimal_text(a as int),
            Operation::Fact(n) => digits_of(n as nat),
        }
    }

    /// The operator symbol that this operation is written with.
    pub open spec fn symbol(self) -> char {
        match self {
            Operation::Sum { .. } => '+',
            Operation::Sub { .. } => '-',
            Operation::Mul { .. } => '×',
            Operation::Div { .. } => '÷',
            Operation::Rem { .. } => '%',
            Operation::Fact(_) => '!',
        }
    }

    /// The text of the second operand, where there is one.
    pub open spec fn right_text(self) -> Option<Seq<char>> {
        match self {
            Operation::Sum { a, b } => Some(decimal_text(b as int)),
            Operation::Sub { a, b } => Some(decimal_text(b as int)),
            Operation::Mul { a, b } => Some(decimal_text(b as int)),
            Operation::Div { a, b } => Some(decimal_text(b.value() as int)),
            Operation::Rem { a, b } => Some(decimal_text(b.value() as int)),
            Operation::Fact(_) => None,
        }
    }

    /// The canonical text of this operation: first operand, symbol, second
    /// operand, with nothing between them.
    pub open spec fn text(self) -> Seq<char> {
        match self.right_text() {
            Some(right) => self.left_text() + seq![self.symbol()] + right,
            None => self.left_text() + seq![self.symbol()],
        }
    }

    /// The operation that a record holds. Tag and length must go together
    /// (`Generic` otherwise), the payload must be as long as announced
    /// (`NotEnoughData`), a divisor must not be zero and the operand of a
    /// factorial, read as a signed byte, must not be negative
    /// (`InvalidParameter`).
    pub open spec fn decode(t: TlvView) -> Result<Operation, ErrorKind> {
        if t.tag == TlvType::Numi64 {
            Err(ErrorKind::Generic)
        } else if t.tag == TlvType::Fact {
            if t.length != 1 {
                Err(ErrorKind::Generic)
            } else if t.data.len() != 1 {
                Err(ErrorKind::NotEnoughData)
            } else if t.data[0] > 127 {
                Err(ErrorKind::InvalidParameter)
            } else {
                Ok(Operation::Fact(t.data[0]))
            }
        } else if t.length != 2 {
            Err(ErrorKind::Generic)
        } else if t.data.len() != 2 {
            Err(ErrorKind::NotEnoughData)
        } else {
            let a = signed_of(t.data[0]);
            let b = signed_of(t.data[1]);
            match t.tag {
                TlvType::Sum => Ok(Operation::Sum { a, b }),
                TlvType::Sub => Ok(Operation::Sub { a, b }),
                TlvType::Mul => Ok(Operation::Mul { a, b }),
                TlvType::Div => if b == 0 {
                    Err(ErrorKind::InvalidParameter)
                } else {
                    Ok(Operation::Div { a, b: NonZeroI8::of(b) })
                },
                _ => if b == 0 {
                    Err(ErrorKind::InvalidParameter)
                } else {
                    Ok(Operation::Rem { a, b: NonZeroI8::of(b) })
                },
            }
        }
    }

    /// The operation that the parts of a line stand for. Both integers are
    /// read first (`ParseIntError` where one is no signed 8-bit decimal),
    /// then the symbol (`UnsupportedOperation` with the symbol where it is
    /// none of the protocol's). A factorial takes no second integer and every
    /// other operator takes one (`Parse` otherwise). A zero divisor and a
    /// negative factorial are refused (`InvalidParameter`).
    pub open spec fn parse_parts(left: Seq<char>, op: Seq<char>, right: Option<Seq<char>>) -> Result<
        Operation,
        ErrorKind,
    > {
        match (parse_i8_spec(left), right) {
            (None, _) => Err(ErrorKind::ParseIntError),
            (Some(a), Some(text)) => match (parse_i8_spec(text), symbol_spec(op)) {
                (None, _) => Err(ErrorKind::ParseIntError),
                (Some(b), None) => Err(ErrorKind::UnsupportedOperation(op)),
                (Some(b), Some(Symbol::Plus)) => Ok(Operation::Sum { a, b }),
                (Some(b), Some(Symbol::Minus)) => Ok(Operation::Sub { a, b }),
                (Some(b), Some(Symbol::Times)) => Ok(Operation::Mul { a, b }),
                (Some(b), Some(Symbol::Divide)) => if b == 0 {
                    Err(ErrorKind::InvalidParameter)
                } else {
                    Ok(Operation::Div { a, b: NonZeroI8::of(b) })
                },
                (Some(b), Some(Symbol::Percent)) => if b == 0 {
                    Err(ErrorKind::InvalidParameter)
                } else {
                    Ok(Operation::Rem { a, b: NonZeroI8::of(b) })
                },
                (Some(b), Some(Symbol::Bang)) => Err(ErrorKind::Parse),
            },
            (Some(a), None) => match symbol_spec(op) {
                None => Err(ErrorKind::UnsupportedOperation(op)),
                Some(Symbol::Bang) => if a < 0 {
                    Err(ErrorKind::InvalidParameter)
                } else {
                    Ok(Operation::Fact(a as u8))
                },
                Some(_) => Err(ErrorKind::Parse),
            },
        }
    }

    /// The operation that the outcome of a search for `PATTERN` stands for:
    /// `Parse` where the search found nothing, else what its three groups
    /// stand for.
    pub open spec fn parse_captures(captures: Option<Seq<Option<Seq<char>>>>) -> Result<
        Operation,
        ErrorKind,
    > {
        match line_parts(captures) {
            Some((left, op, right)) => Operation::parse_parts(left, op, right),
            None => Err(ErrorKind::Parse),
        }
    }

    /// Evaluates this operation.
    pub fn reduce(self) -> (r: i64)
        ensures
            r == self.value(),
    {
        match self {
            Operation::Sum { a, b } => a as i64 + b as i64,
            Operation::Sub { a, b } => a as i64 - b as i64,
            Operation::Mul { a, b } => {
                assert(-16256 <= a * b <= 16384) by (nonlinear_arith)
                    requires
                        -128 <= a <= 127,
                        -128 <= b <= 127,
                ;
                a as i64 * b as i64
            },
            Operation::Div { a, b } => div_i8(a, b),
            Operation::Rem { a, b } => rem_i8(a, b),
            Operation::Fact(n) => saturating_factorial(n),
        }
    }

    /// Frames this operation for the wire.
    pub fn encode(self) -> (v: Vec<u8>)
        ensures
            v@ == self.wire(),
    {
        let mut payload: Vec<u8> = Vec::new();
        let tag = match self {
            Operation::Sum { a, b } => {
                payload.push(i8_to_byte(a));
                payload.push(i8_to_byte(b));
                TlvType::Sum
            },
            Operation::Sub { a, b } => {
                payload.push(i8_to_byte(a));
                payload.push(i8_to_byte(b));
                TlvType::Sub
            },
            Operation::Mul { a, b } => {
                payload.push(i8_to_byte(a));
                payload.push(i8_to_byte(b));
                TlvType::Mul
            },
            Operation::Div { a, b } => {
                payload.push(i8_to_byte(a));
                payload.push(i8_to_byte(b.get()));
                TlvType::Div
            },
            Operation::Rem { a, b } => {
                payload.push(i8_to_byte(a));
                payload.push(i8_to_byte(b.get()));
                TlvType::Rem
            },
            Operation::Fact(n) => {
                payload.push(n);
                TlvType::Fact
            },
        };
        assert(payload@ =~= self.payload());
        Tlv::encode(tag, payload.as_slice()).unwrap()
    }

    /// Reads the operation that a record holds.
    pub fn try_from(tlv: Tlv) -> (r: Result<Operation, TCPLibError>)
        ensures
            outcome(r) == Operation::decode(tlv@),
    {
        match tlv.tag {
            TlvType::Numi64 => Err(TCPLibError::Generic),
            TlvType::Fact => {
                if tlv.length != 1 {
                    Err(TCPLibError::Generic)
                } else if tlv.data.len() != 1 {
                    Err(TCPLibError::NotEnoughData)
                } else if tlv.data[0] > 127 {
                    Err(TCPLibError::InvalidParameter)
                } else {
                    Ok(Operation::Fact(tlv.data[0]))
                }
            },
            tag => {
                if tlv.length != 2 {
                    return Err(TCPLibError::Generic);
                }
                if tlv.data.len() != 2 {
                    return Err(TCPLibError::NotEnoughData);
                }
                let a = byte_to_i8(tlv.data[0]);
                let b = byte_to_i8(tlv.data[1]);
                match tag {
                    TlvType::Sum => Ok(Operation::Sum { a, b }),
                    TlvType::Sub => Ok(Operation::Sub { a, b }),
                    TlvType::Mul => Ok(Operation::Mul { a, b }),
                    TlvType::Div => match NonZeroI8::new(b) {
                        Some(b) => Ok(Operation::Div { a, b }),
                        None => Err(TCPLibError::InvalidParameter),
                    },
                    _ => match NonZeroI8::new(b) {
                        Some(b) => Ok(Operation::Rem { a, b }),
                        None => Err(TCPLibError::InvalidParameter),
                    },
                }
            },
        }
    }

    /// Writes this operation in its canonical text: `×` for a product and `÷`
    /// for a quotient, whatever symbol it was read from.
    pub fn to_string(&self) -> (s: String)
        ensures
            s@ == self.text(),
    {
        proof {
            reveal_strlit("+");
            reveal_strlit("-");
            reveal_strlit("×");
            reveal_strlit("÷");
            reveal_strlit("%");
            reveal_strlit("!");
        }
        let mut s = String::new();
        match *self {
            Operation::Sum { a, b } => {
                push_i8(&mut s, a);
                s.append("+");
                push_i8(&mut s, b);
            },
            Operation::Sub { a, b } => {
                push_i8(&mut s, a);
                s.append("-");
                push_i8(&mut s, b);
            },
            Operation::Mul { a, b } => {
                push_i8(&mut s, a);
                s.append("×");
                push_i8(&mut s, b);
            },
            Operation::Div { a, b } => {
                push_i8(&mut s, a);
                s.append("÷");
                push_i8(&mut s, b.get());
            },
            Operation::Rem { a, b } => {
                push_i8(&mut s, a);
                s.append("%");
                push_i8(&mut s, b.get());
            },
            Operation::Fact(n) => {
                push_u8(&mut s, n);
                s.append("!");
            },
        }
        assert(s@ =~= self.text());
        s
    }

    /// Reads the operation that the outcome of a search for `PATTERN` stands
    /// for: the groups of the match, the whole match first, or `None` where
    /// nothing matched.
    pub fn from_captures(captures: &Option<Vec<Option<String>>>) -> (r: Result<
        Operation,
        TCPLibError,
    >)
        ensures
            outcome(r) == Operation::parse_captures(captures_view(*captures)),
    {
        let groups = match captures {
            Some(groups) => groups,
            None => {
                return Err(TCPLibError::Parse);
            },
        };
        if groups.len() != 4 {
            return Err(TCPLibError::Parse);
        }
        let left = match &groups[1] {
            Some(text) => text.as_str(),
            None => {
                return Err(TCPLibError::Parse);
            },
        };
        let op = match &groups[2] {
            Some(text) => text.as_str(),
            None => {
                return Err(TCPLibError::Parse);
            },
        };
        let a = match parse_i8(left) {
            Some(a) => a,
            None => {
                return Err(TCPLibError::ParseIntError);
            },
        };
        match &groups[3] {
            Some(text) => {
                let b = match parse_i8(text.as_str()) {
                    Some(b) => b,
                    None => {
                        return Err(TCPLibError::ParseIntError);
                    },
                };
                match symbol_of(op) {
                    None => Err(TCPLibError::UnsupportedOperation(op.to_owned())),
                    Some(Symbol::Plus) => Ok(Operation::Sum { a, b }),
                    Some(Symbol::Minus) => Ok(Operation::Sub { a, b }),
                    Some(Symbol::Times) => Ok(Operation::Mul { a, b }),
                    Some(Symbol::Divide) => match NonZeroI8::new(b) {
                        Some(b) => Ok(Operation::Div { a, b }),
                        None => Err(TCPLibError::InvalidParameter),
                    },
                    Some(Symbol::Percent) => match NonZeroI8::new(b) {
                        Some(b) => Ok(Operation::Rem { a, b }),
                        None => Err(TCPLibError::InvalidParameter),
                    },
                    Some(Symbol::Bang) => Err(TCPLibError::Parse),
                }
            },
            None => match symbol_of(op) {
                None => Err(TCPLibError::UnsupportedOperation(op.to_owned())),
                Some(Symbol::Bang) => if a < 0 {
                    Err(TCPLibError::InvalidParameter)
                } else {
                    Ok(Operation::Fact(a as u8))
                },
                Some(_) => Err(TCPLibError::Parse),
            },
        }
    }

    /// Reads an operation from a line of text: an integer, an operator symbol
    /// and, but for a factorial, a second integer, with white space allowed
    /// around each. The line is taken apart by a search for `PATTERN`, which
    /// lets any one character stand as the symbol; a symbol that is no
    /// operator is refused with `UnsupportedOperation`.
    pub fn from_str(s: &str) -> (r: Result<Operation, TCPLibError>)
        ensures
            outcome(r) == Operation::parse_captures(regex_captures(PATTERN@, s@)),
    {
        let captures = search(PATTERN, s);
        Operation::from_captures(&captures)
    }
}

/// Round trip over the wire: an operation with operands that a record can
/// give is read back, bit for bit, from its own framed bytes.
pub proof fn lemma_operation_round_trip(op: Operation)
    requires
        op.wf(),
    ensures
        tlv::decode_spec(op.wire()) matches Ok(t) && Operation::decode(t) == Ok::<
            Operation,
            ErrorKind,
        >(op),
{
    let t = TlvView { tag: op.tag(), length: op.payload().len() as u8, data: op.payload() };
    tlv::lemma_decode_encoded(t, Seq::empty());
    assert(op.wire() + Seq::<u8>::empty() =~= op.wire());
    match op {
        Operation::Sum { a, b } => {
            arith::lemma_signed_of_byte_of(a);
            arith::lemma_signed_of_byte_of(b);
        },
        Operation::Sub { a, b } => {
            arith::lemma_signed_of_byte_of(a);
            arith::lemma_signed_of_byte_of(b);
        },
        Operation::Mul { a, b } => {
            arith::lemma_signed_of_byte_of(a);
            arith::lemma_signed_of_byte_of(b);
        },
        Operation::Div { a, b } => {
            arith::lemma_signed_of_byte_of(a);
            arith::lemma_signed_of_byte_of(b.value());
            NonZeroI8::lemma_of_value(b);
        },
        Operation::Rem { a, b } => {
            arith::lemma_signed_of_byte_of(a);
            arith::lemma_signed_of_byte_of(b.value());
            NonZeroI8::lemma_of_value(b);
        },
        Operation::Fact(n) => {},
    }
}

/// Round trip over the text: the operands and the symbol of an operation's
/// canonical text stand for that very operation, so what is read from them
/// evaluates to what the operation evaluates to.
pub proof fn lemma_text_parts_round_trip(op: Operation)
    requires
        op.wf(),
    ensures
        Operation::parse_parts(op.left_text(), seq![op.symbol()], op.right_text()) == Ok::<
            Operation,
            ErrorKind,
        >(op),
{
    match op {
        Operation::Sum { a, b } => {
            decimal::lemma_decimal_round_trip(a as int);
            decimal::lemma_decimal_round_trip(b as int);
        },
        Operation::Sub { a, b } => {
            decimal::lemma_decimal_round_trip(a as int);
            decimal::lemma_decimal_round_trip(b as int);
        },
        Operation::Mul { a, b } => {
            decimal::lemma_decimal_round_trip(a as int);
            decimal::lemma_decimal_round_trip(b as int);
        },
        Operation::Div { a, b } => {
            decimal::lemma_decimal_round_trip(a as int);
            decimal::lemma_decimal_round_trip(b.value() as int);
            NonZeroI8::lemma_of_value(b);
        },
        Operation::Rem { a, b } => {
            decimal::lemma_decimal_round_trip(a as int);
            decimal::lemma_decimal_round_trip(b.value() as int);
            NonZeroI8::lemma_of_value(b);
        },
        Operation::Fact(n) => {
            decimal::lemma_decimal_round_trip(n as int);
        },
    }
}

/// Round trip through a line: wherever the search for `PATTERN` takes the
/// canonical text of an operation apart into its first operand, its symbol
/// and its second operand, what is read from that text is the operation
/// itself. That the search does so is not stated here.
pub proof fn lemma_text_round_trip_where_split(op: Operation)
    requires
        op.wf(),
    ensures
        line_parts(regex_captures(PATTERN@, op.text())) == Some(
            (op.left_text(), seq![op.symbol()], op.right_text()),
        ) ==> Operation::parse_captures(regex_captures(PATTERN@, op.text())) == Ok::<
            Operation,
            ErrorKind,
        >(op),
{
    lemma_text_parts_round_trip(op);
}

/// Domain law on the wire: a quotient or remainder record whose second byte
/// is zero holds no operation, whatever its first byte.
pub proof fn lemma_zero_divisor_refused_on_wire(tag: TlvType, first: u8)
    requires
        tag == TlvType::Div || tag == TlvType::Rem,
    ensures
        Operation::decode(TlvView { tag, length: 2, data: seq![first, 0u8] }) == Err::<
            Operation,
            ErrorKind,
        >(ErrorKind::InvalidParameter),
{
}

/// Domain law on the wire: a factorial record whose byte, read as a signed
/// integer, is negative holds no operation.
pub proof fn lemma_negative_factorial_refused_on_wire(byte: u8)
    requires
        signed_of(byte) < 0,
    ensures
        Operation::decode(TlvView { tag: TlvType::Fact, length: 1, data: seq![byte] }) == Err::<
            Operation,
            ErrorKind,
        >(ErrorKind::InvalidParameter),
{
}

/// Domain law in text: a quotient or remainder whose second integer is zero
/// stands for no operation, whatever its first integer.
pub proof fn lemma_zero_divisor_refused_in_text(left: Seq<char>, op: Seq<char>, right: Seq<char>)
    requires
        parse_i8_spec(left) is Some,
        symbol_spec(op) == Some(Symbol::Divide) || symbol_spec(op) == Some(Symbol::Percent),
        parse_i8_spec(right) == Some(0i8),
    ensures
        Operation::parse_parts(left, op, Some(right)) == Err::<Operation, ErrorKind>(
            ErrorKind::InvalidParameter,
        ),
{
}

/// Domain law in text: the factorial of a negative integer stands for no
/// operation.
pub proof fn lemma_negative_factorial_refused_in_text(left: Seq<char>, op: Seq<char>)
    requires
        parse_i8_spec(left) matches Some(a) && a < 0,
        symbol_spec(op) == Some(Symbol::Bang),
    ensures
        Operation::parse_parts(left, op, None) == Err::<Operation, ErrorKind>(
            ErrorKind::InvalidParameter,
        ),
{
}

/// Symbol law: where the integers of a line can be read and its symbol is
/// none of the operators, the line is refused with that very symbol, with or
/// without a second integer.
pub proof fn lemma_unknown_symbol_refused(left: Seq<char>, op: Seq<char>, right: Option<Seq<char>>)
    requires
        parse_i8_spec(left) is Some,
        right matches Some(text) ==> parse_i8_spec(text) is Some,
        symbol_spec(op) is None,
    ensures
        Operation::parse_parts(left, op, right) == Err::<Operation, ErrorKind>(
            ErrorKind::UnsupportedOperation(op),
        ),
{
}

/// Every operation that was read, from a record or from text, has operands
/// within its domain: none with a zero divisor or a negative factorial is
/// ever handed out to be evaluated.
pub proof fn lemma_read_operations_are_well_formed(
    t: TlvView,
    left: Seq<char>,
    op: Seq<char>,
    right: Option<Seq<char>>,
)
    ensures
        Operation::decode(t) matches Ok(o) ==> o.wf(),
        Operation::parse_parts(left, op, right) matches Ok(o) ==> o.wf(),
{
    NonZeroI8::lemma_value_of(signed_of(t.data[1]));
    if parse_i8_spec(left) is Some && right is Some && parse_i8_spec(right->0) is Some {
        NonZeroI8::lemma_value_of(parse_i8_spec(right->0)->0);
    }
}

} // verus!
