//! Operations over operand records: each operation holds its operands in an
//! `OperationData`, a factorial keeps its operand signed, and evaluation
//! itself refuses an operand outside the domain.

use crate::arith::{
    byte_of, byte_to_i8, clamp_i64, div_i8, factorial, i8_to_byte, rem_i8, saturating_factorial,
    signed_of, trunc_div, trunc_rem,
};
use crate::decimal::{decimal_text, parse_i8, parse_i8_spec, push_i8};
use crate::grammar::{
    captures_view, line_parts, regex_captures, search, symbol_of, symbol_spec, Symbol, PATTERN,
};
use crate::nonzero::NonZeroI8;
use crate::tlv::{encode_spec, Tlv, TlvType, TlvView};
use vstd::prelude::*;
use vstd::string::*;

verus! {

/// Why a record or a line of text is no operation, or an operation has no
/// value.
#[derive(Clone, Debug, PartialEq, Eq)]
pub enum OperationError {
    /// The operator symbol is not one of the protocol's; it is held here.
    UnsupportedOperation(String),
    /// The text has not the shape of an operation.
    Parse,
    /// The payload is shorter or longer than its record type asks.
    NotEnoughData,
    /// A divisor is zero.
    InvalidParameter,
    /// An integer is no decimal number between -128 and 127.
    ParseIntError,
    /// The operand of a factorial is negative.
    WrongDomain,
    /// Tag and length do not go together for an operation.
    Generic,
}

/// What an `OperationError` says, with the symbol as characters.
pub enum OperationErrorKind {
    UnsupportedOperation(Seq<char>),
    Parse,
    NotEnoughData,
    InvalidParameter,
    ParseIntError,
    WrongDomain,
    Generic,
}

impl View for OperationError {
    type V = OperationErrorKind;

    open spec fn view(&self) -> OperationErrorKind {
        match self {
            OperationError::UnsupportedOperation(s) => OperationErrorKind::UnsupportedOperation(s@),
            OperationError::Parse => OperationErrorKind::Parse,
            OperationError::NotEnoughData => OperationErrorKind::NotEnoughData,
            OperationError::InvalidParameter => OperationErrorKind::InvalidParameter,
            OperationError::ParseIntError => OperationErrorKind::ParseIntError,
            OperationError::WrongDomain => OperationErrorKind::WrongDomain,
            OperationError::Generic => OperationErrorKind::Generic,
        }
    }
}

/// A result with its error taken by what it says.
pub open spec fn outcome<T>(r: Result<T, OperationError>) -> Result<T, OperationErrorKind> {
    match r {
        Ok(v) => Ok(v),
        Err(e) => Err(e@),
    }
}

/// What can stand as an operand: a value that is a signed 8-bit integer.
pub trait Operand: Copy {
    /// The integer that this operand is.
    spec fn operand(self) -> i8;

    /// The integer that this operand is.
    fn to_i8(self) -> (r: i8)
        ensures
            r == self.operand(),
    ;
}

impl Operand for i8 {
    open spec fn operand(self) -> i8 {
        self
    }

    fn to_i8(self) -> (r: i8) {
        self
    }
}

impl Operand for NonZeroI8 {
    open spec fn operand(self) -> i8 {
        self.value()
    }

    fn to_i8(self) -> (r: i8) {
        self.get()
    }
}

/// The operands of an operation that takes `N` of them.
#[derive(Clone, Copy, Debug, PartialEq, Eq)]
pub struct OperationData<T1, T2, const N: usize> {
    pub a: T1,
    pub b: T2,
}

/// Two operands.
pub type BinomialOperationData<T1, T2> = OperationData<T1, T2, 2>;

/// One operand.
pub type MonomialOperationData<T1> = OperationData<T1, (), 1>;

impl<T1: Operand, T2: Operand> BinomialOperationData<T1, T2> {
    /// The payload of two operands: the byte of the first, then that of the
    /// second.
    pub open spec fn payload(self) -> Seq<u8> {
        seq![byte_of(self.a.operand()), byte_of(self.b.operand())]
    }

    /// The two payload bytes of these operands.
    pub fn encode(self) -> (bytes: [u8; 2])
        ensures
            bytes@ == self.payload(),
    {
        let bytes = [i8_to_byte(self.a.to_i8()), i8_to_byte(self.b.to_i8())];
        assert(bytes@ =~= self.payload());
        bytes
    }
}

impl<T1: Operand> MonomialOperationData<T1> {
    /// The payload of one operand: its byte.
    pub open spec fn payload(self) -> Seq<u8> {
        seq![byte_of(self.a.operand())]
    }

    /// The one payload byte of this operand.
    pub fn encode(self) -> (bytes: [u8; 1])
        ensures
            bytes@ == self.payload(),
    {
        let bytes = [i8_to_byte(self.a.to_i8())];
        assert(bytes@ =~= self.payload());
        bytes
    }
}

impl From<(i8, i8)> for BinomialOperationData<i8, i8> {
    fn from(pair: (i8, i8)) -> (data: Self) {
        OperationData { a: pair.0, b: pair.1 }
    }
}

impl vstd::std_specs::convert::FromSpecImpl<(i8, i8)> for BinomialOperationData<i8, i8> {
    open spec fn obeys_from_spec() -> bool {
        true
    }

    open spec fn from_spec(pair: (i8, i8)) -> Self {
        OperationData { a: pair.0, b: pair.1 }
    }
}

impl From<(i8, NonZeroI8)> for BinomialOperationData<i8, NonZeroI8> {
    fn from(pair: (i8, NonZeroI8)) -> (data: Self) {
        OperationData { a: pair.0, b: pair.1 }
    }
}

impl vstd::std_specs::convert::FromSpecImpl<(i8, NonZeroI8)> for BinomialOperationData<i8, NonZeroI8> {
    open spec fn obeys_from_spec() -> bool {
        true
    }

    open spec fn from_spec(pair: (i8, NonZeroI8)) -> Self {
        OperationData { a: pair.0, b: pair.1 }
    }
}

impl From<i8> for MonomialOperationData<i8> {
    fn from(a: i8) -> (data: Self) {
        OperationData { a, b: () }
    }
}

impl vstd::std_specs::convert::FromSpecImpl<i8> for MonomialOperationData<i8> {
    open spec fn obeys_from_spec() -> bool {
        true
    }

    open spec fn from_spec(a: i8) -> Self {
        OperationData { a, b: () }
    }
}

impl From<[u8; 2]> for BinomialOperationData<i8, i8> {
    fn from(value: [u8; 2]) -> (data: Self) {
        OperationData { a: byte_to_i8(value[0]), b: byte_to_i8(value[1]) }
    }
}

impl vstd::std_specs::convert::FromSpecImpl<[u8; 2]> for BinomialOperationData<i8, i8> {
    open spec fn obeys_from_spec() -> bool {
        true
    }

    open spec fn from_spec(value: [u8; 2]) -> Self {
        OperationData { a: signed_of(value[0]), b: signed_of(value[1]) }
    }
}

impl From<[u8; 1]> for MonomialOperationData<i8> {
    fn from(value: [u8; 1]) -> (data: Self) {
        OperationData { a: byte_to_i8(value[0]), b: () }
    }
}

impl vstd::std_specs::convert::FromSpecImpl<[u8; 1]> for MonomialOperationData<i8> {
    open spec fn obeys_from_spec() -> bool {
        true
    }

    open spec fn from_spec(value: [u8; 1]) -> Self {
        OperationData { a: signed_of(value[0]), b: () }
    }
}

impl BinomialOperationData<i8, NonZeroI8> {
    /// Reads a dividend and a divisor from two payload bytes. A zero divisor
    /// is refused.
    pub fn try_from(value: [u8; 2]) -> (r: Result<Self, OperationError>)
        ensures
            outcome(r) == if signed_of(value[1]) == 0 {
                Err::<Self, OperationErrorKind>(OperationErrorKind::InvalidParameter)
            } else {
                Ok(
                    OperationData {
                        a: signed_of(value[0]),
                        b: NonZeroI8::of(signed_of(value[1])),
                    },
                )
            },
    {
        match NonZeroI8::new(byte_to_i8(value[1])) {
            Some(b) => Ok(OperationData { a: byte_to_i8(value[0]), b }),
            None => Err(OperationError::InvalidParameter),
        }
    }
}

/// One arithmetic request, with its operands in a record of their own.
#[derive(Clone, Copy, Debug, PartialEq, Eq)]
pub enum Operation {
    Sum(BinomialOperationData<i8, i8>),
    Sub(BinomialOperationData<i8, i8>),
    Mul(BinomialOperationData<i8, i8>),
    Div(BinomialOperationData<i8, NonZeroI8>),
    Rem(BinomialOperationData<i8, NonZeroI8>),
    Fact(MonomialOperationData<i8>),
}

impl Operation {
    /// No divisor is zero.
    pub open spec fn wf(self) -> bool {
        match self {
            Operation::Div(data) => data.b.value() != 0,
            Operation::Rem(data) => data.b.value() != 0,
            _ => true,
        }
    }

    /// The operation has a value: it is no factorial of a negative integer.
    pub open spec fn in_domain(self) -> bool {
        match self {
            Operation::Fact(data) => data.a >= 0,
            _ => true,
        }
    }

    /// The record type that carries this operation.
    pub open spec fn tag(self) -> TlvType {
        match self {
            Operation::Sum(_) => TlvType::Sum,
            Operation::Sub(_) => TlvType::Sub,
            Operation::Mul(_) => TlvType::Mul,
            Operation::Div(_) => TlvType::Div,
            Operation::Rem(_) => TlvType::Rem,
            Operation::Fact(_) => TlvType::Fact,
        }
    }

    /// The payload of this operation: one byte for each operand.
    pub open spec fn payload(self) -> Seq<u8> {
        match self {
            Operation::Sum(data) => data.payload(),
            Operation::Sub(data) => data.payload(),
            Operation::Mul(data) => data.payload(),
            Operation::Div(data) => data.payload(),
            Operation::Rem(data) => data.payload(),
            Operation::Fact(data) => data.payload(),
        }
    }

    /// The framed bytes of this operation.
    pub open spec fn wire(self) -> Seq<u8> {
        encode_spec(self.tag(), self.payload())
    }

    /// What this operation evaluates to, where it is in its domain. Quotient
    /// and remainder round toward zero; a factorial stays at the greatest
    /// signed 64-bit integer where the product is greater.
    pub open spec fn value(self) -> int
        recommends
            self.in_domain(),
    {
        match self {
            Operation::Sum(data) => data.a + data.b,
            Operation::Sub(data) => data.a - data.b,
            Operation::Mul(data) => data.a * data.b,
            Operation::Div(data) => trunc_div(data.a as int, data.b.value() as int),
            Operation::Rem(data) => trunc_rem(data.a as int, data.b.value() as int),
            Operation::Fact(data) => clamp_i64(factorial(data.a as nat)) as int,
        }
    }

    /// The text of the first operand.
    pub open spec fn left_text(self) -> Seq<char> {
        match self {
            Operation::Sum(data) => decimal_text(data.a as int),
            Operation::Sub(data) => decimal_text(data.a as int),
            Operation::Mul(data) => decimal_text(data.a as int),
            Operation::Div(data) => decimal_text(data.a as int),
            Operation::Rem(data) => decimal_text(data.a as int),
            Operation::Fact(data) => decimal_text(data.a as int),
        }
    }

    /// The operator symbol that this operation is written with.
    pub open spec fn symbol(self) -> char {
        match self {
            Operation::Sum(_) => '+',
            Operation::Sub(_) => '-',
            Operation::Mul(_) => '×',
            Operation::Div(_) => '÷',
            Operation::Rem(_) => '%',
            Operation::Fact(_) => '!',
        }
    }

    /// The text of the second operand, where there is one.
    pub open spec fn right_text(self) -> Option<Seq<char>> {
        match self {
            Operation::Sum(data) => Some(decimal_text(data.b as int)),
            Operation::Sub(data) => Some(decimal_text(data.b as int)),
            Operation::Mul(data) => Some(decimal_text(data.b as int)),
            Operation::Div(data) => Some(decimal_text(data.b.value() as int)),
            Operation::Rem(data) => Some(decimal_text(data.b.value() as int)),
            Operation::Fact(_) => None,
        }
    }

    /// The canonical text of this operation: first operand, symbol, second
    /// operand, with nothing between them.
    pub open spec fn text(self) -> Seq<char> {
        match self.right_text() {
            Some(right) => self.left_text() + seq![self.symbol()] + right,
            None => self.left_text() + seq![self.symbol()],
        }
    }

    /// The operation that a record holds. Tag and length must go together
    /// (`Generic` otherwise), the payload must be as long as announced
    /// (`NotEnoughData`) and a divisor must not be zero
    /// (`InvalidParameter`). The operand of a factorial is taken as it is,
    /// negative or not.
    pub open spec fn decode(t: TlvView) -> Result<Operation, OperationErrorKind> {
        if t.tag == TlvType::Numi64 {
            Err(OperationErrorKind::Generic)
        } else if t.tag == TlvType::Fact {
            if t.length != 1 {
                Err(OperationErrorKind::Generic)
            } else if t.data.len() != 1 {
                Err(OperationErrorKind::NotEnoughData)
            } else {
                Ok(Operation::Fact(OperationData { a: signed_of(t.data[0]), b: () }))
            }
        } else if t.length != 2 {
            Err(OperationErrorKind::Generic)
        } else if t.data.len() != 2 {
            Err(OperationErrorKind::NotEnoughData)
        } else {
            let a = signed_of(t.data[0]);
            let b = signed_of(t.data[1]);
            match t.tag {
                TlvType::Sum => Ok(Operation::Sum(OperationData { a, b })),
                TlvType::Sub => Ok(Operation::Sub(OperationData { a, b })),
                TlvType::Mul => Ok(Operation::Mul(OperationData { a, b })),
                TlvType::Div => if b == 0 {
                    Err(OperationErrorKind::InvalidParameter)
                } else {
                    Ok(Operation::Div(OperationData { a, b: NonZeroI8::of(b) }))
                },
                _ => if b == 0 {
                    Err(OperationErrorKind::InvalidParameter)
                } else {
                    Ok(Operation::Rem(OperationData { a, b: NonZeroI8::of(b) }))
                },
            }
        }
    }

    /// The operation that the parts of a line stand for. Both integers are
    /// read first (`ParseIntError` where one is no signed 8-bit decimal),
    /// then the symbol (`UnsupportedOperation` with the symbol where it is
    /// none of the protocol's). A factorial takes no second integer and every
    /// other operator takes one (`Parse` otherwise). A zero divisor is
    /// refused with `InvalidParameter`, a negative factorial with
    /// `WrongDomain`.
    pub open spec fn parse_parts(left: Seq<char>, op: Seq<char>, right: Option<Seq<char>>) -> Result<
        Operation,
        OperationErrorKind,
    > {
        match (parse_i8_spec(left), right) {
            (None, _) => Err(OperationErrorKind::ParseIntError),
            (Some(a), Some(text)) => match (parse_i8_spec(text), symbol_spec(op)) {
                (None, _) => Err(OperationErrorKind::ParseIntError),
                (Some(b), None) => Err(OperationErrorKind::UnsupportedOperation(op)),
                (Some(b), Some(Symbol::Plus)) => Ok(Operation::Sum(OperationData { a, b })),
                (Some(b), Some(Symbol::Minus)) => Ok(Operation::Sub(OperationData { a, b })),
                (Some(b), Some(Symbol::Times)) => Ok(Operation::Mul(OperationData { a, b })),
                (Some(b), Some(Symbol::Divide)) => if b == 0 {
                    Err(OperationErrorKind::InvalidParameter)
                } else {
                    Ok(Operation::Div(OperationData { a, b: NonZeroI8::of(b) }))
                },
                (Some(b), Some(Symbol::Percent)) => if b == 0 {
                    Err(OperationErrorKind::InvalidParameter)
                } else {
                    Ok(Operation::Rem(OperationData { a, b: NonZeroI8::of(b) }))
                },
                (Some(b), Some(Symbol::Bang)) => Err(OperationErrorKind::Parse),
            },
            (Some(a), None) => match symbol_spec(op) {
                None => Err(OperationErrorKind::UnsupportedOperation(op)),
                Some(Symbol::Bang) => if a < 0 {
                    Err(OperationErrorKind::WrongDomain)
                } else {
                    Ok(Operation::Fact(OperationData { a, b: () }))
                },
                Some(_) => Err(OperationErrorKind::Parse),
            },
        }
    }

    /// The operation that the outcome of a search for `PATTERN` stands for:
    /// `Parse` where the search found nothing, else what its three groups
    /// stand for.
    pub open spec fn parse_captures(captures: Option<Seq<Option<Seq<char>>>>) -> Result<
        Operation,
        OperationErrorKind,
    > {
        match line_parts(captures) {
            Some((left, op, right)) => Operation::parse_parts(left, op, right),
            None => Err(OperationErrorKind::Parse),
        }
    }

    /// Evaluates this operation. The factorial of a negative integer has no
    /// value: `WrongDomain`.
    pub fn reduce(self) -> (r: Result<i64, OperationError>)
        ensures
            self.in_domain() ==> (r matches Ok(v) && v == self.value()),
            !self.in_domain() ==> (r matches Err(e) && e@ == OperationErrorKind::WrongDomain),
    {
        match self {
            Operation::Sum(data) => Ok(data.a as i64 + data.b as i64),
            Operation::Sub(data) => Ok(data.a as i64 - data.b as i64),
            Operation::Mul(data) => {
                assert(-16256 <= data.a * data.b <= 16384) by (nonlinear_arith)
                    requires
                        -128 <= data.a <= 127,
                        -128 <= data.b <= 127,
                ;
                Ok(data.a as i64 * data.b as i64)
            },
            Operation::Div(data) => Ok(div_i8(data.a, data.b)),
            Operation::Rem(data) => Ok(rem_i8(data.a, data.b)),
            Operation::Fact(data) => if data.a >= 0 {
                Ok(saturating_factorial(data.a as u8))
            } else {
                Err(OperationError::WrongDomain)
            },
        }
    }

    /// Frames this operation for the wire.
    pub fn encode(self) -> (v: Vec<u8>)
        ensures
            v@ == self.wire(),
    {
        match self {
            Operation::Sum(data) => Tlv::encode(TlvType::Sum, data.encode().as_slice()).unwrap(),
            Operation::Sub(data) => Tlv::encode(TlvType::Sub, data.encode().as_slice()).unwrap(),
            Operation::Mul(data) => Tlv::encode(TlvType::Mul, data.encode().as_slice()).unwrap(),
            Operation::Div(data) => Tlv::encode(TlvType::Div, data.encode().as_slice()).unwrap(),
            Operation::Rem(data) => Tlv::encode(TlvType::Rem, data.encode().as_slice()).unwrap(),
            Operation::Fact(data) => Tlv::encode(TlvType::Fact, data.encode().as_slice()).unwrap(),
        }
    }

    /// Reads the operation that a record holds.
    pub fn try_from(tlv: Tlv) -> (r: Result<Operation, OperationError>)
        ensures
            outcome(r) == Operation::decode(tlv@),
    {
        match tlv.tag {
            TlvType::Numi64 => Err(OperationError::Generic),
            TlvType::Fact => {
                if tlv.length != 1 {
                    Err(OperationError::Generic)
                } else if tlv.data.len() != 1 {
                    Err(OperationError::NotEnoughData)
                } else {
                    Ok(Operation::Fact(OperationData { a: byte_to_i8(tlv.data[0]), b: () }))
                }
            },
            tag => {
                if tlv.length != 2 {
                    return Err(OperationError::Generic);
                }
                if tlv.data.len() != 2 {
                    return Err(OperationError::NotEnoughData);
                }
                let a = byte_to_i8(tlv.data[0]);
                let b = byte_to_i8(tlv.data[1]);
                match tag {
                    TlvType::Sum => Ok(Operation::Sum(OperationData { a, b })),
                    TlvType::Sub => Ok(Operation::Sub(OperationData { a, b })),
                    TlvType::Mul => Ok(Operation::Mul(OperationData { a, b })),
                    TlvType::Div => match NonZeroI8::new(b) {
                        Some(b) => Ok(Operation::Div(OperationData { a, b })),
                        None => Err(OperationError::InvalidParameter),
                    },
                    _ => match NonZeroI8::new(b) {
                        Some(b) => Ok(Operation::Rem(OperationData { a, b })),
                        None => Err(OperationError::InvalidParameter),
                    },
                }
            },
        }
    }

    /// Writes this operation in its canonical text: `×` for a product and `÷`
    /// for a quotient, whatever symbol it was read from.
    pub fn to_string(&self) -> (s: String)
        ensures
            s@ == self.text(),
    {
        proof {
            reveal_strlit("+");
            reveal_strlit("-");
            reveal_strlit("×");
            reveal_strlit("÷");
            reveal_strlit("%");
            reveal_strlit("!");
        }
        let mut s = String::new();
        match *self {
            Operation::Sum(data) => {
                push_i8(&mut s, data.a);
                s.append("+");
                push_i8(&mut s, data.b);
            },
            Operation::Sub(data) => {
                push_i8(&mut s, data.a);
                s.append("-");
                push_i8(&mut s, data.b);
            },
            Operation::Mul(data) => {
                push_i8(&mut s, data.a);
                s.append("×");
                push_i8(&mut s, data.b);
            },
            Operation::Div(data) => {
                push_i8(&mut s, data.a);
                s.append("÷");
                push_i8(&mut s, data.b.get());
            },
            Operation::Rem(data) => {
                push_i8(&mut s, data.a);
                s.append("%");
                push_i8(&mut s, data.b.get());
            },
            Operation::Fact(data) => {
                push_i8(&mut s, data.a);
                s.append("!");
            },
        }
        assert(s@ =~= self.text());
        s
    }

    /// Reads the operation that the outcome of a search for `PATTERN` stands
    /// for: the groups of the match, the whole match first, or `None` where
    /// nothing matched.
    pub fn from_captures(captures: &Option<Vec<Option<String>>>) -> (r: Result<
        Operation,
        OperationError,
    >)
        ensures
            outcome(r) == Operation::parse_captures(captures_view(*captures)),
    {
        let groups = match captures {
            Some(groups) => groups,
            None => {
                return Err(OperationError::Parse);
            },
        };
        if groups.len() != 4 {
            return Err(OperationError::Parse);
        }
        let left = match &groups[1] {
            Some(text) => text.as_str(),
            None => {
                return Err(OperationError::Parse);
            },
        };
        let op = match &groups[2] {
            Some(text) => text.as_str(),
            None => {
                return Err(OperationError::Parse);
            },
        };
        let a = match parse_i8(left) {
            Some(a) => a,
            None => {
                return Err(OperationError::ParseIntError);
            },
        };
        match &groups[3] {
            Some(text) => {
                let b = match parse_i8(text.as_str()) {
                    Some(b) => b,
                    None => {
                        return Err(OperationError::ParseIntError);
                    },
                };
                match symbol_of(op) {
                    None => Err(OperationError::UnsupportedOperation(op.to_owned())),
                    Some(Symbol::Plus) => Ok(Operation::Sum(OperationData { a, b })),
                    Some(Symbol::Minus) => Ok(Operation::Sub(OperationData { a, b })),
                    Some(Symbol::Times) => Ok(Operation::Mul(OperationData { a, b })),
                    Some(Symbol::Divide) => match NonZeroI8::new(b) {
                        Some(b) => Ok(Operation::Div(OperationData { a, b })),
                        None => Err(OperationError::InvalidParameter),
                    },
                    Some(Symbol::Percent) => match NonZeroI8::new(b) {
                        Some(b) => Ok(Operation::Rem(OperationData { a, b })),
                        None => Err(OperationError::InvalidParameter),
                    },
                    Some(Symbol::Bang) => Err(OperationError::Parse),
                }
            },
            None => match symbol_of(op) {
                None => Err(OperationError::UnsupportedOperation(op.to_owned())),
                Some(Symbol::Bang) => if a < 0 {
                    Err(OperationError::WrongDomain)
                } else {
                    Ok(Operation::Fact(OperationData { a, b: () }))
                },
                Some(_) => Err(OperationError::Parse),
            },
        }
    }

    /// Reads an operation from a line of text: an integer, an operator symbol
    /// and, but for a factorial, a second integer, with white space allowed
    /// around each. The line is taken apart by a search for `PATTERN`, which
    /// lets any one character stand as the symbol; a symbol that is no
    /// operator is refused with `UnsupportedOperation`.
    pub fn from_str(s: &str) -> (r: Result<Operation, OperationError>)
        ensures
            outcome(r) == Operation::parse_captures(regex_captures(PATTERN@, s@)),
    {
        let captures = search(PATTERN, s);
        Operation::from_captures(&captures)
    }
}

/// Round trip over the wire: an operation without a zero divisor is read
/// back, bit for bit, from its own framed bytes.
pub proof fn lemma_operation_round_trip(op: Operation)
    requires
        op.wf(),
    ensures
        crate::tlv::decode_spec(op.wire()) matches Ok(t) && Operation::decode(t) == Ok::<
            Operation,
            OperationErrorKind,
        >(op),
{
    let t = TlvView { tag: op.tag(), length: op.payload().len() as u8, data: op.payload() };
    crate::tlv::lemma_decode_encoded(t, Seq::empty());
    assert(op.wire() + Seq::<u8>::empty() =~= op.wire());
    match op {
        Operation::Sum(data) => {
            crate::arith::lemma_signed_of_byte_of(data.a);
            crate::arith::lemma_signed_of_byte_of(data.b);
        },
        Operation::Sub(data) => {
            crate::arith::lemma_signed_of_byte_of(data.a);
            crate::arith::lemma_signed_of_byte_of(data.b);
        },
        Operation::Mul(data) => {
            crate::arith::lemma_signed_of_byte_of(data.a);
            crate::arith::lemma_signed_of_byte_of(data.b);
        },
        Operation::Div(data) => {
            crate::arith::lemma_signed_of_byte_of(data.a);
            crate::arith::lemma_signed_of_byte_of(data.b.value());
            NonZeroI8::lemma_of_value(data.b);
        },
        Operation::Rem(data) => {
            crate::arith::lemma_signed_of_byte_of(data.a);
            crate::arith::lemma_signed_of_byte_of(data.b.value());
            NonZeroI8::lemma_of_value(data.b);
        },
        Operation::Fact(data) => {
            crate::arith::lemma_signed_of_byte_of(data.a);
            assert(data.b =~= ());
            assert(data =~= OperationData::<i8, (), 1> { a: data.a, b: () });
        },
    }
}

/// Round trip over the text: the operands and the symbol of the canonical
/// text of an operation that has a value stand for that very operation, so
/// what is read from them evaluates to what the operation evaluates to.
pub proof fn lemma_text_parts_round_trip(op: Operation)
    requires
        op.wf(),
        op.in_domain(),
    ensures
        Operation::parse_parts(op.left_text(), seq![op.symbol()], op.right_text()) == Ok::<
            Operation,
            OperationErrorKind,
        >(op),
{
    match op {
        Operation::Sum(data) => {
            crate::decimal::lemma_decimal_round_trip(data.a as int);
            crate::decimal::lemma_decimal_round_trip(data.b as int);
        },
        Operation::Sub(data) => {
            crate::decimal::lemma_decimal_round_trip(data.a as int);
            crate::decimal::lemma_decimal_round_trip(data.b as int);
        },
        Operation::Mul(data) => {
            crate::decimal::lemma_decimal_round_trip(data.a as int);
            crate::decimal::lemma_decimal_round_trip(data.b as int);
        },
        Operation::Div(data) => {
            crate::decimal::lemma_decimal_round_trip(data.a as int);
            crate::decimal::lemma_decimal_round_trip(data.b.value() as int);
            NonZeroI8::lemma_of_value(data.b);
        },
        Operation::Rem(data) => {
            crate::decimal::lemma_decimal_round_trip(data.a as int);
            crate::decimal::lemma_decimal_round_trip(data.b.value() as int);
            NonZeroI8::lemma_of_value(data.b);
        },
        Operation::Fact(data) => {
            crate::decimal::lemma_decimal_round_trip(data.a as int);
            assert(data.b =~= ());
            assert(data =~= OperationData::<i8, (), 1> { a: data.a, b: () });
        },
    }
}

/// Round trip through a line: wherever the search for `PATTERN` takes the
/// canonical text of an operation apart into its first operand, its symbol
/// and its second operand, what is read from that text is the operation
/// itself. That the search does so is not stated here.
pub proof fn lemma_text_round_trip_where_split(op: Operation)
    requires
        op.wf(),
        op.in_domain(),
    ensures
        line_parts(regex_captures(PATTERN@, op.text())) == Some(
            (op.left_text(), seq![op.symbol()], op.right_text()),
        ) ==> Operation::parse_captures(regex_captures(PATTERN@, op.text())) == Ok::<
            Operation,
            OperationErrorKind,
        >(op),
{
    lemma_text_parts_round_trip(op);
}

/// Domain law on the wire: a quotient or remainder record whose second byte
/// is zero holds no operation, whatever its first byte.
pub proof fn lemma_zero_divisor_refused_on_wire(tag: TlvType, first: u8)
    requires
        tag == TlvType::Div || tag == TlvType::Rem,
    ensures
        Operation::decode(TlvView { tag, length: 2, data: seq![first, 0u8] }) == Err::<
            Operation,
            OperationErrorKind,
        >(OperationErrorKind::InvalidParameter),
{
}

/// Domain law in text: a quotient or remainder whose second integer is zero
/// stands for no operation, whatever its first integer.
pub proof fn lemma_zero_divisor_refused_in_text(left: Seq<char>, op: Seq<char>, right: Seq<char>)
    requires
        parse_i8_spec(left) is Some,
        symbol_spec(op) == Some(Symbol::Divide) || symbol_spec(op) == Some(Symbol::Percent),
        parse_i8_spec(right) == Some(0i8),
    ensures
        Operation::parse_parts(left, op, Some(right)) == Err::<Operation, OperationErrorKind>(
            OperationErrorKind::InvalidParameter,
        ),
{
}

/// Domain law in text: the factorial of a negative integer stands for no
/// operation.
pub proof fn lemma_negative_factorial_refused_in_text(left: Seq<char>, op: Seq<char>)
    requires
        parse_i8_spec(left) matches Some(a) && a < 0,
        symbol_spec(op) == Some(Symbol::Bang),
    ensures
        Operation::parse_parts(left, op, None) == Err::<Operation, OperationErrorKind>(
            OperationErrorKind::WrongDomain,
        ),
{
}

/// Symbol law: where the integers of a line can be read and its symbol is
/// none of the operators, the line is refused with that very symbol, with or
/// without a second integer.
pub proof fn lemma_unknown_symbol_refused(left: Seq<char>, op: Seq<char>, right: Option<Seq<char>>)
    requires
        parse_i8_spec(left) is Some,
        right matches Some(text) ==> parse_i8_spec(text) is Some,
        symbol_spec(op) is None,
    ensures
        Operation::parse_parts(left, op, right) == Err::<Operation, OperationErrorKind>(
            OperationErrorKind::UnsupportedOperation(op),
        ),
{
}

/// Every operation that was read has a divisor other than zero, and one read
/// from text has a value.
pub proof fn lemma_read_operations_are_well_formed(
    t: TlvView,
    left: Seq<char>,
    op: Seq<char>,
    right: Option<Seq<char>>,
)
    ensures
        Operation::decode(t) matches Ok(o) ==> o.wf(),
        Operation::parse_parts(left, op, right) matches Ok(o) ==> o.wf() && o.in_domain(),
{
    NonZeroI8::lemma_value_of(signed_of(t.data[1]));
    if parse_i8_spec(left) is Some && right is Some && parse_i8_spec(right->0) is Some {
        NonZeroI8::lemma_value_of(parse_i8_spec(right->0)->0);
    }
}

} // verus!
