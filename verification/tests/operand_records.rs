use tcp1::decimal::{parse_i8, push_i8, push_u8};
use tcp1::operation::{
    BinomialOperationData, MonomialOperationData, Operation, OperationData, OperationError,
};
use tcp1::tlv::TlvType;
use tcp1::{NonZeroI8, Tlv};

fn nz(v: i8) -> NonZeroI8 {
    NonZeroI8::new(v).unwrap()
}

fn pair(a: i8, b: i8) -> BinomialOperationData<i8, i8> {
    OperationData { a, b }
}

fn over(a: i8, b: i8) -> BinomialOperationData<i8, NonZeroI8> {
    OperationData { a, b: nz(b) }
}

fn single(a: i8) -> MonomialOperationData<i8> {
    OperationData { a, b: () }
}

#[test]
fn decimal_text_is_read_like_a_signed_byte() {
    for v in i8::MIN..=i8::MAX {
        assert_eq!(parse_i8(&v.to_string()), Some(v));
    }
    assert_eq!(parse_i8("+5"), Some(5));
    assert_eq!(parse_i8("-0"), Some(0));
    assert_eq!(parse_i8("0000127"), Some(127));
    assert_eq!(parse_i8("-0000128"), Some(-128));
    for text in ["", "-", "+", "128", "-129", "255", "256", "1000", "12a", "a12", " 1", "1 ", "--1", "٣"] {
        assert_eq!(parse_i8(text), None, "{:?}", text);
        assert_eq!(text.parse::<i8>().ok(), None);
    }
}

#[test]
fn decimal_text_is_written_like_a_signed_byte() {
    for v in i8::MIN..=i8::MAX {
        let mut s = String::from(">");
        push_i8(&mut s, v);
        assert_eq!(s, format!(">{}", v));
    }
    for n in 0u8..=255 {
        let mut s = String::new();
        push_u8(&mut s, n);
        assert_eq!(s, n.to_string());
    }
}

#[test]
fn operand_records_encode_their_bytes() {
    assert_eq!(pair(12, 7).encode(), [12, 7]);
    assert_eq!(pair(-1, -128).encode(), [0xff, 0x80]);
    assert_eq!(over(5, -2).encode(), [5, 0xfe]);
    assert_eq!(single(-3).encode(), [0xfd]);
    assert_eq!(single(127).encode(), [0x7f]);
}

#[test]
fn operand_records_are_built_from_bytes_and_values() {
    assert_eq!(BinomialOperationData::<i8, i8>::from([0xff, 2]), pair(-1, 2));
    assert_eq!(BinomialOperationData::<i8, i8>::from((3, -4)), pair(3, -4));
    assert_eq!(BinomialOperationData::<i8, NonZeroI8>::from((3, nz(-4))), over(3, -4));
    assert_eq!(MonomialOperationData::<i8>::from([0x80]), single(-128));
    assert_eq!(MonomialOperationData::<i8>::from(9), single(9));
    assert_eq!(BinomialOperationData::<i8, NonZeroI8>::try_from([9, 0xff]), Ok(over(9, -1)));
    assert_eq!(
        BinomialOperationData::<i8, NonZeroI8>::try_from([9, 0]),
        Err(OperationError::InvalidParameter)
    );
}

#[test]
fn record_operations_evaluate() {
    assert_eq!(Operation::Sum(pair(127, 127)).reduce(), Ok(254));
    assert_eq!(Operation::Sub(pair(-128, 127)).reduce(), Ok(-255));
    assert_eq!(Operation::Mul(pair(-128, -128)).reduce(), Ok(16384));
    assert_eq!(Operation::Div(over(-7, 2)).reduce(), Ok(-3));
    assert_eq!(Operation::Div(over(-128, -1)).reduce(), Ok(128));
    assert_eq!(Operation::Rem(over(-7, 2)).reduce(), Ok(-1));
    assert_eq!(Operation::Fact(single(0)).reduce(), Ok(1));
    assert_eq!(Operation::Fact(single(5)).reduce(), Ok(120));
    assert_eq!(Operation::Fact(single(20)).reduce(), Ok(2432902008176640000));
    assert_eq!(Operation::Fact(single(21)).reduce(), Ok(i64::MAX));
    assert_eq!(Operation::Fact(single(127)).reduce(), Ok(i64::MAX));
}

#[test]
fn record_factorial_of_a_negative_has_no_value() {
    for a in i8::MIN..0 {
        assert_eq!(Operation::Fact(single(a)).reduce(), Err(OperationError::WrongDomain));
    }
}

#[test]
fn record_operations_round_trip_over_the_wire() {
    for a in i8::MIN..=i8::MAX {
        for b in [i8::MIN, -1, 0, 1, 77, i8::MAX] {
            let mut ops = vec![
                Operation::Sum(pair(a, b)),
                Operation::Sub(pair(a, b)),
                Operation::Mul(pair(a, b)),
            ];
            if b != 0 {
                ops.push(Operation::Div(over(a, b)));
                ops.push(Operation::Rem(over(a, b)));
            }
            for op in ops {
                let bytes = op.encode();
                assert_eq!(Operation::try_from(Tlv::try_from(&bytes).unwrap()), Ok(op));
            }
        }
        let op = Operation::Fact(single(a));
        let bytes = op.encode();
        assert_eq!(bytes.len(), 3);
        assert_eq!(Operation::try_from(Tlv::try_from(&bytes).unwrap()), Ok(op));
    }
    assert_eq!(Operation::Sum(pair(12, 7)).encode(), vec![1, 2, 12, 7]);
    assert_eq!(Operation::Fact(single(-1)).encode(), vec![6, 1, 0xff]);
}

#[test]
fn record_operations_refuse_bad_records() {
    let bytes = [4u8, 2, 9, 0];
    assert_eq!(
        Operation::try_from(Tlv::try_from(&bytes).unwrap()),
        Err(OperationError::InvalidParameter)
    );
    let bytes = [5u8, 2, 9, 0];
    assert_eq!(
        Operation::try_from(Tlv::try_from(&bytes).unwrap()),
        Err(OperationError::InvalidParameter)
    );
    let bytes = [16u8, 2, 9, 1];
    assert_eq!(
        Operation::try_from(Tlv::try_from(&bytes).unwrap()),
        Err(OperationError::Generic)
    );
    let bytes = [6u8, 2, 9, 1];
    assert_eq!(
        Operation::try_from(Tlv::try_from(&bytes).unwrap()),
        Err(OperationError::Generic)
    );
    let tlv = Tlv { tag: TlvType::Mul, length: 2, data: &[1] };
    assert_eq!(Operation::try_from(tlv), Err(OperationError::NotEnoughData));
}

#[test]
fn record_operations_are_read_from_text() {
    assert_eq!(Operation::from_str("12+7"), Ok(Operation::Sum(pair(12, 7))));
    assert_eq!(Operation::from_str("12 - 7"), Ok(Operation::Sub(pair(12, 7))));
    assert_eq!(Operation::from_str("3x4"), Ok(Operation::Mul(pair(3, 4))));
    assert_eq!(Operation::from_str("9÷-3"), Ok(Operation::Div(over(9, -3))));
    assert_eq!(Operation::from_str("9%4"), Ok(Operation::Rem(over(9, 4))));
    assert_eq!(Operation::from_str("5!"), Ok(Operation::Fact(single(5))));
    assert_eq!(Operation::from_str("3/0"), Err(OperationError::InvalidParameter));
    assert_eq!(Operation::from_str("-1!"), Err(OperationError::WrongDomain));
    assert_eq!(Operation::from_str("5!3"), Err(OperationError::Parse));
    assert_eq!(Operation::from_str("5+"), Err(OperationError::Parse));
    assert_eq!(Operation::from_str("five"), Err(OperationError::Parse));
    assert_eq!(
        Operation::from_str("3^4"),
        Err(OperationError::UnsupportedOperation("^".to_string()))
    );
    assert_eq!(
        Operation::from_str(" 3 & "),
        Err(OperationError::UnsupportedOperation("&".to_string()))
    );
    assert_eq!(Operation::from_str("5--3"), Ok(Operation::Sub(pair(5, -3))));
    assert_eq!(Operation::from_str("-5+-3"), Ok(Operation::Sum(pair(-5, -3))));
    assert_eq!(Operation::from_str("500+1"), Err(OperationError::ParseIntError));
    let odd = Some(vec![None, Some("1".to_string()), Some("?".to_string()), None]);
    assert_eq!(
        Operation::from_captures(&odd),
        Err(OperationError::UnsupportedOperation("?".to_string()))
    );
    assert_eq!(Operation::from_captures(&None), Err(OperationError::Parse));
}

#[test]
fn record_operations_are_written_canonically() {
    assert_eq!(Operation::Sum(pair(12, 7)).to_string(), "12+7");
    assert_eq!(Operation::Sub(pair(-1, -1)).to_string(), "-1--1");
    assert_eq!(Operation::Mul(pair(3, 4)).to_string(), "3×4");
    assert_eq!(Operation::Div(over(8, 2)).to_string(), "8÷2");
    assert_eq!(Operation::Rem(over(8, -3)).to_string(), "8%-3");
    assert_eq!(Operation::Fact(single(5)).to_string(), "5!");
    assert_eq!(Operation::Fact(single(-5)).to_string(), "-5!");
    for text in ["100+27", "-128×-128", "7÷-2", "7%2", "20!"] {
        let op = Operation::from_str(text).unwrap();
        assert_eq!(op.to_string(), text);
        assert_eq!(Operation::from_str(&op.to_string()).unwrap().reduce(), op.reduce());
    }
}

#[test]
fn record_text_round_trip_holds_for_every_first_operand() {
    for a in i8::MIN..=i8::MAX {
        let mut ops = vec![
            Operation::Sum(pair(a, -9)),
            Operation::Sub(pair(a, -128)),
            Operation::Mul(pair(a, 127)),
            Operation::Div(over(a, -1)),
            Operation::Rem(over(a, 10)),
        ];
        if a >= 0 {
            ops.push(Operation::Fact(single(a)));
        }
        for op in ops {
            let bytes = op.encode();
            let decoded = Operation::try_from(Tlv::try_from(&bytes).unwrap()).unwrap();
            let parsed = Operation::from_str(&decoded.to_string());
            assert_eq!(parsed, Ok(op));
            assert_eq!(parsed.unwrap().reduce(), op.reduce());
        }
    }
}
