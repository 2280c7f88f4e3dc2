use tcp1::tlv::TlvType;
use tcp1::{Answer, NonZeroI8, Operation, TCPLibError, Tlv};

fn nz(v: i8) -> NonZeroI8 {
    NonZeroI8::new(v).unwrap()
}

fn groups(left: &str, op: &str, right: Option<&str>) -> Option<Vec<Option<String>>> {
    Some(vec![
        Some(format!("{}{}{}", left, op, right.unwrap_or(""))),
        Some(left.to_string()),
        Some(op.to_string()),
        right.map(|r| r.to_string()),
    ])
}

#[test]
fn nonzero_refuses_only_zero() {
    assert!(NonZeroI8::new(0).is_none());
    for v in i8::MIN..=i8::MAX {
        if v != 0 {
            assert_eq!(NonZeroI8::new(v).unwrap().get(), v);
        }
    }
}

#[test]
fn sum_from_text_to_answer() {
    let op = Operation::from_str("12+7").unwrap();
    assert_eq!(op, Operation::Sum { a: 12, b: 7 });
    let bytes = op.encode();
    assert_eq!(bytes, vec![0x01, 0x02, 0x0c, 0x07]);
    let decoded = Operation::try_from(Tlv::try_from(&bytes).unwrap()).unwrap();
    assert_eq!(decoded, op);
    let result = decoded.reduce();
    assert_eq!(result, 19);
    assert_eq!(
        Answer::from(result).encode(),
        vec![0x10, 0x08, 0, 0, 0, 0, 0, 0, 0, 0x13]
    );
}

#[test]
fn factorial_of_five() {
    let op = Operation::from_str("5!").unwrap();
    assert_eq!(op, Operation::Fact(5));
    assert_eq!(op.reduce(), 120);
}

#[test]
fn division_by_zero_is_refused_in_text() {
    assert_eq!(Operation::from_str("3/0"), Err(TCPLibError::InvalidParameter));
    assert_eq!(Operation::from_str("3÷0"), Err(TCPLibError::InvalidParameter));
    assert_eq!(Operation::from_str("3%0"), Err(TCPLibError::InvalidParameter));
    assert_eq!(Operation::from_str("3 % -0"), Err(TCPLibError::InvalidParameter));
}

#[test]
fn negative_factorial_is_refused_in_text() {
    assert_eq!(Operation::from_str("-1!"), Err(TCPLibError::InvalidParameter));
    assert_eq!(Operation::from_str("-128!"), Err(TCPLibError::InvalidParameter));
    assert_eq!(Operation::from_str("-0!"), Ok(Operation::Fact(0)));
}

#[test]
fn zero_divisor_is_refused_on_the_wire() {
    for first in 0u8..=255 {
        for tag in [4u8, 5] {
            let bytes = [tag, 2, first, 0];
            let tlv = Tlv::try_from(&bytes).unwrap();
            assert_eq!(Operation::try_from(tlv), Err(TCPLibError::InvalidParameter));
        }
    }
}

#[test]
fn negative_factorial_is_refused_on_the_wire() {
    for byte in 128u8..=255 {
        let bytes = [6u8, 1, byte];
        let tlv = Tlv::try_from(&bytes).unwrap();
        assert_eq!(Operation::try_from(tlv), Err(TCPLibError::InvalidParameter));
    }
    let bytes = [6u8, 1, 127];
    assert_eq!(
        Operation::try_from(Tlv::try_from(&bytes).unwrap()),
        Ok(Operation::Fact(127))
    );
}

#[test]
fn tag_and_length_must_go_together() {
    for bytes in [
        vec![1u8, 1, 5],
        vec![1u8, 3, 5, 6, 7],
        vec![6u8, 2, 5, 6],
        vec![6u8, 0],
        vec![16u8, 2, 5, 6],
        vec![16u8, 8, 0, 0, 0, 0, 0, 0, 0, 1],
        vec![4u8, 0],
    ] {
        let tlv = Tlv::try_from(&bytes).unwrap();
        assert_eq!(Operation::try_from(tlv), Err(TCPLibError::Generic));
    }
}

#[test]
fn payload_must_be_as_long_as_announced() {
    let tlv = Tlv { tag: TlvType::Sum, length: 2, data: &[1] };
    assert_eq!(Operation::try_from(tlv), Err(TCPLibError::NotEnoughData));
    let tlv = Tlv { tag: TlvType::Fact, length: 1, data: &[] };
    assert_eq!(Operation::try_from(tlv), Err(TCPLibError::NotEnoughData));
    let tlv = Tlv { tag: TlvType::Div, length: 2, data: &[1, 2, 3] };
    assert_eq!(Operation::try_from(tlv), Err(TCPLibError::NotEnoughData));
}

#[test]
fn operands_are_signed_bytes() {
    let bytes = [3u8, 2, 0x80, 0xff];
    let op = Operation::try_from(Tlv::try_from(&bytes).unwrap()).unwrap();
    assert_eq!(op, Operation::Mul { a: -128, b: -1 });
    assert_eq!(op.encode(), bytes.to_vec());
    assert_eq!(Operation::Div { a: -1, b: nz(-128) }.encode(), vec![4, 2, 0xff, 0x80]);
    assert_eq!(Operation::Rem { a: 127, b: nz(1) }.encode(), vec![5, 2, 0x7f, 0x01]);
    assert_eq!(Operation::Sub { a: 9, b: 4 }.encode(), vec![2, 2, 9, 4]);
    assert_eq!(Operation::Fact(20).encode(), vec![6, 1, 20]);
}

#[test]
fn every_operation_round_trips_over_the_wire() {
    for a in i8::MIN..=i8::MAX {
        for b in i8::MIN..=i8::MAX {
            let mut ops = vec![
                Operation::Sum { a, b },
                Operation::Sub { a, b },
                Operation::Mul { a, b },
            ];
            if b != 0 {
                ops.push(Operation::Div { a, b: nz(b) });
                ops.push(Operation::Rem { a, b: nz(b) });
            }
            for op in ops {
                let bytes = op.encode();
                assert_eq!(bytes.len(), 4);
                assert_eq!(Operation::try_from(Tlv::try_from(&bytes).unwrap()), Ok(op));
            }
        }
    }
    for n in 0u8..=127 {
        let bytes = Operation::Fact(n).encode();
        assert_eq!(bytes.len(), 3);
        assert_eq!(
            Operation::try_from(Tlv::try_from(&bytes).unwrap()),
            Ok(Operation::Fact(n))
        );
    }
}

#[test]
fn text_round_trip_keeps_the_value() {
    let samples = [i8::MIN, -100, -17, -1, 0, 1, 9, 10, 99, 100, i8::MAX];
    for a in samples {
        for b in samples {
            let mut ops = vec![
                Operation::Sum { a, b },
                Operation::Sub { a, b },
                Operation::Mul { a, b },
            ];
            if b != 0 {
                ops.push(Operation::Div { a, b: nz(b) });
                ops.push(Operation::Rem { a, b: nz(b) });
            }
            for op in ops {
                let bytes = op.encode();
                let decoded = Operation::try_from(Tlv::try_from(&bytes).unwrap()).unwrap();
                let parsed = Operation::from_str(&decoded.to_string()).unwrap();
                assert_eq!(parsed, op);
                assert_eq!(parsed.reduce(), op.reduce());
            }
        }
    }
    for n in [0u8, 1, 5, 20, 21, 99, 100, 127] {
        let op = Operation::Fact(n);
        let parsed = Operation::from_str(&op.to_string()).unwrap();
        assert_eq!(parsed, op);
        assert_eq!(parsed.reduce(), op.reduce());
    }
}

#[test]
fn boundary_values() {
    assert_eq!(Operation::Fact(0).reduce(), 1);
    assert_eq!(Operation::Fact(1).reduce(), 1);
    assert_eq!(Operation::Sum { a: 127, b: 127 }.reduce(), 254);
    assert_eq!(Operation::Sum { a: -128, b: -128 }.reduce(), -256);
    assert_eq!(Operation::Sub { a: -128, b: 127 }.reduce(), -255);
    assert_eq!(Operation::Sub { a: 127, b: -128 }.reduce(), 255);
    assert_eq!(Operation::Mul { a: -128, b: -128 }.reduce(), 16384);
    assert_eq!(Operation::Mul { a: -128, b: 127 }.reduce(), -16256);
}

#[test]
fn division_rounds_toward_zero() {
    assert_eq!(Operation::Div { a: 7, b: nz(2) }.reduce(), 3);
    assert_eq!(Operation::Div { a: -7, b: nz(2) }.reduce(), -3);
    assert_eq!(Operation::Div { a: 7, b: nz(-2) }.reduce(), -3);
    assert_eq!(Operation::Div { a: -7, b: nz(-2) }.reduce(), 3);
    assert_eq!(Operation::Div { a: -128, b: nz(-1) }.reduce(), 128);
    assert_eq!(Operation::Div { a: 0, b: nz(5) }.reduce(), 0);
    assert_eq!(Operation::Div { a: 1, b: nz(127) }.reduce(), 0);
}

#[test]
fn remainder_has_the_sign_of_the_dividend() {
    assert_eq!(Operation::Rem { a: 7, b: nz(2) }.reduce(), 1);
    assert_eq!(Operation::Rem { a: -7, b: nz(2) }.reduce(), -1);
    assert_eq!(Operation::Rem { a: 7, b: nz(-2) }.reduce(), 1);
    assert_eq!(Operation::Rem { a: -7, b: nz(-2) }.reduce(), -1);
    assert_eq!(Operation::Rem { a: -128, b: nz(-1) }.reduce(), 0);
    assert_eq!(Operation::Rem { a: 5, b: nz(127) }.reduce(), 5);
}

#[test]
fn quotient_and_remainder_agree_with_wide_arithmetic() {
    for a in i8::MIN..=i8::MAX {
        for b in i8::MIN..=i8::MAX {
            if b == 0 {
                continue;
            }
            assert_eq!(Operation::Div { a, b: nz(b) }.reduce(), a as i64 / b as i64);
            assert_eq!(Operation::Rem { a, b: nz(b) }.reduce(), a as i64 % b as i64);
        }
    }
}

#[test]
fn factorial_saturates() {
    assert_eq!(Operation::Fact(5).reduce(), 120);
    assert_eq!(Operation::Fact(10).reduce(), 3628800);
    assert_eq!(Operation::Fact(20).reduce(), 2432902008176640000);
    assert_eq!(Operation::Fact(21).reduce(), i64::MAX);
    assert_eq!(Operation::Fact(22).reduce(), i64::MAX);
    assert_eq!(Operation::Fact(127).reduce(), i64::MAX);
    assert_eq!(Operation::Fact(255).reduce(), i64::MAX);
}

#[test]
fn display_is_canonical() {
    assert_eq!(Operation::Sum { a: 12, b: 7 }.to_string(), "12+7");
    assert_eq!(Operation::Sub { a: -12, b: -7 }.to_string(), "-12--7");
    assert_eq!(Operation::Mul { a: 3, b: 4 }.to_string(), "3×4");
    assert_eq!(Operation::Div { a: -128, b: nz(127) }.to_string(), "-128÷127");
    assert_eq!(Operation::Rem { a: 100, b: nz(-100) }.to_string(), "100%-100");
    assert_eq!(Operation::Fact(0).to_string(), "0!");
    assert_eq!(Operation::Fact(255).to_string(), "255!");
    assert_eq!(Operation::from_str("3*4").unwrap().to_string(), "3×4");
    assert_eq!(Operation::from_str("3x4").unwrap().to_string(), "3×4");
    assert_eq!(Operation::from_str("8/2").unwrap().to_string(), "8÷2");
}

#[test]
fn parse_accepts_synonyms_and_white_space() {
    assert_eq!(Operation::from_str("3*4"), Ok(Operation::Mul { a: 3, b: 4 }));
    assert_eq!(Operation::from_str("3×4"), Ok(Operation::Mul { a: 3, b: 4 }));
    assert_eq!(Operation::from_str("3x4"), Ok(Operation::Mul { a: 3, b: 4 }));
    assert_eq!(Operation::from_str("9/3"), Ok(Operation::Div { a: 9, b: nz(3) }));
    assert_eq!(Operation::from_str("9÷3"), Ok(Operation::Div { a: 9, b: nz(3) }));
    assert_eq!(Operation::from_str("9%4"), Ok(Operation::Rem { a: 9, b: nz(4) }));
    assert_eq!(Operation::from_str("  12 +\t7  "), Ok(Operation::Sum { a: 12, b: 7 }));
    assert_eq!(Operation::from_str("-12--7"), Ok(Operation::Sub { a: -12, b: -7 }));
    assert_eq!(Operation::from_str(" 5 ! "), Ok(Operation::Fact(5)));
    assert_eq!(Operation::from_str("-128+127"), Ok(Operation::Sum { a: -128, b: 127 }));
    assert_eq!(Operation::from_str("007+000"), Ok(Operation::Sum { a: 7, b: 0 }));
}

#[test]
fn parse_refuses_other_shapes() {
    for text in [
        "", " ", "+", "12", "+7", "12 7", "a+b", "1+2+3", "1 + 2 x", "1**2", "1.5+2", "X",
        "--5", "5 plus 3", "^3", "3 ^ ^ 4",
    ] {
        assert_eq!(Operation::from_str(text), Err(TCPLibError::Parse), "{:?}", text);
    }
    assert_eq!(Operation::from_str("12+"), Err(TCPLibError::Parse));
    assert_eq!(Operation::from_str("12-"), Err(TCPLibError::Parse));
    assert_eq!(Operation::from_str("12 x "), Err(TCPLibError::Parse));
    assert_eq!(Operation::from_str("12/"), Err(TCPLibError::Parse));
    assert_eq!(Operation::from_str("5!3"), Err(TCPLibError::Parse));
}

#[test]
fn parse_refuses_integers_out_of_range() {
    assert_eq!(Operation::from_str("128+1"), Err(TCPLibError::ParseIntError));
    assert_eq!(Operation::from_str("1+128"), Err(TCPLibError::ParseIntError));
    assert_eq!(Operation::from_str("-129+1"), Err(TCPLibError::ParseIntError));
    assert_eq!(Operation::from_str("300!"), Err(TCPLibError::ParseIntError));
    assert_eq!(
        Operation::from_str("99999999999999999999999999999999999999+1"),
        Err(TCPLibError::ParseIntError)
    );
    assert_eq!(Operation::from_str("300+"), Err(TCPLibError::ParseIntError));
}

#[test]
fn groups_of_a_search_are_read_by_shape() {
    assert_eq!(Operation::from_captures(&None), Err(TCPLibError::Parse));
    assert_eq!(Operation::from_captures(&Some(vec![])), Err(TCPLibError::Parse));
    assert_eq!(
        Operation::from_captures(&Some(vec![Some("1+2".to_string()), Some("1".to_string()), Some("+".to_string())])),
        Err(TCPLibError::Parse)
    );
    assert_eq!(
        Operation::from_captures(&Some(vec![None, None, Some("+".to_string()), Some("2".to_string())])),
        Err(TCPLibError::Parse)
    );
    assert_eq!(
        Operation::from_captures(&Some(vec![None, Some("1".to_string()), None, Some("2".to_string())])),
        Err(TCPLibError::Parse)
    );
    assert_eq!(
        Operation::from_captures(&groups("12", "+", Some("7"))),
        Ok(Operation::Sum { a: 12, b: 7 })
    );
    assert_eq!(
        Operation::from_captures(&groups("12", "-", Some("-7"))),
        Ok(Operation::Sub { a: 12, b: -7 })
    );
    assert_eq!(Operation::from_captures(&groups("5", "!", None)), Ok(Operation::Fact(5)));
    assert_eq!(
        Operation::from_captures(&groups("+5", "÷", Some("+2"))),
        Ok(Operation::Div { a: 5, b: nz(2) })
    );
}

#[test]
fn groups_with_an_unknown_symbol_are_unsupported() {
    assert_eq!(
        Operation::from_captures(&groups("1", "^", Some("2"))),
        Err(TCPLibError::UnsupportedOperation("^".to_string()))
    );
    assert_eq!(
        Operation::from_captures(&groups("1", "**", Some("2"))),
        Err(TCPLibError::UnsupportedOperation("**".to_string()))
    );
    assert_eq!(
        Operation::from_captures(&groups("1", "", None)),
        Err(TCPLibError::UnsupportedOperation("".to_string()))
    );
    assert_eq!(
        Operation::from_captures(&groups("1", "X", Some("2"))),
        Err(TCPLibError::UnsupportedOperation("X".to_string()))
    );
}

#[test]
fn groups_are_checked_integers_first() {
    assert_eq!(
        Operation::from_captures(&groups("1a", "^", Some("2"))),
        Err(TCPLibError::ParseIntError)
    );
    assert_eq!(
        Operation::from_captures(&groups("1", "^", Some(""))),
        Err(TCPLibError::ParseIntError)
    );
    assert_eq!(
        Operation::from_captures(&groups("-", "+", Some("2"))),
        Err(TCPLibError::ParseIntError)
    );
    assert_eq!(Operation::from_captures(&groups("1", "+", None)), Err(TCPLibError::Parse));
    assert_eq!(
        Operation::from_captures(&groups("1", "!", Some("2"))),
        Err(TCPLibError::Parse)
    );
    assert_eq!(
        Operation::from_captures(&groups("1", "/", Some("0"))),
        Err(TCPLibError::InvalidParameter)
    );
    assert_eq!(
        Operation::from_captures(&groups("-1", "!", None)),
        Err(TCPLibError::InvalidParameter)
    );
}

fn unsupported(symbol: &str) -> Result<Operation, TCPLibError> {
    Err(TCPLibError::UnsupportedOperation(symbol.to_string()))
}

#[test]
fn parse_refuses_an_unknown_symbol_with_its_text() {
    assert_eq!(Operation::from_str("3^4"), unsupported("^"));
    assert_eq!(Operation::from_str("1^2"), unsupported("^"));
    assert_eq!(Operation::from_str("  3 ^ 4  "), unsupported("^"));
    assert_eq!(Operation::from_str("3^-4"), unsupported("^"));
    assert_eq!(Operation::from_str("-3&0"), unsupported("&"));
    assert_eq!(Operation::from_str("3X4"), unsupported("X"));
    assert_eq!(Operation::from_str("3:4"), unsupported(":"));
    assert_eq!(Operation::from_str("3√4"), unsupported("√"));
    assert_eq!(Operation::from_str("3^"), unsupported("^"));
    assert_eq!(Operation::from_str("3 ? "), unsupported("?"));
    assert_eq!(Operation::from_str("3."), unsupported("."));
}

#[test]
fn parse_reads_integers_before_the_symbol() {
    assert_eq!(Operation::from_str("300^4"), Err(TCPLibError::ParseIntError));
    assert_eq!(Operation::from_str("3^400"), Err(TCPLibError::ParseIntError));
    assert_eq!(Operation::from_str("300!4"), Err(TCPLibError::ParseIntError));
}

#[test]
fn parse_reads_negative_operands_after_any_operator() {
    assert_eq!(Operation::from_str("5--3"), Ok(Operation::Sub { a: 5, b: -3 }));
    assert_eq!(Operation::from_str("-5+-3"), Ok(Operation::Sum { a: -5, b: -3 }));
    assert_eq!(Operation::from_str("-5--3"), Ok(Operation::Sub { a: -5, b: -3 }));
    assert_eq!(Operation::from_str("-5×-3"), Ok(Operation::Mul { a: -5, b: -3 }));
    assert_eq!(Operation::from_str("-5÷-3"), Ok(Operation::Div { a: -5, b: nz(-3) }));
    assert_eq!(Operation::from_str("-5%-3"), Ok(Operation::Rem { a: -5, b: nz(-3) }));
    assert_eq!(Operation::from_str("5 - -3"), Ok(Operation::Sub { a: 5, b: -3 }));
    assert_eq!(Operation::from_str("5 -3"), Ok(Operation::Sub { a: 5, b: 3 }));
}

#[test]
fn text_round_trip_holds_for_every_first_operand() {
    for a in i8::MIN..=i8::MAX {
        for b in [i8::MIN, 0, 7] {
            let mut ops = vec![
                Operation::Sum { a, b },
                Operation::Sub { a, b },
                Operation::Mul { a, b },
            ];
            if b != 0 {
                ops.push(Operation::Div { a, b: nz(b) });
                ops.push(Operation::Rem { a, b: nz(b) });
            }
            for op in ops {
                let bytes = op.encode();
                let decoded = Operation::try_from(Tlv::try_from(&bytes).unwrap()).unwrap();
                let parsed = Operation::from_str(&decoded.to_string());
                assert_eq!(parsed, Ok(op));
                assert_eq!(parsed.unwrap().reduce(), op.reduce());
            }
        }
    }
}

#[test]
fn text_round_trip_holds_for_every_factorial() {
    for n in 0u8..=127 {
        let op = Operation::Fact(n);
        let bytes = op.encode();
        let decoded = Operation::try_from(Tlv::try_from(&bytes).unwrap()).unwrap();
        let parsed = Operation::from_str(&decoded.to_string());
        assert_eq!(parsed, Ok(op));
        assert_eq!(parsed.unwrap().reduce(), op.reduce());
    }
}
