use bigdecimal::BigDecimal;
use protobuf_mapper::decimal::unpack_decimal;
use protobuf_mapper::result::MappingError;
use protobuf_mapper::{ProtoPack, ProtoUnpack};
use std::str::FromStr;

#[test]
fn decimal_packs_to_its_text() {
    let packed: String = BigDecimal::from_str("1331.107").unwrap().pack().unwrap();
    assert_eq!(packed, "1331.107");
    let packed: String = BigDecimal::from_str("-0.50").unwrap().pack().unwrap();
    assert_eq!(packed, "-0.50");
    let packed: String = BigDecimal::from(12).pack().unwrap();
    assert_eq!(packed, "12");
}

#[test]
fn decimal_unpacks_from_text() {
    let unpacked = BigDecimal::unpack("12.3".to_string()).unwrap();
    assert_eq!(unpacked, BigDecimal::from_str("12.3").unwrap());
    let unpacked = <BigDecimal as ProtoUnpack<&str>>::unpack("1.23E+3").unwrap();
    assert_eq!(unpacked, BigDecimal::from(1230));
    assert_eq!(unpack_decimal("-7").unwrap(), BigDecimal::from(-7));
}

#[test]
fn malformed_decimal_text_is_refused() {
    let err = BigDecimal::unpack("twelve".to_string()).err().unwrap();
    assert!(matches!(err, MappingError::ParseBigDecimal(_)));
    let expected = format!("Parse decimal error: {}", BigDecimal::from_str("twelve").err().unwrap());
    assert_eq!(err.message(), expected);
    assert!(matches!(unpack_decimal(""), Err(MappingError::ParseBigDecimal(_))));
    assert!(matches!(
        <BigDecimal as ProtoUnpack<&str>>::unpack("1.2.3"),
        Err(MappingError::ParseBigDecimal(_))
    ));
}

#[test]
fn decimal_round_trips_through_its_text() {
    for text in ["0", "1.5", "-1331.107", "123456789012345678901234567890.123456789"] {
        let d = BigDecimal::from_str(text).unwrap();
        let packed: String = d.clone().pack().unwrap();
        assert_eq!(BigDecimal::unpack(packed).unwrap(), d);
    }
}

#[test]
fn decimal_error_converts_from_the_outside_error() {
    let err: MappingError = BigDecimal::from_str("x").err().unwrap().into();
    assert!(matches!(err, MappingError::ParseBigDecimal(_)));
}
