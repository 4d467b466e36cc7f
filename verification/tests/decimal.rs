use adsb_pipeline::decimal::{is_real, Decimal};

const SAMPLES: [&str; 76] = [
    "", "0", "1", "12", "51.5", "-0.1", "+0.1", "3.14", "-3.14", "2.5E10", "2.5e10", "2.5E-10",
    "2.5e+10", "5.", ".5", "+.5", "-.5", "-5.", ".", "+.", "-.", "+", "-", "e", "e5", "1e",
    "1e+", "1e-", "1e5", "1E5", "1.e5", ".e5", ".5e5", "1e5.0", "1e5e5", "1..2", "1.2.3", "1.2e3",
    "inf", "INF", "Inf", "iNf", "infinity", "INFINITY", "Infinity", "infinit", "infinityy", "in",
    "nan", "NaN", "NAN", "nAn", "-nan", "+nan", "-inf", "+infinity", "nane", "nan0", " 1", "1 ",
    "1_000", "1,5", "0x10", "1f", "1.5f64", "--1", "+-1", "-+1", "١٢٣", "１.５", "1e１", "İnf",
    "ınf", "1e-400", "1e400", "000000000000000000000000000000000000000000000.000000000000000001",
];

#[test]
fn real_text_is_what_std_reads_as_a_real() {
    for s in SAMPLES {
        assert_eq!(is_real(s), s.parse::<f64>().is_ok(), "{:?}", s);
        assert_eq!(Decimal::parse(s).is_some(), s.parse::<f64>().is_ok(), "{:?}", s);
    }
}

#[test]
fn decimal_keeps_its_text() {
    let d = Decimal::parse("51.5").unwrap();
    assert_eq!(d.as_str(), "51.5");
    assert_eq!(d.as_str().parse::<f64>(), Ok(51.5));
    let d = Decimal::parse("-0.1").unwrap();
    assert_eq!(d.as_str(), "-0.1");
    assert_eq!(d.as_str().parse::<f64>(), Ok(-0.1));
    assert_eq!(d.clone(), d);
    assert_eq!(Decimal::parse("abc"), None);
    assert_eq!(Decimal::parse(""), None);
}

#[test]
fn decimal_zero_is_zero() {
    let z = Decimal::zero();
    assert_eq!(z.as_str(), "0");
    assert_eq!(z.as_str().parse::<f64>(), Ok(0.0));
    assert!(is_real(z.as_str()));
}
