use adsb_pipeline::record::{field_count, parse_bst_record, RECORD_FIELD_COUNT};

#[test]
fn record_is_read_by_place() {
    let line = "2024/06/01,12:00:00.000,1234,4CA2C4,RYR123,Ireland,x,38000,37500,51.5,-0.1,-64,270.5,450,269.9,7000,-1";
    assert_eq!(field_count(line), RECORD_FIELD_COUNT);
    let r = parse_bst_record(line);
    assert_eq!(r.date, "2024/06/01");
    assert_eq!(r.time, "12:00:00.000");
    assert_eq!(r.unique_id, "1234");
    assert_eq!(r.hex_ident, "4CA2C4");
    assert_eq!(r.callsign, "RYR123");
    assert_eq!(r.country, "Ireland");
    assert_eq!(r.unknown_field, "x");
    assert_eq!(r.altitude, 38000);
    assert_eq!(r.pressure_altitude, 37500);
    assert_eq!(r.latitude.as_str().parse::<f64>(), Ok(51.5));
    assert_eq!(r.longitude.as_str().parse::<f64>(), Ok(-0.1));
    assert_eq!(r.vertical_rate, -64);
    assert_eq!(r.heading.as_str().parse::<f64>(), Ok(270.5));
    assert_eq!(r.ground_speed.as_str().parse::<f64>(), Ok(450.0));
    assert_eq!(r.track.as_str().parse::<f64>(), Ok(269.9));
    assert_eq!(r.squawk, "7000");
    assert!(r.alert_flag);
}

#[test]
fn record_takes_zero_for_what_is_no_number() {
    let r = parse_bst_record(",,,,,,,x,,north,,2147483648,1e,.,--,,0");
    assert_eq!(r.date, "");
    assert_eq!(r.altitude, 0);
    assert_eq!(r.pressure_altitude, 0);
    assert_eq!(r.vertical_rate, 0);
    for d in [&r.latitude, &r.longitude, &r.heading, &r.ground_speed, &r.track] {
        assert_eq!(d.as_str().parse::<f64>(), Ok(0.0));
    }
    assert_eq!(r.squawk, "");
    assert!(!r.alert_flag);
}

#[test]
fn record_flag_is_set_by_minus_one_alone() {
    for (text, set) in [("-1", true), ("0", false), ("1", false), ("", false), ("-1 ", false), ("true", false)] {
        let line = format!(",,,,,,,,,,,,,,,,{}", text);
        assert_eq!(parse_bst_record(&line).alert_flag, set, "{:?}", text);
    }
}

#[test]
fn record_reads_no_more_than_seventeen_fields() {
    let short = "d,t,u,h,c,n,x,1,2,3,4,5,6,7,8,s,-1";
    let long = "d,t,u,h,c,n,x,1,2,3,4,5,6,7,8,s,-1,more,and,more";
    assert_eq!(field_count(long), 20);
    assert_eq!(parse_bst_record(long), parse_bst_record(short));
}

#[test]
fn field_count_is_one_more_than_the_commas() {
    assert_eq!(field_count(""), 1);
    assert_eq!(field_count("a"), 1);
    assert_eq!(field_count(","), 2);
    assert_eq!(field_count("a,b,,"), 4);
}
