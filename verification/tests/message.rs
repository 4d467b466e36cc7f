use adsb_pipeline::location::hierarchical_key;
use adsb_pipeline::message::{nth_field, parse_socket_data, read_flag, BaseStationMessage, FIELD_COUNT};

fn number(value: &Option<adsb_pipeline::decimal::Decimal>) -> Option<f64> {
    value.as_ref().map(|d| d.as_str().parse::<f64>().unwrap())
}

#[test]
fn position_message_is_read_by_place() {
    let line = "MSG,3,1,1,4CA2C4,1,2024/06/01,12:00:00.000,2024/06/01,12:00:00.005,,38000,,,51.5,-0.1,,,,,,0";
    let m = parse_socket_data(line);
    assert_eq!(m.message_type, "MSG");
    assert_eq!(m.transmission_type, Some(3));
    assert_eq!(m.session_id, Some(1));
    assert_eq!(m.aircraft_id, Some(1));
    assert_eq!(m.hex_ident, Some("4CA2C4".to_string()));
    assert_eq!(m.flight_id, Some(1));
    assert_eq!(m.generated_date, "2024/06/01");
    assert_eq!(m.generated_time, "12:00:00.000");
    assert_eq!(m.logged_date, "2024/06/01");
    assert_eq!(m.logged_time, "12:00:00.005");
    assert_eq!(m.callsign, Some(String::new()));
    assert_eq!(m.altitude, Some(38000));
    assert_eq!(number(&m.ground_speed), None);
    assert_eq!(number(&m.track), None);
    assert_eq!(number(&m.latitude), Some(51.5));
    assert_eq!(number(&m.longitude), Some(-0.1));
    assert_eq!(m.vertical_rate, None);
    assert_eq!(m.squawk, Some(String::new()));
    assert_eq!(m.alert, None);
    assert_eq!(m.emergency, None);
    assert_eq!(m.spi, None);
    assert_eq!(m.is_on_ground, Some(false));
    assert_eq!(hierarchical_key(&m), Some("2024.06.01.4CA2C4".to_string()));
}

#[test]
fn single_field_line_is_read() {
    let m = parse_socket_data("STA");
    assert_eq!(m.message_type, "STA");
    assert_eq!(m.transmission_type, None);
    assert_eq!(m.session_id, None);
    assert_eq!(m.aircraft_id, None);
    assert_eq!(m.hex_ident, None);
    assert_eq!(m.flight_id, None);
    assert_eq!(m.generated_date, "");
    assert_eq!(m.generated_time, "");
    assert_eq!(m.logged_date, "");
    assert_eq!(m.logged_time, "");
    assert_eq!(m.callsign, None);
    assert_eq!(m.altitude, None);
    assert_eq!(m.ground_speed, None);
    assert_eq!(m.track, None);
    assert_eq!(m.latitude, None);
    assert_eq!(m.longitude, None);
    assert_eq!(m.vertical_rate, None);
    assert_eq!(m.squawk, None);
    assert_eq!(m.alert, None);
    assert_eq!(m.emergency, None);
    assert_eq!(m.spi, None);
    assert_eq!(m.is_on_ground, None);
    assert_eq!(hierarchical_key(&m), None);
}

#[test]
fn empty_line_gives_an_empty_message() {
    let m = parse_socket_data("");
    assert_eq!(m.message_type, "");
    assert_eq!(m.transmission_type, None);
    assert_eq!(m.hex_ident, None);
    assert_eq!(m.generated_date, "");
    assert_eq!(m.logged_time, "");
    assert_eq!(m.squawk, None);
    assert_eq!(m.is_on_ground, None);
}

#[test]
fn full_line_gives_every_field_back() {
    let line = "MSG,8,111,22222,A1B2C3,333333,2023/12/31,23:59:59.999,2024/01/01,00:00:00.001,BAW123 ,-1200,450.5,270,-33.9461,151.1772,-2048,7700,-1,0,-1,0";
    let m = parse_socket_data(line);
    assert_eq!(m.message_type, "MSG");
    assert_eq!(m.transmission_type, Some(8));
    assert_eq!(m.session_id, Some(111));
    assert_eq!(m.aircraft_id, Some(22222));
    assert_eq!(m.hex_ident, Some("A1B2C3".to_string()));
    assert_eq!(m.flight_id, Some(333333));
    assert_eq!(m.generated_date, "2023/12/31");
    assert_eq!(m.generated_time, "23:59:59.999");
    assert_eq!(m.logged_date, "2024/01/01");
    assert_eq!(m.logged_time, "00:00:00.001");
    assert_eq!(m.callsign, Some("BAW123 ".to_string()));
    assert_eq!(m.altitude, Some(-1200));
    assert_eq!(number(&m.ground_speed), Some(450.5));
    assert_eq!(number(&m.track), Some(270.0));
    assert_eq!(number(&m.latitude), Some(-33.9461));
    assert_eq!(number(&m.longitude), Some(151.1772));
    assert_eq!(m.vertical_rate, Some(-2048));
    assert_eq!(m.squawk, Some("7700".to_string()));
    assert_eq!(m.alert, Some(true));
    assert_eq!(m.emergency, Some(false));
    assert_eq!(m.spi, Some(true));
    assert_eq!(m.is_on_ground, Some(false));
    assert_eq!(m.latitude.unwrap().as_str(), "-33.9461");
}

#[test]
fn flag_is_true_false_or_absent() {
    assert_eq!(read_flag("-1"), Some(true));
    assert_eq!(read_flag("0"), Some(false));
    for other in ["", "1", "-0", "+0", "00", " 0", "0 ", "-1 ", "true", "false", "-", "-11", "−1"] {
        assert_eq!(read_flag(other), None, "{:?}", other);
    }
    let m = parse_socket_data(",,,,,,,,,,,,,,,,,,1,true,,-1");
    assert_eq!(m.alert, None);
    assert_eq!(m.emergency, None);
    assert_eq!(m.spi, None);
    assert_eq!(m.is_on_ground, Some(true));
}

fn expected(fields: &[&str]) -> BaseStationMessage {
    let text = |i: usize| fields.get(i).map(|s| s.to_string());
    let flag = |i: usize| {
        fields.get(i).and_then(|v| match *v {
            "-1" => Some(true),
            "0" => Some(false),
            _ => None,
        })
    };
    let decimal = |i: usize| {
        fields.get(i).and_then(|v| {
            if v.parse::<f64>().is_ok() {
                adsb_pipeline::decimal::Decimal::parse(v)
            } else {
                None
            }
        })
    };
    BaseStationMessage {
        message_type: text(0).unwrap_or_default(),
        transmission_type: fields.get(1).and_then(|v| v.parse().ok()),
        session_id: fields.get(2).and_then(|v| v.parse().ok()),
        aircraft_id: fields.get(3).and_then(|v| v.parse().ok()),
        hex_ident: text(4),
        flight_id: fields.get(5).and_then(|v| v.parse().ok()),
        generated_date: text(6).unwrap_or_default(),
        generated_time: text(7).unwrap_or_default(),
        logged_date: text(8).unwrap_or_default(),
        logged_time: text(9).unwrap_or_default(),
        callsign: text(10),
        altitude: fields.get(11).and_then(|v| v.parse().ok()),
        ground_speed: decimal(12),
        track: decimal(13),
        latitude: decimal(14),
        longitude: decimal(15),
        vertical_rate: fields.get(16).and_then(|v| v.parse().ok()),
        squawk: text(17),
        alert: flag(18),
        emergency: flag(19),
        spi: flag(20),
        is_on_ground: flag(21),
    }
}

#[test]
fn short_lines_leave_the_rest_absent() {
    let full = [
        "MSG", "4", "5", "6", "ABCDEF", "7", "2024/02/29", "01:02:03.004", "2024/02/29",
        "01:02:03.100", "KLM1", "1000", "1.5", "2.5", "3.5", "4.5", "-64", "1234", "0", "-1", "0",
        "-1",
    ];
    assert_eq!(full.len(), FIELD_COUNT);
    for n in 1..=full.len() {
        let line = full[..n].join(",");
        let m = parse_socket_data(&line);
        assert_eq!(m, expected(&full[..n]), "{} fields", n);
        if n <= 1 {
            assert_eq!(m.transmission_type, None);
        }
        if n <= 4 {
            assert_eq!(m.hex_ident, None);
        }
        if n <= 6 {
            assert_eq!(m.generated_date, "");
        }
        if n <= 14 {
            assert_eq!(m.latitude, None);
        }
        if n <= 21 {
            assert_eq!(m.is_on_ground, None);
        }
    }
}

#[test]
fn fields_that_denote_no_value_are_absent() {
    let lines = [
        "MSG,256,4294967296,-1,,x,,,,,,2147483648,1e,.,--1,0x10,-2147483649,,2,,-1,0",
        "MSG,+7,+42,007,,4294967295,,,,,,-2147483648,+1.e5,.5,5.,inf,+2147483647,,,,,",
        "MSG, 3,3 ,1_000,,١٢٣,,,,,,1.0,nan,-Infinity,1e+308,1E-400,٣,,,,,",
        "a,b,c,d,e,f,g,h,i,j,k,l,m,n,o,p,q,r,s,t,u,v,w,x,y,z",
        ",,,,,,,,,,,,,,,,,,,,,",
        "MSG,3,,,ÄÖÜ,,2024/06/01,,,,✈ callsign,,,,,,,,,,,",
    ];
    for line in lines {
        let fields: Vec<&str> = line.split(',').collect();
        assert_eq!(parse_socket_data(line), expected(&fields), "{:?}", line);
    }
    let m = parse_socket_data(lines[0]);
    assert_eq!(m.transmission_type, None);
    assert_eq!(m.session_id, None);
    assert_eq!(m.aircraft_id, None);
    assert_eq!(m.altitude, None);
    assert_eq!(m.ground_speed, None);
    assert_eq!(m.track, None);
    assert_eq!(m.latitude, None);
    assert_eq!(m.longitude, None);
    assert_eq!(m.vertical_rate, None);
    let m = parse_socket_data(lines[1]);
    assert_eq!(m.transmission_type, Some(7));
    assert_eq!(m.session_id, Some(42));
    assert_eq!(m.aircraft_id, Some(7));
    assert_eq!(m.flight_id, Some(4294967295));
    assert_eq!(m.altitude, Some(-2147483648));
    assert_eq!(m.vertical_rate, Some(2147483647));
    assert_eq!(number(&m.ground_speed), Some(100000.0));
    assert_eq!(number(&m.track), Some(0.5));
    assert_eq!(number(&m.latitude), Some(5.0));
    assert_eq!(number(&m.longitude), Some(f64::INFINITY));
}

#[test]
fn nth_field_is_absent_beyond_the_line() {
    let fields = vec!["a", "", "c"];
    assert_eq!(nth_field(&fields, 0), Some("a"));
    assert_eq!(nth_field(&fields, 1), Some(""));
    assert_eq!(nth_field(&fields, 2), Some("c"));
    assert_eq!(nth_field(&fields, 3), None);
    assert_eq!(nth_field(&fields, usize::MAX), None);
}
