use adsb_pipeline::location::{audit_log_location, hierarchical_key, LOG_ROOT, LOG_SUFFIX};
use adsb_pipeline::message::parse_socket_data;

#[test]
fn key_is_year_month_day_and_address() {
    let m = parse_socket_data("MSG,3,1,1,4CA2C4,1,2024/06/01,12:00:00.000");
    assert_eq!(hierarchical_key(&m), Some("2024.06.01.4CA2C4".to_string()));
}

#[test]
fn key_has_an_empty_address_where_none_is_given() {
    let absent = parse_socket_data("MSG,3,1,1");
    assert_eq!(absent.hex_ident, None);
    assert_eq!(hierarchical_key(&absent), None);
    let mut m = parse_socket_data("MSG,3,1,1,,1,2024/06/01");
    assert_eq!(m.hex_ident, Some(String::new()));
    assert_eq!(hierarchical_key(&m), Some("2024.06.01.".to_string()));
    m.hex_ident = None;
    assert_eq!(hierarchical_key(&m), Some("2024.06.01.".to_string()));
}

#[test]
fn key_needs_a_date_of_three_parts() {
    for date in ["", "2024", "2024/06", "2024/06/01/", "/2024/06/01", "2024-06-01", "2024/06/01/02"] {
        let m = parse_socket_data(&format!("MSG,3,1,1,4CA2C4,1,{}", date));
        assert_eq!(m.generated_date, date);
        assert_eq!(hierarchical_key(&m), None, "{:?}", date);
    }
    for (date, key) in [
        ("//", "...4CA2C4"),
        ("a/b/c", "a.b.c.4CA2C4"),
        ("2024/13/99", "2024.13.99.4CA2C4"),
        ("20.24/06/01", "20.24.06.01.4CA2C4"),
    ] {
        let m = parse_socket_data(&format!("MSG,3,1,1,4CA2C4,1,{}", date));
        assert_eq!(hierarchical_key(&m), Some(key.to_string()), "{:?}", date);
    }
}

#[test]
fn key_depends_on_date_and_address_alone() {
    let a = parse_socket_data("MSG,3,1,1,4CA2C4,1,2024/06/01,12:00:00.000,2024/06/01,12:00:00.005,,38000");
    let b = parse_socket_data("MSG,5,9,8,4CA2C4,7,2024/06/01,23:59:59.000,2024/06/02,00:00:00.001,BAW1,100,1,2,3,4,5,7000,0,0,0,-1");
    assert_ne!(a, b);
    assert_eq!(hierarchical_key(&a), hierarchical_key(&b));
    assert_eq!(hierarchical_key(&a), hierarchical_key(&a));
    let c = parse_socket_data("MSG,3,1,1,4CA2C5,1,2024/06/01");
    assert_ne!(hierarchical_key(&a), hierarchical_key(&c));
}

#[test]
fn log_lies_under_the_day() {
    let l = audit_log_location("2024/06/01");
    assert_eq!(l.directory, "/app/logs/2024/06/01");
    assert_eq!(l.file_name, "2024-06-01.log");
    assert_eq!(l.path, "/app/logs/2024/06/01/2024-06-01.log");
    assert_eq!(LOG_ROOT, "/app/logs");
    assert_eq!(LOG_SUFFIX, ".log");
}

#[test]
fn log_location_is_made_for_any_date() {
    for date in ["", "/", "2024", "2024/06", "a/b/c/d", "//", "ä/ö"] {
        let l = audit_log_location(date);
        assert_eq!(l.directory, format!("/app/logs/{}", date));
        assert_eq!(l.file_name, format!("{}.log", date.replace("/", "-")));
        assert_eq!(l.path, format!("{}/{}", l.directory, l.file_name));
    }
}
