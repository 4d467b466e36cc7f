use adsb_pipeline::pipeline::{
    advance, begin, handle, is_final, run, Failure, Stage, COLLECTION, LAST_MESSAGE_KEY,
};

const LINE: &str = "MSG,3,1,1,4CA2C4,1,2024/06/01,12:00:00.000,2024/06/01,12:00:00.005,,38000,,,51.5,-0.1,,,,,,0";

#[test]
fn handling_holds_what_the_sinks_need() {
    let h = begin(LINE).unwrap();
    assert_eq!(h.line, LINE);
    assert_eq!(h.message, adsb_pipeline::message::parse_socket_data(LINE));
    assert_eq!(h.path, "2024.06.01.4CA2C4");
    assert_eq!(h.log.directory, "/app/logs/2024/06/01");
    assert_eq!(h.log.file_name, "2024-06-01.log");
    assert_eq!(h.log.path, "/app/logs/2024/06/01/2024-06-01.log");
    assert_eq!(LAST_MESSAGE_KEY, "lastMessage");
    assert_eq!(COLLECTION, "messages");
}

#[test]
fn line_without_a_date_is_not_handled() {
    assert_eq!(begin("STA"), Err(Failure::MalformedDate));
    assert_eq!(begin(""), Err(Failure::MalformedDate));
    assert_eq!(begin("MSG,3,1,1,4CA2C4,1,2024-06-01"), Err(Failure::MalformedDate));
    assert_eq!(begin("MSG,3,1,1,4CA2C4,1,2024/06/01/00"), Err(Failure::MalformedDate));
}

#[test]
fn steps_follow_in_order() {
    assert_eq!(advance(Stage::AppendReport, true), Stage::AppendLine);
    assert_eq!(advance(Stage::AppendLine, true), Stage::SetLast);
    assert_eq!(advance(Stage::SetLast, true), Stage::Acknowledge);
    assert_eq!(advance(Stage::Acknowledge, true), Stage::Done);
    assert_eq!(run(Stage::AppendReport, &[]), Stage::AppendReport);
    assert_eq!(run(Stage::AppendReport, &[true, true, true, true]), Stage::Done);
}

#[test]
fn each_failure_ends_the_handling() {
    assert_eq!(advance(Stage::AppendReport, false), Stage::Aborted(Failure::StoreWrite));
    assert_eq!(advance(Stage::AppendLine, false), Stage::Aborted(Failure::LogWrite));
    assert_eq!(advance(Stage::SetLast, false), Stage::Aborted(Failure::CacheWrite));
    assert_eq!(advance(Stage::Acknowledge, false), Stage::Aborted(Failure::Acknowledgment));
}

#[test]
fn ended_handling_stays_as_it_ended() {
    for ok in [true, false] {
        assert_eq!(advance(Stage::Done, ok), Stage::Done);
        for f in [
            Failure::MalformedDate,
            Failure::StoreWrite,
            Failure::LogWrite,
            Failure::CacheWrite,
            Failure::Acknowledgment,
        ] {
            assert_eq!(advance(Stage::Aborted(f), ok), Stage::Aborted(f));
            assert!(is_final(Stage::Aborted(f)));
        }
    }
    assert!(is_final(Stage::Done));
    assert!(!is_final(Stage::AppendReport));
    assert!(!is_final(Stage::AppendLine));
    assert!(!is_final(Stage::SetLast));
    assert!(!is_final(Stage::Acknowledge));
}

#[test]
fn acknowledged_only_after_all_sinks() {
    for bits in 0u32..64 {
        let outcomes: Vec<bool> = (0..6).map(|i| bits & (1 << i) != 0).collect();
        for n in 0..=outcomes.len() {
            let reached = run(Stage::AppendReport, &outcomes[..n]);
            let all_sinks = n >= 3 && outcomes[0] && outcomes[1] && outcomes[2];
            if matches!(reached, Stage::Acknowledge | Stage::Done) {
                assert!(all_sinks);
            }
            if reached == Stage::Done {
                assert!(n >= 4 && outcomes[3]);
            }
            if n >= 1 && !outcomes[0] {
                assert_eq!(reached, Stage::Aborted(Failure::StoreWrite));
            }
        }
    }
}

#[test]
fn store_failure_leaves_the_line_to_be_delivered_again() {
    let first = begin(LINE).unwrap();
    let stage = advance(Stage::AppendReport, false);
    assert_eq!(stage, Stage::Aborted(Failure::StoreWrite));
    assert_ne!(advance(stage, true), Stage::Acknowledge);
    assert_ne!(advance(stage, true), Stage::Done);
    let again = begin(LINE).unwrap();
    assert_eq!(again, first);
    assert_eq!(run(Stage::AppendReport, &[true, true, true, true]), Stage::Done);
}

#[test]
fn every_line_asks_for_one_append_under_its_path() {
    let lines = [
        "MSG,3,1,1,4CA2C4,1,2024/06/01,12:00:00.000",
        "MSG,4,1,1,4CA2C4,1,2024/06/01,12:00:01.000",
        "MSG,5,1,1,4CA2C4,1,2024/06/01,12:00:02.000",
    ];
    let handled: Vec<_> = lines.iter().map(|l| begin(l).unwrap()).collect();
    assert_eq!(handled.len(), lines.len());
    for (h, l) in handled.iter().zip(lines) {
        assert_eq!(h.path, "2024.06.01.4CA2C4");
        assert_eq!(h.line, l);
    }
    assert_ne!(handled[0].message, handled[1].message);
    assert_ne!(handled[1].message, handled[2].message);
}

#[test]
fn whole_delivery_ends_as_its_steps_end() {
    assert_eq!(handle(LINE, &[]), Stage::AppendReport);
    assert_eq!(handle(LINE, &[true]), Stage::AppendLine);
    assert_eq!(handle(LINE, &[true, true]), Stage::SetLast);
    assert_eq!(handle(LINE, &[true, true, true]), Stage::Acknowledge);
    assert_eq!(handle(LINE, &[true, true, true, true]), Stage::Done);
    assert_eq!(handle(LINE, &[false]), Stage::Aborted(Failure::StoreWrite));
    assert_eq!(handle(LINE, &[true, false]), Stage::Aborted(Failure::LogWrite));
    assert_eq!(handle(LINE, &[true, true, false]), Stage::Aborted(Failure::CacheWrite));
    assert_eq!(handle(LINE, &[true, true, true, false]), Stage::Aborted(Failure::Acknowledgment));
    assert_eq!(handle(LINE, &[false, true, true, true]), Stage::Aborted(Failure::StoreWrite));
}

#[test]
fn line_without_a_date_is_never_acknowledged() {
    for line in ["STA", "", "MSG,3,1,1,4CA2C4,1,2024-06-01", "MSG,3,1,1,4CA2C4,1,2024/06"] {
        for bits in 0u32..32 {
            let outcomes: Vec<bool> = (0..5).map(|i| bits & (1 << i) != 0).collect();
            for n in 0..=outcomes.len() {
                assert_eq!(handle(line, &outcomes[..n]), Stage::Aborted(Failure::MalformedDate));
            }
        }
    }
}
