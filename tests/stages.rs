use pipeline_core::column::KernelError;
use pipeline_core::framer::LineFramer;
use pipeline_core::records::{join_fields, replace_name_fields, split_fields, CsvLineTransformer};
use pipeline_core::stage::{square, stage_step, worker_range, NumberRange, StageAction, StageEvent, StageState};

fn frame(chunks: &[&str]) -> Vec<String> {
    let mut framer = LineFramer::new();
    let mut out = Vec::new();
    for c in chunks {
        for line in framer.push_chunk(c.as_bytes()) {
            out.push(String::from_utf8(line).unwrap());
        }
    }
    if let Some(last) = framer.finish() {
        out.push(String::from_utf8(last).unwrap());
    }
    out
}

#[test]
fn framer_joins_lines_across_chunks() {
    assert_eq!(frame(&["ab", "c\nde", "f"]), vec!["abc".to_string(), "def".to_string()]);
}

#[test]
fn framer_separator_between_chunks() {
    assert_eq!(frame(&["ab\n", "cd\n"]), vec!["ab".to_string(), "cd".to_string()]);
    assert_eq!(frame(&["ab", "\ncd"]), vec!["ab".to_string(), "cd".to_string()]);
}

#[test]
fn framer_keeps_empty_lines_and_empty_stream() {
    assert_eq!(frame(&["a\n\nb\n"]), vec!["a".to_string(), "".to_string(), "b".to_string()]);
    assert_eq!(frame(&[]), Vec::<String>::new());
    assert_eq!(frame(&["", ""]), Vec::<String>::new());
}

#[test]
fn csv_header_passes_and_names_are_upper_cased() {
    let mut t = CsvLineTransformer::new();
    let header = "Index,Customer Id,First Name,Last Name,Company";
    assert_eq!(t.transform_line(header).unwrap(), header);
    assert_eq!(
        t.transform_line("1,DD37Cf93aecA6Dc,Sheryl,Baxter,Rasmussen Group").unwrap(),
        "1,DD37Cf93aecA6Dc,SHERYL,BAXTER,Rasmussen Group"
    );
    assert_eq!(t.transform_line("2,x,élise,ß,").unwrap(), "2,x,ÉLISE,SS,");
}

#[test]
fn csv_short_record_is_malformed() {
    let mut t = CsvLineTransformer::new();
    assert_eq!(t.transform_line("a,b").unwrap(), "a,b");
    assert_eq!(t.transform_line("1,2,3").unwrap_err(), KernelError::MalformedRecord);
}

#[test]
fn split_and_join_fields() {
    let f = split_fields("a,,b c,");
    assert_eq!(f, vec!["a".to_string(), "".to_string(), "b c".to_string(), "".to_string()]);
    assert_eq!(join_fields(&f), "a,,b c,");
    assert_eq!(split_fields(""), vec!["".to_string()]);
    let r = replace_name_fields(&f, "X".to_string(), "Y".to_string()).unwrap();
    assert_eq!(r, "a,,X,Y");
}

#[test]
fn stage_transitions() {
    assert_eq!(stage_step(StageState::Running, StageEvent::Received), (StageState::Running, StageAction::Forward));
    assert_eq!(stage_step(StageState::Running, StageEvent::InboundClosed), (StageState::Draining, StageAction::Flush));
    assert_eq!(stage_step(StageState::Draining, StageEvent::Flushed), (StageState::Closed, StageAction::CloseOutbound));
    assert_eq!(stage_step(StageState::Running, StageEvent::DownstreamClosed), (StageState::Closed, StageAction::Stop));
    assert_eq!(stage_step(StageState::Closed, StageEvent::Received), (StageState::Closed, StageAction::Stop));
}

#[test]
fn number_range_is_inclusive() {
    let mut r = NumberRange::new(3, 5);
    let mut got = Vec::new();
    while let Some(n) = r.next_number() {
        got.push(n);
    }
    assert_eq!(got, vec![3, 4, 5]);
    let mut top = NumberRange::new(u32::MAX, u32::MAX);
    assert_eq!(top.next_number(), Some(u32::MAX));
    assert_eq!(top.next_number(), None);
    assert_eq!(NumberRange::new(2, 1).next_number(), None);
}

#[test]
fn square_and_worker_ranges() {
    assert_eq!(square(u32::MAX), 18446744065119617025u64);
    assert_eq!(square(12), 144);
    assert_eq!(worker_range(0, 1_250_000), (0, 1_250_000));
    assert_eq!(worker_range(7, 1_250_000), (8_750_000, 10_000_000));
}

#[test]
fn framer_pending_line_survives_many_chunks() {
    assert_eq!(frame(&["a", "b", "c", "d\n"]), vec!["abcd".to_string()]);
    assert_eq!(frame(&["x\ny\nz"]), vec!["x".to_string(), "y".to_string(), "z".to_string()]);
}
