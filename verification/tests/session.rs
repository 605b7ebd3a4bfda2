use rtime::{render, Arrival, Event, Frame, Status};

fn tick(secs: u64) -> Arrival {
    Arrival { event: Event::Tick, secs, width: Some(80) }
}

fn output(text: &str, secs: u64) -> Arrival {
    Arrival { event: Event::Output(text.to_string()), secs, width: Some(80) }
}

fn ended(secs: u64) -> Arrival {
    Arrival { event: Event::StreamEnded, secs, width: Some(80) }
}

fn row(secs: u64, content: &str) -> Frame {
    Frame::Row { secs, first: true, content: content.to_string() }
}

fn screen(frames: &[Frame]) -> String {
    let mut all = String::new();
    for frame in frames {
        all.push_str(&frame.text());
    }
    all
}

fn totals(frames: &[Frame]) -> usize {
    frames.iter().filter(|frame| matches!(frame, Frame::Total { .. })).count()
}

// `sleep 1; echo A; sleep 1; echo B`, with a tick every quarter of a second
// and one right behind each line.
fn two_lines() -> Vec<Arrival> {
    vec![
        tick(0),
        tick(0),
        tick(0),
        tick(1),
        output("A", 1),
        tick(1),
        tick(1),
        tick(1),
        tick(1),
        tick(2),
        output("B", 2),
        tick(2),
        ended(2),
        ended(2),
    ]
}

#[test]
fn two_lines_a_second_apart() {
    let frames = render(&two_lines(), 2, 2);
    assert_eq!(
        frames,
        vec![
            Frame::Running { secs: 0 },
            Frame::Running { secs: 1 },
            Frame::Break,
            row(1, "A"),
            Frame::Running { secs: 1 },
            Frame::Running { secs: 2 },
            Frame::Break,
            row(2, "B"),
            Frame::Running { secs: 2 },
            Frame::Break,
            Frame::Total { secs: 2 },
        ]
    );
    assert_eq!(
        screen(&frames),
        "\r\x1b[2K0s  ...\r\x1b[2K1s  ...\n\r\x1b[2K1s|A\n\r\x1b[2K1s  ...\r\x1b[2K2s  ...\n\
         \r\x1b[2K2s|B\n\r\x1b[2K2s  ...\n\rTotal time: 2s\r\n"
    );
}

#[test]
fn two_lines_as_a_reader_of_the_screen_sees_them() {
    let shown: Vec<String> = render(&two_lines(), 2, 2)
        .iter()
        .filter(|frame| **frame != Frame::Break)
        .map(|frame| frame.shown())
        .collect();
    assert_eq!(
        shown,
        vec![
            "0s  ...",
            "1s  ...",
            "1s|A",
            "1s  ...",
            "2s  ...",
            "2s|B",
            "2s  ...",
            "Total time: 2s",
        ]
    );
}

#[test]
fn two_lines_show_in_the_order_they_came() {
    let shown = screen(&render(&two_lines(), 2, 2));
    let timer_1 = shown.find("1s  ...").unwrap();
    let line_a = shown.find("1s|A").unwrap();
    let timer_2 = shown.find("2s  ...").unwrap();
    let line_b = shown.find("2s|B").unwrap();
    let total = shown.find("Total time: 2s").unwrap();
    assert!(timer_1 < line_a && line_a < timer_2 && timer_2 < line_b && line_b < total);
}

#[test]
fn silent_command_shows_each_second_once() {
    let mut arrivals: Vec<Arrival> = Vec::new();
    let mut quarter: u64 = 1;
    while quarter <= 12 {
        arrivals.push(tick(quarter / 4));
        quarter += 1;
    }
    arrivals.push(ended(3));
    arrivals.push(ended(3));
    let frames = render(&arrivals, 2, 3);
    assert_eq!(
        frames,
        vec![
            Frame::Running { secs: 0 },
            Frame::Running { secs: 1 },
            Frame::Running { secs: 2 },
            Frame::Running { secs: 3 },
            Frame::Break,
            Frame::Total { secs: 3 },
        ]
    );
    assert!(screen(&frames).ends_with("\rTotal time: 3s\r\n"));
}

#[test]
fn no_events_still_gives_the_total() {
    assert_eq!(render(&vec![], 2, 0), vec![Frame::Total { secs: 0 }]);
    assert_eq!(render(&vec![], 0, 5), vec![Frame::Total { secs: 5 }]);
}

#[test]
fn one_total_whatever_came_last() {
    let endings: Vec<Vec<Arrival>> = vec![
        vec![tick(1), ended(1), ended(1)],
        vec![output("A", 1), ended(1), ended(1)],
        vec![ended(1), output("A", 1), ended(1)],
        vec![ended(1), ended(1)],
        vec![ended(1), tick(1)],
        vec![output("Total time: 1s", 1)],
        vec![tick(1), output("", 1)],
    ];
    for arrivals in endings.iter() {
        let frames = render(arrivals, 2, 1);
        assert_eq!(totals(&frames), 1);
        assert_eq!(frames.last(), Some(&Frame::Total { secs: 1 }));
    }
}

#[test]
fn nothing_is_consumed_after_the_last_stream_ended() {
    let arrivals = vec![tick(0), ended(0), ended(0), tick(1), output("late", 1), ended(1)];
    let out = Status::init().run(&arrivals);
    assert!(out.done);
    assert_eq!(out.frames, vec![Frame::Running { secs: 0 }]);
    assert_eq!(out.status, Status::init().on_tick(0).status.on_stream_ended().status.on_stream_ended().status);
    assert_eq!(
        render(&arrivals, 2, 1),
        vec![Frame::Running { secs: 0 }, Frame::Break, Frame::Total { secs: 1 }]
    );
}

#[test]
fn run_that_is_not_over_says_so() {
    let out = Status::init().run(&vec![tick(0), ended(0)]);
    assert!(!out.done);
    assert_eq!(out.status.finished, 1);
}

#[test]
fn run_of_one_is_a_step() {
    let status = Status::init().on_tick(0).status;
    let arrivals = vec![output("abcdefghijkl", 5, ), tick(5), ended(5)];
    for arrival in arrivals {
        let step = status.step(&arrival.event, arrival.secs, arrival.width);
        assert_eq!(status.run(&vec![arrival]), step);
    }
}

#[test]
fn run_in_two_parts_is_the_run_in_one() {
    let all = two_lines();
    let whole = Status::init().run(&all);
    let mut cut: usize = 0;
    while cut <= all.len() {
        let mut first = two_lines();
        let rest = first.split_off(cut);
        let head = Status::init().run(&first);
        let tail = head.status.run(&rest);
        let mut frames = head.frames;
        frames.extend(tail.frames);
        assert_eq!(tail.status, whole.status);
        assert_eq!(frames, whole.frames);
        assert_eq!(tail.done, whole.done);
        cut += 1;
    }
}

#[test]
fn running_line_is_not_repeated_without_output_between() {
    let arrivals = vec![
        tick(0),
        tick(0),
        ended(0),
        tick(0),
        tick(1),
        tick(1),
        output("A", 1),
        ended(1),
        tick(1),
        tick(1),
    ];
    let out = Status::expecting(3).run(&arrivals);
    assert_eq!(
        out.frames,
        vec![
            Frame::Running { secs: 0 },
            Frame::Running { secs: 1 },
            Frame::Break,
            row(1, "A"),
            Frame::Running { secs: 1 },
        ]
    );
}

#[test]
fn width_is_taken_as_it_was_when_the_line_came() {
    let arrivals = vec![
        Arrival { event: Event::Output("abcdef".to_string()), secs: 1, width: Some(6) },
        Arrival { event: Event::Output("abcdef".to_string()), secs: 1, width: Some(80) },
        Arrival { event: Event::Output("abcdef".to_string()), secs: 1, width: None },
    ];
    let out = Status::init().run(&arrivals);
    assert_eq!(
        out.frames,
        vec![
            Frame::Row { secs: 1, first: true, content: "abc".to_string() },
            Frame::Row { secs: 1, first: false, content: "def".to_string() },
            Frame::Row { secs: 1, first: true, content: "abcdef".to_string() },
        ]
    );
}
