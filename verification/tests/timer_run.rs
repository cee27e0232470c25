use timer::argument::{
    settle, single_argument, split_reminder, usage, Settings, UsageError, USAGE_EXIT_CODE,
};
use timer::countdown::{Action, Countdown, Phase, TIME_STEP};
use timer::frame::remaining_frame;
use timer::notice::{
    alert_title, announcement, repeat_body, repeat_message, toast_console, Notification,
};

fn read(text: &str) -> Option<f32> {
    text.parse::<f32>().ok()
}

fn parse(argument: &str) -> Result<Settings<f32>, UsageError> {
    let whole = read(argument);
    let parts = split_reminder(argument).map(|(duration, reminder)| (read(duration), read(reminder)));
    settle(whole, parts)
}

fn millis(minutes: f32) -> u64 {
    (minutes * 60_000.0).round() as u64
}

fn shown(minutes: f32) -> String {
    format!("{}", minutes)
}

fn start(settings: &Settings<f32>) -> Countdown {
    Countdown::new(millis(settings.duration), settings.reminder.map(millis))
}

fn ticks_until_alert(countdown: Countdown) -> (u64, u64, Countdown) {
    let mut state = countdown;
    let mut ticks = 0;
    loop {
        let (next, action) = state.step();
        state = next;
        match action {
            Action::Tick => ticks += 1,
            Action::Alert { wait } => return (ticks, wait, state),
            other => panic!("unexpected {:?}", other),
        }
    }
}

#[test]
fn single_argument_wants_exactly_one() {
    let two = vec![String::from("timer"), String::from("5")];
    assert_eq!(single_argument(&two), Ok("5"));
    let one = vec![String::from("timer")];
    assert_eq!(single_argument(&one), Err(UsageError::ArgumentCount));
    let three = vec![String::from("timer"), String::from("5"), String::from("6")];
    assert_eq!(single_argument(&three), Err(UsageError::ArgumentCount));
    let none: Vec<String> = Vec::new();
    assert_eq!(single_argument(&none), Err(UsageError::ArgumentCount));
}

#[test]
fn split_reminder_splits_at_a_single_plus() {
    assert_eq!(split_reminder("1+2"), Some(("1", "2")));
    assert_eq!(split_reminder("0.5+10.25"), Some(("0.5", "10.25")));
    assert_eq!(split_reminder("1+abc"), Some(("1", "abc")));
    assert_eq!(split_reminder("+"), Some(("", "")));
    assert_eq!(split_reminder("+5"), Some(("", "5")));
    assert_eq!(split_reminder("5+"), Some(("5", "")));
    assert_eq!(split_reminder("½+¾"), Some(("½", "¾")));
}

#[test]
fn split_reminder_refuses_any_other_number_of_pluses() {
    assert_eq!(split_reminder(""), None);
    assert_eq!(split_reminder("15"), None);
    assert_eq!(split_reminder("abc"), None);
    assert_eq!(split_reminder("1+2+3"), None);
    assert_eq!(split_reminder("1++2"), None);
    assert_eq!(split_reminder("++"), None);
}

#[test]
fn settle_takes_a_whole_number_as_the_duration() {
    assert_eq!(settle(Some(5u64), None), Ok(Settings { duration: 5, reminder: None }));
    assert_eq!(
        settle(Some(5u64), Some((Some(1), Some(2)))),
        Ok(Settings { duration: 5, reminder: None })
    );
    assert_eq!(
        settle(Some(0u64), Some((None, None))),
        Ok(Settings { duration: 0, reminder: None })
    );
}

#[test]
fn settle_takes_two_halves_as_duration_and_reminder() {
    assert_eq!(
        settle(None, Some((Some(3u64), Some(4)))),
        Ok(Settings { duration: 3, reminder: Some(4) })
    );
}

#[test]
fn settle_names_what_is_wrong() {
    assert_eq!(settle::<u64>(None, None), Err(UsageError::Shape));
    assert_eq!(settle(None, Some((None, Some(4u64)))), Err(UsageError::Duration));
    assert_eq!(settle::<u64>(None, Some((None, None))), Err(UsageError::Duration));
    assert_eq!(settle(None, Some((Some(3u64), None))), Err(UsageError::Reminder));
}

#[test]
fn a_single_number_is_a_duration_without_reminder() {
    for text in ["0", "0.1", "1", "2.5", "90", "1e2", "1e+2", "+5", ".5", "3."] {
        let value = text.parse::<f32>().unwrap();
        assert_eq!(parse(text), Ok(Settings { duration: value, reminder: None }));
    }
}

#[test]
fn two_numbers_are_a_duration_and_a_reminder() {
    assert_eq!(parse("1+2"), Ok(Settings { duration: 1.0, reminder: Some(2.0) }));
    assert_eq!(parse("0.5+0.25"), Ok(Settings { duration: 0.5, reminder: Some(0.25) }));
    assert_eq!(parse("10+.5"), Ok(Settings { duration: 10.0, reminder: Some(0.5) }));
}

#[test]
fn anything_else_is_a_usage_error() {
    assert_eq!(parse(""), Err(UsageError::Shape));
    assert_eq!(parse("1+2+3"), Err(UsageError::Shape));
    assert_eq!(parse("1++2"), Err(UsageError::Shape));
    assert_eq!(parse("x+2"), Err(UsageError::Duration));
    assert_eq!(parse("+2"), Ok(Settings { duration: 2.0, reminder: None }));
    assert_eq!(parse("x+y"), Err(UsageError::Duration));
    assert_eq!(parse("2+"), Err(UsageError::Reminder));
    assert_eq!(parse("1 + 2"), Err(UsageError::Duration));
}

#[test]
fn usage_errors_are_reported_with_the_usage_line() {
    let line = "Usage: timer.exe <duration>    or    timer.exe <duration>+<reminder_duration>";
    assert_eq!(usage(), line);
    assert_eq!(USAGE_EXIT_CODE, 1);
    assert_eq!(UsageError::ArgumentCount.message(), "Invalid number of arguments.");
    assert_eq!(UsageError::Shape.message(), "Invalid duration/reminder argument.");
    assert_eq!(UsageError::Duration.message(), "Failed to parse duration.");
    assert_eq!(UsageError::Reminder.message(), "Failed to parse reminder duration.");
    assert_eq!(
        UsageError::Reminder.report(),
        format!("Failed to parse reminder duration.\n{}\n", line)
    );
    assert_eq!(
        UsageError::ArgumentCount.report(),
        format!("Invalid number of arguments.\n{}\n", line)
    );
}

#[test]
fn a_tenth_of_a_minute_ticks_five_times_and_alerts_once() {
    let settings = parse("0.1").unwrap();
    assert_eq!(settings, Settings { duration: 0.1, reminder: None });
    let countdown = start(&settings);
    assert_eq!(countdown.total, 6_000);
    assert_eq!(countdown.remaining, 6_000);
    assert_eq!(countdown.phase, Phase::Counting);

    let (ticks, wait, expired) = ticks_until_alert(countdown);
    assert_eq!(ticks, 5);
    assert_eq!(wait, 1_000);
    assert_eq!(ticks * TIME_STEP + wait, 6_000);
    assert_eq!(expired.phase, Phase::Expired);
    assert_eq!(expired.remaining, 0);

    let duration = shown(settings.duration);
    let reminder = settings.reminder.map(shown);
    let first = announcement(Action::Alert { wait }, &duration, reminder.as_deref());
    assert_eq!(
        first,
        Some(Notification {
            title: String::from("0.1 minutes over!"),
            body: None,
            print_title: true,
        })
    );
    assert_eq!(
        first.unwrap().console(),
        "\u{1b}c\u{1b}[1m\u{1b}[31m0.1 minutes over!\n\u{1b}[39m\u{1b}[22m"
    );

    let (after, action) = expired.step();
    assert_eq!(action, Action::Stop);
    assert_eq!(after, expired);
    assert_eq!(announcement(action, &duration, reminder.as_deref()), None);
}

#[test]
fn one_minute_with_reminder_repeats_every_two_minutes() {
    let settings = parse("1+2").unwrap();
    assert_eq!(settings, Settings { duration: 1.0, reminder: Some(2.0) });
    let countdown = start(&settings);
    let (ticks, wait, mut state) = ticks_until_alert(countdown);
    assert_eq!(ticks, 59);
    assert_eq!(wait, 1_000);

    let duration = shown(settings.duration);
    let reminder = settings.reminder.map(shown);
    let first = announcement(Action::Alert { wait }, &duration, reminder.as_deref()).unwrap();
    assert_eq!(first.title, "1 minutes over!");
    assert_eq!(first.body.as_deref(), Some("Repeats in 2 minutes."));
    assert!(first.print_title);
    assert_eq!(
        first.console(),
        "\u{1b}c\u{1b}[1m\u{1b}[31m1 minutes over!\n\u{1b}[39m\u{1b}[22m\u{1b}[1m\u{1b}[30mRepeats in 2 minutes.\n\u{1b}[39m\u{1b}[22m"
    );

    for _ in 0..25 {
        let (next, action) = state.step();
        assert_eq!(action, Action::Remind { wait: 120_000 });
        assert_eq!(next.phase, Phase::Expired);
        assert_eq!(next.remaining, 0);
        let again = announcement(action, &duration, reminder.as_deref());
        assert_eq!(
            again,
            Some(Notification {
                title: String::from("1 minutes over!"),
                body: Some(String::from("Repeats in 2 minutes.")),
                print_title: false,
            })
        );
        assert_eq!(again.unwrap().console(), "");
        state = next;
    }
}

#[test]
fn text_that_is_no_number_is_refused() {
    assert_eq!(parse("abc"), Err(UsageError::Shape));
    assert_eq!(
        UsageError::Shape.report(),
        "Invalid duration/reminder argument.\nUsage: timer.exe <duration>    or    timer.exe <duration>+<reminder_duration>\n"
    );
    assert_eq!(USAGE_EXIT_CODE, 1);
}

#[test]
fn reminder_that_is_no_number_is_refused() {
    assert_eq!(split_reminder("1+abc"), Some(("1", "abc")));
    assert_eq!(parse("1+abc"), Err(UsageError::Reminder));
    assert_eq!(USAGE_EXIT_CODE, 1);
}

#[test]
fn console_resized_between_frames_is_followed() {
    let mut state = Countdown::new(3_000, None);
    let widths = [80u32, 40, 0, 7];
    let mut frames = vec![remaining_frame(state.remaining, state.total, widths[0])];
    let mut drawn = 1;
    loop {
        let (next, action) = state.step();
        state = next;
        if action != Action::Tick {
            break;
        }
        frames.push(remaining_frame(state.remaining, state.total, widths[drawn]));
        drawn += 1;
    }
    assert_eq!(frames.len(), 3);
    assert_eq!(frames[0].chars().filter(|c| *c == '▁').count(), 80);
    assert_eq!(frames[1].chars().filter(|c| *c == '▁').count(), 40);
    assert_eq!(frames[2].chars().filter(|c| *c == '▁').count(), 0);
    assert!(frames[1].replace("\u{1b}[27m", "").contains("2 seconds remaining"));
    assert!(frames[2].contains("\u{1b}[7m\u{1b}[27m\n"));
}

#[test]
fn countdown_starts_counting_with_all_its_time() {
    let countdown = Countdown::new(90_000, Some(30_000));
    assert_eq!(
        countdown,
        Countdown {
            total: 90_000,
            remaining: 90_000,
            reminder: Some(30_000),
            phase: Phase::Counting,
        }
    );
}

#[test]
fn countdown_ticks_while_more_than_a_step_is_left() {
    let countdown = Countdown::new(2_500, None);
    let (second, action) = countdown.step();
    assert_eq!(action, Action::Tick);
    assert_eq!(second.remaining, 1_500);
    assert_eq!(second.total, 2_500);
    assert_eq!(second.phase, Phase::Counting);
    let (third, action) = second.step();
    assert_eq!(action, Action::Tick);
    assert_eq!(third.remaining, 500);
    let (last, action) = third.step();
    assert_eq!(action, Action::Alert { wait: 500 });
    assert_eq!(last.remaining, 0);
    assert_eq!(last.phase, Phase::Expired);
}

#[test]
fn countdown_of_exactly_one_step_alerts_without_a_tick() {
    let (next, action) = Countdown::new(TIME_STEP, None).step();
    assert_eq!(action, Action::Alert { wait: 1_000 });
    assert_eq!(next.phase, Phase::Expired);
    let (next, action) = Countdown::new(TIME_STEP + 1, None).step();
    assert_eq!(action, Action::Tick);
    assert_eq!(next.remaining, 1);
}

#[test]
fn countdown_of_no_time_alerts_at_once() {
    let (next, action) = Countdown::new(0, Some(60_000)).step();
    assert_eq!(action, Action::Alert { wait: 0 });
    assert_eq!(next.phase, Phase::Expired);
    let (_, action) = next.step();
    assert_eq!(action, Action::Remind { wait: 60_000 });
}

#[test]
fn countdown_never_gains_time_and_ends_at_nothing() {
    for total in [0u64, 1, 999, 1_000, 1_001, 6_000, 61_234] {
        let mut state = Countdown::new(total, None);
        let mut slept = 0;
        let mut last_fill = u32::MAX;
        loop {
            let fill = timer::bar::fill_width(state.remaining, state.total, 80);
            assert!(fill <= last_fill);
            last_fill = fill;
            let (next, action) = state.step();
            assert!(next.remaining <= state.remaining);
            state = next;
            match action {
                Action::Tick => slept += TIME_STEP,
                Action::Alert { wait } => {
                    slept += wait;
                    break;
                }
                other => panic!("unexpected {:?}", other),
            }
        }
        assert_eq!(slept, total);
        assert_eq!(state.remaining, 0);
        assert_eq!(timer::bar::fill_width(state.remaining, state.total, 80), 0);
    }
}

#[test]
fn titles_and_bodies_are_composed_around_the_numbers() {
    assert_eq!(alert_title("0.1"), "0.1 minutes over!");
    assert_eq!(alert_title("25"), "25 minutes over!");
    assert_eq!(alert_title(""), " minutes over!");
    assert_eq!(repeat_body("2"), "Repeats in 2 minutes.");
    assert_eq!(repeat_body("0.5"), "Repeats in 0.5 minutes.");
    assert_eq!(repeat_message(Some("3")), Some(String::from("Repeats in 3 minutes.")));
    assert_eq!(repeat_message(None), None);
}

#[test]
fn announcement_follows_alerts_and_reminders_only() {
    assert_eq!(announcement(Action::Tick, "1", None), None);
    assert_eq!(announcement(Action::Stop, "1", Some("2")), None);
    let first = announcement(Action::Alert { wait: 0 }, "1", Some("2")).unwrap();
    let again = announcement(Action::Remind { wait: 9 }, "1", Some("2")).unwrap();
    assert!(first.print_title);
    assert!(!again.print_title);
    assert_eq!(first.title, again.title);
    assert_eq!(first.body, again.body);
}

#[test]
fn toast_console_prints_only_where_the_title_is_printed() {
    let body = Some(String::from("Repeats in 2 minutes."));
    assert_eq!(
        toast_console("1 minutes over!", &body, true),
        "\u{1b}c\u{1b}[1m\u{1b}[31m1 minutes over!\n\u{1b}[39m\u{1b}[22m\u{1b}[1m\u{1b}[30mRepeats in 2 minutes.\n\u{1b}[39m\u{1b}[22m"
    );
    assert_eq!(toast_console("1 minutes over!", &body, false), "");
    assert_eq!(
        toast_console("1 minutes over!", &None, true),
        "\u{1b}c\u{1b}[1m\u{1b}[31m1 minutes over!\n\u{1b}[39m\u{1b}[22m"
    );
    assert_eq!(toast_console("1 minutes over!", &None, false), "");
}

#[test]
fn toast_is_built_with_and_without_a_body() {
    let app_id = winrt_notification::Toast::POWERSHELL_APP_ID;
    let plain = Notification {
        title: String::from("0.1 minutes over!"),
        body: None,
        print_title: true,
    };
    let _shown_once: winrt_notification::Toast = plain.toast(app_id);
    let repeating = announcement(Action::Remind { wait: 120_000 }, "1", Some("2")).unwrap();
    let _shown_again: winrt_notification::Toast = repeating.toast(app_id);
    let odd = Notification {
        title: String::from("<\"&'> \u{1b} ▉"),
        body: Some(String::new()),
        print_title: false,
    };
    let _escaped: winrt_notification::Toast = odd.toast("");
}
