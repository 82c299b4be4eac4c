use pomodoro::app::{App, AppConfiguration, AppView};
use pomodoro::pomodoro_technique::Stage;
use pomodoro::time::{Duration, Instant};

fn secs(s: u64) -> Instant {
    Instant::from_secs(s)
}

fn session_with_work_of(work_secs: u64) -> App {
    let config = AppConfiguration::new(
        Duration::from_secs(work_secs),
        Duration::from_secs(300),
        Duration::from_secs(1200),
        vec![Stage::Work, Stage::ShortBreak],
    )
    .unwrap();
    App::new(config)
}

fn toggle(app: &mut App, at: Instant) {
    assert!(app.accepts(at));
    app.toggle_timer(at);
}

#[test]
fn remaining_time_counts_down_and_stamps_the_finish() {
    let mut app = session_with_work_of(10);
    toggle(&mut app, secs(0));

    let (is_due, text) = app.get_remaining_time(secs(5));
    assert!(!is_due);
    assert_eq!(text, "00:05");
    assert_eq!(app.current_cycle().finished_at(), None);

    let (is_due, text) = app.get_remaining_time(secs(11));
    assert!(is_due);
    assert_eq!(text, "00:00");
    assert_eq!(app.current_cycle().finished_at(), Some(secs(11)));
}

#[test]
fn finish_instant_is_sticky() {
    let mut app = session_with_work_of(10);
    toggle(&mut app, secs(0));
    assert!(app.get_remaining_time(secs(11)).0);
    assert!(app.get_remaining_time(secs(20)).0);
    assert_eq!(app.current_cycle().finished_at(), Some(secs(11)));
    app.finish_current_cycle(secs(30));
    assert_eq!(app.history()[0].finished_at(), Some(secs(11)));
}

#[test]
fn due_exactly_at_the_target() {
    let mut app = session_with_work_of(10);
    toggle(&mut app, secs(0));
    let (is_due, text) = app.get_remaining_time(Instant::from_nanos(9_999_999_999));
    assert!(!is_due);
    assert_eq!(text, "00:00");
    assert_eq!(app.current_cycle().finished_at(), None);
    let (is_due, text) = app.get_remaining_time(secs(10));
    assert!(is_due);
    assert_eq!(text, "00:00");
    assert_eq!(app.current_cycle().finished_at(), Some(secs(10)));
}

#[test]
fn pause_is_left_out_of_the_elapsed_time() {
    let mut app = session_with_work_of(10);
    toggle(&mut app, secs(0));
    toggle(&mut app, secs(3));
    toggle(&mut app, secs(8));

    assert_eq!(app.get_elapsed_time(secs(9)), Duration::from_secs(4));
    let (is_due, text) = app.get_remaining_time(secs(9));
    assert!(!is_due);
    assert_eq!(text, "00:06");
}

#[test]
fn remaining_seconds_are_rounded_down() {
    let mut app = session_with_work_of(10);
    toggle(&mut app, secs(0));
    let (is_due, text) = app.get_remaining_time(Instant::from_nanos(5_500_000_000));
    assert!(!is_due);
    assert_eq!(text, "00:04");
    let (_, text) = app.get_remaining_time(Instant::from_nanos(1));
    assert_eq!(text, "00:09");
}

#[test]
fn annotation_follows_the_open_pause() {
    let mut app = session_with_work_of(10);
    toggle(&mut app, secs(0));

    app.append_to_interruption_annotation('x');
    assert_eq!(app.get_interruption_annotation(), None);

    toggle(&mut app, secs(1));
    assert_eq!(app.get_interruption_annotation(), None);
    app.append_to_interruption_annotation('a');
    app.append_to_interruption_annotation('b');
    assert_eq!(app.get_interruption_annotation(), Some(String::from("ab")));
    app.pop_from_interruption_annotation();
    assert_eq!(app.get_interruption_annotation(), Some(String::from("a")));

    toggle(&mut app, secs(2));
    assert_eq!(app.get_interruption_annotation(), None);
    assert_eq!(app.get_interruption_history().len(), 1);
    let archived = &app.get_interruption_history()[0];
    assert_eq!(archived.annotation(), Some(&String::from("a")));
    assert_eq!(archived.started_at(), secs(1));
    assert_eq!(archived.finished_at(), Some(secs(2)));

    app.pop_from_interruption_annotation();
    app.append_to_interruption_annotation('z');
    assert_eq!(app.get_interruption_annotation(), None);
    assert_eq!(app.get_interruption_history()[0].annotation(), Some(&String::from("a")));
}

#[test]
fn popping_an_empty_annotation_changes_nothing() {
    let mut app = session_with_work_of(10);
    toggle(&mut app, secs(0));
    toggle(&mut app, secs(1));
    app.pop_from_interruption_annotation();
    assert_eq!(app.get_interruption_annotation(), None);
    app.append_to_interruption_annotation('q');
    app.pop_from_interruption_annotation();
    assert_eq!(app.get_interruption_annotation(), Some(String::new()));
    app.pop_from_interruption_annotation();
    assert_eq!(app.get_interruption_annotation(), Some(String::new()));
}

#[test]
fn finishing_twice_archives_an_empty_cycle() {
    let mut app = session_with_work_of(10);
    toggle(&mut app, secs(0));
    app.finish_current_cycle(secs(4));

    assert_eq!(app.history().len(), 1);
    assert_eq!(app.current_cycle().stage_iteration(), 1);
    assert!(!app.current_cycle().is_started());

    app.finish_current_cycle(secs(6));
    assert_eq!(app.history().len(), 2);
    assert_eq!(app.current_cycle().stage_iteration(), 2);

    let first = &app.history()[0];
    assert_eq!(first.stage_iteration(), 0);
    assert_eq!(first.started_at(), Some(secs(0)));
    assert_eq!(first.finished_at(), Some(secs(4)));

    let second = &app.history()[1];
    assert_eq!(second.stage_iteration(), 1);
    assert_eq!(second.started_at(), None);
    assert_eq!(second.finished_at(), Some(secs(6)));
    assert_eq!(second.interruption_history().len(), 0);
    assert!(second.interruption().is_none());
    assert_eq!(second.elapsed_active_time(secs(100)), Duration::from_nanos(0));
}

#[test]
fn stages_follow_the_standard_sequence_and_wrap() {
    let mut app = App::default();
    let expected = [
        Stage::Work,
        Stage::ShortBreak,
        Stage::Work,
        Stage::ShortBreak,
        Stage::Work,
        Stage::ShortBreak,
        Stage::Work,
        Stage::LongBreak,
        Stage::Work,
    ];
    let mut iteration: usize = 0;
    while iteration < expected.len() {
        assert_eq!(app.current_cycle().stage_iteration(), iteration);
        assert_eq!(*app.get_current_stage(), expected[iteration]);
        app.finish_current_cycle(secs(iteration as u64));
        iteration += 1;
    }
}

#[test]
fn standard_configuration() {
    let config = AppConfiguration::default();
    assert_eq!(config.duration_for(&Stage::Work), Duration::from_secs(1500));
    assert_eq!(config.duration_for(&Stage::ShortBreak), Duration::from_secs(300));
    assert_eq!(config.duration_for(&Stage::LongBreak), Duration::from_secs(1200));
    assert_eq!(config.stage_sequence().len(), 8);

    let mut app = App::default();
    assert_eq!(*app.get_view(), AppView::Normal);
    assert!(!app.is_paused());
    assert_eq!(app.history().len(), 0);
    let (is_due, text) = app.get_remaining_time(secs(77));
    assert!(!is_due);
    assert_eq!(text, "25:00");
}

#[test]
fn each_stage_has_its_own_target() {
    let mut app = App::default();
    toggle(&mut app, secs(0));
    assert_eq!(app.get_remaining_time(secs(1)).1, "24:59");
    app.finish_current_cycle(secs(2));
    toggle(&mut app, secs(2));
    assert_eq!(app.get_remaining_time(secs(3)).1, "04:59");
    let mut n: u64 = 0;
    while n < 6 {
        app.finish_current_cycle(secs(3));
        n += 1;
    }
    assert_eq!(*app.get_current_stage(), Stage::LongBreak);
    toggle(&mut app, secs(3));
    assert_eq!(app.get_remaining_time(secs(4)).1, "19:59");
}

#[test]
fn configuration_needs_a_stage() {
    let none = AppConfiguration::new(
        Duration::from_secs(1),
        Duration::from_secs(1),
        Duration::from_secs(1),
        Vec::new(),
    );
    assert!(none.is_none());
    let one = AppConfiguration::new(
        Duration::from_secs(1),
        Duration::from_secs(2),
        Duration::from_secs(3),
        vec![Stage::LongBreak],
    )
    .unwrap();
    let mut app = App::new(one);
    assert_eq!(*app.get_current_stage(), Stage::LongBreak);
    app.finish_current_cycle(secs(0));
    assert_eq!(*app.get_current_stage(), Stage::LongBreak);
    assert_eq!(app.configuration().duration_for(&Stage::ShortBreak), Duration::from_secs(2));
}

#[test]
fn a_zero_target_is_due_before_the_start() {
    let config = AppConfiguration::new(
        Duration::from_secs(0),
        Duration::from_secs(0),
        Duration::from_secs(0),
        vec![Stage::Work],
    )
    .unwrap();
    let mut app = App::new(config);
    let (is_due, text) = app.get_remaining_time(secs(3));
    assert!(is_due);
    assert_eq!(text, "00:00");
    assert_eq!(app.current_cycle().finished_at(), Some(secs(3)));
    assert_eq!(app.current_cycle().started_at(), None);
}

#[test]
fn toggles_fill_the_history_one_pause_per_resume() {
    let mut app = session_with_work_of(1000);
    let mut n: u64 = 0;
    while n < 9 {
        let pauses_before = app.get_interruption_history().len();
        let was_paused = app.is_paused();
        toggle(&mut app, secs(n));
        n += 1;
        let expected = if n == 0 { 0 } else { (n - 1) / 2 };
        assert_eq!(app.get_interruption_history().len() as u64, expected);
        assert_eq!(
            app.get_interruption_history().len(),
            pauses_before + if was_paused { 1 } else { 0 }
        );
        assert_eq!(app.is_paused(), n >= 2 && n % 2 == 0);
        for closed in app.get_interruption_history() {
            assert!(!closed.is_open());
        }
    }
    assert_eq!(app.get_interruption_history().len(), 4);
}

#[test]
fn pausing_brings_up_the_annotation_popup() {
    let mut app = session_with_work_of(10);
    toggle(&mut app, secs(0));
    assert_eq!(*app.get_view(), AppView::Normal);
    toggle(&mut app, secs(1));
    assert_eq!(*app.get_view(), AppView::AnnotationPopup);
    app.change_view(AppView::InterruptionsList);
    assert_eq!(*app.get_view(), AppView::InterruptionsList);
    toggle(&mut app, secs(2));
    assert_eq!(*app.get_view(), AppView::InterruptionsList);
    app.change_view(AppView::Normal);
    assert_eq!(*app.get_view(), AppView::Normal);
}

#[test]
fn remaining_time_does_not_grow_and_freezes_while_paused() {
    let mut app = session_with_work_of(100);
    toggle(&mut app, secs(0));
    let mut last = app.get_remaining_time(secs(1)).1;
    assert_eq!(last, "01:39");
    let mut t: u64 = 2;
    while t < 20 {
        let (_, text) = app.get_remaining_time(secs(t));
        assert!(text <= last);
        last = text;
        t += 3;
    }
    toggle(&mut app, secs(20));
    let frozen = app.get_remaining_time(secs(20));
    assert_eq!(frozen, (false, String::from("01:20")));
    assert_eq!(app.get_remaining_time(secs(50)), frozen);
    assert_eq!(app.get_remaining_time(secs(5000)), frozen);
    assert_eq!(app.current_cycle().finished_at(), None);
}

#[test]
fn elapsed_time_grows_with_the_clock_and_stands_still_in_pauses() {
    let mut app = session_with_work_of(1000);
    assert_eq!(app.get_elapsed_time(secs(5)), Duration::from_nanos(0));
    toggle(&mut app, secs(10));
    assert_eq!(app.get_elapsed_time(secs(10)), Duration::from_secs(0));
    assert_eq!(app.get_elapsed_time(secs(12)), Duration::from_secs(2));
    toggle(&mut app, secs(15));
    assert_eq!(app.get_elapsed_time(secs(15)), Duration::from_secs(5));
    assert_eq!(app.get_elapsed_time(secs(40)), Duration::from_secs(5));
    toggle(&mut app, secs(40));
    assert_eq!(app.get_elapsed_time(secs(40)), Duration::from_secs(5));
    assert_eq!(app.get_elapsed_time(secs(41)), Duration::from_secs(6));
    toggle(&mut app, secs(50));
    toggle(&mut app, secs(51));
    assert_eq!(app.get_elapsed_time(secs(60)), Duration::from_secs(24));
}

#[test]
fn a_pause_costs_its_length_whatever_came_before() {
    let mut app = session_with_work_of(1000);
    toggle(&mut app, secs(100));
    toggle(&mut app, secs(100));
    toggle(&mut app, secs(107));
    assert_eq!(app.get_elapsed_time(secs(150)), Duration::from_secs(50 - 7));

    toggle(&mut app, secs(150));
    toggle(&mut app, secs(153));
    toggle(&mut app, secs(160));
    toggle(&mut app, secs(161));
    let before = app.get_elapsed_time(secs(300));
    assert_eq!(before, Duration::from_secs(200 - 7 - 3 - 1));
    toggle(&mut app, secs(200));
    toggle(&mut app, secs(220));
    assert_eq!(app.get_elapsed_time(secs(300)), Duration::from_secs(200 - 7 - 3 - 1 - 20));
}

#[test]
fn pause_elapsed_time_counts_whole_seconds_of_the_open_pause() {
    let mut app = session_with_work_of(10);
    assert_eq!(app.get_pause_elapsed_time(secs(9)), 0);
    toggle(&mut app, secs(0));
    assert_eq!(app.get_pause_elapsed_time(secs(9)), 0);
    toggle(&mut app, secs(2));
    assert_eq!(app.get_pause_elapsed_time(secs(2)), 0);
    assert_eq!(app.get_pause_elapsed_time(Instant::from_nanos(3_999_999_999)), 1);
    assert_eq!(app.get_pause_elapsed_time(secs(67)), 65);
    assert_eq!(app.get_pause_elapsed_time(secs(1)), 0);
    toggle(&mut app, secs(70));
    assert_eq!(app.get_pause_elapsed_time(secs(80)), 0);
}

#[test]
fn finishing_while_paused_archives_the_open_pause() {
    let mut app = session_with_work_of(10);
    toggle(&mut app, secs(0));
    toggle(&mut app, secs(1));
    app.append_to_interruption_annotation('n');
    app.finish_current_cycle(secs(2));
    assert!(!app.is_paused());
    assert_eq!(app.get_interruption_history().len(), 0);
    let archived = &app.history()[0];
    assert!(archived.is_paused());
    let open = archived.interruption().unwrap();
    assert!(open.is_open());
    assert_eq!(open.annotation(), Some(&String::from("n")));
    assert_eq!(archived.elapsed_active_time(secs(50)), Duration::from_secs(1));
}

#[test]
fn a_clock_reading_before_the_start_counts_as_no_time() {
    let mut app = session_with_work_of(10);
    toggle(&mut app, secs(5));
    assert_eq!(app.get_elapsed_time(secs(3)), Duration::from_nanos(0));
    assert_eq!(app.get_remaining_time(secs(3)), (false, String::from("00:10")));
    assert!(!app.accepts(secs(4)));
    assert!(app.accepts(secs(5)));
}
