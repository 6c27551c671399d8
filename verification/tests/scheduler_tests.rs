use niumaren::date::Date;
use niumaren::email::SmtpSettings;
use niumaren::models::{Personnel, Schedule};
use niumaren::scheduler::{
    active_personnel, duty_weekday_name, next_duty_date, next_duty_index, notice_due,
    plan_duty, DutyNotice, NotifyAction, NotifyEvent, RotationInputs, StoreWrite,
};

fn ymd(y: i32, m: u32, d: u32) -> Date {
    Date::from_ymd_opt(y, m, d).unwrap()
}

fn person(id: i64, name: &str, active: i32) -> Personnel {
    Personnel {
        id: Some(id),
        name: name.to_string(),
        email: format!("{}@example.com", id),
        sort_order: id as i32,
        active,
        created_at: None,
    }
}

fn staff() -> Vec<Personnel> {
    vec![person(1, "张三", 1), person(2, "李四", 0), person(3, "王五", 1), person(4, "赵六", 1)]
}

#[test]
fn active_people_keep_their_order() {
    let a = active_personnel(&staff());
    let names: Vec<&str> = a.iter().map(|p| p.name.as_str()).collect();
    assert_eq!(names, vec!["张三", "王五", "赵六"]);
}

#[test]
fn rotation_wraps_round() {
    assert_eq!(next_duty_index(-1, 3), 0);
    assert_eq!(next_duty_index(0, 3), 1);
    assert_eq!(next_duty_index(2, 3), 0);
    assert_eq!(next_duty_index(7, 3), 2);
    assert_eq!(next_duty_index(-4, 3), 0);
}

#[test]
fn rotation_visits_everyone_once() {
    let n = 5usize;
    let mut last: i32 = 3;
    let mut seen = vec![0; n];
    for _ in 0..n {
        let next = next_duty_index(last, n);
        seen[next] += 1;
        last = next as i32;
    }
    assert_eq!(seen, vec![1; n]);
}

#[test]
fn notices_go_out_two_days_ahead() {
    // 2026-06-01 is a Monday.
    let expected = [None, None, None, Some(ymd(2026, 6, 6)), Some(ymd(2026, 6, 7)), None, None];
    for (i, want) in expected.iter().enumerate() {
        let today = ymd(2026, 6, 1 + i as u32);
        assert_eq!(notice_due(today), *want, "day {}", i);
    }
}

#[test]
fn next_duty_dates() {
    assert_eq!(next_duty_date(ymd(2026, 6, 13)), ymd(2026, 6, 14));
    assert_eq!(next_duty_date(ymd(2026, 6, 14)), ymd(2026, 6, 20));
    assert_eq!(next_duty_date(ymd(2026, 6, 10)), ymd(2026, 6, 13));
}

#[test]
fn weekday_names() {
    assert_eq!(duty_weekday_name(&ymd(2026, 6, 13)), "星期六");
    assert_eq!(duty_weekday_name(&ymd(2026, 6, 14)), "星期日");
    assert_eq!(duty_weekday_name(&ymd(2026, 6, 15)), "");
}

fn inputs(last: Option<&str>) -> RotationInputs {
    RotationInputs {
        personnel: staff(),
        last_index: last.map(|s| s.to_string()),
        subject_template: Some("【值班通知】{日期} {星期} 值班提醒".to_string()),
        body_template: None,
    }
}

#[test]
fn plan_picks_the_next_active_person() {
    let sat = ymd(2026, 6, 13);
    let p = plan_duty(&inputs(Some("0")), sat, "2026-06-13").unwrap();
    assert_eq!(p.person_id, 3);
    assert_eq!(p.person_name, "王五");
    assert_eq!(p.next_index, 1);
    assert_eq!(p.subject, "【值班通知】2026-06-13 星期六 值班提醒");
    assert_eq!(p.body, "Hi 王五，2026-06-13 星期六 你值班。");
    let first = plan_duty(&inputs(None), sat, "2026-06-13").unwrap();
    assert_eq!(first.person_name, "张三");
    let garbage = plan_duty(&inputs(Some("x")), sat, "2026-06-13").unwrap();
    assert_eq!(garbage.person_name, "张三");
}

#[test]
fn plan_with_next_person_and_date() {
    let sun = ymd(2026, 6, 14);
    let mut inp = inputs(Some("2"));
    inp.body_template = Some("{姓名} {邮箱} 下一位：{下一位姓名}（{下一位日期}）".to_string());
    let p = plan_duty(&inp, sun, "2026-06-14").unwrap();
    assert_eq!(p.body, "张三 1@example.com 下一位：王五（2026-06-20）");
}

#[test]
fn plan_without_active_people() {
    let inp = RotationInputs {
        personnel: vec![person(1, "a", 0)],
        last_index: None,
        subject_template: None,
        body_template: None,
    };
    assert!(plan_duty(&inp, ymd(2026, 6, 13), "2026-06-13").is_none());
}

fn smtp(host: &str) -> SmtpSettings {
    SmtpSettings {
        host: Some(host.to_string()),
        port: Some("465".to_string()),
        username: Some("duty@example.com".to_string()),
        password: Some("pw".to_string()),
        use_tls: Some("true".to_string()),
        sender_name: None,
    }
}

fn drive(notice: DutyNotice, event: NotifyEvent) -> (DutyNotice, NotifyAction) {
    assert!(notice.accepts_event(&event));
    notice.step(event)
}

#[test]
fn full_notice_on_success() {
    let sat = ymd(2026, 6, 13);
    let (n, a) = DutyNotice::new(sat);
    assert!(matches!(a, NotifyAction::LoadSchedules));
    let (n, a) = drive(n, NotifyEvent::Schedules(vec![]));
    assert!(matches!(a, NotifyAction::CheckHoliday(d) if d == sat));
    let (n, a) = drive(n, NotifyEvent::Holiday(false));
    assert!(matches!(a, NotifyAction::LoadRotation));
    let (n, a) = drive(n, NotifyEvent::Rotation(inputs(Some("0"))));
    match &a {
        NotifyAction::CreateSchedule { person_id, duty_date } => {
            assert_eq!(*person_id, 3);
            assert_eq!(duty_date, "2026-06-13");
        }
        _ => panic!("expected CreateSchedule"),
    }
    let (n, a) = drive(n, NotifyEvent::ScheduleCreated(Ok(42)));
    assert!(matches!(a, NotifyAction::LoadSmtp));
    let (n, a) = drive(n, NotifyEvent::Smtp(smtp("smtp.example.com")));
    match &a {
        NotifyAction::Send(m) => {
            assert_eq!(m.to_email, "3@example.com");
            assert_eq!(m.to_name, "王五");
            assert_eq!(m.config.host, "smtp.example.com");
            assert_eq!(m.config.sender_name, "值班系统");
        }
        _ => panic!("expected Send"),
    }
    let (n, a) = drive(n, NotifyEvent::Sent(Ok(())));
    assert!(n.is_finished());
    match a {
        NotifyAction::Finish { writes, outcome } => {
            assert_eq!(outcome, Ok(()));
            assert_eq!(writes.len(), 3);
            assert!(matches!(writes[0], StoreWrite::MarkNotified { schedule_id: 42 }));
            match &writes[1] {
                StoreWrite::SetSetting { key, value } => {
                    assert_eq!(key, "last_person_index");
                    assert_eq!(value, "1");
                }
                _ => panic!("expected SetSetting"),
            }
            match &writes[2] {
                StoreWrite::LogEmail { schedule_id, recipient, status, error_msg, .. } => {
                    assert_eq!(*schedule_id, 42);
                    assert_eq!(recipient, "3@example.com");
                    assert_eq!(status, "success");
                    assert!(error_msg.is_none());
                }
                _ => panic!("expected LogEmail"),
            }
        }
        _ => panic!("expected Finish"),
    }
}

fn to_smtp_stage(host: &str) -> (DutyNotice, NotifyAction) {
    let (n, _) = DutyNotice::new(ymd(2026, 6, 13));
    let (n, _) = drive(n, NotifyEvent::Schedules(vec![]));
    let (n, _) = drive(n, NotifyEvent::Holiday(false));
    let (n, _) = drive(n, NotifyEvent::Rotation(inputs(Some("0"))));
    let (n, _) = drive(n, NotifyEvent::ScheduleCreated(Ok(7)));
    drive(n, NotifyEvent::Smtp(smtp(host)))
}

#[test]
fn failed_send_keeps_the_turn() {
    let (n, _) = to_smtp_stage("smtp.example.com");
    let (_, a) = drive(n, NotifyEvent::Sent(Err("邮件发送失败: timeout".to_string())));
    match a {
        NotifyAction::Finish { writes, outcome } => {
            assert_eq!(outcome, Err("邮件发送失败: timeout".to_string()));
            assert_eq!(writes.len(), 1);
            match &writes[0] {
                StoreWrite::LogEmail { status, error_msg, .. } => {
                    assert_eq!(status, "failed");
                    assert_eq!(error_msg.as_deref(), Some("邮件发送失败: timeout"));
                }
                _ => panic!("expected LogEmail"),
            }
        }
        _ => panic!("expected Finish"),
    }
}

#[test]
fn missing_host_is_logged_and_fails() {
    let (_, a) = to_smtp_stage("");
    match a {
        NotifyAction::Finish { writes, outcome } => {
            assert_eq!(outcome, Err("SMTP 未配置".to_string()));
            match &writes[0] {
                StoreWrite::LogEmail { schedule_id, status, error_msg, .. } => {
                    assert_eq!(*schedule_id, 7);
                    assert_eq!(status, "failed");
                    assert_eq!(error_msg.as_deref(), Some("SMTP 未配置"));
                }
                _ => panic!("expected LogEmail"),
            }
        }
        _ => panic!("expected Finish"),
    }
}

#[test]
fn holiday_is_recorded_and_skipped() {
    let (n, _) = DutyNotice::new(ymd(2026, 10, 3));
    let (n, _) = drive(n, NotifyEvent::Schedules(vec![]));
    let (_, a) = drive(n, NotifyEvent::Holiday(true));
    match a {
        NotifyAction::Finish { writes, outcome } => {
            assert_eq!(outcome, Ok(()));
            assert_eq!(writes.len(), 1);
            match &writes[0] {
                StoreWrite::RecordHoliday { duty_date } => assert_eq!(duty_date, "2026-10-03"),
                _ => panic!("expected RecordHoliday"),
            }
        }
        _ => panic!("expected Finish"),
    }
}

#[test]
fn already_notified_date_is_left_alone() {
    let record = Schedule {
        id: Some(1),
        person_id: 3,
        person_name: None,
        duty_date: "2026-06-13".to_string(),
        is_holiday: 0,
        notified: 1,
        notified_at: None,
        created_at: None,
    };
    let (n, _) = DutyNotice::new(ymd(2026, 6, 13));
    let (n, a) = drive(n, NotifyEvent::Schedules(vec![record]));
    assert!(n.is_finished());
    match a {
        NotifyAction::Finish { writes, outcome } => {
            assert!(writes.is_empty());
            assert_eq!(outcome, Ok(()));
        }
        _ => panic!("expected Finish"),
    }
}

#[test]
fn no_active_people_fails() {
    let (n, _) = DutyNotice::new(ymd(2026, 6, 13));
    let (n, _) = drive(n, NotifyEvent::Schedules(vec![]));
    let (n, _) = drive(n, NotifyEvent::Holiday(false));
    let empty = RotationInputs { personnel: vec![], last_index: None, subject_template: None, body_template: None };
    let (_, a) = drive(n, NotifyEvent::Rotation(empty));
    assert!(matches!(a, NotifyAction::Finish { outcome: Err(ref e), .. } if e == "没有可用的值班人员"));
}

#[test]
fn schedule_store_error_fails() {
    let (n, _) = DutyNotice::new(ymd(2026, 6, 13));
    let (n, _) = drive(n, NotifyEvent::Schedules(vec![]));
    let (n, _) = drive(n, NotifyEvent::Holiday(false));
    let (n, _) = drive(n, NotifyEvent::Rotation(inputs(None)));
    let (_, a) = drive(n, NotifyEvent::ScheduleCreated(Err("disk full".to_string())));
    assert!(matches!(a, NotifyAction::Finish { outcome: Err(ref e), .. } if e == "创建排班记录失败: disk full"));
}

#[test]
fn unusable_rotation_is_refused() {
    let (n, _) = DutyNotice::new(ymd(2026, 6, 13));
    let (n, _) = drive(n, NotifyEvent::Schedules(vec![]));
    let (n, _) = drive(n, NotifyEvent::Holiday(false));
    // -3 + 1 = -2 has a negative remainder by 3: the index arithmetic would panic.
    assert!(!n.accepts_event(&NotifyEvent::Rotation(inputs(Some("-3")))));
    assert!(!n.accepts_event(&NotifyEvent::Rotation(inputs(Some("2147483647")))));
    assert!(n.accepts_event(&NotifyEvent::Rotation(inputs(Some("-4")))));
    assert!(!n.accepts_event(&NotifyEvent::Holiday(true)));
}

#[test]
fn saturday_and_sunday_go_to_different_people() {
    let sat = ymd(2026, 6, 13);
    let first = plan_duty(&inputs(Some("0")), sat, "2026-06-13").unwrap();
    let stored = first.next_index.to_string();
    let second = plan_duty(&inputs(Some(&stored)), ymd(2026, 6, 14), "2026-06-14").unwrap();
    assert_eq!(first.person_name, "王五");
    assert_eq!(second.person_name, "赵六");
    assert_ne!(first.person_id, second.person_id);
    assert_eq!(second.next_index, (first.next_index + 1) % 3);
}

#[test]
fn notice_at_the_end_of_the_calendar_still_starts() {
    // No duty date follows the last day chrono holds; the notice for it can still see
    // that it was already sent.
    let last = Date::from_day_number(95745399).unwrap();
    let (n, _) = DutyNotice::new(last);
    let done = Schedule {
        id: Some(1),
        person_id: 1,
        person_name: None,
        duty_date: n.date_text.clone(),
        is_holiday: 0,
        notified: 1,
        notified_at: None,
        created_at: None,
    };
    let (n, a) = drive(n, NotifyEvent::Schedules(vec![done]));
    assert!(n.is_finished());
    assert!(matches!(a, NotifyAction::Finish { ref writes, outcome: Ok(()) } if writes.is_empty()));
}
