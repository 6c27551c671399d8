//! The duty rotation and the weekend notification schedule: who is next, which date a
//! notice goes out for, and the steps of sending one notice.
use vstd::prelude::*;
use crate::date::{
    Date, Weekday, MAX_DAY, MIN_DAY, iso_date_text, lemma_weekday_succession, next_weekday,
    next_weekday_day, weekday_of,
};
use crate::email::{
    SmtpConfig, SmtpSettings, filled_template, is_config_of, or_empty, replace_template_vars,
};
use crate::models::{Personnel, Schedule, opt_string_view};
use crate::text::{
    chars_of, decimal_text, i32_to_text, join_text, lemma_i32_text_roundtrip, occurs_at_exec,
    parse_i32, parsed_i32,
};
use vstd::arithmetic::div_mod::{
    lemma_add_mod_noop, lemma_fundamental_div_mod, lemma_fundamental_div_mod_converse, lemma_mod_twice,
    lemma_small_mod,
};

verus! {

/// The people who take turns, in list order: those whose `active` is 1.
pub open spec fn active_people(list: Seq<Personnel>) -> Seq<Personnel>
    decreases list.len(),
{
    if list.len() == 0 {
        Seq::empty()
    } else {
        let rest = active_people(list.drop_last());
        if list.last().active == 1 {
            rest.push(list.last())
        } else {
            rest
        }
    }
}

/// Disabled people are skipped: everyone among the active people is active, and every
/// active person of the list is among them.
pub proof fn lemma_active_people_are_the_active(list: Seq<Personnel>)
    ensures
        forall|i: int| 0 <= i < active_people(list).len() ==> #[trigger] active_people(list)[i].active
            == 1,
        forall|j: int| 0 <= j < list.len() && #[trigger] list[j].active == 1 ==> active_people(
            list,
        ).contains(list[j]),
    decreases list.len(),
{
    if list.len() > 0 {
        let rest = list.drop_last();
        lemma_active_people_are_the_active(rest);
        assert forall|j: int| 0 <= j < list.len() && #[trigger] list[j].active == 1 implies active_people(
            list,
        ).contains(list[j]) by {
            if j < list.len() - 1 {
                assert(rest[j] == list[j]);
                let k = choose|k: int| 0 <= k < active_people(rest).len() && active_people(rest)[k]
                    == rest[j];
                assert(active_people(list)[k] == active_people(rest)[k]);
            } else {
                assert(active_people(list)[active_people(list).len() - 1] == list[j]);
            }
        }
    }
}

/// The people of `list` who take turns, in list order.
pub fn active_personnel(list: &Vec<Personnel>) -> (r: Vec<Personnel>)
    ensures
        r@ == active_people(list@),
{
    let mut r: Vec<Personnel> = Vec::new();
    for i in 0..list.len()
        invariant
            r@ == active_people(list@.take(i as int)),
    {
        assert(list@.take(i + 1).drop_last() =~= list@.take(i as int));
        if list[i].active == 1 {
            r.push(list[i].duplicate());
        }
    }
    assert(list@.take(list.len() as int) =~= list@);
    r
}

/// Whether the turn after index `last` can be taken among `n` people without a panic in
/// the index arithmetic: `n` is a positive `i32`, `last + 1` does not overflow, and its
/// remainder by `n` is not negative.
pub open spec fn turn_defined(last: int, n: int) -> bool {
    &&& 0 < n <= i32::MAX
    &&& last < i32::MAX
    &&& (last + 1 >= 0 || (last + 1) % n == 0)
}

/// The index of the turn after `last` among `n` people: the next index, wrapping round to
/// the first person after the last one.
pub open spec fn next_turn(last: int, n: int) -> int {
    (last + 1) % n
}

/// The index, among `n` people, of the turn after the turn `last`.
pub fn next_duty_index(last: i32, n: usize) -> (r: usize)
    requires
        turn_defined(last as int, n as int),
    ensures
        r == next_turn(last as int, n as int),
        r < n,
{
    if last + 1 >= 0 {
        ((last + 1) as usize) % n
    } else {
        0
    }
}

/// The index of the `k`-th turn after the turn `last`, among `n` people.
pub open spec fn turn_after(last: int, k: int, n: int) -> int {
    (last + k) % n
}

/// Taking turns goes round the list: after `n` turns from any index every one of the `n`
/// people has had exactly one, the `k`-th turn after `last` falling to `(last + k) mod n`.
pub proof fn lemma_rotation_visits_everyone(last: int, n: int, j: int)
    requires
        n > 0,
        0 <= j < n,
    ensures
        exists|k: int| 1 <= k <= n && #[trigger] turn_after(last, k, n) == j,
        forall|k1: int, k2: int|
            1 <= k1 < k2 <= n ==> #[trigger] turn_after(last, k1, n) != #[trigger] turn_after(
                last,
                k2,
                n,
            ),
{
    let k = (j - last - 1) % n + 1;
    let q = (j - last - 1) / n;
    assert(j - last - 1 == q * n + (k - 1)) by (nonlinear_arith)
        requires
            k == (j - last - 1) % n + 1,
            q == (j - last - 1) / n,
            n > 0,
    ;
    assert((last + k) % n == j) by (nonlinear_arith)
        requires
            j - last - 1 == q * n + (k - 1),
            0 <= j < n,
            n > 0,
    {
        lemma_fundamental_div_mod_converse(last + k, n, -q, j);
    }
    assert(turn_after(last, k, n) == j);
    assert forall|k1: int, k2: int| 1 <= k1 < k2 <= n implies #[trigger] turn_after(last, k1, n)
        != #[trigger] turn_after(last, k2, n) by {
        if turn_after(last, k1, n) == turn_after(last, k2, n) {
            let a = (last + k1) / n;
            let b = (last + k2) / n;
            lemma_fundamental_div_mod(last + k1, n);
            lemma_fundamental_div_mod(last + k2, n);
            assert(k2 - k1 == (b - a) * n) by (nonlinear_arith)
                requires
                    last + k1 == n * a + (last + k1) % n,
                    last + k2 == n * b + (last + k2) % n,
                    (last + k1) % n == (last + k2) % n,
            ;
            assert(false) by (nonlinear_arith)
                requires
                    k2 - k1 == (b - a) * n,
                    0 < k2 - k1 < n,
                    n > 0,
            ;
        }
    }
}

/// With two or more people, the next turn never goes to the person whose turn it just
/// was: Saturday and Sunday go to different people.
pub proof fn lemma_consecutive_turns_differ(last: int, n: int)
    requires
        n >= 2,
    ensures
        next_turn(last, n) != next_turn(next_turn(last, n), n),
{
    lemma_rotation_visits_everyone(last, n, 0);
    assert(turn_after(last, 1, n) != turn_after(last, 2, n));
    lemma_add_mod_noop(last + 1, 1, n);
    lemma_small_mod(1, n as nat);
    lemma_mod_twice(last + 1, n);
}


/// Saturday, counted from Monday = 0.
pub open spec fn saturday() -> int {
    5
}

/// Sunday, counted from Monday = 0.
pub open spec fn sunday() -> int {
    6
}

/// The duty day that follows the duty day `day`: the Sunday after a Saturday, else the
/// first Saturday after the day.
pub open spec fn next_duty_day(day: int) -> int {
    if weekday_of(day) == saturday() {
        day + 1
    } else {
        next_weekday_day(day + 1, saturday())
    }
}

/// The duty date that follows `duty`: the next day after a Saturday, else the next
/// Saturday after it.
pub fn next_duty_date(duty: Date) -> (r: Date)
    requires
        next_duty_day(duty@) <= MAX_DAY,
    ensures
        r@ == next_duty_day(duty@),
{
    let day = duty.day_number();
    let after = match duty.add_days(1) {
        Some(d) => d,
        None => duty,
    };
    assert(day + 1 <= next_duty_day(day as int));
    if duty.weekday() == Weekday::Sat {
        after
    } else {
        next_weekday(after, Weekday::Sat)
    }
}

/// The duty after a Saturday is the next day, a Sunday; the duty after a Sunday is the
/// Saturday six days later.
pub proof fn lemma_weekend_duty_succession(day: int)
    ensures
        weekday_of(day) == saturday() ==> next_duty_day(day) == day + 1 && weekday_of(day + 1)
            == sunday(),
        weekday_of(day) == sunday() ==> next_duty_day(day) == day + 6 && weekday_of(day + 6)
            == saturday(),
{
    lemma_weekday_succession(day);
    lemma_weekday_succession(day + 1);
    lemma_weekday_succession(day - 1);
    lemma_weekday_succession(day + 6);
}

/// The name of the day of the week of a duty day: `星期六` for a Saturday, `星期日` for a
/// Sunday, and the empty text for any other day.
pub open spec fn duty_weekday_label(day: int) -> Seq<char> {
    if weekday_of(day) == saturday() {
        "星期六"@
    } else if weekday_of(day) == sunday() {
        "星期日"@
    } else {
        Seq::empty()
    }
}

/// The name of the day of the week of a duty date, as the mails write it.
pub fn duty_weekday_name(duty: &Date) -> (r: String)
    ensures
        r@ == duty_weekday_label(duty@),
{
    let w = duty.weekday();
    if w == Weekday::Sat {
        "星期六".to_owned()
    } else if w == Weekday::Sun {
        "星期日".to_owned()
    } else {
        String::new()
    }
}

/// The duty day whose notice goes out on `today`, if any: the coming Saturday when it is
/// two days away, else the coming Sunday when it is two days away.
pub open spec fn notice_day(today: int) -> Option<int> {
    let sat = next_weekday_day(today, saturday());
    let sun = next_weekday_day(today, sunday());
    if today == sat - 2 {
        Some(sat)
    } else if today == sun - 2 {
        Some(sun)
    } else {
        None
    }
}

/// Whether the dates that a check on `today` looks at are all dates: the coming Saturday
/// and Sunday, and the days two days before them.
pub open spec fn notice_check_defined(today: int) -> bool {
    &&& next_weekday_day(today, saturday()) <= MAX_DAY
    &&& next_weekday_day(today, sunday()) <= MAX_DAY
    &&& next_weekday_day(today, saturday()) - 2 >= MIN_DAY
    &&& next_weekday_day(today, sunday()) - 2 >= MIN_DAY
}

/// The duty date whose notice is due on `today`: notices go out two days ahead, on the
/// Thursday for the Saturday and on the Friday for the Sunday.
pub fn notice_due(today: Date) -> (r: Option<Date>)
    requires
        notice_check_defined(today@),
    ensures
        r is Some <==> notice_day(today@) is Some,
        r matches Some(d) ==> notice_day(today@) == Some(d@),
{
    let saturday = next_weekday(today, Weekday::Sat);
    let thursday = saturday.add_days(-2);
    if let Some(thu) = thursday {
        if today.same_day(&thu) {
            return Some(saturday);
        }
    }
    let sunday = next_weekday(today, Weekday::Sun);
    let friday = sunday.add_days(-2);
    if let Some(fri) = friday {
        if today.same_day(&fri) {
            return Some(sunday);
        }
    }
    None
}

/// Whether the dates that a check on `today` looks at are all dates.
pub fn notice_check_supported(today: &Date) -> (r: bool)
    ensures
        r == notice_check_defined(today@),
{
    let day = today.day_number();
    let w = today.weekday().num_days_from_monday() as i64;
    let to_sat: i64 = (5 - w + 7) % 7;
    let to_sun: i64 = (6 - w + 7) % 7;
    let d = day as i64;
    d + to_sat <= MAX_DAY as i64 && d + to_sun <= MAX_DAY as i64 && d + to_sat - 2 >= MIN_DAY as i64
        && d + to_sun - 2 >= MIN_DAY as i64
}

/// Whether the duty date after `duty` is a date, so that a notice for `duty` can be made.
pub fn duty_date_supported(duty: &Date) -> (r: bool)
    ensures
        r == (next_duty_day(duty@) <= MAX_DAY),
{
    let day = duty.day_number() as i64;
    let w = duty.weekday().num_days_from_monday() as i64;
    if w == 5 {
        day + 1 <= MAX_DAY as i64
    } else {
        let w1 = (w + 1) % 7;
        day + 1 + (5 - w1 + 7) % 7 <= MAX_DAY as i64
    }
}

/// Notices go out two days ahead and only for weekends: a notice is due on a Thursday, for
/// the Saturday after it, and on a Friday, for the Sunday after it, and on no other day.
pub proof fn lemma_notice_two_days_ahead(today: int)
    ensures
        weekday_of(today) == 3 ==> notice_day(today) == Some(today + 2) && weekday_of(today + 2)
            == saturday(),
        weekday_of(today) == 4 ==> notice_day(today) == Some(today + 2) && weekday_of(today + 2)
            == sunday(),
        weekday_of(today) != 3 && weekday_of(today) != 4 ==> notice_day(today) is None,
{
    lemma_weekday_succession(today);
    lemma_weekday_succession(today + 1);
}


// ---------------------------------------------------------------------------------------
// Sending the notice for one duty date
// ---------------------------------------------------------------------------------------

/// What the notice for a duty date needs from the store to pick the person on duty.
pub struct RotationInputs {
    /// The duty list, in duty order.
    pub personnel: Vec<Personnel>,
    /// The setting `last_person_index`, `None` where it could not be read.
    pub last_index: Option<String>,
    /// The setting `email_subject_template`, `None` where it could not be read.
    pub subject_template: Option<String>,
    /// The setting `email_body_template`, `None` where it could not be read.
    pub body_template: Option<String>,
}

/// The person on duty and the mail for one duty date.
pub struct DutyPlan {
    pub person_id: i64,
    pub person_name: String,
    pub person_email: String,
    /// The index, among the active people, of the person on duty.
    pub next_index: usize,
    pub subject: String,
    pub body: String,
}

/// A write to the store whose outcome does not change what happens next.
pub enum StoreWrite {
    /// A duty record on `duty_date` for nobody (person 0), marked as skipped for a holiday
    /// (`is_holiday` = 1).
    RecordHoliday { duty_date: String },
    /// The duty record `schedule_id` is marked as notified.
    MarkNotified { schedule_id: i64 },
    /// The setting `key` is set to `value`.
    SetSetting { key: String, value: String },
    /// An entry of the mail log.
    LogEmail {
        schedule_id: i64,
        recipient: String,
        subject: String,
        status: String,
        error_msg: Option<String>,
    },
}

/// A mail to send.
pub struct OutgoingMail {
    pub config: SmtpConfig,
    pub to_email: String,
    pub to_name: String,
    pub subject: String,
    pub body: String,
}

/// What the caller is to do next for the notice of one duty date.
pub enum NotifyAction {
    /// Read all duty records; answer with `NotifyEvent::Schedules`.
    LoadSchedules,
    /// Find out whether the date is a holiday; answer with `NotifyEvent::Holiday`.
    CheckHoliday(Date),
    /// Read the duty list and the rotation settings; answer with `NotifyEvent::Rotation`.
    LoadRotation,
    /// Create a duty record; answer with `NotifyEvent::ScheduleCreated`.
    CreateSchedule { person_id: i64, duty_date: String },
    /// Read the SMTP settings; answer with `NotifyEvent::Smtp`.
    LoadSmtp,
    /// Send the mail; answer with `NotifyEvent::Sent`.
    Send(OutgoingMail),
    /// Make these writes in order, ignoring their outcome, and end with `outcome`.
    Finish { writes: Vec<StoreWrite>, outcome: Result<(), String> },
}

/// What the caller reports back after doing a `NotifyAction`.
pub enum NotifyEvent {
    /// All duty records (none where they could not be read).
    Schedules(Vec<Schedule>),
    /// Whether the duty date is a holiday (`false` where that could not be found out).
    Holiday(bool),
    Rotation(RotationInputs),
    /// The id of the new duty record, or the store's error.
    ScheduleCreated(Result<i64, String>),
    Smtp(SmtpSettings),
    /// The outcome of sending the mail.
    Sent(Result<(), String>),
}

/// Where the notice of one duty date stands.
pub enum NotifyStage {
    AwaitSchedules,
    AwaitHoliday,
    AwaitRotation,
    AwaitScheduleId(DutyPlan),
    AwaitSmtp(DutyPlan, i64),
    AwaitSend(DutyPlan, i64),
    Finished,
}

/// The notice for one duty date, as a machine that the caller drives: it hands out
/// `NotifyAction`s, the caller performs each and reports the `NotifyEvent`.
pub struct DutyNotice {
    pub duty_date: Date,
    /// The duty date written `YYYY-MM-DD`.
    pub date_text: String,
    pub stage: NotifyStage,
}

/// A store write, with texts as plain character sequences.
pub enum WriteView {
    RecordHoliday { duty_date: Seq<char> },
    MarkNotified { schedule_id: i64 },
    SetSetting { key: Seq<char>, value: Seq<char> },
    LogEmail {
        schedule_id: i64,
        recipient: Seq<char>,
        subject: Seq<char>,
        status: Seq<char>,
        error_msg: Option<Seq<char>>,
    },
}

impl View for StoreWrite {
    type V = WriteView;

    open spec fn view(&self) -> WriteView {
        match self {
            StoreWrite::RecordHoliday { duty_date } => WriteView::RecordHoliday {
                duty_date: duty_date@,
            },
            StoreWrite::MarkNotified { schedule_id } => WriteView::MarkNotified {
                schedule_id: *schedule_id,
            },
            StoreWrite::SetSetting { key, value } => WriteView::SetSetting {
                key: key@,
                value: value@,
            },
            StoreWrite::LogEmail { schedule_id, recipient, subject, status, error_msg } =>
                WriteView::LogEmail {
                schedule_id: *schedule_id,
                recipient: recipient@,
                subject: subject@,
                status: status@,
                error_msg: opt_string_view(*error_msg),
            },
        }
    }
}

/// The writes of a `Finish`, as plain values.
pub open spec fn writes_view(w: Seq<StoreWrite>) -> Seq<WriteView> {
    w.map_values(|x: StoreWrite| x@)
}

/// An outcome, with the error text as a plain character sequence.
pub open spec fn outcome_view(o: Result<(), String>) -> Result<(), Seq<char>> {
    match o {
        Ok(()) => Ok(()),
        Err(e) => Err(e@),
    }
}

/// Whether `a` ends the notice with exactly these writes and this outcome.
pub open spec fn finishes_with(a: NotifyAction, writes: Seq<WriteView>, outcome: Result<
    (),
    Seq<char>,
>) -> bool {
    a matches NotifyAction::Finish { writes: w, outcome: o } && writes_view(w@) == writes
        && outcome_view(o) == outcome
}

/// Whether a duty record for the date written `date_text` is already marked as notified.
pub open spec fn already_notified(schedules: Seq<Schedule>, date_text: Seq<char>) -> bool {
    exists|i: int| 0 <= i < schedules.len() && #[trigger] schedules[i].duty_date@ == date_text
        && schedules[i].notified == 1
}

/// The value of the setting `last_person_index`: the number it writes, else -1.
pub open spec fn last_index_setting(o: Option<Seq<char>>) -> int {
    match o {
        Some(t) => match parsed_i32(t) {
            Some(v) => v as int,
            None => -1,
        },
        None => -1,
    }
}

/// A template setting, or its default where it could not be read.
pub open spec fn template_setting(o: Option<Seq<char>>, default: Seq<char>) -> Seq<char> {
    match o {
        Some(t) => t,
        None => default,
    }
}

/// The subject template used where the setting could not be read.
pub open spec fn default_subject_template() -> Seq<char> {
    "【值班通知】{日期} {星期}"@
}

/// The body template used where the setting could not be read.
pub open spec fn default_body_template() -> Seq<char> {
    "Hi {姓名}，{日期} {星期} 你值班。"@
}

/// The active people of the rotation inputs.
pub open spec fn rotation_people(inp: RotationInputs) -> Seq<Personnel> {
    active_people(inp.personnel@)
}

/// The index, among the active people, of the person on duty.
pub open spec fn duty_index(inp: RotationInputs) -> int {
    next_turn(last_index_setting(opt_string_view(inp.last_index)), rotation_people(inp).len() as int)
}

/// The person on duty.
pub open spec fn duty_person(inp: RotationInputs) -> Personnel {
    rotation_people(inp)[duty_index(inp)]
}

/// The person on duty at the next duty date.
pub open spec fn following_person(inp: RotationInputs) -> Personnel {
    rotation_people(inp)[(duty_index(inp) + 1) % (rotation_people(inp).len() as int)]
}

/// A template filled for the duty date `day` and the rotation inputs.
pub open spec fn duty_mail_text(template: Seq<char>, inp: RotationInputs, day: int) -> Seq<char> {
    filled_template(
        template,
        duty_person(inp).name@,
        duty_person(inp).email@,
        iso_date_text(day),
        duty_weekday_label(day),
        Some(following_person(inp).name@),
        Some(iso_date_text(next_duty_day(day))),
    )
}

/// Whether the rotation inputs can be acted on without a panic: where there are active
/// people, the turn after the stored index is defined and the person on duty has an id.
pub open spec fn rotation_usable(inp: RotationInputs) -> bool {
    rotation_people(inp).len() > 0 ==> {
        &&& turn_defined(
            last_index_setting(opt_string_view(inp.last_index)),
            rotation_people(inp).len() as int,
        )
        &&& duty_person(inp).id is Some
    }
}

/// Whether `plan` is the plan that the rotation inputs give for the duty date `day`.
pub open spec fn is_duty_plan(plan: DutyPlan, inp: RotationInputs, day: int) -> bool {
    &&& Some(plan.person_id) == duty_person(inp).id
    &&& plan.person_name@ == duty_person(inp).name@
    &&& plan.person_email@ == duty_person(inp).email@
    &&& plan.next_index == duty_index(inp)
    &&& plan.subject@ == duty_mail_text(
        template_setting(opt_string_view(inp.subject_template), default_subject_template()),
        inp,
        day,
    )
    &&& plan.body@ == duty_mail_text(
        template_setting(opt_string_view(inp.body_template), default_body_template()),
        inp,
        day,
    )
}

impl DutyNotice {
    /// Whether the notice is well formed: its date text is that of its date.
    pub open spec fn wf(self) -> bool {
        &&& self.date_text@ == iso_date_text(self.duty_date@)
        &&& match self.stage {
            NotifyStage::AwaitScheduleId(p) => p.next_index < i32::MAX,
            NotifyStage::AwaitSmtp(p, _) => p.next_index < i32::MAX,
            NotifyStage::AwaitSend(p, _) => p.next_index < i32::MAX,
            _ => true,
        }
    }

    /// Whether `event` answers the action that the notice is waiting on, and can be acted
    /// on without a panic: the rotation in particular must be usable and, where someone is
    /// on duty, the duty date after this one must be a date.
    pub open spec fn accepts(self, event: NotifyEvent) -> bool {
        match self.stage {
            NotifyStage::AwaitSchedules => event is Schedules,
            NotifyStage::AwaitHoliday => event is Holiday,
            NotifyStage::AwaitRotation => event matches NotifyEvent::Rotation(inp)
                && rotation_usable(inp) && (rotation_people(inp).len() > 0 ==> next_duty_day(
                self.duty_date@,
            ) <= MAX_DAY),
            NotifyStage::AwaitScheduleId(_) => event is ScheduleCreated,
            NotifyStage::AwaitSmtp(_, _) => event is Smtp,
            NotifyStage::AwaitSend(_, _) => event is Sent,
            NotifyStage::Finished => false,
        }
    }
}


/// Saturday and Sunday go to different people. A notice sent for the plan `plan` made
/// from the rotation `inp` stores the plan's turn as `last_person_index` (see
/// `DutyNotice::step`). The next notice, read with the same duty list and that stored
/// turn, goes to the person after: the first plan's following person, at the next index
/// round the list. With two or more people on the list that is another person.
pub proof fn lemma_next_notice_goes_to_the_next_person(
    inp: RotationInputs,
    day: int,
    plan: DutyPlan,
    later: RotationInputs,
)
    requires
        rotation_people(inp).len() > 0,
        is_duty_plan(plan, inp, day),
        plan.next_index < i32::MAX,
        later.personnel@ == inp.personnel@,
        opt_string_view(later.last_index) == Some(decimal_text(plan.next_index as int)),
    ensures
        duty_index(later) == (duty_index(inp) + 1) % (rotation_people(inp).len() as int),
        duty_person(later) == following_person(inp),
        rotation_people(inp).len() >= 2 ==> duty_index(later) != duty_index(inp),
{
    let n = rotation_people(inp).len() as int;
    let k = plan.next_index;
    lemma_i32_text_roundtrip(k as i32);
    assert(last_index_setting(opt_string_view(later.last_index)) == k as int);
    assert(rotation_people(later) == rotation_people(inp));
    assert(duty_index(inp) == k as int);
    let l = last_index_setting(opt_string_view(inp.last_index));
    assert(0 <= (l + 1) % n < n) by {
        lemma_fundamental_div_mod(l + 1, n);
    }
    if n >= 2 {
        if k + 1 < n {
            lemma_small_mod((k + 1) as nat, n as nat);
        } else {
            lemma_fundamental_div_mod_converse(k + 1, n, 1, 0);
        }
    }
}

/// Only a notified record of the notice's own date stops it: the records hold a notified
/// record for the date written `t` exactly when one of them has that date and is marked
/// notified. Records of other dates, notified or not, never stop a notice.
pub proof fn lemma_only_its_own_date_stops_a_notice(list: Seq<Schedule>, t: Seq<char>)
    ensures
        already_notified(list, t) <==> exists|i: int|
            0 <= i < list.len() && list[i].duty_date@ == t && list[i].notified == 1,
        (forall|i: int| 0 <= i < list.len() && list[i].notified == 1 ==> list[i].duty_date@ != t)
            ==> !already_notified(list, t),
{
    if already_notified(list, t) {
        let i = choose|i: int| 0 <= i < list.len() && #[trigger] list[i].duty_date@ == t
            && list[i].notified == 1;
        assert(0 <= i < list.len() && list[i].duty_date@ == t && list[i].notified == 1);
    }
    if exists|i: int| 0 <= i < list.len() && list[i].duty_date@ == t && list[i].notified == 1 {
        let i = choose|i: int| 0 <= i < list.len() && list[i].duty_date@ == t && list[i].notified
            == 1;
        assert(list[i].duty_date@ == t);
    }
}

/// The mail of a weekend duty names the duty day that follows it: for a Saturday the
/// Sunday after it, for a Sunday the Saturday six days later. The subject and body of a
/// plan are its templates filled with the person on duty, the date, `星期六` or `星期日`,
/// the person after and that next duty date.
pub proof fn lemma_plan_names_the_following_duty_day(plan: DutyPlan, inp: RotationInputs, day: int)
    requires
        is_duty_plan(plan, inp, day),
        weekday_of(day) == saturday() || weekday_of(day) == sunday(),
    ensures
        ({
            let next = if weekday_of(day) == saturday() {
                day + 1
            } else {
                day + 6
            };
            let label = if weekday_of(day) == saturday() {
                "星期六"@
            } else {
                "星期日"@
            };
            let fill = |t: Seq<char>|
                filled_template(
                    t,
                    duty_person(inp).name@,
                    duty_person(inp).email@,
                    iso_date_text(day),
                    label,
                    Some(following_person(inp).name@),
                    Some(iso_date_text(next)),
                );
            &&& plan.subject@ == fill(
                template_setting(opt_string_view(inp.subject_template), default_subject_template()),
            )
            &&& plan.body@ == fill(
                template_setting(opt_string_view(inp.body_template), default_body_template()),
            )
        }),
{
    lemma_weekend_duty_succession(day);
}

/// A stored turn at or beyond the number of people on duty wraps round. With `n` active
/// people (at most `i32::MAX`) who all have ids and a stored index below `i32::MAX`, the
/// rotation can be used exactly when the index is -1 or more, or when index plus one is a
/// multiple of `n` (a negative remainder would be no index). Then the person on duty is the
/// active person at the stored index plus one, modulo `n`.
pub proof fn lemma_any_stored_turn_wraps_round(inp: RotationInputs)
    requires
        0 < rotation_people(inp).len() <= i32::MAX,
        forall|i: int| 0 <= i < rotation_people(inp).len() ==> (#[trigger] rotation_people(inp)[i]).id is Some,
        last_index_setting(opt_string_view(inp.last_index)) < i32::MAX,
    ensures
        ({
            let n = rotation_people(inp).len() as int;
            let last = last_index_setting(opt_string_view(inp.last_index));
            &&& rotation_usable(inp) <==> (last >= -1 || (last + 1) % n == 0)
            &&& rotation_usable(inp) ==> {
                &&& duty_index(inp) == (last + 1) % n
                &&& 0 <= duty_index(inp) < n
                &&& duty_person(inp) == rotation_people(inp)[(last + 1) % n]
            }
        }),
{
    let n = rotation_people(inp).len() as int;
    let last = last_index_setting(opt_string_view(inp.last_index));
    lemma_fundamental_div_mod(last + 1, n);
    assert(rotation_people(inp)[duty_index(inp)].id is Some);
}

/// The people who take turns are the active entries of the duty list, in list order.
pub proof fn lemma_active_people_keep_list_order(list: Seq<Personnel>)
    ensures
        active_people(list) == list.filter(|p: Personnel| p.active == 1),
    decreases list.len(),
{
    reveal(Seq::filter);
    if list.len() > 0 {
        lemma_active_people_keep_list_order(list.drop_last());
    }
}

/// Whether two plans are the same, field by field.
pub open spec fn same_plan(a: DutyPlan, b: DutyPlan) -> bool {
    &&& a.person_id == b.person_id
    &&& a.person_name@ == b.person_name@
    &&& a.person_email@ == b.person_email@
    &&& a.next_index == b.next_index
    &&& a.subject@ == b.subject@
    &&& a.body@ == b.body@
}

/// The value of the setting `last_person_index`: the number it writes, else -1.
pub fn last_index_value(o: &Option<String>) -> (r: i32)
    ensures
        r == last_index_setting(opt_string_view(*o)),
{
    match o {
        Some(t) => match parse_i32(t.as_str()) {
            Some(v) => v,
            None => -1,
        },
        None => -1,
    }
}

fn template_or(o: &Option<String>, default: &str) -> (r: String)
    ensures
        r@ == template_setting(opt_string_view(*o), default@),
{
    match o {
        Some(t) => t.clone(),
        None => default.to_owned(),
    }
}

/// The person on duty and the mail for the duty date `duty`: the next active person in
/// turn after the stored index, and the subject and body templates filled for that person,
/// the date, its day of the week, the person after and the next duty date. `None` where no
/// one is active.
pub fn plan_duty(inp: &RotationInputs, duty: Date, date_text: &str) -> (r: Option<DutyPlan>)
    requires
        rotation_usable(*inp),
        rotation_people(*inp).len() > 0 ==> next_duty_day(duty@) <= MAX_DAY,
        date_text@ == iso_date_text(duty@),
    ensures
        r is None <==> rotation_people(*inp).len() == 0,
        r matches Some(p) ==> is_duty_plan(p, *inp, duty@) && p.next_index < i32::MAX,
{
    let active = active_personnel(&inp.personnel);
    if active.len() == 0 {
        return None;
    }
    let last = last_index_value(&inp.last_index);
    let n = active.len();
    let idx = next_duty_index(last, n);
    let person = &active[idx];
    let next_person = &active[(idx + 1) % n];
    let next_duty = next_duty_date(duty);
    let next_text = next_duty.format_ymd();
    let dow = duty_weekday_name(&duty);
    let subject_tpl = template_or(&inp.subject_template, "【值班通知】{日期} {星期}");
    let body_tpl = template_or(&inp.body_template, "Hi {姓名}，{日期} {星期} 你值班。");
    let subject = replace_template_vars(
        subject_tpl.as_str(),
        person.name.as_str(),
        person.email.as_str(),
        date_text,
        dow.as_str(),
        Some(next_person.name.as_str()),
        Some(next_text.as_str()),
    );
    let body = replace_template_vars(
        body_tpl.as_str(),
        person.name.as_str(),
        person.email.as_str(),
        date_text,
        dow.as_str(),
        Some(next_person.name.as_str()),
        Some(next_text.as_str()),
    );
    let person_id = match person.id {
        Some(i) => i,
        None => 0,
    };
    Some(
        DutyPlan {
            person_id,
            person_name: person.name.clone(),
            person_email: person.email.clone(),
            next_index: idx,
            subject,
            body,
        },
    )
}


fn log_write(
    schedule_id: i64,
    plan: &DutyPlan,
    status: &str,
    error_msg: Option<String>,
) -> (r: StoreWrite)
    ensures
        r@ == (WriteView::LogEmail {
            schedule_id,
            recipient: plan.person_email@,
            subject: plan.subject@,
            status: status@,
            error_msg: opt_string_view(error_msg),
        }),
{
    StoreWrite::LogEmail {
        schedule_id,
        recipient: plan.person_email.clone(),
        subject: plan.subject.clone(),
        status: status.to_owned(),
        error_msg,
    }
}

fn finish(writes: Vec<StoreWrite>, outcome: Result<(), String>) -> (r: NotifyAction)
    ensures
        finishes_with(r, writes_view(writes@), outcome_view(outcome)),
{
    NotifyAction::Finish { writes, outcome }
}

impl DutyNotice {
    /// Starts the notice for the duty date `duty_date`; the first action reads the duty
    /// records.
    pub fn new(duty_date: Date) -> (r: (DutyNotice, NotifyAction))
        ensures
            r.0.wf(),
            r.0.duty_date@ == duty_date@,
            r.0.stage is AwaitSchedules,
            r.1 is LoadSchedules,
    {
        let date_text = duty_date.format_ymd();
        (DutyNotice { duty_date, date_text, stage: NotifyStage::AwaitSchedules }, NotifyAction::LoadSchedules)
    }

    /// Whether `event` answers the action that the notice is waiting on, and can be acted
    /// on without a panic.
    pub fn accepts_event(&self, event: &NotifyEvent) -> (r: bool)
        requires
            self.wf(),
        ensures
            r == self.accepts(*event),
    {
        match &self.stage {
            NotifyStage::AwaitSchedules => matches!(event, NotifyEvent::Schedules(_)),
            NotifyStage::AwaitHoliday => matches!(event, NotifyEvent::Holiday(_)),
            NotifyStage::AwaitRotation => match event {
                NotifyEvent::Rotation(inp) => rotation_usable_exec(inp) && (active_personnel(
                    &inp.personnel,
                ).len() == 0 || duty_date_supported(&self.duty_date)),
                _ => false,
            },
            NotifyStage::AwaitScheduleId(_) => matches!(event, NotifyEvent::ScheduleCreated(_)),
            NotifyStage::AwaitSmtp(_, _) => matches!(event, NotifyEvent::Smtp(_)),
            NotifyStage::AwaitSend(_, _) => matches!(event, NotifyEvent::Sent(_)),
            NotifyStage::Finished => false,
        }
    }

    /// Whether the notice has ended.
    pub fn is_finished(&self) -> (r: bool)
        ensures
            r == self.stage is Finished,
    {
        matches!(self.stage, NotifyStage::Finished)
    }

    /// Takes the caller's report on the last action and gives the next action:
    /// - after the duty records: the notice ends at once, with nothing written, where the
    ///   date already has a notified record; else the holiday check follows;
    /// - after the holiday check: on a holiday, the date is recorded as skipped for a
    ///   holiday (a duty record for nobody, marked `is_holiday`) and the notice ends, using
    ///   no turn and sending nothing; else the rotation is read;
    /// - after the rotation: with no active person the notice fails with
    ///   `没有可用的值班人员`; else a duty record is created for the next person in turn;
    /// - after the duty record: a store error fails the notice with `创建排班记录失败: `
    ///   and the error; else the SMTP settings are read;
    /// - after the SMTP settings: with no host the failure is logged and the notice fails
    ///   with `SMTP 未配置`; else the mail is sent;
    /// - after sending: on success the record is marked notified, the turn is saved as
    ///   `last_person_index` and the success logged; on failure the failure is logged and
    ///   the notice fails with the sending error. The turn is saved on success only.
    pub fn step(self, event: NotifyEvent) -> (r: (DutyNotice, NotifyAction))
        requires
            self.wf(),
            self.accepts(event),
        ensures
            r.0.wf(),
            r.0.duty_date@ == self.duty_date@,
            r.0.date_text@ == self.date_text@,
            r.1 is Finish <==> r.0.stage is Finished,
            event matches NotifyEvent::Schedules(list) ==> if already_notified(
                list@,
                self.date_text@,
            ) {
                finishes_with(r.1, Seq::empty(), Ok(()))
            } else {
                &&& r.1 matches NotifyAction::CheckHoliday(d)
                &&& d@ == self.duty_date@
                &&& r.0.stage is AwaitHoliday
            },
            event matches NotifyEvent::Holiday(h) ==> if h {
                finishes_with(
                    r.1,
                    seq![WriteView::RecordHoliday { duty_date: self.date_text@ }],
                    Ok(()),
                )
            } else {
                r.1 is LoadRotation && r.0.stage is AwaitRotation
            },
            event matches NotifyEvent::Rotation(inp) ==> if rotation_people(inp).len() == 0 {
                finishes_with(r.1, Seq::empty(), Err("没有可用的值班人员"@))
            } else {
                &&& r.0.stage matches NotifyStage::AwaitScheduleId(plan)
                &&& is_duty_plan(plan, inp, self.duty_date@)
                &&& r.1 matches NotifyAction::CreateSchedule { person_id, duty_date }
                &&& Some(person_id) == duty_person(inp).id
                &&& duty_date@ == self.date_text@
            },
            event matches NotifyEvent::ScheduleCreated(res) ==> (self.stage matches NotifyStage::AwaitScheduleId(
                plan,
            ) ==> match res {
                Err(e) => finishes_with(r.1, Seq::empty(), Err("创建排班记录失败: "@ + e@)),
                Ok(id) => {
                    &&& r.1 is LoadSmtp
                    &&& r.0.stage matches NotifyStage::AwaitSmtp(p, i)
                    &&& same_plan(p, plan)
                    &&& i == id
                },
            }),
            event matches NotifyEvent::Smtp(st) ==> (self.stage matches NotifyStage::AwaitSmtp(
                plan,
                id,
            ) ==> if or_empty(opt_string_view(st.host)).len() == 0 {
                finishes_with(
                    r.1,
                    seq![
                        WriteView::LogEmail {
                            schedule_id: id,
                            recipient: plan.person_email@,
                            subject: plan.subject@,
                            status: "failed"@,
                            error_msg: Some("SMTP 未配置"@),
                        },
                    ],
                    Err("SMTP 未配置"@),
                )
            } else {
                &&& r.1 matches NotifyAction::Send(m)
                &&& is_config_of(m.config, st)
                &&& m.to_email@ == plan.person_email@
                &&& m.to_name@ == plan.person_name@
                &&& m.subject@ == plan.subject@
                &&& m.body@ == plan.body@
                &&& r.0.stage matches NotifyStage::AwaitSend(p, i)
                &&& same_plan(p, plan)
                &&& i == id
            }),
            event matches NotifyEvent::Sent(res) ==> (self.stage matches NotifyStage::AwaitSend(
                plan,
                id,
            ) ==> match res {
                Ok(()) => finishes_with(
                    r.1,
                    seq![
                        WriteView::MarkNotified { schedule_id: id },
                        WriteView::SetSetting {
                            key: "last_person_index"@,
                            value: decimal_text(plan.next_index as int),
                        },
                        WriteView::LogEmail {
                            schedule_id: id,
                            recipient: plan.person_email@,
                            subject: plan.subject@,
                            status: "success"@,
                            error_msg: None,
                        },
                    ],
                    Ok(()),
                ),
                Err(e) => finishes_with(
                    r.1,
                    seq![
                        WriteView::LogEmail {
                            schedule_id: id,
                            recipient: plan.person_email@,
                            subject: plan.subject@,
                            status: "failed"@,
                            error_msg: Some(e@),
                        },
                    ],
                    Err(e@),
                ),
            }),
    {
        let DutyNotice { duty_date, date_text, stage } = self;
        match event {
            NotifyEvent::Schedules(list) => {
                if has_notified_record(&list, date_text.as_str()) {
                    let w: Vec<StoreWrite> = Vec::new();
                    assert(writes_view(w@) =~= Seq::empty());
                    (
                        DutyNotice { duty_date, date_text, stage: NotifyStage::Finished },
                        finish(w, Ok(())),
                    )
                } else {
                    (
                        DutyNotice { duty_date, date_text, stage: NotifyStage::AwaitHoliday },
                        NotifyAction::CheckHoliday(duty_date),
                    )
                }
            },
            NotifyEvent::Holiday(h) => {
                if h {
                    let w = vec![
                        StoreWrite::RecordHoliday { duty_date: date_text.clone() },
                    ];
                    assert(writes_view(w@) =~= seq![
                        WriteView::RecordHoliday { duty_date: date_text@ },
                    ]);
                    (
                        DutyNotice { duty_date, date_text, stage: NotifyStage::Finished },
                        finish(w, Ok(())),
                    )
                } else {
                    (
                        DutyNotice { duty_date, date_text, stage: NotifyStage::AwaitRotation },
                        NotifyAction::LoadRotation,
                    )
                }
            },
            NotifyEvent::Rotation(inp) => {
                match plan_duty(&inp, duty_date, date_text.as_str()) {
                    None => {
                        let w: Vec<StoreWrite> = Vec::new();
                        assert(writes_view(w@) =~= Seq::empty());
                        (
                            DutyNotice { duty_date, date_text, stage: NotifyStage::Finished },
                            finish(w, Err("没有可用的值班人员".to_owned())),
                        )
                    },
                    Some(plan) => {
                        let person_id = plan.person_id;
                        let duty_text = date_text.clone();
                        (
                            DutyNotice {
                                duty_date,
                                date_text,
                                stage: NotifyStage::AwaitScheduleId(plan),
                            },
                            NotifyAction::CreateSchedule { person_id, duty_date: duty_text },
                        )
                    },
                }
            },
            NotifyEvent::ScheduleCreated(res) => {
                match stage {
                    NotifyStage::AwaitScheduleId(plan) => match res {
                        Err(e) => {
                            let w: Vec<StoreWrite> = Vec::new();
                            assert(writes_view(w@) =~= Seq::empty());
                            (
                                DutyNotice { duty_date, date_text, stage: NotifyStage::Finished },
                                finish(w, Err(join_text("创建排班记录失败: ", e.as_str()))),
                            )
                        },
                        Ok(id) => (
                            DutyNotice {
                                duty_date,
                                date_text,
                                stage: NotifyStage::AwaitSmtp(plan, id),
                            },
                            NotifyAction::LoadSmtp,
                        ),
                    },
                    _ => (
                        DutyNotice { duty_date, date_text, stage: NotifyStage::Finished },
                        NotifyAction::Finish { writes: Vec::new(), outcome: Ok(()) },
                    ),
                }
            },
            NotifyEvent::Smtp(st) => {
                match stage {
                    NotifyStage::AwaitSmtp(plan, id) => {
                        let config = SmtpConfig::from_settings(&st);
                        if config.host.as_str().is_empty() {
                            let w = vec![
                                log_write(id, &plan, "failed", Some("SMTP 未配置".to_owned())),
                            ];
                            assert(writes_view(w@) =~= seq![w@[0]@]);
                            (
                                DutyNotice { duty_date, date_text, stage: NotifyStage::Finished },
                                finish(w, Err("SMTP 未配置".to_owned())),
                            )
                        } else {
                            let mail = OutgoingMail {
                                config,
                                to_email: plan.person_email.clone(),
                                to_name: plan.person_name.clone(),
                                subject: plan.subject.clone(),
                                body: plan.body.clone(),
                            };
                            (
                                DutyNotice {
                                    duty_date,
                                    date_text,
                                    stage: NotifyStage::AwaitSend(plan, id),
                                },
                                NotifyAction::Send(mail),
                            )
                        }
                    },
                    _ => (
                        DutyNotice { duty_date, date_text, stage: NotifyStage::Finished },
                        NotifyAction::Finish { writes: Vec::new(), outcome: Ok(()) },
                    ),
                }
            },
            NotifyEvent::Sent(res) => {
                match stage {
                    NotifyStage::AwaitSend(plan, id) => match res {
                        Ok(()) => {
                            let w = vec![
                                StoreWrite::MarkNotified { schedule_id: id },
                                StoreWrite::SetSetting {
                                    key: "last_person_index".to_owned(),
                                    value: i32_to_text(plan.next_index as i32),
                                },
                                log_write(id, &plan, "success", None),
                            ];
                            assert(writes_view(w@) =~= seq![w@[0]@, w@[1]@, w@[2]@]);
                            (
                                DutyNotice { duty_date, date_text, stage: NotifyStage::Finished },
                                finish(w, Ok(())),
                            )
                        },
                        Err(e) => {
                            let msg = e.clone();
                            let w = vec![log_write(id, &plan, "failed", Some(e))];
                            assert(writes_view(w@) =~= seq![w@[0]@]);
                            (
                                DutyNotice { duty_date, date_text, stage: NotifyStage::Finished },
                                finish(w, Err(msg)),
                            )
                        },
                    },
                    _ => (
                        DutyNotice { duty_date, date_text, stage: NotifyStage::Finished },
                        NotifyAction::Finish { writes: Vec::new(), outcome: Ok(()) },
                    ),
                }
            },
        }
    }
}

/// Whether the duty records hold a notified record for the date written `date_text`.
pub fn has_notified_record(list: &Vec<Schedule>, date_text: &str) -> (r: bool)
    ensures
        r == already_notified(list@, date_text@),
{
    let target = chars_of(date_text);
    for i in 0..list.len()
        invariant
            target@ == date_text@,
            forall|j: int| 0 <= j < i ==> !(#[trigger] list@[j].duty_date@ == date_text@
                && list@[j].notified == 1),
    {
        let d = chars_of(list[i].duty_date.as_str());
        if list[i].notified == 1 && d.len() == target.len() && occurs_at_exec(&d, 0, &target) {
            assert(d@ =~= d@.subrange(0, target@.len() as int));
            assert(list@[i as int].duty_date@ == date_text@);
            return true;
        }
        proof {
            if list@[i as int].duty_date@ == date_text@ && list@[i as int].notified == 1 {
                assert(d@.subrange(0, target@.len() as int) =~= d@);
            }
        }
    }
    false
}

proof fn lemma_divisible_negation(x: int, n: int)
    requires
        n > 0,
    ensures
        (x % n == 0) == ((-x) % n == 0),
{
    lemma_fundamental_div_mod(x, n);
    lemma_fundamental_div_mod(-x, n);
    if x % n == 0 {
        assert(-x == (-(x / n)) * n) by (nonlinear_arith)
            requires
                x == n * (x / n) + x % n,
                x % n == 0,
        ;
        lemma_fundamental_div_mod_converse(-x, n, -(x / n), 0);
    }
    if (-x) % n == 0 {
        assert(x == (-((-x) / n)) * n) by (nonlinear_arith)
            requires
                -x == n * ((-x) / n) + (-x) % n,
                (-x) % n == 0,
        ;
        lemma_fundamental_div_mod_converse(x, n, -((-x) / n), 0);
    }
}

/// Whether the rotation inputs can be acted on without a panic.
pub fn rotation_usable_exec(inp: &RotationInputs) -> (r: bool)
    ensures
        r == rotation_usable(*inp),
{
    let active = active_personnel(&inp.personnel);
    let n = active.len();
    if n == 0 {
        return true;
    }
    let last = last_index_value(&inp.last_index);
    if n > 2147483647 || last == 2147483647 {
        return false;
    }
    if last + 1 < 0 && (((0 - (last as i64 + 1)) as u64) % (n as u64)) != 0 {
        proof {
            lemma_divisible_negation(last + 1, n as int);
        }
        return false;
    }
    proof {
        if last + 1 < 0 {
            lemma_divisible_negation(last + 1, n as int);
        }
    }
    let idx = next_duty_index(last, n);
    active[idx].id.is_some()
}

} // verus!
