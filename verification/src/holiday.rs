//! Public holidays: the cached holiday list, the holiday API's answer, and the steps of
//! deciding whether a date is a holiday.
use vstd::prelude::*;
use serde_json::Value;
use crate::date::{Date, iso_date_text, parsed_iso_date, year_of_day};
use crate::models::opt_string_view;
use crate::text::{chars_of, join_text, decimal_text, i32_to_text, parse_i32, parsed_i32};

verus! {

/// A JSON value as the holiday logic reads it: its kind, its scalar content, and for an
/// array or an object the compact JSON text of each member.
pub enum JsonNode {
    Null,
    Bool(bool),
    Number(String),
    Text(String),
    Array(Vec<String>),
    Object(Vec<(String, String)>),
}

/// A JSON value as plain values.
pub enum JsonNodeView {
    Null,
    Bool(bool),
    Number(Seq<char>),
    Text(Seq<char>),
    Array(Seq<Seq<char>>),
    Object(Seq<(Seq<char>, Seq<char>)>),
}

/// The members of an object as plain values.
pub open spec fn members_view(m: Seq<(String, String)>) -> Seq<(Seq<char>, Seq<char>)> {
    m.map_values(|e: (String, String)| (e.0@, e.1@))
}

impl View for JsonNode {
    type V = JsonNodeView;

    open spec fn view(&self) -> JsonNodeView {
        match self {
            JsonNode::Null => JsonNodeView::Null,
            JsonNode::Bool(b) => JsonNodeView::Bool(*b),
            JsonNode::Number(n) => JsonNodeView::Number(n@),
            JsonNode::Text(t) => JsonNodeView::Text(t@),
            JsonNode::Array(a) => JsonNodeView::Array(a@.map_values(|t: String| t@)),
            JsonNode::Object(m) => JsonNodeView::Object(members_view(m@)),
        }
    }
}

/// A parsed value or the parse error's text, as plain values.
pub open spec fn json_result_view(r: Result<JsonNode, String>) -> Result<JsonNodeView, Seq<char>> {
    match r {
        Ok(n) => Ok(n@),
        Err(e) => Err(e@),
    }
}

/// What `serde_json::from_str::<serde_json::Value>` makes of `text`: the value read, each
/// member of an array or object written back compactly by `Value`'s `Display` (for an
/// object, in the order of its map, one entry per key), or the error's text.
pub uninterp spec fn json_parse(text: Seq<char>) -> Result<JsonNodeView, Seq<char>>;

/// The compact JSON text that `Value`'s `Display` writes for an object whose members are
/// the given keys with boolean values (built as a `serde_json::Map`, a later entry
/// replacing an earlier one with the same key).
pub uninterp spec fn json_bool_object_text(entries: Seq<(Seq<char>, bool)>) -> Seq<char>;

/// `serde_json::from_str::<Value>`, the value's kind told apart, a number or an array or
/// object member written back with `to_string`. Claimed: the result is the named outcome
/// of the text.
#[verifier::external_body]
fn parse_json_node(text: &str) -> (r: Result<JsonNode, String>)
    ensures
        json_result_view(r) == json_parse(text@),
{
    match serde_json::from_str::<Value>(text) {
        Err(e) => Err(e.to_string()),
        Ok(Value::Null) => Ok(JsonNode::Null),
        Ok(Value::Bool(b)) => Ok(JsonNode::Bool(b)),
        Ok(Value::Number(n)) => Ok(JsonNode::Number(n.to_string())),
        Ok(Value::String(s)) => Ok(JsonNode::Text(s)),
        Ok(Value::Array(a)) => Ok(JsonNode::Array(a.iter().map(|v| v.to_string()).collect())),
        Ok(Value::Object(m)) => Ok(
            JsonNode::Object(m.iter().map(|(k, v)| (k.clone(), v.to_string())).collect()),
        ),
    }
}

/// The entries as plain values.
pub open spec fn flags_view(entries: Seq<(String, bool)>) -> Seq<(Seq<char>, bool)> {
    entries.map_values(|e: (String, bool)| (e.0@, e.1))
}

/// A `serde_json::Map` of `Value::Bool`s built from the entries, then `Value::Object` of
/// it written with `to_string`. Claimed: the result is the named text of the entries, it
/// is never empty (an object is written between `{` and `}`), and it parses back
/// (`Value`'s `Display` writes JSON that `from_str` reads).
#[verifier::external_body]
fn bool_object_json(entries: &Vec<(String, bool)>) -> (r: String)
    ensures
        r@ == json_bool_object_text(flags_view(entries@)),
        r@.len() >= 2,
        json_parse(r@) is Ok,
{
    let map: serde_json::Map<String, Value> = entries.iter().map(
        |(k, b)| (k.clone(), Value::Bool(*b)),
    ).collect();
    Value::Object(map).to_string()
}


/// The text of the first member named `key`, as `serde_json::Map::get` finds it (a JSON
/// object holds each key once).
pub open spec fn member_text(members: Seq<(Seq<char>, Seq<char>)>, key: Seq<char>) -> Option<
    Seq<char>,
>
    decreases members.len(),
{
    if members.len() == 0 {
        None
    } else if members[0].0 == key {
        Some(members[0].1)
    } else {
        member_text(members.skip(1), key)
    }
}

/// `Value::get(key)`: the text of the member `key` of an object, `None` for any other
/// value.
pub open spec fn json_member(node: JsonNodeView, key: Seq<char>) -> Option<Seq<char>> {
    match node {
        JsonNodeView::Object(m) => member_text(m, key),
        _ => None,
    }
}

/// `Value::as_bool` of the value written as `text`.
pub open spec fn json_text_bool(text: Seq<char>) -> Option<bool> {
    match json_parse(text) {
        Ok(JsonNodeView::Bool(b)) => Some(b),
        _ => None,
    }
}

/// `get(key).and_then(as_bool).unwrap_or(false)`: whether the member `key` of the value
/// is `true`.
pub open spec fn member_flag(node: JsonNodeView, key: Seq<char>) -> bool {
    match json_member(node, key) {
        Some(t) => match json_text_bool(t) {
            Some(b) => b,
            None => false,
        },
        None => false,
    }
}

/// The text of the first member named `key`.
pub fn find_member(members: &Vec<(String, String)>, key: &str) -> (r: Option<String>)
    ensures
        opt_text(r) == member_text(members_view(members@), key@),
{
    let k = key.to_owned();
    let mut i: usize = 0;
    assert(members_view(members@).skip(0) =~= members_view(members@));
    while i < members.len()
        invariant
            i <= members.len(),
            k@ == key@,
            member_text(members_view(members@), key@) == member_text(
                members_view(members@).skip(i as int),
                key@,
            ),
        decreases members.len() - i,
    {
        let ghost rest = members_view(members@).skip(i as int);
        assert(rest[0] == (members@[i as int].0@, members@[i as int].1@));
        if members[i].0 == k {
            return Some(members[i].1.clone());
        }
        assert(rest.skip(1) =~= members_view(members@).skip(i + 1));
        i = i + 1;
    }
    None
}

/// The text of an optional string.
pub open spec fn opt_text(o: Option<String>) -> Option<Seq<char>> {
    match o {
        Some(s) => Some(s@),
        None => None,
    }
}

/// Whether the value written as `text` is the boolean `true`.
pub fn text_is_true(text: &str) -> (r: bool)
    ensures
        r == (json_text_bool(text@) == Some(true)),
{
    match parse_json_node(text) {
        Ok(JsonNode::Bool(b)) => b,
        _ => false,
    }
}

/// Whether the member `key` of the value is `true`.
pub fn member_is_true(node: &JsonNode, key: &str) -> (r: bool)
    ensures
        r == member_flag(node@, key@),
{
    match node {
        JsonNode::Object(m) => match find_member(m, key) {
            Some(t) => text_is_true(t.as_str()),
            None => false,
        },
        _ => false,
    }
}

/// What the cached holiday list `cache` says of the date written `date_text`: whether the
/// list marks it `true`, or the parse error, prefixed by `缓存解析失败: `.
pub open spec fn cache_lookup(cache: Seq<char>, date_text: Seq<char>) -> Result<bool, Seq<char>> {
    match json_parse(cache) {
        Ok(node) => Ok(member_flag(node, date_text)),
        Err(e) => Err("缓存解析失败: "@ + e),
    }
}

proof fn lemma_member_text_first(m: Seq<(Seq<char>, Seq<char>)>, key: Seq<char>)
    ensures
        forall|i: int|
            0 <= i < m.len() && (#[trigger] m[i]).0 == key && (forall|j: int| 0 <= j < i ==> m[j].0 != key)
                ==> member_text(m, key) == Some(m[i].1),
    decreases m.len(),
{
    if m.len() > 0 {
        let t = m.skip(1);
        lemma_member_text_first(t, key);
        assert forall|i: int| 0 <= i < t.len() implies t[i] == m[i + 1] by {}
        if m[0].0 != key {
            assert forall|i: int|
                0 <= i < m.len() && (#[trigger] m[i]).0 == key && (forall|j: int| 0 <= j < i ==> m[j].0 != key)
                implies member_text(m, key) == Some(m[i].1) by {
                assert(i > 0);
                assert(t[i - 1] == m[i]);
                assert forall|j: int| 0 <= j < i - 1 implies t[j].0 != key by {
                    assert(t[j] == m[j + 1]);
                }
            }
        }
    }
}

proof fn lemma_member_text_index(m: Seq<(Seq<char>, Seq<char>)>, key: Seq<char>) -> (i: int)
    requires
        member_text(m, key) is Some,
    ensures
        0 <= i < m.len(),
        m[i].0 == key,
        forall|j: int| 0 <= j < i ==> m[j].0 != key,
        member_text(m, key) == Some(m[i].1),
    decreases m.len(),
{
    if m[0].0 == key {
        0
    } else {
        let t = m.skip(1);
        let k = lemma_member_text_index(t, key);
        assert(t[k] == m[k + 1]);
        assert forall|j: int| 0 <= j < k + 1 implies m[j].0 != key by {
            if j > 0 {
                assert(t[j - 1] == m[j]);
            }
        }
        k + 1
    }
}

/// What the cache says of a date: a list that does not parse is an error; a list that is
/// an object marks the date a holiday exactly when its member for the date (the first
/// one with that key) is the JSON value `true`; a missing member, any other value, or a
/// list that is not an object says no holiday.
pub proof fn lemma_cache_marks_holidays(cache: Seq<char>, date_text: Seq<char>)
    ensures
        json_parse(cache) is Err ==> cache_lookup(cache, date_text) is Err,
        json_parse(cache) matches Ok(node) && !(node is Object) ==> cache_lookup(cache, date_text)
            == Ok::<bool, Seq<char>>(false),
        json_parse(cache) matches Ok(JsonNodeView::Object(m)) ==> (cache_lookup(cache, date_text)
            == Ok::<bool, Seq<char>>(true) <==> exists|i: int|
            0 <= i < m.len() && (#[trigger] m[i]).0 == date_text && (forall|j: int|
                0 <= j < i ==> m[j].0 != date_text) && json_parse(m[i].1) == Ok::<
                JsonNodeView,
                Seq<char>,
            >(JsonNodeView::Bool(true))),
        json_parse(cache) is Ok ==> cache_lookup(cache, date_text) is Ok,
{
    match json_parse(cache) {
        Ok(JsonNodeView::Object(m)) => {
            lemma_member_text_first(m, date_text);
            if member_text(m, date_text) is Some {
                let i = lemma_member_text_index(m, date_text);
                assert(m[i].0 == date_text);
            }
        },
        _ => {},
    }
}

/// What the cached holiday list says of the date written `date_text`.
pub fn lookup_cached_holiday(cache: &str, date_text: &str) -> (r: Result<bool, String>)
    ensures
        match r {
            Ok(b) => cache_lookup(cache@, date_text@) == Ok::<bool, Seq<char>>(b),
            Err(e) => cache_lookup(cache@, date_text@) == Err::<bool, Seq<char>>(e@),
        },
{
    match parse_json_node(cache) {
        Ok(node) => Ok(member_is_true(&node, date_text)),
        Err(e) => Err(join_text("缓存解析失败: ", e.as_str())),
    }
}

/// Whether the cached list serves a date of `year`: it was cached for that year and is
/// neither empty nor `{}`.
pub open spec fn cache_serves(cache: Seq<char>, cache_year: int, year: int) -> bool {
    cache_year == year && cache.len() > 0 && cache != seq!['{', '}']
}

/// Whether the cached list serves a date of `year`.
pub fn cache_serves_year(cache: &str, cache_year: i32, year: i32) -> (r: bool)
    ensures
        r == cache_serves(cache@, cache_year as int, year as int),
{
    let c = chars_of(cache);
    let empty_object = c.len() == 2 && c[0] == '{' && c[1] == '}';
    proof {
        if c@ == seq!['{', '}'] {
            assert(c@[0] == '{' && c@[1] == '}');
        }
        if empty_object {
            assert(c@ =~= seq!['{', '}']);
        }
    }
    cache_year == year && c.len() > 0 && !empty_object
}

/// The holiday flags of the holiday API's answer: for each member of the answer's
/// `holiday` object, in order, its key and whether its own `holiday` member is `true`;
/// nothing where the answer has no such object.
pub open spec fn api_flags(root: JsonNodeView) -> Seq<(Seq<char>, bool)> {
    match json_member(root, "holiday"@) {
        Some(t) => match json_parse(t) {
            Ok(JsonNodeView::Object(days)) => days.map_values(
                |d: (Seq<char>, Seq<char>)| (d.0, info_flag(d.1)),
            ),
            _ => Seq::empty(),
        },
        None => Seq::empty(),
    }
}

/// Whether the day entry written as `info` has a `holiday` member that is `true`.
pub open spec fn info_flag(info: Seq<char>) -> bool {
    match json_parse(info) {
        Ok(node) => member_flag(node, "holiday"@),
        Err(_) => false,
    }
}

/// The holiday flags of the holiday API's answer.
pub fn holiday_flags(root: &JsonNode) -> (r: Vec<(String, bool)>)
    ensures
        flags_view(r@) == api_flags(root@),
{
    let mut r: Vec<(String, bool)> = Vec::new();
    let holiday = match root {
        JsonNode::Object(m) => find_member(m, "holiday"),
        _ => None,
    };
    let t = match holiday {
        Some(t) => t,
        None => {
            assert(flags_view(r@) =~= Seq::empty());
            return r;
        },
    };
    let days = match parse_json_node(t.as_str()) {
        Ok(JsonNode::Object(days)) => days,
        _ => {
            assert(flags_view(r@) =~= Seq::empty());
            return r;
        },
    };
    let ghost want = members_view(days@).map_values(
        |d: (Seq<char>, Seq<char>)| (d.0, info_flag(d.1)),
    );
    for i in 0..days.len()
        invariant
            want == members_view(days@).map_values(
                |d: (Seq<char>, Seq<char>)| (d.0, info_flag(d.1)),
            ),
            flags_view(r@) =~= want.take(i as int),
            r@.len() == i,
    {
        let flag = match parse_json_node(days[i].1.as_str()) {
            Ok(node) => member_is_true(&node, "holiday"),
            Err(_) => false,
        };
        assert(flag == info_flag(days@[i as int].1@));
        assert(want[i as int] == (days@[i as int].0@, info_flag(days@[i as int].1@)));
        let ghost before = r@;
        r.push((days[i].0.clone(), flag));
        assert(flags_view(r@) =~= flags_view(before).push(want[i as int]));
        assert(flags_view(r@) =~= want.take(i + 1));
    }
    assert(want.take(days.len() as int) =~= want);
    r
}


// ---------------------------------------------------------------------------------------
// Deciding whether a date is a holiday
// ---------------------------------------------------------------------------------------

/// What the caller reports of the request to the holiday API.
pub enum FetchOutcome {
    /// The body of the answer.
    Body(String),
    /// The request failed, with this error text.
    RequestFailed(String),
    /// The answer's body could not be read, with this error text.
    ReadFailed(String),
}

/// What the caller is to do next for a holiday check.
pub enum HolidayAction {
    /// Request `url`; answer with `HolidayEvent::Fetched`.
    Fetch { url: String },
    /// Store the setting `key` as `value`; answer with `HolidayEvent::Saved`.
    SaveSetting { key: String, value: String },
    /// The check has ended: whether the date is a holiday, the holiday list now cached,
    /// where the answer came from (`cache` or `api`) and the year of the cached list; or
    /// an error text.
    Done(Result<(bool, String, String, i32), String>),
}

/// What the caller reports back after doing a `HolidayAction`.
pub enum HolidayEvent {
    Fetched(FetchOutcome),
    /// The outcome of storing a setting: the error text the caller gives its failure.
    Saved(Result<(), String>),
}

/// Where a holiday check stands.
pub enum HolidayStage {
    AwaitFetch,
    /// The list, written as JSON, is being stored.
    AwaitCacheSaved(String),
    /// The list's year is being stored.
    AwaitYearSaved(String),
    Finished,
}

/// The holiday check of one date, as a machine that the caller drives.
pub struct HolidayCheck {
    /// The date written `YYYY-MM-DD`.
    pub date_text: String,
    /// The year of the date.
    pub year: i32,
    pub stage: HolidayStage,
}

/// The outcome of a holiday check as plain values.
pub open spec fn holiday_result_view(r: Result<(bool, String, String, i32), String>) -> Result<
    (bool, Seq<char>, Seq<char>, int),
    Seq<char>,
> {
    match r {
        Ok(t) => Ok((t.0, t.1@, t.2@, t.3 as int)),
        Err(e) => Err(e@),
    }
}

/// Whether `a` ends the check with this outcome.
pub open spec fn holiday_done(a: HolidayAction, outcome: Result<
    (bool, Seq<char>, Seq<char>, int),
    Seq<char>,
>) -> bool {
    a matches HolidayAction::Done(r) && holiday_result_view(r) == outcome
}

/// The address of the holiday API for `year`.
pub open spec fn holiday_api_url(year: int) -> Seq<char> {
    "https://timor.tech/api/holiday/year/"@ + decimal_text(year)
}

/// Whether the date written `date_text` is marked a holiday in the list written as `list`
/// (`false` where the list does not parse).
pub open spec fn list_says_holiday(list: Seq<char>, date_text: Seq<char>) -> bool {
    match json_parse(list) {
        Ok(node) => member_flag(node, date_text),
        Err(_) => false,
    }
}

/// The date of a holiday question, written `YYYY-MM-DD`; a text that is no such date is
/// refused with `日期格式错误: ` and the parse error.
pub fn parse_holiday_date(text: &str) -> (r: Result<Date, String>)
    ensures
        r matches Ok(d) ==> parsed_iso_date(text@) == Ok::<int, Seq<char>>(d@),
        r matches Err(m) ==> parsed_iso_date(text@) matches Err(e) && m@ == "日期格式错误: "@ + e,
{
    match Date::parse_ymd(text) {
        Ok(d) => Ok(d),
        Err(e) => Err(join_text("日期格式错误: ", e.as_str())),
    }
}

/// The inputs of a holiday check from the settings as read: the cached list (empty where
/// it could not be read), and its year (0 where it could not be read or does not parse).
pub fn holiday_inputs(cache: &Option<String>, cache_year: &Option<String>) -> (r: (String, i32))
    ensures
        r.0@ == match opt_string_view(*cache) {
            Some(t) => t,
            None => Seq::empty(),
        },
        r.1 == match opt_string_view(*cache_year) {
            Some(t) => match parsed_i32(t) {
                Some(v) => v,
                None => 0,
            },
            None => 0,
        },
{
    let c = match cache {
        Some(t) => t.clone(),
        None => String::new(),
    };
    let y = match cache_year {
        Some(t) => match parse_i32(t.as_str()) {
            Some(v) => v,
            None => 0,
        },
        None => 0,
    };
    (c, y)
}

/// The cached list serves only dates of its own year: a list of another year, earlier or
/// later, never answers; an empty text or the empty list `{}` never answers; any other
/// list answers every date of its year.
pub proof fn lemma_cache_serves_only_its_year(cache: Seq<char>, cache_year: int, year: int)
    ensures
        cache_serves(cache, cache_year, year) ==> cache_year == year,
        cache_year != year ==> !cache_serves(cache, cache_year, year),
        cache_year == year && cache.len() > 0 && cache != seq!['{', '}'] ==> cache_serves(
            cache,
            cache_year,
            year,
        ),
        cache.len() == 0 || cache == seq!['{', '}'] ==> !cache_serves(cache, cache_year, year),
{
}

/// What the API answered is what the cache answers later. A check that holds the list it
/// fetched for its date (`step` has stored the list and is storing its year) ends with the
/// list's answer for the date, the list, source `api` and its year. Once list and year
/// are stored, a check of the same date started with them as the cache is served by the
/// cache at once, and the cache gives the same answer for the date. An empty list (`{}`)
/// does not serve as a cache, so there the API is asked again.
pub proof fn lemma_cache_answers_like_the_api(check: HolidayCheck, list: Seq<char>)
    requires
        check.wf(),
        check.stage matches HolidayStage::AwaitYearSaved(l) && l@ == list,
        list != seq!['{', '}'],
    ensures
        cache_serves(list, check.year as int, check.year as int),
        cache_lookup(list, check.date_text@) == Ok::<bool, Seq<char>>(
            list_says_holiday(list, check.date_text@),
        ),
{
}

impl HolidayCheck {
    /// Whether the check is well formed: a holiday list that it holds, fetched from the
    /// API, is not empty and parses as JSON.
    pub open spec fn wf(self) -> bool {
        match self.stage {
            HolidayStage::AwaitCacheSaved(list) => list@.len() > 0 && json_parse(list@) is Ok,
            HolidayStage::AwaitYearSaved(list) => list@.len() > 0 && json_parse(list@) is Ok,
            _ => true,
        }
    }

    /// Whether `event` answers the action that the check is waiting on.
    pub open spec fn accepts(self, event: HolidayEvent) -> bool {
        match self.stage {
            HolidayStage::AwaitFetch => event is Fetched,
            HolidayStage::AwaitCacheSaved(_) => event is Saved,
            HolidayStage::AwaitYearSaved(_) => event is Saved,
            HolidayStage::Finished => false,
        }
    }

    /// Whether `event` answers the action that the check is waiting on.
    pub fn accepts_event(&self, event: &HolidayEvent) -> (r: bool)
        ensures
            r == self.accepts(*event),
    {
        match &self.stage {
            HolidayStage::AwaitFetch => matches!(event, HolidayEvent::Fetched(_)),
            HolidayStage::AwaitCacheSaved(_) => matches!(event, HolidayEvent::Saved(_)),
            HolidayStage::AwaitYearSaved(_) => matches!(event, HolidayEvent::Saved(_)),
            HolidayStage::Finished => false,
        }
    }

    /// Starts the check of `date` with the cached list `cache` of the year `cache_year`.
    /// Where the cache serves the date's year, the answer comes from it at once (source
    /// `cache`, the cache and its year unchanged), or the cache's parse error; else the
    /// holiday API is asked for the year's list.
    pub fn start(date: Date, cache: &str, cache_year: i32) -> (r: (HolidayCheck, HolidayAction))
        ensures
            r.0.wf(),
            r.0.date_text@ == iso_date_text(date@),
            r.0.year == year_of_day(date@),
            cache_serves(cache@, cache_year as int, year_of_day(date@)) ==> match cache_lookup(
                cache@,
                iso_date_text(date@),
            ) {
                Ok(b) => holiday_done(r.1, Ok((b, cache@, "cache"@, cache_year as int))),
                Err(e) => holiday_done(r.1, Err(e)),
            } && r.0.stage is Finished,
            !cache_serves(cache@, cache_year as int, year_of_day(date@)) ==> {
                &&& r.1 matches HolidayAction::Fetch { url }
                &&& url@ == holiday_api_url(year_of_day(date@))
                &&& r.0.stage is AwaitFetch
            },
    {
        let date_text = date.format_ymd();
        let year = date.year();
        if cache_serves_year(cache, cache_year, year) {
            let done = match lookup_cached_holiday(cache, date_text.as_str()) {
                Ok(b) => Ok((b, cache.to_owned(), "cache".to_owned(), cache_year)),
                Err(e) => Err(e),
            };
            (HolidayCheck { date_text, year, stage: HolidayStage::Finished }, HolidayAction::Done(done))
        } else {
            let url = join_text("https://timor.tech/api/holiday/year/", i32_to_text(year).as_str());
            (HolidayCheck { date_text, year, stage: HolidayStage::AwaitFetch }, HolidayAction::Fetch { url })
        }
    }

    /// Takes the caller's report on the last action and gives the next action:
    /// - after the request: a failed request ends the check with `节假日 API 请求失败: `
    ///   and the error, an unreadable or unparsable answer with `节假日 API 解析失败: `
    ///   and the error; else the answer's holiday flags, written as a JSON object, are
    ///   stored as the setting `holiday_cache`;
    /// - after storing a setting: a failure ends the check with its error; after the list,
    ///   the year is stored as `holiday_cache_year`; after the year, the check ends with
    ///   what the new list says of the date, the list, source `api` and the year.
    pub fn step(self, event: HolidayEvent) -> (r: (HolidayCheck, HolidayAction))
        requires
            self.wf(),
            self.accepts(event),
        ensures
            r.0.wf(),
            r.0.date_text@ == self.date_text@,
            r.0.year == self.year,
            r.1 is Done <==> r.0.stage is Finished,
            event matches HolidayEvent::Fetched(f) ==> match f {
                FetchOutcome::RequestFailed(e) => holiday_done(
                    r.1,
                    Err("节假日 API 请求失败: "@ + e@),
                ),
                FetchOutcome::ReadFailed(e) => holiday_done(r.1, Err("节假日 API 解析失败: "@ + e@)),
                FetchOutcome::Body(t) => match json_parse(t@) {
                    Err(e) => holiday_done(r.1, Err("节假日 API 解析失败: "@ + e)),
                    Ok(root) => {
                        &&& r.1 matches HolidayAction::SaveSetting { key, value }
                        &&& key@ == "holiday_cache"@
                        &&& value@ == json_bool_object_text(api_flags(root))
                        &&& r.0.stage matches HolidayStage::AwaitCacheSaved(list)
                        &&& list@ == value@
                    },
                },
            },
            event matches HolidayEvent::Saved(res) ==> match res {
                Err(e) => holiday_done(r.1, Err(e@)),
                Ok(()) => match self.stage {
                    HolidayStage::AwaitCacheSaved(list) => {
                        &&& r.1 matches HolidayAction::SaveSetting { key, value }
                        &&& key@ == "holiday_cache_year"@
                        &&& value@ == decimal_text(self.year as int)
                        &&& r.0.stage matches HolidayStage::AwaitYearSaved(l)
                        &&& l@ == list@
                    },
                    HolidayStage::AwaitYearSaved(list) => holiday_done(
                        r.1,
                        Ok(
                            (
                                list_says_holiday(list@, self.date_text@),
                                list@,
                                "api"@,
                                self.year as int,
                            ),
                        ),
                    ) && json_parse(list@) is Ok,
                    _ => true,
                },
            },
    {
        let HolidayCheck { date_text, year, stage } = self;
        match event {
            HolidayEvent::Fetched(f) => match f {
                FetchOutcome::RequestFailed(e) => (
                    HolidayCheck { date_text, year, stage: HolidayStage::Finished },
                    HolidayAction::Done(Err(join_text("节假日 API 请求失败: ", e.as_str()))),
                ),
                FetchOutcome::ReadFailed(e) => (
                    HolidayCheck { date_text, year, stage: HolidayStage::Finished },
                    HolidayAction::Done(Err(join_text("节假日 API 解析失败: ", e.as_str()))),
                ),
                FetchOutcome::Body(t) => match parse_json_node(t.as_str()) {
                    Err(e) => (
                        HolidayCheck { date_text, year, stage: HolidayStage::Finished },
                        HolidayAction::Done(Err(join_text("节假日 API 解析失败: ", e.as_str()))),
                    ),
                    Ok(root) => {
                        let flags = holiday_flags(&root);
                        let list = bool_object_json(&flags);
                        let value = list.clone();
                        (
                            HolidayCheck {
                                date_text,
                                year,
                                stage: HolidayStage::AwaitCacheSaved(list),
                            },
                            HolidayAction::SaveSetting { key: "holiday_cache".to_owned(), value },
                        )
                    },
                },
            },
            HolidayEvent::Saved(res) => match res {
                Err(e) => (
                    HolidayCheck { date_text, year, stage: HolidayStage::Finished },
                    HolidayAction::Done(Err(e)),
                ),
                Ok(()) => match stage {
                    HolidayStage::AwaitCacheSaved(list) => (
                        HolidayCheck { date_text, year, stage: HolidayStage::AwaitYearSaved(list) },
                        HolidayAction::SaveSetting {
                            key: "holiday_cache_year".to_owned(),
                            value: i32_to_text(year),
                        },
                    ),
                    HolidayStage::AwaitYearSaved(list) => {
                        let is_holiday = match parse_json_node(list.as_str()) {
                            Ok(node) => member_is_true(&node, date_text.as_str()),
                            Err(_) => false,
                        };
                        (
                            HolidayCheck { date_text, year, stage: HolidayStage::Finished },
                            HolidayAction::Done(Ok((is_holiday, list, "api".to_owned(), year))),
                        )
                    },
                    _ => (
                        HolidayCheck { date_text, year, stage: HolidayStage::Finished },
                        HolidayAction::Done(Ok((false, String::new(), String::new(), year))),
                    ),
                },
            },
        }
    }
}

} // verus!
