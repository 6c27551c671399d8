//! The records that the library reads and writes: people on the duty list, duty records,
//! mail log entries, settings and holidays.
use vstd::prelude::*;

verus! {

/// A person on the duty list.
#[derive(Clone, Debug)]
pub struct Personnel {
    pub id: Option<i64>,
    pub name: String,
    pub email: String,
    /// The position in the duty order.
    pub sort_order: i32,
    /// 1 where the person takes turns, 0 where the person is skipped.
    pub active: i32,
    pub created_at: Option<String>,
}

/// A duty record: who is on duty on which date, and whether the notice went out.
#[derive(Clone, Debug)]
pub struct Schedule {
    pub id: Option<i64>,
    pub person_id: i64,
    pub person_name: Option<String>,
    /// The duty date, written `YYYY-MM-DD`.
    pub duty_date: String,
    pub is_holiday: i32,
    /// 1 where the notice was sent.
    pub notified: i32,
    pub notified_at: Option<String>,
    pub created_at: Option<String>,
}

/// An entry of the mail log.
#[derive(Clone, Debug)]
pub struct EmailLog {
    pub id: Option<i64>,
    pub schedule_id: i64,
    pub recipient: String,
    pub subject: String,
    /// `success` or `failed`.
    pub status: String,
    pub error_msg: Option<String>,
    pub sent_at: Option<String>,
}

/// A setting: a key and its value.
#[derive(Clone, Debug)]
pub struct Setting {
    pub key: String,
    pub value: String,
}

/// A public holiday.
#[derive(Clone, Debug)]
pub struct HolidayInfo {
    pub date: String,
    pub name: String,
    pub is_holiday: bool,
}

/// The text of an optional string.
pub open spec fn opt_string_view(o: Option<String>) -> Option<Seq<char>> {
    match o {
        Some(s) => Some(s@),
        None => None,
    }
}

/// A copy of an optional string.
pub fn copy_opt_string(o: &Option<String>) -> (r: Option<String>)
    ensures
        r == *o,
{
    match o {
        Some(s) => Some(s.clone()),
        None => None,
    }
}

impl Personnel {
    /// A copy of the record.
    pub fn duplicate(&self) -> (r: Personnel)
        ensures
            r == *self,
    {
        Personnel {
            id: self.id,
            name: self.name.clone(),
            email: self.email.clone(),
            sort_order: self.sort_order,
            active: self.active,
            created_at: copy_opt_string(&self.created_at),
        }
    }
}

} // verus!
