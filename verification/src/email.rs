//! Notification e-mails: the template variables and their replacement.
use vstd::prelude::*;
use crate::models::opt_string_view;
use lettre::message::header::ContentType;
use lettre::message::Mailbox;
use lettre::Message;
use crate::text::{
    chars_of, lemma_replace_absent, lemma_replace_after_prefix, occurs_in, parse_bool, parse_u16, parsed_bool, parsed_u16,
    replace_all, replace_chars, string_of, join_text,
};

verus! {

/// `{姓名}`: the name of the person on duty.
pub open spec fn name_key() -> Seq<char> {
    seq!['{', '姓', '名', '}']
}

/// `{邮箱}`: the e-mail address of the person on duty.
pub open spec fn email_key() -> Seq<char> {
    seq!['{', '邮', '箱', '}']
}

/// `{日期}`: the duty date.
pub open spec fn date_key() -> Seq<char> {
    seq!['{', '日', '期', '}']
}

/// `{星期}`: the day of the week of the duty date.
pub open spec fn weekday_key() -> Seq<char> {
    seq!['{', '星', '期', '}']
}

/// `{下一位姓名}`: the name of the next person on duty.
pub open spec fn next_name_key() -> Seq<char> {
    seq!['{', '下', '一', '位', '姓', '名', '}']
}

/// `{下一位日期}`: the next duty date.
pub open spec fn next_date_key() -> Seq<char> {
    seq!['{', '下', '一', '位', '日', '期', '}']
}

/// `无` ("none"): what stands for a next person or date that is not known.
pub open spec fn none_text() -> Seq<char> {
    seq!['无']
}

/// The text of an optional string slice.
pub open spec fn opt_str_view(o: Option<&str>) -> Option<Seq<char>> {
    match o {
        Some(s) => Some(s@),
        None => None,
    }
}

/// The value that stands for an optional variable: the value itself, or `无`.
pub open spec fn or_none(o: Option<Seq<char>>) -> Seq<char> {
    match o {
        Some(s) => s,
        None => none_text(),
    }
}

/// The template with its six variables replaced, one variable after the other, in the
/// order `{姓名}`, `{邮箱}`, `{日期}`, `{星期}`, `{下一位姓名}`, `{下一位日期}`.
pub open spec fn filled_template(
    template: Seq<char>,
    name: Seq<char>,
    email: Seq<char>,
    date: Seq<char>,
    day_of_week: Seq<char>,
    next_name: Option<Seq<char>>,
    next_date: Option<Seq<char>>,
) -> Seq<char> {
    let s1 = replace_all(template, name_key(), name);
    let s2 = replace_all(s1, email_key(), email);
    let s3 = replace_all(s2, date_key(), date);
    let s4 = replace_all(s3, weekday_key(), day_of_week);
    let s5 = replace_all(s4, next_name_key(), or_none(next_name));
    replace_all(s5, next_date_key(), or_none(next_date))
}

/// Whether any of the six variables stands in `s`.
pub open spec fn holds_a_variable(s: Seq<char>) -> bool {
    ||| occurs_in(s, name_key())
    ||| occurs_in(s, email_key())
    ||| occurs_in(s, date_key())
    ||| occurs_in(s, weekday_key())
    ||| occurs_in(s, next_name_key())
    ||| occurs_in(s, next_date_key())
}

fn key_chars(k: u8) -> (r: Vec<char>)
    requires
        k < 6,
    ensures
        k == 0 ==> r@ == name_key(),
        k == 1 ==> r@ == email_key(),
        k == 2 ==> r@ == date_key(),
        k == 3 ==> r@ == weekday_key(),
        k == 4 ==> r@ == next_name_key(),
        k == 5 ==> r@ == next_date_key(),
{
    if k == 0 {
        vec!['{', '姓', '名', '}']
    } else if k == 1 {
        vec!['{', '邮', '箱', '}']
    } else if k == 2 {
        vec!['{', '日', '期', '}']
    } else if k == 3 {
        vec!['{', '星', '期', '}']
    } else if k == 4 {
        vec!['{', '下', '一', '位', '姓', '名', '}']
    } else {
        vec!['{', '下', '一', '位', '日', '期', '}']
    }
}

fn value_or_none(o: Option<&str>) -> (r: Vec<char>)
    ensures
        r@ == or_none(opt_str_view(o)),
{
    match o {
        Some(s) => chars_of(s),
        None => vec!['无'],
    }
}

/// Fills a mail template: each of the variables `{姓名}`, `{邮箱}`, `{日期}`, `{星期}`,
/// `{下一位姓名}` and `{下一位日期}` is replaced by its value, in that order; a next person
/// or next date that is not given stands as `无`.
pub fn replace_template_vars(
    template: &str,
    name: &str,
    email: &str,
    date: &str,
    day_of_week: &str,
    next_name: Option<&str>,
    next_date: Option<&str>,
) -> (r: String)
    ensures
        r@ == filled_template(
            template@,
            name@,
            email@,
            date@,
            day_of_week@,
            opt_str_view(next_name),
            opt_str_view(next_date),
        ),
{
    let t = chars_of(template);
    let s1 = replace_chars(&t, &key_chars(0), &chars_of(name));
    let s2 = replace_chars(&s1, &key_chars(1), &chars_of(email));
    let s3 = replace_chars(&s2, &key_chars(2), &chars_of(date));
    let s4 = replace_chars(&s3, &key_chars(3), &chars_of(day_of_week));
    let s5 = replace_chars(&s4, &key_chars(4), &value_or_none(next_name));
    let s6 = replace_chars(&s5, &key_chars(5), &value_or_none(next_date));
    string_of(&s6)
}

/// A template in which no variable stands comes out of the replacement unchanged,
/// whatever the values.
pub proof fn lemma_template_without_variables(
    template: Seq<char>,
    name: Seq<char>,
    email: Seq<char>,
    date: Seq<char>,
    day_of_week: Seq<char>,
    next_name: Option<Seq<char>>,
    next_date: Option<Seq<char>>,
)
    requires
        !holds_a_variable(template),
    ensures
        filled_template(template, name, email, date, day_of_week, next_name, next_date)
            == template,
{
    lemma_replace_absent(template, name_key(), name);
    lemma_replace_absent(template, email_key(), email);
    lemma_replace_absent(template, date_key(), date);
    lemma_replace_absent(template, weekday_key(), day_of_week);
    lemma_replace_absent(template, next_name_key(), or_none(next_name));
    lemma_replace_absent(template, next_date_key(), or_none(next_date));
}


/// Text before the first `{` is left alone: filling `prefix + template`, where the prefix
/// holds no `{`, gives the prefix followed by the filled template.
pub proof fn lemma_template_prefix_kept(
    prefix: Seq<char>,
    template: Seq<char>,
    name: Seq<char>,
    email: Seq<char>,
    date: Seq<char>,
    day_of_week: Seq<char>,
    next_name: Option<Seq<char>>,
    next_date: Option<Seq<char>>,
)
    requires
        forall|i: int| 0 <= i < prefix.len() ==> prefix[i] != '{',
    ensures
        filled_template(prefix + template, name, email, date, day_of_week, next_name, next_date)
            == prefix + filled_template(
            template,
            name,
            email,
            date,
            day_of_week,
            next_name,
            next_date,
        ),
{
    let s1 = replace_all(template, name_key(), name);
    let s2 = replace_all(s1, email_key(), email);
    let s3 = replace_all(s2, date_key(), date);
    let s4 = replace_all(s3, weekday_key(), day_of_week);
    let s5 = replace_all(s4, next_name_key(), or_none(next_name));
    lemma_replace_after_prefix(prefix, template, name_key(), name);
    lemma_replace_after_prefix(prefix, s1, email_key(), email);
    lemma_replace_after_prefix(prefix, s2, date_key(), date);
    lemma_replace_after_prefix(prefix, s3, weekday_key(), day_of_week);
    lemma_replace_after_prefix(prefix, s4, next_name_key(), or_none(next_name));
    lemma_replace_after_prefix(prefix, s5, next_date_key(), or_none(next_date));
}

/// How to reach the SMTP server and whom the mail is from.
pub struct SmtpConfig {
    pub host: String,
    pub port: u16,
    pub username: String,
    pub password: String,
    /// Implicit TLS where `true`, STARTTLS where `false`.
    pub use_tls: bool,
    pub sender_name: String,
}

/// The SMTP settings as read from the store, each `None` where it could not be read.
pub struct SmtpSettings {
    pub host: Option<String>,
    pub port: Option<String>,
    pub username: Option<String>,
    pub password: Option<String>,
    pub use_tls: Option<String>,
    pub sender_name: Option<String>,
}

/// The text of a setting, or the empty text where it could not be read.
pub open spec fn or_empty(o: Option<Seq<char>>) -> Seq<char> {
    match o {
        Some(t) => t,
        None => Seq::empty(),
    }
}

/// The SMTP port of a setting: the number it writes, else 465.
pub open spec fn port_setting(o: Option<Seq<char>>) -> u16 {
    match o {
        Some(t) => match parsed_u16(t) {
            Some(p) => p,
            None => 465,
        },
        None => 465,
    }
}

/// Whether a setting asks for implicit TLS: `false` only for the text `false`.
pub open spec fn tls_setting(o: Option<Seq<char>>) -> bool {
    match o {
        Some(t) => match parsed_bool(t) {
            Some(b) => b,
            None => true,
        },
        None => true,
    }
}

/// The sender name of a setting, or `值班系统` where it could not be read.
pub open spec fn sender_setting(o: Option<Seq<char>>) -> Seq<char> {
    match o {
        Some(t) => t,
        None => "值班系统"@,
    }
}

fn string_or_empty(o: &Option<String>) -> (r: String)
    ensures
        r@ == or_empty(opt_string_view(*o)),
{
    match o {
        Some(t) => t.clone(),
        None => String::new(),
    }
}

/// Whether `c` is the configuration that the settings `s` give.
pub open spec fn is_config_of(c: SmtpConfig, s: SmtpSettings) -> bool {
    &&& c.host@ == or_empty(opt_string_view(s.host))
    &&& c.port == port_setting(opt_string_view(s.port))
    &&& c.username@ == or_empty(opt_string_view(s.username))
    &&& c.password@ == or_empty(opt_string_view(s.password))
    &&& c.use_tls == tls_setting(opt_string_view(s.use_tls))
    &&& c.sender_name@ == sender_setting(opt_string_view(s.sender_name))
}

impl SmtpConfig {
    /// The configuration that the settings give, with a default for each setting that
    /// could not be read or does not parse: no host, port 465, no user name or password,
    /// implicit TLS, and the sender name `值班系统`.
    pub fn from_settings(s: &SmtpSettings) -> (r: SmtpConfig)
        ensures
            r.host@ == or_empty(opt_string_view(s.host)),
            r.port == port_setting(opt_string_view(s.port)),
            r.username@ == or_empty(opt_string_view(s.username)),
            r.password@ == or_empty(opt_string_view(s.password)),
            r.use_tls == tls_setting(opt_string_view(s.use_tls)),
            r.sender_name@ == sender_setting(opt_string_view(s.sender_name)),
            is_config_of(r, *s),
    {
        let port = match &s.port {
            Some(t) => match parse_u16(t.as_str()) {
                Some(p) => p,
                None => 465,
            },
            None => 465,
        };
        let use_tls = match &s.use_tls {
            Some(t) => match parse_bool(t.as_str()) {
                Some(b) => b,
                None => true,
            },
            None => true,
        };
        let sender_name = match &s.sender_name {
            Some(t) => t.clone(),
            None => "值班系统".to_owned(),
        };
        SmtpConfig {
            host: string_or_empty(&s.host),
            port,
            username: string_or_empty(&s.username),
            password: string_or_empty(&s.password),
            use_tls,
            sender_name,
        }
    }
}


// ---------------------------------------------------------------------------------------
// Composing a notification mail
// ---------------------------------------------------------------------------------------

/// A mailbox of `lettre`: a display name and an address.
#[verifier::external_type_specification]
#[verifier::external_body]
pub struct ExMailbox(Mailbox);

/// A mail message of `lettre`, ready to send.
#[verifier::external_type_specification]
#[verifier::external_body]
pub struct ExMessage(Message);

/// A mailbox as plain values: its display name, if it has one, and its address
/// (`user@domain`).
pub struct MailboxView {
    pub name: Option<Seq<char>>,
    pub address: Seq<char>,
}

/// What `str::parse::<lettre::message::Mailbox>` makes of `text`: the mailbox read, or
/// the text of the parse error.
pub uninterp spec fn mailbox_parse(text: Seq<char>) -> Result<MailboxView, Seq<char>>;

/// What a plain-text mail of `lettre` holds: the one mailbox of its `From` header, the
/// one mailbox of its `To` header, its `Subject`, its body text (as it reads before the
/// transfer encoding) and its `Content-Type`.
pub struct MailView {
    pub from: MailboxView,
    pub to: MailboxView,
    pub subject: Seq<char>,
    pub body: Seq<char>,
    pub content_type: Seq<char>,
}

/// What the `lettre::Message` `m` holds, as a `MailView`.
pub uninterp spec fn message_content(m: Message) -> MailView;

/// `s` with a carriage return put before each line feed that does not already follow
/// one: the line endings that a mail body gets.
pub open spec fn crlf_lines(s: Seq<char>) -> Seq<char>
    decreases s.len(),
{
    if s.len() == 0 {
        s
    } else {
        let init = s.drop_last();
        if s.last() == '\n' && (init.len() == 0 || init.last() != '\r') {
            crlf_lines(init) + seq!['\r', '\n']
        } else {
            crlf_lines(init).push(s.last())
        }
    }
}

/// The `Content-Type` of a plain-text mail, `ContentType::TEXT_PLAIN`.
pub open spec fn plain_text_type() -> Seq<char> {
    "text/plain; charset=utf-8"@
}

/// The mail that a draft becomes, given the sender's and the recipient's mailboxes.
pub open spec fn draft_mail(from: MailboxView, to: MailboxView, subject: Seq<char>, body: Seq<
    char,
>) -> MailView {
    MailView { from, to, subject, body: crlf_lines(body), content_type: plain_text_type() }
}

/// A plain-text mail before it is handed to `lettre`: the sender's and the recipient's
/// mailbox texts (`name <address>`), the subject and the body.
pub struct MailDraft {
    pub from: String,
    pub to: String,
    pub subject: String,
    pub body: String,
}

/// Why a draft could not become a message.
pub enum DraftFailure {
    /// The sender's text is no mailbox: the parse error's text.
    Sender(String),
    /// The recipient's text is no mailbox: the parse error's text.
    Recipient(String),
    /// The message builder refused the draft: its error's text.
    Build(String),
}

/// The outcome of turning a draft into a message: `Ok`, or which step failed (0 the
/// sender, 1 the recipient, 2 the builder) with its error text.
pub open spec fn draft_result_view(r: Result<Message, DraftFailure>) -> Result<(), (int, Seq<char>)> {
    match r {
        Ok(_) => Ok(()),
        Err(DraftFailure::Sender(m)) => Err((0, m@)),
        Err(DraftFailure::Recipient(m)) => Err((1, m@)),
        Err(DraftFailure::Build(m)) => Err((2, m@)),
    }
}

/// `draft.from.parse::<Mailbox>()` and `draft.to.parse::<Mailbox>()`, then
/// `Message::builder()` with that sender (`from`) and recipient (`to`), the draft's subject,
/// the content type `text/plain` and the draft's body, each error given by its `to_string`.
/// Claimed: each parse succeeds exactly where the name says, with the named error text
/// otherwise; with one sender and one recipient the builder always succeeds (it fails only
/// without a sender, with several senders and no `Sender` header, or without a
/// recipient). The message holds the two parsed mailboxes as `From` and `To`, the subject
/// as given, the body with its line endings made CRLF (`Body::new` on a `String`) and
/// the plain-text content type. It also carries the time it was built in its `Date`
/// header, of which nothing is stated.
#[verifier::external_body]
fn message_from_draft(draft: &MailDraft) -> (r: Result<Message, DraftFailure>)
    ensures
        draft_result_view(r) == match mailbox_parse(draft.from@) {
            Err(e) => Err((0int, e)),
            Ok(_) => match mailbox_parse(draft.to@) {
                Err(e) => Err((1int, e)),
                Ok(_) => Ok(()),
            },
        },
        r matches Ok(m) ==> {
            &&& mailbox_parse(draft.from@) matches Ok(f)
            &&& mailbox_parse(draft.to@) matches Ok(t)
            &&& message_content(m) == draft_mail(f, t, draft.subject@, draft.body@)
        },
{
    let from = draft.from.parse::<Mailbox>().map_err(|e| DraftFailure::Sender(e.to_string()))?;
    let to = draft.to.parse::<Mailbox>().map_err(|e| DraftFailure::Recipient(e.to_string()))?;
    Message::builder().from(from).to(to).subject(draft.subject.as_str()).header(
        ContentType::TEXT_PLAIN,
    ).body(draft.body.clone()).map_err(|e| DraftFailure::Build(e.to_string()))
}

/// A mailbox written `name <address>`.
pub open spec fn mailbox_text(name: Seq<char>, address: Seq<char>) -> Seq<char> {
    name + " <"@ + address + ">"@
}

/// A mailbox written `name <address>`.
pub fn mailbox_string(name: &str, address: &str) -> (r: String)
    ensures
        r@ == mailbox_text(name@, address@),
{
    let a = join_text(name, " <");
    let b = join_text(a.as_str(), address);
    join_text(b.as_str(), ">")
}

/// The sender's mailbox text of a configuration: `sender_name <username>`.
pub open spec fn sender_text(config: SmtpConfig) -> Seq<char> {
    mailbox_text(config.sender_name@, config.username@)
}

/// The draft of the mail from the configured sender (`sender_name <username>`) to
/// `to_name <to_email>`, with this subject and body.
pub fn compose_draft(
    config: &SmtpConfig,
    to_email: &str,
    to_name: &str,
    subject: &str,
    body: &str,
) -> (r: MailDraft)
    ensures
        r.from@ == sender_text(*config),
        r.to@ == mailbox_text(to_name@, to_email@),
        r.subject@ == subject@,
        r.body@ == body@,
{
    MailDraft {
        from: mailbox_string(config.sender_name.as_str(), config.username.as_str()),
        to: mailbox_string(to_name, to_email),
        subject: subject.to_owned(),
        body: body.to_owned(),
    }
}

/// The plain-text mail from the configured sender (`sender_name <username>`) to
/// `to_name <to_email>`, built from `compose_draft`'s draft. It fails with
/// `发件人格式错误: ` and the parse error where the sender is no mailbox, else with
/// `收件人格式错误: ` and the parse error where the recipient is none, and succeeds
/// otherwise, with a message from the sender's mailbox to the recipient's, with this
/// subject and this body (line endings made CRLF), as plain text.
pub fn compose_email(
    config: &SmtpConfig,
    to_email: &str,
    to_name: &str,
    subject: &str,
    body: &str,
) -> (r: Result<Message, String>)
    ensures
        mailbox_parse(sender_text(*config)) matches Err(e) ==> r matches Err(m) && m@
            == "发件人格式错误: "@ + e,
        mailbox_parse(sender_text(*config)) is Ok ==> (mailbox_parse(
            mailbox_text(to_name@, to_email@),
        ) matches Err(e) ==> r matches Err(m) && m@ == "收件人格式错误: "@ + e),
        mailbox_parse(sender_text(*config)) is Ok && mailbox_parse(
            mailbox_text(to_name@, to_email@),
        ) is Ok ==> r is Ok,
        r matches Ok(m) ==> {
            &&& mailbox_parse(sender_text(*config)) matches Ok(f)
            &&& mailbox_parse(mailbox_text(to_name@, to_email@)) matches Ok(t)
            &&& message_content(m) == draft_mail(f, t, subject@, body@)
        },
{
    let draft = compose_draft(config, to_email, to_name, subject, body);
    match message_from_draft(&draft) {
        Ok(m) => Ok(m),
        Err(DraftFailure::Sender(e)) => Err(join_text("发件人格式错误: ", e.as_str())),
        Err(DraftFailure::Recipient(e)) => Err(join_text("收件人格式错误: ", e.as_str())),
        Err(DraftFailure::Build(e)) => Err(join_text("邮件构建失败: ", e.as_str())),
    }
}

} // verus!
