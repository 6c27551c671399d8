use niumaren::email::{compose_draft, compose_email, replace_template_vars, SmtpConfig, SmtpSettings};

#[test]
fn test_replace_template_vars() {
    let template = "Hi {姓名}，{日期} {星期} 值班，下一位是{下一位姓名}";
    let result = replace_template_vars(
        template, "张三", "zhang@test.com",
        "2026-06-14", "星期日",
        Some("李四"), Some("2026-06-20")
    );
    assert_eq!(result, "Hi 张三，2026-06-14 星期日 值班，下一位是李四");
}

#[test]
fn test_replace_without_next_person() {
    let template = "下一位：{下一位姓名}";
    let result = replace_template_vars(
        template, "张三", "z@t.com",
        "2026-06-14", "周六", None, None
    );
    assert_eq!(result, "下一位：无");
}

#[test]
fn every_variable_is_replaced() {
    let template = "{姓名}|{邮箱}|{日期}|{星期}|{下一位姓名}|{下一位日期}|{姓名}";
    let result = replace_template_vars(
        template, "张三", "z@t.com", "2026-06-13", "星期六", Some("李四"), Some("2026-06-14"),
    );
    assert_eq!(result, "张三|z@t.com|2026-06-13|星期六|李四|2026-06-14|张三");
}

#[test]
fn missing_next_date_reads_none() {
    let result = replace_template_vars("{下一位日期}", "a", "b", "c", "d", Some("e"), None);
    assert_eq!(result, "无");
}

#[test]
fn template_without_variables_is_unchanged() {
    let template = "本周末无变量 {名字} {日期 }";
    let result = replace_template_vars(template, "x", "y", "z", "w", None, None);
    assert_eq!(result, template);
}

#[test]
fn replacement_scans_left_to_right_without_overlap() {
    // The inserted name is not scanned again, and variables are filled in order.
    let result = replace_template_vars("{姓名}{{姓名}}", "{邮箱}", "mail", "d", "w", None, None);
    assert_eq!(result, "mail{mail}");
    assert_eq!(result, "{姓名}{{姓名}}".replace("{姓名}", "{邮箱}").replace("{邮箱}", "mail"));
}

#[test]
fn replacement_agrees_with_str_replace() {
    let cases = ["", "{", "{姓名", "姓名}", "{{姓名}}}", "a{日期}b{星期}c{下一位日期}{下一位姓名}"];
    for t in cases {
        let expected = t
            .replace("{姓名}", "N")
            .replace("{邮箱}", "E")
            .replace("{日期}", "D")
            .replace("{星期}", "W")
            .replace("{下一位姓名}", "无")
            .replace("{下一位日期}", "无");
        assert_eq!(replace_template_vars(t, "N", "E", "D", "W", None, None), expected);
    }
}

fn settings(host: Option<&str>, port: Option<&str>, tls: Option<&str>, sender: Option<&str>) -> SmtpSettings {
    SmtpSettings {
        host: host.map(|s| s.to_string()),
        port: port.map(|s| s.to_string()),
        username: Some("duty@example.com".to_string()),
        password: Some("secret".to_string()),
        use_tls: tls.map(|s| s.to_string()),
        sender_name: sender.map(|s| s.to_string()),
    }
}

#[test]
fn smtp_config_reads_settings() {
    let c = SmtpConfig::from_settings(&settings(Some("smtp.qq.com"), Some("587"), Some("false"), Some("值班")));
    assert_eq!(c.host, "smtp.qq.com");
    assert_eq!(c.port, 587);
    assert!(!c.use_tls);
    assert_eq!(c.sender_name, "值班");
    assert_eq!(c.username, "duty@example.com");
    assert_eq!(c.password, "secret");
}

#[test]
fn smtp_config_defaults() {
    let c = SmtpConfig::from_settings(&settings(None, None, None, None));
    assert_eq!(c.host, "");
    assert_eq!(c.port, 465);
    assert!(c.use_tls);
    assert_eq!(c.sender_name, "值班系统");
    let c = SmtpConfig::from_settings(&settings(Some("h"), Some("70000"), Some("yes"), None));
    assert_eq!(c.port, 465);
    assert!(c.use_tls);
    let c = SmtpConfig::from_settings(&settings(Some("h"), Some("+25"), Some("true"), None));
    assert_eq!(c.port, 25);
}

fn config(username: &str) -> SmtpConfig {
    SmtpConfig {
        host: "smtp.example.com".to_string(),
        port: 465,
        username: username.to_string(),
        password: "p".to_string(),
        use_tls: true,
        sender_name: "值班系统".to_string(),
    }
}

#[test]
fn compose_email_builds_a_message() {
    let m = compose_email(&config("duty@example.com"), "zhang@example.com", "张三", "主题", "正文");
    assert!(m.is_ok());
}

#[test]
fn compose_email_rejects_a_bad_sender() {
    let m = compose_email(&config("not-an-address"), "zhang@example.com", "张三", "s", "b");
    match m {
        Err(e) => assert!(e.starts_with("发件人格式错误: ")),
        Ok(_) => panic!("a sender without an address was accepted"),
    }
}

#[test]
fn compose_email_rejects_a_bad_recipient() {
    let m = compose_email(&config("duty@example.com"), "nobody", "张三", "s", "b");
    match m {
        Err(e) => assert!(e.starts_with("收件人格式错误: ")),
        Ok(_) => panic!("a recipient without an address was accepted"),
    }
}

#[test]
fn draft_holds_the_mail() {
    let d = compose_draft(&config("duty@example.com"), "zhang@example.com", "张三", "主题", "正文");
    assert_eq!(d.from, "值班系统 <duty@example.com>");
    assert_eq!(d.to, "张三 <zhang@example.com>");
    assert_eq!(d.subject, "主题");
    assert_eq!(d.body, "正文");
}

#[test]
fn composed_message_carries_the_draft() {
    let m = compose_email(&config("duty@example.com"), "zhang@example.com", "Zhang", "Duty", "Body text").unwrap();
    let text = String::from_utf8(m.formatted()).unwrap();
    assert!(text.contains("From: "));
    assert!(text.contains("<duty@example.com>"));
    assert!(text.contains("To: Zhang <zhang@example.com>"));
    assert!(text.contains("Subject: Duty"));
    assert!(text.contains("Content-Type: text/plain"));
    assert!(text.contains("Body text"));
}

#[test]
fn text_before_the_first_brace_is_kept() {
    let tail = "{姓名} 值班 {日期}";
    let filled_tail = replace_template_vars(tail, "张三", "z@x.com", "2026-06-13", "星期六", None, None);
    let whole = replace_template_vars(
        &format!("通知：{}", tail), "张三", "z@x.com", "2026-06-13", "星期六", None, None,
    );
    assert_eq!(whole, format!("通知：{}", filled_tail));
    assert_eq!(whole, "通知：张三 值班 2026-06-13");
}

#[test]
fn body_lines_end_with_crlf() {
    let m = compose_email(&config("duty@example.com"), "zhang@example.com", "Zhang", "Duty", "line one\nline two").unwrap();
    let text = String::from_utf8(m.formatted()).unwrap();
    assert!(text.contains("line one\r\nline two"));
    assert!(!text.contains("line one\nline two"));
}
