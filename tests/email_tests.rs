use sentio_memory::email::{
    EmailAddress, EmailAttachment, EmailBody, EmailError, MessageId, OutgoingMessage,
};

#[test]
fn test_email_address_creation() {
    let addr = EmailAddress::new("test@example.com");
    assert_eq!(addr.email, "test@example.com");
    assert!(addr.name.is_none());

    let addr_with_name = EmailAddress::with_name("test@example.com", "Test User");
    assert_eq!(addr_with_name.email, "test@example.com");
    assert_eq!(addr_with_name.name.as_deref(), Some("Test User"));
}

#[test]
fn address_validity() {
    assert!(EmailAddress::new("test@example.com").is_valid());
    assert!(!EmailAddress::new("invalid-email").is_valid());
    assert!(!EmailAddress::new("@example.com").is_valid());
    assert!(!EmailAddress::new("user.name@").is_valid());
    assert!(!EmailAddress::new("user@localhost").is_valid());
}

fn attachment(content_type: &str, size: u64) -> EmailAttachment {
    EmailAttachment {
        filename: "file.bin".to_string(),
        content_type: content_type.to_string(),
        size,
        content_id: None,
        is_inline: false,
    }
}

#[test]
fn attachment_rules() {
    assert!(attachment("application/pdf", 10).is_safe_type());
    assert!(!attachment("application/x-msdownload", 10).is_safe_type());
    assert!(attachment("image/png", 10 * 1024 * 1024 - 1).is_reasonable_size());
    assert!(!attachment("image/png", 10 * 1024 * 1024).is_reasonable_size());
}

#[test]
fn body_display_and_emptiness() {
    let text = EmailBody::text("hello".to_string());
    assert_eq!(text.content_type, "text/plain");
    assert_eq!(text.get_display_content().map(|s| s.as_str()), Some("hello"));
    let html = EmailBody::html("<p>hi</p>".to_string());
    assert_eq!(html.content_type, "text/html");
    assert_eq!(html.get_display_content().map(|s| s.as_str()), Some("<p>hi</p>"));
    let none = EmailBody { text: None, html: None, content_type: "text/plain".to_string() };
    assert!(none.is_empty());
    assert!(!text.is_empty());
}

fn message() -> OutgoingMessage {
    OutgoingMessage::new(
        EmailAddress::with_name("test@example.com", "Test User"),
        vec![EmailAddress::new("friend@test.com")],
        "Hello".to_string(),
        EmailBody::text("body".to_string()),
    )
}

#[test]
fn message_validation() {
    assert_eq!(message().validate(), Ok(()));

    let mut no_recipient = message();
    no_recipient.to.clear();
    assert_eq!(no_recipient.validate(), Err("收件人列表不能为空".to_string()));

    let bad_cc = message().add_cc(EmailAddress::new("invalid-email"));
    assert_eq!(bad_cc.validate(), Err("无效的抄送地址: invalid-email".to_string()));

    let bad_from = OutgoingMessage::new(
        EmailAddress::new("nobody"),
        vec![EmailAddress::new("friend@test.com")],
        "Hello".to_string(),
        EmailBody::text("body".to_string()),
    );
    assert_eq!(bad_from.validate(), Err("无效的发件人地址: nobody".to_string()));

    let mut blank_subject = message();
    blank_subject.subject = "   ".to_string();
    assert_eq!(blank_subject.validate(), Err("邮件主题不能为空".to_string()));

    let unsafe_file = message().add_attachment(attachment("application/x-sh", 10));
    assert_eq!(unsafe_file.validate(), Err("不安全的附件类型: application/x-sh".to_string()));

    let big_file = message().add_attachment(attachment("image/png", 20 * 1024 * 1024));
    assert_eq!(big_file.validate(), Err("附件 file.bin 过大".to_string()));
}

#[test]
fn reply_prefixes_subject_once() {
    let reply = message().reply_to(MessageId::new("<id@test.com>".to_string()));
    assert_eq!(reply.subject, "Re: Hello");
    assert_eq!(reply.in_reply_to, Some(MessageId("<id@test.com>".to_string())));
    let again = reply.reply_to(MessageId::new("<id2@test.com>".to_string()));
    assert_eq!(again.subject, "Re: Hello");
    let mut shouting = message();
    shouting.subject = "RE: Status".to_string();
    assert_eq!(shouting.reply_to(MessageId::new("x".to_string())).subject, "RE: Status");
}

#[test]
fn headers_replace_by_name() {
    let m = message()
        .add_header("X-Tag".to_string(), "a".to_string())
        .add_header("X-Other".to_string(), "b".to_string())
        .add_header("X-Tag".to_string(), "c".to_string());
    assert_eq!(
        m.headers,
        vec![
            ("X-Tag".to_string(), "c".to_string()),
            ("X-Other".to_string(), "b".to_string())
        ]
    );
    let m = m.add_bcc(EmailAddress::new("hidden@test.com"));
    assert_eq!(m.bcc.len(), 1);
}

#[test]
fn email_error_classes() {
    let timeout = EmailError::TimeoutError { operation: "send".to_string(), timeout_seconds: 30 };
    assert!(timeout.is_retryable());
    assert!(!timeout.is_fatal());
    assert_eq!(timeout.retry_delay_seconds(), 3);
    let server = EmailError::ServerError { code: None, message: "busy".to_string(), server: "s".to_string() };
    assert_eq!(server.retry_delay_seconds(), 10);
    let conn = EmailError::ConnectionError { server: "s".to_string(), port: 25, cause: "refused".to_string() };
    assert_eq!(conn.retry_delay_seconds(), 5);
    let auth = EmailError::AuthenticationError { username: "u".to_string(), server: "s".to_string(), cause: None };
    assert!(auth.is_fatal());
    assert!(!auth.is_retryable());
    assert_eq!(auth.retry_delay_seconds(), 0);
    let tls = EmailError::TlsError { details: "bad".to_string() };
    assert!(!tls.is_fatal() && !tls.is_retryable());
}
