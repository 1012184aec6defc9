//! Outgoing mail: addresses, bodies, attachments, the message builder and
//! its validation, and the errors of the mail service.

use vstd::prelude::*;
use vstd::string::StringExecFns;
use crate::text::{chars_of, is_space, lower_of, lowercase, spec_is_space};
use crate::config::SmtpConfig;
use crate::validate::{has_char, has_prefix, same_text, starts_with};

verus! {

/// A mailbox, with an optional display name.
#[derive(Debug, Clone, PartialEq, Eq, Hash)]
pub struct EmailAddress {
    pub email: String,
    pub name: Option<String>,
}

/// Whether `e` looks like a mail address: it holds an `@` and a `.`, and
/// neither starts nor ends with `@`.
pub open spec fn plausible_address(e: Seq<char>) -> bool {
    &&& e.contains('@')
    &&& e.contains('.')
    &&& !(e.len() > 0 && e[0] == '@')
    &&& !(e.len() > 0 && e.last() == '@')
}

impl EmailAddress {
    /// An address without a display name.
    pub fn new(email: &str) -> (r: EmailAddress)
        ensures
            r.email@ == email@,
            r.name is None,
    {
        EmailAddress { email: String::from_str(email), name: None }
    }

    /// An address with a display name.
    pub fn with_name(email: &str, name: &str) -> (r: EmailAddress)
        ensures
            r.email@ == email@,
            r.name matches Some(n) && n@ == name@,
    {
        EmailAddress { email: String::from_str(email), name: Some(String::from_str(name)) }
    }

    /// Whether the address looks like a mail address.
    pub fn is_valid(&self) -> (r: bool)
        ensures
            r == plausible_address(self.email@),
    {
        let cs = chars_of(self.email.as_str());
        let n = cs.len();
        has_char(self.email.as_str(), '@') && has_char(self.email.as_str(), '.') && !(n > 0
            && cs[0] == '@') && !(n > 0 && cs[n - 1] == '@')
    }
}

/// Identifier of a sent message.
#[derive(Debug, Clone, PartialEq, Eq, Hash)]
pub struct MessageId(pub String);

impl MessageId {
    pub fn new(id: String) -> (r: MessageId)
        ensures
            r.0 == id,
    {
        MessageId(id)
    }
}

/// The body of a message, as plain text, HTML, or both.
#[derive(Debug, Clone, PartialEq, Eq)]
pub struct EmailBody {
    pub text: Option<String>,
    pub html: Option<String>,
    pub content_type: String,
}

impl EmailBody {
    /// A plain-text body.
    pub fn text(content: String) -> (r: EmailBody)
        ensures
            r.text == Some(content),
            r.html is None,
            r.content_type@ == "text/plain"@,
    {
        EmailBody { text: Some(content), html: None, content_type: String::from_str("text/plain") }
    }

    /// An HTML body.
    pub fn html(content: String) -> (r: EmailBody)
        ensures
            r.text is None,
            r.html == Some(content),
            r.content_type@ == "text/html"@,
    {
        EmailBody { text: None, html: Some(content), content_type: String::from_str("text/html") }
    }

    /// The text to show: the plain text when there is one, else the HTML.
    pub fn get_display_content(&self) -> (r: Option<&String>)
        ensures
            match self.text {
                Some(t) => r matches Some(x) && *x == t,
                None => match self.html {
                    Some(h) => r matches Some(x) && *x == h,
                    None => r is None,
                },
            },
    {
        match &self.text {
            Some(t) => Some(t),
            None => match &self.html {
                Some(h) => Some(h),
                None => None,
            },
        }
    }

    /// Whether the body has neither text nor HTML.
    pub fn is_empty(&self) -> (r: bool)
        ensures
            r == (self.text is None && self.html is None),
    {
        self.text.is_none() && self.html.is_none()
    }
}

/// A file attached to a message.
#[derive(Debug, Clone, PartialEq, Eq)]
pub struct EmailAttachment {
    pub filename: String,
    pub content_type: String,
    /// Bytes.
    pub size: u64,
    pub content_id: Option<String>,
    pub is_inline: bool,
}

/// Largest attachment accepted, exclusive: 10 MiB.
pub const MAX_ATTACHMENT_SIZE: u64 = 10485760;

/// Whether `t` is one of the content types that may be attached.
pub open spec fn safe_content_type(t: Seq<char>) -> bool {
    t == "text/plain"@ || t == "text/html"@ || t == "image/jpeg"@ || t == "image/png"@ || t
        == "image/gif"@ || t == "application/pdf"@
}

impl EmailAttachment {
    /// Whether the content type is plain text, HTML, JPEG, PNG, GIF or PDF.
    pub fn is_safe_type(&self) -> (r: bool)
        ensures
            r == safe_content_type(self.content_type@),
    {
        let t = self.content_type.as_str();
        same_text(t, "text/plain") || same_text(t, "text/html") || same_text(t, "image/jpeg")
            || same_text(t, "image/png") || same_text(t, "image/gif") || same_text(
            t,
            "application/pdf",
        )
    }

    /// Whether the attachment is smaller than 10 MiB.
    pub fn is_reasonable_size(&self) -> (r: bool)
        ensures
            r == (self.size < MAX_ATTACHMENT_SIZE),
    {
        self.size < MAX_ATTACHMENT_SIZE
    }
}

/// A message to send.
#[derive(Debug, Clone, PartialEq, Eq)]
pub struct OutgoingMessage {
    pub from: EmailAddress,
    pub to: Vec<EmailAddress>,
    pub cc: Vec<EmailAddress>,
    pub bcc: Vec<EmailAddress>,
    pub subject: String,
    pub body: EmailBody,
    pub attachments: Vec<EmailAttachment>,
    pub in_reply_to: Option<MessageId>,
    /// Header names and values; each name at most once.
    pub headers: Vec<(String, String)>,
}

/// Whether `s` is empty or white space only.
pub open spec fn blank(s: Seq<char>) -> bool {
    forall|i: int| 0 <= i < s.len() ==> spec_is_space(#[trigger] s[i])
}

/// Whether every address of `s` looks like a mail address.
pub open spec fn all_plausible(s: Seq<EmailAddress>) -> bool {
    forall|i: int| 0 <= i < s.len() ==> plausible_address(#[trigger] s[i].email@)
}

/// Whether an attachment has a safe type and a reasonable size.
pub open spec fn attachment_ok(a: EmailAttachment) -> bool {
    safe_content_type(a.content_type@) && a.size < MAX_ATTACHMENT_SIZE
}

/// Whether every attachment of `s` has a safe type and a reasonable size.
pub open spec fn attachments_acceptable(s: Seq<EmailAttachment>) -> bool {
    forall|i: int| 0 <= i < s.len() ==> attachment_ok(#[trigger] s[i])
}

/// Whether a message may be sent.
pub open spec fn sendable(m: OutgoingMessage) -> bool {
    &&& plausible_address(m.from.email@)
    &&& m.to@.len() > 0
    &&& all_plausible(m.to@)
    &&& all_plausible(m.cc@)
    &&& all_plausible(m.bcc@)
    &&& !blank(m.subject@)
    &&& !(m.body.text is None && m.body.html is None)
    &&& attachments_acceptable(m.attachments@)
}

fn first_implausible(s: &Vec<EmailAddress>) -> (r: Option<usize>)
    ensures
        r is None <==> all_plausible(s@),
        r matches Some(i) ==> i < s@.len(),
{
    let mut i: usize = 0;
    while i < s.len()
        invariant
            i <= s@.len(),
            forall|k: int| 0 <= k < i ==> plausible_address(#[trigger] s@[k].email@),
        decreases s@.len() - i,
    {
        if !s[i].is_valid() {
            return Some(i);
        }
        i = i + 1;
    }
    None
}

fn is_blank(s: &str) -> (r: bool)
    ensures
        r == blank(s@),
{
    let cs = chars_of(s);
    let mut i: usize = 0;
    while i < cs.len()
        invariant
            cs@ == s@,
            i <= cs@.len(),
            forall|k: int| 0 <= k < i ==> spec_is_space(#[trigger] cs@[k]),
        decreases cs@.len() - i,
    {
        if !is_space(cs[i]) {
            return false;
        }
        i = i + 1;
    }
    true
}

fn explained(reason: &str, detail: &str) -> (r: String)
    ensures
        r@ == reason@ + detail@,
{
    let mut m = String::from_str(reason);
    m.append(detail);
    m
}

impl OutgoingMessage {
    /// A message with no copies, attachments or extra headers.
    pub fn new(from: EmailAddress, to: Vec<EmailAddress>, subject: String, body: EmailBody) -> (r:
        OutgoingMessage)
        ensures
            r.from == from,
            r.to@ == to@,
            r.subject == subject,
            r.body == body,
            r.cc@.len() == 0 && r.bcc@.len() == 0 && r.attachments@.len() == 0,
            r.in_reply_to is None,
            r.headers@.len() == 0,
    {
        OutgoingMessage {
            from,
            to,
            cc: Vec::new(),
            bcc: Vec::new(),
            subject,
            body,
            attachments: Vec::new(),
            in_reply_to: None,
            headers: Vec::new(),
        }
    }

    /// Adds a copy recipient.
    pub fn add_cc(self, cc: EmailAddress) -> (r: OutgoingMessage)
        ensures
            r.cc@ == self.cc@.push(cc),
            r.from == self.from,
            r.to == self.to,
            r.bcc == self.bcc,
            r.subject == self.subject,
            r.body == self.body,
            r.attachments == self.attachments,
            r.in_reply_to == self.in_reply_to,
            r.headers == self.headers,
    {
        let mut m = self;
        m.cc.push(cc);
        m
    }

    /// Adds a blind copy recipient.
    pub fn add_bcc(self, bcc: EmailAddress) -> (r: OutgoingMessage)
        ensures
            r.bcc@ == self.bcc@.push(bcc),
            r.from == self.from,
            r.to == self.to,
            r.cc == self.cc,
            r.subject == self.subject,
            r.body == self.body,
            r.attachments == self.attachments,
            r.in_reply_to == self.in_reply_to,
            r.headers == self.headers,
    {
        let mut m = self;
        m.bcc.push(bcc);
        m
    }

    /// Makes the message a reply to `original_message_id`, prefixing the
    /// subject with `Re: ` unless it already starts with `re:` in any case.
    pub fn reply_to(self, original_message_id: MessageId) -> (r: OutgoingMessage)
        ensures
            r.in_reply_to == Some(original_message_id),
            has_prefix(lower_of(self.subject@), "re:"@) ==> r.subject == self.subject,
            !has_prefix(lower_of(self.subject@), "re:"@) ==> r.subject@ == "Re: "@ + self.subject@,
            r.from == self.from,
            r.to == self.to,
            r.cc == self.cc,
            r.bcc == self.bcc,
            r.body == self.body,
            r.attachments == self.attachments,
            r.headers == self.headers,
    {
        let mut m = self;
        m.in_reply_to = Some(original_message_id);
        let lowered = lowercase(m.subject.as_str());
        if !starts_with(lowered.as_str(), "re:") {
            m.subject = explained("Re: ", m.subject.as_str());
        }
        m
    }

    /// Adds an attachment.
    pub fn add_attachment(self, attachment: EmailAttachment) -> (r: OutgoingMessage)
        ensures
            r.attachments@ == self.attachments@.push(attachment),
            r.from == self.from,
            r.to == self.to,
            r.cc == self.cc,
            r.bcc == self.bcc,
            r.subject == self.subject,
            r.body == self.body,
            r.in_reply_to == self.in_reply_to,
            r.headers == self.headers,
    {
        let mut m = self;
        m.attachments.push(attachment);
        m
    }

    /// Sets a header, replacing an earlier value of the same name.
    pub fn add_header(self, key: String, value: String) -> (r: OutgoingMessage)
        ensures
            (exists|i: int|
                0 <= i < self.headers@.len() && self.headers@[i].0@ == key@
                    && r.headers@ == self.headers@.update(i, (key, value))) || (
            (forall|i: int| 0 <= i < self.headers@.len() ==> #[trigger] self.headers@[i].0@ != key@)
                && r.headers@ == self.headers@.push((key, value))),
            r.from == self.from,
            r.to == self.to,
            r.cc == self.cc,
            r.bcc == self.bcc,
            r.subject == self.subject,
            r.body == self.body,
            r.attachments == self.attachments,
            r.in_reply_to == self.in_reply_to,
    {
        let mut m = self;
        let mut i: usize = 0;
        while i < m.headers.len()
            invariant
                i <= m.headers@.len(),
                m == self,
                forall|k: int| 0 <= k < i ==> #[trigger] m.headers@[k].0@ != key@,
            decreases m.headers@.len() - i,
        {
            if same_text(m.headers[i].0.as_str(), key.as_str()) {
                m.headers.set(i, (key, value));
                return m;
            }
            i = i + 1;
        }
        m.headers.push((key, value));
        m
    }

    /// Checks that the message can be sent; the error says what is wrong.
    pub fn validate(&self) -> (r: Result<(), String>)
        ensures
            r is Ok <==> sendable(*self),
    {
        if !self.from.is_valid() {
            return Err(explained("无效的发件人地址: ", self.from.email.as_str()));
        }
        if self.to.len() == 0 {
            return Err(String::from_str("收件人列表不能为空"));
        }
        match first_implausible(&self.to) {
            Some(i) => return Err(explained("无效的收件人地址: ", self.to[i].email.as_str())),
            None => {},
        }
        match first_implausible(&self.cc) {
            Some(i) => return Err(explained("无效的抄送地址: ", self.cc[i].email.as_str())),
            None => {},
        }
        match first_implausible(&self.bcc) {
            Some(i) => return Err(explained("无效的密送地址: ", self.bcc[i].email.as_str())),
            None => {},
        }
        if is_blank(self.subject.as_str()) {
            return Err(String::from_str("邮件主题不能为空"));
        }
        if self.body.is_empty() {
            return Err(String::from_str("邮件内容不能为空"));
        }
        let mut i: usize = 0;
        while i < self.attachments.len()
            invariant
                i <= self.attachments@.len(),
                forall|k: int| 0 <= k < i ==> attachment_ok(#[trigger] self.attachments@[k]),
            decreases self.attachments@.len() - i,
        {
            let a = &self.attachments[i];
            if !a.is_safe_type() {
                return Err(explained("不安全的附件类型: ", a.content_type.as_str()));
            }
            if !a.is_reasonable_size() {
                let mut m = String::from_str("附件 ");
                m.append(a.filename.as_str());
                m.append(" 过大");
                return Err(m);
            }
            assert(attachment_ok(self.attachments@[i as int]));
            i = i + 1;
        }
        Ok(())
    }
}

/// Errors of the mail service. Causes from lower layers are kept as text.
#[derive(Debug, Clone, PartialEq, Eq)]
pub enum EmailError {
    ConnectionError { server: String, port: u16, cause: String },
    AuthenticationError { username: String, server: String, cause: Option<String> },
    ParseError { message_id: Option<String>, details: String },
    SendError { recipient: String, details: String },
    ConfigurationError { field: String, value: String, reason: String },
    TimeoutError { operation: String, timeout_seconds: u64 },
    TlsError { details: String },
    ServerError { code: Option<String>, message: String, server: String },
    ValidationError { field: String, value: String, reason: String },
    PermissionError { resource: String, operation: String },
    InternalError { details: String },
}

impl EmailError {
    /// Connection, timeout and server errors are transient.
    pub fn is_retryable(&self) -> (r: bool)
        ensures
            r == (self is ConnectionError || self is TimeoutError || self is ServerError),
    {
        match self {
            EmailError::ConnectionError { .. } => true,
            EmailError::TimeoutError { .. } => true,
            EmailError::ServerError { .. } => true,
            _ => false,
        }
    }

    /// Seconds to wait before retrying: 5 after a connection error, 3 after a
    /// timeout, 10 after a server error, 0 otherwise.
    pub fn retry_delay_seconds(&self) -> (r: u64)
        ensures
            r == match self {
                EmailError::ConnectionError { .. } => 5u64,
                EmailError::TimeoutError { .. } => 3u64,
                EmailError::ServerError { .. } => 10u64,
                _ => 0u64,
            },
    {
        match self {
            EmailError::ConnectionError { .. } => 5,
            EmailError::TimeoutError { .. } => 3,
            EmailError::ServerError { .. } => 10,
            _ => 0,
        }
    }

    /// Authentication, configuration, validation and permission errors are fatal.
    pub fn is_fatal(&self) -> (r: bool)
        ensures
            r == (self is AuthenticationError || self is ConfigurationError || self is ValidationError
                || self is PermissionError),
    {
        match self {
            EmailError::AuthenticationError { .. } => true,
            EmailError::ConfigurationError { .. } => true,
            EmailError::ValidationError { .. } => true,
            EmailError::PermissionError { .. } => true,
            _ => false,
        }
    }
}

fn misconfigured(field: &str, value: &str, reason: &str) -> (r: EmailError)
    ensures
        r matches EmailError::ConfigurationError { field: f, .. } && f@ == field@,
{
    EmailError::ConfigurationError {
        field: String::from_str(field),
        value: String::from_str(value),
        reason: String::from_str(reason),
    }
}

/// Checks the mail server settings: host, user name and password must not
/// be empty, and the port not zero. The error names the first bad field.
pub fn validate_smtp_config(config: &SmtpConfig) -> (r: Result<(), EmailError>)
    ensures
        r is Ok <==> config.host@.len() > 0 && config.port != 0 && config.username@.len() > 0
            && config.password@.len() > 0,
        config.host@.len() == 0 ==> (r matches Err(EmailError::ConfigurationError { field, .. })
            && field@ == "smtp.host"@),
        config.host@.len() > 0 && config.port == 0 ==> (r matches Err(
            EmailError::ConfigurationError { field, .. },
        ) && field@ == "smtp.port"@),
{
    if config.host.as_str().unicode_len() == 0 {
        return Err(misconfigured("smtp.host", config.host.as_str(), "SMTP 主机地址不能为空"));
    }
    if config.port == 0 {
        return Err(misconfigured("smtp.port", "0", "SMTP 端口必须大于 0"));
    }
    if config.username.as_str().unicode_len() == 0 {
        return Err(misconfigured("smtp.username", config.username.as_str(), "SMTP 用户名不能为空"));
    }
    if config.password.as_str().unicode_len() == 0 {
        return Err(misconfigured("smtp.password", "(hidden)", "SMTP 密码不能为空"));
    }
    Ok(())
}

/// A plain message as the SMTP client takes it.
#[derive(Debug, Clone, PartialEq, Eq)]
pub struct EmailMessage {
    pub from: EmailAddress,
    pub to: Vec<EmailAddress>,
    pub subject: String,
    pub body: String,
    pub is_html: bool,
}

} // verus!
