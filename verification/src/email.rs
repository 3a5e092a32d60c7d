//! Transactional e-mail: sign-in links and billing notices.

use crate::config::EmailConfig;
use crate::json::{fields_of, json_object, json_text, text_field, Field, JsonValue, JsonView};
use crate::table::opt_str;
use crate::text::texts;
use vstd::prelude::*;

verus! {

/// The e-mail sender.
#[derive(Debug)]
pub enum Mailer {
    /// Without keys: messages are logged.
    Stub,
    /// The e-mail provider.
    Resend(ResendMailer),
}

/// The provider's settings.
#[derive(Debug)]
pub struct ResendMailer {
    pub api_key: String,
    /// The `From:` header.
    pub from: String,
}

/// What sending a message takes.
#[derive(Debug)]
pub enum Sending {
    /// Nothing but logging it.
    Log { to: String, subject: String, text: String },
    /// Posting this to the provider, with its key.
    Post { url: String, api_key: String, body: String },
}

/// The message a provider is handed: the sender, the page where there is one,
/// the subject, the text, and the one recipient.
pub open spec fn message_fields(
    from: Seq<char>,
    to: Seq<char>,
    subject: Seq<char>,
    text: Seq<char>,
    html: Option<Seq<char>>,
) -> Seq<(Seq<char>, JsonView)> {
    let page = match html {
        Some(h) => seq![("html"@, JsonView::Text(h))],
        None => Seq::empty(),
    };
    seq![("from"@, JsonView::Text(from))] + page + seq![
        ("subject"@, JsonView::Text(subject)),
        ("text"@, JsonView::Text(text)),
        ("to"@, JsonView::Texts(seq![to])),
    ]
}

impl Mailer {
    /// The sender that the configuration asks for.
    pub fn new(config: &EmailConfig) -> (r: Mailer)
        ensures
            match config.resend {
                Some(c) => r == Mailer::Resend(ResendMailer { api_key: c.api_key, from: c.from }),
                None => r == Mailer::Stub,
            },
    {
        match &config.resend {
            Some(c) => Mailer::Resend(
                ResendMailer { api_key: c.api_key.clone(), from: c.from.clone() },
            ),
            None => Mailer::Stub,
        }
    }

    /// Whether this is what sending a message takes.
    pub open spec fn sends(
        self,
        r: Sending,
        to: Seq<char>,
        subject: Seq<char>,
        text: Seq<char>,
        html: Option<Seq<char>>,
    ) -> bool {
        match self {
            Mailer::Stub => r matches Sending::Log { to: t, subject: s, text: x } && t@ == to && s@
                == subject && x@ == text,
            Mailer::Resend(m) => r matches Sending::Post { url, api_key, body } && url@
                == "https://api.resend.com/emails"@ && api_key == m.api_key && body@ == json_text(
                message_fields(m.from@, to, subject, text, html),
            ),
        }
    }

    /// What sending one message takes.
    pub fn send(&self, to: &str, subject: &str, text: &str, html: Option<&str>) -> (r: Sending)
        ensures
            self.sends(r, to@, subject@, text@, opt_str(html)),
    {
        match self {
            Mailer::Stub => Sending::Log {
                to: to.to_owned(),
                subject: subject.to_owned(),
                text: text.to_owned(),
            },
            Mailer::Resend(m) => {
                let mut recipients: Vec<String> = Vec::new();
                recipients.push(to.to_owned());
                assert(texts(recipients@) =~= seq![to@]);
                let mut out: Vec<Field> = Vec::new();
                out.push(text_field("from", m.from.as_str()));
                if let Some(page) = html {
                    out.push(text_field("html", page));
                }
                out.push(text_field("subject", subject));
                out.push(text_field("text", text));
                out.push(Field { name: "to".to_owned(), value: JsonValue::Texts(recipients) });
                assert(fields_of(out@) =~= message_fields(
                    m.from@,
                    to@,
                    subject@,
                    text@,
                    opt_str(html),
                ));
                Sending::Post {
                    url: "https://api.resend.com/emails".to_owned(),
                    api_key: m.api_key.clone(),
                    body: json_object(&out),
                }
            },
        }
    }

    /// What sending a sign-in link takes. The link stands in the message as it
    /// is, in the text and in the page.
    pub fn send_magic_link(&self, to: &str, link: &str) -> (r: Sending)
        ensures
            self.sends(
                r,
                to@,
                "Sign in to Carillon"@,
                "Sign in to Carillon by opening this link (valid briefly, single use):\n\n"@ + link@
                    + "\n\nIf you did not request this, ignore this email."@,
                Some(
                    "<p>Sign in to Carillon:</p><p><a href=\""@ + link@
                        + "\">Sign in</a></p><p>The link is valid briefly and can be used once. If you did not request this, ignore this email.</p>"@,
                ),
            ),
    {
        let mut text =
            "Sign in to Carillon by opening this link (valid briefly, single use):\n\n".to_owned();
        text.append(link);
        text.append("\n\nIf you did not request this, ignore this email.");
        let mut html = "<p>Sign in to Carillon:</p><p><a href=\"".to_owned();
        html.append(link);
        html.append(
            "\">Sign in</a></p><p>The link is valid briefly and can be used once. If you did not request this, ignore this email.</p>",
        );
        self.send(to, "Sign in to Carillon", text.as_str(), Some(html.as_str()))
    }

    /// What sending a billing notice takes.
    pub fn send_notice(&self, to: &str, subject: &str, body: &str) -> (r: Sending)
        ensures
            self.sends(r, to@, subject@, body@, None),
    {
        self.send(to, subject, body, None)
    }
}

/// Whether the provider took a message, by what it answered.
pub fn sent(success: bool, status: &str, detail: &str) -> (r: Result<(), String>)
    ensures
        success ==> r is Ok,
        !success ==> (r matches Err(e) && e@ == "Resend error ("@ + status@ + "): "@ + detail@),
{
    if success {
        return Ok(());
    }
    let mut out = "Resend error (".to_owned();
    out.append(status);
    out.append("): ");
    out.append(detail);
    Err(out)
}

// --- laws ---

/// A provider is handed the sender, the recipient, the subject and the text of a
/// message each under its own name, and the page where there is one.
pub proof fn message_goes_to_its_recipient(
    from: Seq<char>,
    to: Seq<char>,
    subject: Seq<char>,
    text: Seq<char>,
    html: Option<Seq<char>>,
)
    ensures
        ({
            let f = message_fields(from, to, subject, text, html);
            &&& f.contains(("from"@, JsonView::Text(from)))
            &&& f.contains(("to"@, JsonView::Texts(seq![to])))
            &&& f.contains(("subject"@, JsonView::Text(subject)))
            &&& f.contains(("text"@, JsonView::Text(text)))
            &&& html matches Some(h) ==> f.contains(("html"@, JsonView::Text(h)))
            &&& f.len() == if html is Some {
                5int
            } else {
                4
            }
        }),
{
    let f = message_fields(from, to, subject, text, html);
    let n = f.len();
    assert(f[0] == ("from"@, JsonView::Text(from)));
    assert(f[n - 1] == ("to"@, JsonView::Texts(seq![to])));
    assert(f[n - 2] == ("text"@, JsonView::Text(text)));
    assert(f[n - 3] == ("subject"@, JsonView::Text(subject)));
    if let Some(h) = html {
        assert(f[1] == ("html"@, JsonView::Text(h)));
    }
}

/// With keys, a message is posted to the provider with our key and from our
/// address; without, it is logged and posted nowhere.
pub proof fn messages_are_posted_with_our_key(
    mailer: Mailer,
    r: Sending,
    to: Seq<char>,
    subject: Seq<char>,
    text: Seq<char>,
    html: Option<Seq<char>>,
)
    requires
        mailer.sends(r, to, subject, text, html),
    ensures
        mailer matches Mailer::Resend(m) ==> (r matches Sending::Post { url, api_key, body } && url@
            == "https://api.resend.com/emails"@ && api_key@ == m.api_key@ && body@ == json_text(
            message_fields(m.from@, to, subject, text, html),
        )),
        mailer is Stub ==> (r matches Sending::Log { to: t, subject: s, text: x } && t@ == to && s@
            == subject && x@ == text),
{
}

} // verus!
