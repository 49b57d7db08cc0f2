//! The service around the renderer: its settings, and the answer to each
//! kind of request as plain values.

use crate::canvas::Canvas;
use crate::color::{get_color, resolved_colors, Color};
use crate::error::EmogenError;
use crate::format::{
    encode, encoding_of, extension_of, format2ext, format2mime, mime_of, outcome_view,
    OutputFormat,
};
use crate::render::{emoji_generator, plan_is_for, RenderPlan};
use crate::text::{
    decode_moji, decoded_text, lemma_without_newlines, optional_view, replace, replaced,
    strip_newlines, without_newlines,
};
use vstd::prelude::*;
use vstd::string::StringExecFns;

verus! {

/// The settings of one deployment: the name to show where a request has no
/// text, the domain that its host names end with, the template of its page,
/// and the size of its canvas.
#[derive(Debug)]
pub struct Emogen {
    pub service_name: String,
    pub base_domain: String,
    pub html_tmpl: String,
    pub height: u32,
    pub width: u32,
}

impl Emogen {
    /// Settings from their parts; mind that the height comes before the
    /// width.
    pub fn new(
        service_name: String,
        base_domain: String,
        html_tmpl: String,
        height: u32,
        width: u32,
    ) -> (emogen: Emogen)
        ensures
            emogen.service_name == service_name,
            emogen.base_domain == base_domain,
            emogen.html_tmpl == html_tmpl,
            emogen.height == height,
            emogen.width == width,
    {
        Emogen { service_name, base_domain, html_tmpl, height, width }
    }
}

impl Clone for Emogen {
    fn clone(&self) -> (copy: Self)
        ensures
            copy == *self,
    {
        Emogen {
            service_name: self.service_name.clone(),
            base_domain: self.base_domain.clone(),
            html_tmpl: self.html_tmpl.clone(),
            height: self.height,
            width: self.width,
        }
    }
}

/// What a reply says.
pub enum ReplyView {
    Page { html: Seq<char> },
    Picture { file: Seq<u8>, content_type: Seq<char>, content_disposition: Seq<char> },
    Failure { message: Seq<char>, status: u16 },
}

/// The answer to a request, for the server to send.
#[derive(Debug, PartialEq, Eq)]
pub enum Reply {
    /// An HTML page, sent with status 200.
    Page { html: String },
    /// A picture, sent with status 200 and these two headers.
    Picture { file: Vec<u8>, content_type: String, content_disposition: String },
    /// A message in plain text, sent with the given status.
    Failure { message: String, status: u16 },
}

impl View for Reply {
    type V = ReplyView;

    open spec fn view(&self) -> ReplyView {
        match self {
            Reply::Page { html } => ReplyView::Page { html: html@ },
            Reply::Picture { file, content_type, content_disposition } => ReplyView::Picture {
                file: file@,
                content_type: content_type@,
                content_disposition: content_disposition@,
            },
            Reply::Failure { message, status } => ReplyView::Failure {
                message: message@,
                status: *status,
            },
        }
    }
}

/// The reply to a request that failed: a text that cannot be decoded is the
/// client's fault, anything else the server's.
pub open spec fn failure_of(error: EmogenError) -> ReplyView {
    match error {
        EmogenError::Decode => ReplyView::Failure {
            message: "Failed to decode moji"@,
            status: 400,
        },
        EmogenError::FontUnavailable => ReplyView::Failure {
            message: "Failed to generate emoji"@,
            status: 500,
        },
        EmogenError::Encode => ReplyView::Failure {
            message: "Failed to generate emoji"@,
            status: 500,
        },
    }
}

/// The reply that reports a failure.
pub fn failure_reply(error: EmogenError) -> (reply: Reply)
    ensures
        reply@ == failure_of(error),
{
    match error {
        EmogenError::Decode => Reply::Failure {
            message: "Failed to decode moji".to_owned(),
            status: 400,
        },
        EmogenError::FontUnavailable => Reply::Failure {
            message: "Failed to generate emoji".to_owned(),
            status: 500,
        },
        EmogenError::Encode => Reply::Failure {
            message: "Failed to generate emoji".to_owned(),
            status: 500,
        },
    }
}

/// What each pair of a query holds.
pub open spec fn pair_views(pairs: Seq<(String, String)>) -> Seq<(Seq<char>, Seq<char>)> {
    Seq::new(pairs.len(), |i: int| (pairs[i].0@, pairs[i].1@))
}

/// The value of the first pair whose key is `key`.
pub open spec fn first_value(pairs: Seq<(Seq<char>, Seq<char>)>, key: Seq<char>) -> Option<
    Seq<char>,
>
    decreases pairs.len(),
{
    if pairs.len() == 0 {
        None
    } else if pairs[0].0 == key {
        Some(pairs[0].1)
    } else {
        first_value(pairs.skip(1), key)
    }
}

/// Looks a parameter up among the key-value pairs of a query string: the
/// value of the first pair with that key, if there is one.
pub fn url_param(pairs: &Vec<(String, String)>, param: String) -> (value: Option<String>)
    ensures
        optional_view(value) == first_value(pair_views(pairs@), param@),
{
    let mut i: usize = 0;
    assert(pair_views(pairs@).skip(0) =~= pair_views(pairs@));
    while i < pairs.len()
        invariant
            i <= pairs.len(),
            first_value(pair_views(pairs@).skip(i as int), param@) == first_value(
                pair_views(pairs@),
                param@,
            ),
        decreases pairs.len() - i,
    {
        assert(pair_views(pairs@).skip(i as int).skip(1) =~= pair_views(pairs@).skip(i + 1));
        if pairs[i].0 == param {
            return Some(pairs[i].1.clone());
        }
        i += 1;
    }
    None
}

/// The page template with its four placeholders filled in, one after the
/// other: the domain, the text as it was sent, the text decoded, and the
/// query string.
pub open spec fn filled_template(
    template: Seq<char>,
    domain: Seq<char>,
    moji: Seq<char>,
    moji_decoded: Seq<char>,
    query: Seq<char>,
) -> Seq<char> {
    let with_domain = replaced(template, "{{ .Domain }}"@, domain);
    let with_moji = replaced(with_domain, "{{ .Moji }}"@, moji);
    let with_decoded = replaced(with_moji, "{{ .Moji_decoded }}"@, moji_decoded);
    replaced(with_decoded, "{{ .Query }}"@, query)
}

fn fill_template(
    template: &str,
    domain: &str,
    moji: &str,
    moji_decoded: &str,
    query: &str,
) -> (html: String)
    ensures
        html@ == filled_template(template@, domain@, moji@, moji_decoded@, query@),
{
    let with_domain = replace(template, "{{ .Domain }}", domain);
    let with_moji = replace(with_domain.as_str(), "{{ .Moji }}", moji);
    let with_decoded = replace(with_moji.as_str(), "{{ .Moji_decoded }}", moji_decoded);
    replace(with_decoded.as_str(), "{{ .Query }}", query)
}

/// The page for a text: the template filled in with the text, and with the
/// name of the service in its place where the text is empty. A text that
/// does not decode has no page.
pub open spec fn page_of(
    data: Emogen,
    host: Seq<char>,
    moji: Seq<char>,
    query: Seq<char>,
) -> ReplyView {
    if moji.len() == 0 {
        ReplyView::Page {
            html: filled_template(
                data.html_tmpl@,
                host,
                data.service_name@,
                data.service_name@,
                query,
            ),
        }
    } else {
        match decoded_text(moji) {
            Some(decoded) => ReplyView::Page {
                html: filled_template(data.html_tmpl@, host, moji, decoded, query),
            },
            None => failure_of(EmogenError::Decode),
        }
    }
}

/// Answers a request for the page of a text.
pub fn response_html(data: &Emogen, host: &str, moji: &str, query: &str) -> (reply: Reply)
    ensures
        reply@ == page_of(*data, host@, moji@, query@),
{
    if moji.is_empty() {
        let name = data.service_name.as_str();
        let html = fill_template(data.html_tmpl.as_str(), host, name, name, query);
        return Reply::Page { html };
    }
    match decode_moji(moji) {
        Ok(decoded) => Reply::Page {
            html: fill_template(data.html_tmpl.as_str(), host, moji, decoded.as_str(), query),
        },
        Err(error) => failure_reply(error),
    }
}

/// Whether `plan` is what a request for a picture asks to draw.
pub open spec fn plan_answers(
    plan: RenderPlan,
    data: Emogen,
    moji: Seq<char>,
    host: Seq<char>,
    fg: Option<Seq<char>>,
    bg: Option<Seq<char>>,
    fallback_fg: Color,
    fallback_bg: Color,
) -> bool {
    let colors = resolved_colors(
        host,
        data.base_domain@,
        fg,
        bg,
        fallback_fg,
        fallback_bg,
    );
    decoded_text(moji) matches Some(text) && plan_is_for(
        plan,
        text,
        colors.0,
        colors.1,
        data.width,
        data.height,
    )
}

/// Plans the picture that a request asks for: decodes its text, resolves its
/// two colours and lays the text out on a canvas of the deployment's size.
/// Fails exactly where the text does not decode.
pub fn plan_emoji(
    data: &Emogen,
    moji: &str,
    host: &str,
    fg: Option<String>,
    bg: Option<String>,
    fallback_fg: Color,
    fallback_bg: Color,
) -> (r: Result<RenderPlan, EmogenError>)
    requires
        data.width * data.height <= usize::MAX,
    ensures
        match r {
            Ok(plan) => plan_answers(
                plan,
                *data,
                moji@,
                host@,
                optional_view(fg),
                optional_view(bg),
                fallback_fg,
                fallback_bg,
            ),
            Err(error) => decoded_text(moji@) is None && error == EmogenError::Decode,
        },
{
    let text = match decode_moji(moji) {
        Ok(text) => text,
        Err(error) => {
            return Err(error);
        },
    };
    let colors = get_color(host, data.base_domain.as_str(), fg, bg, fallback_fg, fallback_bg);
    Ok(emoji_generator(text.as_str(), colors.0, colors.1, data.width, data.height))
}

/// The name of the file that a picture is offered as: the text without its
/// newlines, a dot, and the extension of the format.
pub open spec fn attachment_name(text: Seq<char>, format: OutputFormat) -> Seq<char> {
    without_newlines(text) + "."@ + extension_of(format)
}

/// The name that a picture is offered under holds no newline, whatever the
/// text.
pub proof fn lemma_attachment_name_is_one_line(text: Seq<char>, format: OutputFormat)
    ensures
        !attachment_name(text, format).contains('\n'),
{
    reveal_strlit(".");
    reveal_strlit("png");
    reveal_strlit("jpg");
    reveal_strlit("gif");
    reveal_strlit("ico");
    lemma_without_newlines(text);
    let stem = without_newlines(text);
    let name = attachment_name(text, format);
    assert forall|i: int| 0 <= i < name.len() implies name[i] != '\n' by {
        if i < stem.len() {
            assert(stem.contains(stem[i]));
        }
    }
}

/// The `Content-Disposition` header that offers a picture under its name.
pub open spec fn disposition_of(text: Seq<char>, format: OutputFormat) -> Seq<char> {
    "attachment; filename=\""@ + attachment_name(text, format) + "\""@
}

/// The `Content-Disposition` header for the picture of a text.
pub fn content_disposition(text: &str, format: &OutputFormat) -> (header: String)
    ensures
        header@ == disposition_of(text@, *format),
{
    let mut header = "attachment; filename=\"".to_owned();
    header.append(strip_newlines(text).as_str());
    header.append(".");
    header.append(format2ext(format).as_str());
    header.append("\"");
    assert(header@ =~= disposition_of(text@, *format));
    header
}

/// The reply for a picture, given what came of encoding it: the file with
/// its two headers, or the report of the failure.
pub open spec fn picture_reply_of(
    text: Seq<char>,
    format: OutputFormat,
    encoded: Result<Seq<u8>, EmogenError>,
) -> ReplyView {
    match encoded {
        Ok(file) => ReplyView::Picture {
            file,
            content_type: mime_of(format),
            content_disposition: disposition_of(text, format),
        },
        Err(error) => failure_of(error),
    }
}

/// Wraps the outcome of encoding the picture of a text in a reply.
pub fn picture_reply(
    text: &str,
    format: &OutputFormat,
    encoded: Result<Vec<u8>, EmogenError>,
) -> (reply: Reply)
    ensures
        reply@ == picture_reply_of(text@, *format, outcome_view(encoded)),
{
    match encoded {
        Ok(file) => Reply::Picture {
            file,
            content_type: format2mime(format),
            content_disposition: content_disposition(text, format),
        },
        Err(error) => failure_reply(error),
    }
}

/// The reply to a request for a picture, given the canvas that the
/// rasterizer handed back, or none where it had no font.
pub open spec fn emoji_reply_of(
    text: Seq<char>,
    rendered: Option<Canvas>,
    format: OutputFormat,
) -> ReplyView {
    match rendered {
        None => failure_of(EmogenError::FontUnavailable),
        Some(canvas) => match encoding_of(
            canvas@.pixels,
            canvas@.width as u32,
            canvas@.height as u32,
            format,
        ) {
            Some(file) => picture_reply_of(text, format, Ok(file)),
            None => failure_of(EmogenError::Encode),
        },
    }
}

/// Answers a request for a picture once the text is drawn: encodes the
/// canvas in the format asked for and offers the file under the name of the
/// text. Without a canvas, and where encoding fails, the reply reports it.
pub fn response_emoji(text: &str, rendered: Option<Canvas>, format: OutputFormat) -> (reply: Reply)
    ensures
        reply@ == emoji_reply_of(text@, rendered, format),
{
    match rendered {
        None => failure_reply(EmogenError::FontUnavailable),
        Some(canvas) => picture_reply(text, &format, encode(&canvas, format)),
    }
}

} // verus!
