//! Mail in its transport form, as `mailparse` reads it.
//!
//! A mail is read once, and sender, recipients, subject and body are then
//! taken out of what was read.

use mailparse::MailHeaderMap;
use vstd::prelude::*;

verus! {

/// `mailparse::ParsedMail`: a mail that was read. Nothing is known of what
/// is inside but through the functions below.
#[verifier::external_type_specification]
#[verifier::external_body]
pub struct ExParsedMail<'a>(mailparse::ParsedMail<'a>);

/// The mail that the bytes `raw` hold, if they hold one.
pub uninterp spec fn mail_in(raw: Seq<u8>) -> Option<mailparse::ParsedMail<'static>>;

/// The value of the first header of `m` that is named `name`, names
/// compared without regard to case, if there is such a header.
pub uninterp spec fn mail_header(m: mailparse::ParsedMail<'static>, name: Seq<char>) -> Option<
    Seq<char>,
>;

/// The values of all headers of `m` that are named `name`, in their order.
pub uninterp spec fn mail_headers(m: mailparse::ParsedMail<'static>, name: Seq<char>) -> Seq<
    Seq<char>,
>;

/// The body of `m`, decoded, if it can be decoded.
pub uninterp spec fn mail_body(m: mailparse::ParsedMail<'static>) -> Option<Seq<char>>;

/// `mailparse::parse_mail`: the mail that `raw` holds, `None` where it
/// holds none. The same bytes give the same mail.
#[verifier::external_body]
pub(crate) fn parse<'a>(raw: &'a [u8]) -> (r: Option<mailparse::ParsedMail<'a>>)
    ensures
        r == mail_in(raw@),
{
    mailparse::parse_mail(raw).ok()
}

/// `get_first_value` on the mail's headers.
#[verifier::external_body]
pub(crate) fn header<'a>(m: &mailparse::ParsedMail<'a>, name: &str) -> (r: Option<String>)
    ensures
        crate::text::opt_text(r) == mail_header(*m, name@),
{
    m.headers.get_first_value(name)
}

/// `get_all_values` on the mail's headers.
#[verifier::external_body]
pub(crate) fn headers<'a>(m: &mailparse::ParsedMail<'a>, name: &str) -> (r: Vec<String>)
    ensures
        r.deep_view() == mail_headers(*m, name@),
{
    m.headers.get_all_values(name)
}

/// `mailparse::ParsedMail::get_body`: the decoded body, `None` where it
/// cannot be decoded.
#[verifier::external_body]
pub(crate) fn body<'a>(m: &mailparse::ParsedMail<'a>) -> (r: Option<String>)
    ensures
        crate::text::opt_text(r) == mail_body(*m),
{
    m.get_body().ok()
}

} // verus!
