//! First-run setup: the checks on the request and the values stored for
//! the first client, the super admin and the server.
use vstd::prelude::*;

use crate::error::AppError;
use crate::text::{
    blank, chars_of, is_blank, owned, string_of, trim_chars, trim_end_char, trim_end_char_seq,
    trim_seq,
};

verus! {

/// What `str::to_lowercase` makes of a text (full Unicode lowercase mapping).
pub uninterp spec fn unicode_lowercase(s: Seq<char>) -> Seq<char>;

/// Whether `char::is_alphanumeric` accepts the character (Unicode
/// `Alphabetic` or `Numeric`).
pub uninterp spec fn alphanumeric(c: char) -> bool;

/// `str::to_lowercase`: the Unicode lowercase of the text.
#[verifier::external_body]
fn lowercase(s: &str) -> (r: String)
    ensures
        r@ == unicode_lowercase(s@),
{
    s.to_lowercase()
}

/// `char::is_alphanumeric`.
#[verifier::external_body]
fn is_alnum(c: char) -> (r: bool)
    ensures
        r == alphanumeric(c),
{
    c.is_alphanumeric()
}

/// The first-run request.
#[derive(Debug, Clone, PartialEq, Eq)]
pub struct SetupRequest {
    pub email: String,
    pub password: String,
    pub name: String,
    pub server_ip: String,
    pub api_url: String,
    /// Name of the first client (the owner's company).
    pub tenant_name: String,
}

/// What the first run stores.
#[derive(Debug, Clone, PartialEq, Eq)]
pub struct SetupValues {
    pub tenant_name: String,
    pub slug: String,
    pub email: String,
    pub name: String,
    pub server_ip: String,
    pub api_url: String,
}

/// Spaces made hyphens.
pub open spec fn hyphenate(s: Seq<char>) -> Seq<char> {
    s.map_values(|c: char| if c == ' ' {
        '-'
    } else {
        c
    })
}

/// The characters kept in a slug: alphanumeric ones and hyphens.
pub open spec fn slug_char(c: char) -> bool {
    alphanumeric(c) || c == '-'
}

/// `s` without the characters a slug does not keep.
pub open spec fn keep_slug_chars(s: Seq<char>) -> Seq<char>
    decreases s.len(),
{
    if s.len() == 0 {
        Seq::empty()
    } else if slug_char(s.last()) {
        keep_slug_chars(s.drop_last()).push(s.last())
    } else {
        keep_slug_chars(s.drop_last())
    }
}

/// The slug of a client name: trimmed, lowercased, spaces made hyphens,
/// and only alphanumeric characters and hyphens kept.
pub open spec fn slug_of(name: Seq<char>) -> Seq<char> {
    keep_slug_chars(hyphenate(unicode_lowercase(trim_seq(name))))
}

/// `setup` (slug): the slug of the first client's name.
pub fn slugify(name: &str) -> (r: String)
    ensures
        r@ == slug_of(name@),
{
    let t = string_of(&trim_chars(&chars_of(name)));
    let lower = chars_of(lowercase(t.as_str()).as_str());
    let ghost h = hyphenate(lower@);
    let mut out: Vec<char> = Vec::new();
    let mut i: usize = 0;
    while i < lower.len()
        invariant
            i <= lower@.len(),
            h == hyphenate(lower@),
            out@ == keep_slug_chars(h.take(i as int)),
        decreases lower@.len() - i,
    {
        let c = if lower[i] == ' ' {
            '-'
        } else {
            lower[i]
        };
        proof {
            assert(h.take(i + 1).drop_last() == h.take(i as int));
            assert(h.take(i + 1).last() == c);
        }
        if is_alnum(c) || c == '-' {
            out.push(c);
        }
        i = i + 1;
    }
    assert(h.take(lower@.len() as int) == h);
    string_of(&out)
}

/// Every character of a slug is alphanumeric or a hyphen; no space remains.
pub proof fn law_slug_characters(name: Seq<char>)
    ensures
        forall|i: int| 0 <= i < slug_of(name).len() ==> slug_char(#[trigger] slug_of(name)[i]),
{
    lemma_kept_chars(hyphenate(unicode_lowercase(trim_seq(name))));
}

proof fn lemma_kept_chars(s: Seq<char>)
    ensures
        forall|i: int| 0 <= i < keep_slug_chars(s).len() ==> slug_char(#[trigger] keep_slug_chars(s)[i]),
    decreases s.len(),
{
    if s.len() > 0 {
        lemma_kept_chars(s.drop_last());
        let before = keep_slug_chars(s.drop_last());
        assert forall|i: int| 0 <= i < keep_slug_chars(s).len() implies slug_char(
            #[trigger] keep_slug_chars(s)[i],
        ) by {
            if i < before.len() {
                assert(keep_slug_chars(s)[i] == before[i]);
            }
        }
    }
}

/// The message given when a field is missing or the password is short.
pub open spec fn setup_message() -> Seq<char> {
    "preencha todos os campos; a senha deve ter pelo menos 8 caracteres"@
}

/// The request has every field and a password of at least 8 characters.
pub open spec fn setup_complete(req: SetupRequest) -> bool {
    !is_blank(req.email@) && req.password@.len() >= 8 && !is_blank(req.server_ip@)
        && !is_blank(req.api_url@) && !is_blank(req.tenant_name@)
}

/// `setup` (checks and values): refused once a client exists; a request
/// must fill every field and give a password of at least 8 characters.  The
/// texts are stored trimmed, the API URL without trailing slashes.
pub fn setup_values(configured: bool, req: &SetupRequest) -> (r: Result<SetupValues, AppError>)
    ensures
        configured ==> r == Err::<SetupValues, AppError>(AppError::Forbidden),
        !configured && !setup_complete(*req) ==> (r matches Err(AppError::BadRequest(m)) && m@
            == setup_message()),
        !configured && setup_complete(*req) ==> (r matches Ok(v) && v.tenant_name@ == trim_seq(
            req.tenant_name@,
        ) && v.slug@ == slug_of(req.tenant_name@) && v.email@ == trim_seq(req.email@) && v.name@
            == trim_seq(req.name@) && v.server_ip@ == trim_seq(req.server_ip@) && v.api_url@
            == trim_end_char_seq(req.api_url@, '/')),
{
    if configured {
        return Err(AppError::Forbidden);
    }
    if blank(&chars_of(req.email.as_str())) || chars_of(req.password.as_str()).len() < 8 || blank(
        &chars_of(req.server_ip.as_str()),
    ) || blank(&chars_of(req.api_url.as_str())) || blank(&chars_of(req.tenant_name.as_str())) {
        return Err(AppError::BadRequest(owned(
            "preencha todos os campos; a senha deve ter pelo menos 8 caracteres",
        )));
    }
    Ok(
        SetupValues {
            tenant_name: string_of(&trim_chars(&chars_of(req.tenant_name.as_str()))),
            slug: slugify(req.tenant_name.as_str()),
            email: string_of(&trim_chars(&chars_of(req.email.as_str()))),
            name: string_of(&trim_chars(&chars_of(req.name.as_str()))),
            server_ip: string_of(&trim_chars(&chars_of(req.server_ip.as_str()))),
            api_url: string_of(&trim_end_char(&chars_of(req.api_url.as_str()), '/')),
        },
    )
}

} // verus!
