//! The plain values and rules of the article domain.
//!
//! The article storage and its HTTP surface are external collaborators;
//! what stands here are the domain's decision rules — status labels,
//! listing options, input validation, paging arithmetic — as verified
//! functions from plain values to plain values, for the adapter to call
//! around its remote work.

use vstd::prelude::*;

use crate::errors::Error;

verus! {

/// The lifecycle state of an article.
#[derive(Debug, Clone, Copy, PartialEq, Eq, Structural)]
pub enum Status {
    Published,
    Draft,
    Trash,
}

/// Relies on str's PartialEq from std: equality of the two character
/// sequences.
#[verifier::external_body]
fn str_eq(a: &str, b: &str) -> (r: bool)
    ensures
        r == (a@ == b@),
{
    a == b
}

impl Status {
    /// The label under which this status is stored and requested.
    pub open spec fn label_spec(self) -> Seq<char> {
        match self {
            Status::Published => "published"@,
            Status::Draft => "draft"@,
            Status::Trash => "trash"@,
        }
    }

    /// Renders the status as its storage label.
    pub fn to_string(&self) -> (r: String)
        ensures
            r@ == self.label_spec(),
    {
        match self {
            Status::Published => "published".to_owned(),
            Status::Draft => "draft".to_owned(),
            Status::Trash => "trash".to_owned(),
        }
    }

    /// Reads a status back from its storage label. Only the three labels
    /// [`Status::label_spec`] produces are meaningful, so anything else
    /// is ruled out up front.
    pub fn from_string(s: String) -> (r: Status)
        requires
            s@ == "published"@ || s@ == "draft"@ || s@ == "trash"@,
        ensures
            r.label_spec() == s@,
    {
        if str_eq(s.as_str(), "published") {
            Status::Published
        } else if str_eq(s.as_str(), "draft") {
            Status::Draft
        } else {
            Status::Trash
        }
    }
}

/// What a listing request asks for: every article, or only those in one
/// status.
#[derive(Debug, Clone, Copy, PartialEq, Eq, Structural)]
pub enum ArticlesListOptions {
    All,
    Filtered(Status),
}

impl ArticlesListOptions {
    /// The option a query-string value selects.
    pub open spec fn from_str_spec(s: Seq<char>) -> ArticlesListOptions {
        if s == "published"@ {
            ArticlesListOptions::Filtered(Status::Published)
        } else if s == "draft"@ {
            ArticlesListOptions::Filtered(Status::Draft)
        } else if s == "trash"@ {
            ArticlesListOptions::Filtered(Status::Trash)
        } else {
            ArticlesListOptions::All
        }
    }

    /// Selects the listing option a query-string value names; anything
    /// unrecognized (including `"all"`) lists every article.
    pub fn from_str(s: &str) -> (r: Self)
        ensures
            r == Self::from_str_spec(s@),
    {
        if str_eq(s, "published") {
            ArticlesListOptions::Filtered(Status::Published)
        } else if str_eq(s, "draft") {
            ArticlesListOptions::Filtered(Status::Draft)
        } else if str_eq(s, "trash") {
            ArticlesListOptions::Filtered(Status::Trash)
        } else {
            ArticlesListOptions::All
        }
    }
}

/// The body of an article create or update request.
pub struct ArticleRequest {
    pub title: String,
    pub description: String,
    pub content: String,
}

/// An article as the HTTP surface presents it, every field rendered as
/// text.
pub struct ArticleResponse {
    pub id: String,
    pub title: String,
    pub description: String,
    pub content: String,
    pub updated_at: String,
    pub created_at: String,
    pub status: String,
    pub author: String,
}

/// Shorthand for the invalid-input error value in the contracts below.
pub open spec fn invalid_input_v(m: Seq<char>) -> crate::errors::ErrorV {
    crate::errors::ErrorV::InvalidInput(m)
}

/// The rule a new article must pass before anything is stored: none of
/// title, description, content and author may be empty, reported in that
/// order.
pub fn validate_new_article(
    title: &String,
    description: &String,
    content: &String,
    author: &String,
) -> (r: Result<(), Error>)
    ensures
        title@.len() == 0 ==> (r matches Err(e) && e@ == invalid_input_v(
            "title cannot be empty"@,
        )),
        title@.len() > 0 && description@.len() == 0 ==> (r matches Err(e) && e@
            == invalid_input_v("description cannot be empty"@)),
        title@.len() > 0 && description@.len() > 0 && content@.len() == 0 ==> (r matches Err(e)
            && e@ == invalid_input_v("content cannot be empty"@)),
        title@.len() > 0 && description@.len() > 0 && content@.len() > 0 && author@.len() == 0
            ==> (r matches Err(e) && e@ == invalid_input_v("author cannot be empty"@)),
        title@.len() > 0 && description@.len() > 0 && content@.len() > 0 && author@.len() > 0
            ==> r is Ok,
{
    if title.as_str().is_empty() {
        return Err(Error::InvalidInput("title cannot be empty".to_owned()));
    }
    if description.as_str().is_empty() {
        return Err(Error::InvalidInput("description cannot be empty".to_owned()));
    }
    if content.as_str().is_empty() {
        return Err(Error::InvalidInput("content cannot be empty".to_owned()));
    }
    if author.as_str().is_empty() {
        return Err(Error::InvalidInput("author cannot be empty".to_owned()));
    }
    Ok(())
}

/// The rule an article update must pass: none of title, description and
/// content may be empty, reported in that order.
pub fn validate_article_update(title: &String, description: &String, content: &String) -> (r:
    Result<(), Error>)
    ensures
        title@.len() == 0 ==> (r matches Err(e) && e@ == invalid_input_v(
            "title cannot be empty"@,
        )),
        title@.len() > 0 && description@.len() == 0 ==> (r matches Err(e) && e@
            == invalid_input_v("description cannot be empty"@)),
        title@.len() > 0 && description@.len() > 0 && content@.len() == 0 ==> (r matches Err(e)
            && e@ == invalid_input_v("content cannot be empty"@)),
        title@.len() > 0 && description@.len() > 0 && content@.len() > 0 ==> r is Ok,
{
    if title.as_str().is_empty() {
        return Err(Error::InvalidInput("title cannot be empty".to_owned()));
    }
    if description.as_str().is_empty() {
        return Err(Error::InvalidInput("description cannot be empty".to_owned()));
    }
    if content.as_str().is_empty() {
        return Err(Error::InvalidInput("content cannot be empty".to_owned()));
    }
    Ok(())
}

/// How many pages a listing of `count` items spans at `page_size` items
/// per page: the ceiling of their quotient.
pub fn pages_for(count: i64, page_size: i64) -> (r: i64)
    requires
        count >= 0,
        page_size >= 1,
    ensures
        r == (count + page_size - 1) / (page_size as int),
        count == 0 ==> r == 0,
        count >= 1 ==> (r - 1) * page_size < count <= r * page_size,
{
    let c = count as u64;
    let s = page_size as u64;
    let pages = (c + (s - 1)) / s;
    proof {
        let ci = count as int;
        let si = page_size as int;
        assert(pages == (ci + si - 1) / si);
        if count == 0 {
            vstd::arithmetic::div_mod::lemma_basic_div(si - 1, si);
        } else {
            vstd::arithmetic::div_mod::lemma_fundamental_div_mod(ci + si - 1, si);
            assert((pages - 1) * si < ci <= pages * si) by (nonlinear_arith)
                requires
                    pages == (ci + si - 1) / si,
                    (ci + si - 1) == si * ((ci + si - 1) / si) + (ci + si - 1) % si,
                    0 <= (ci + si - 1) % si < si,
                    si >= 1,
                    ci >= 1,
            ;
            if pages >= 1 {
                assert((pages - 1) * si >= pages - 1) by (nonlinear_arith)
                    requires
                        pages >= 1,
                        si >= 1,
                ;
            }
            assert(pages <= ci);
        }
    }
    pages as i64
}

/// The offset at which a one-based page of a listing starts; pages
/// before the first read as the first.
pub fn list_offset(page: i64, page_size: i64) -> (r: i64)
    requires
        page_size >= 1,
        (page - 1) * page_size <= i64::MAX,
    ensures
        r == if page <= 0 {
            0int
        } else {
            (page - 1) * page_size
        },
{
    let p: i64 = if page <= 0 {
        1
    } else {
        page
    };
    proof {
        assert((p - 1) * page_size >= 0) by (nonlinear_arith)
            requires
                p >= 1,
                page_size >= 1,
        ;
    }
    (p - 1) * page_size
}

} // verus!
