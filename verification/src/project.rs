//! What the interactive project-generation flow decides: which inputs are
//! acceptable for a project's name, date and keywords, and the configuration
//! assembled from them. Prompting is a caller concern; the rules live here.

use vstd::prelude::*;

verus! {

/// The configuration a generated project is materialized from.
#[derive(Debug, PartialEq)]
pub struct ProjectConfig {
    pub name: String,
    pub language: String,
    pub keywords: Vec<String>,
}

/// Credentials for logging in.
#[derive(Debug, PartialEq)]
pub struct LoginCommand {
    pub username: String,
    pub password: String,
}

/// The request to generate a project from a template repository.
#[derive(Debug, PartialEq)]
pub struct GenerateCommand {
    pub git: String,
}

/// Whether chrono parses the text as a date under the format string.
pub uninterp spec fn date_parses(s: Seq<char>, fmt: Seq<char>) -> bool;

/// Relies on chrono::NaiveDate::parse_from_str: whether it succeeds depends
/// on the text and the format alone.
#[verifier::external_body]
fn parse_date(s: &str, fmt: &str) -> (r: bool)
    ensures
        r == date_parses(s@, fmt@),
{
    chrono::NaiveDate::parse_from_str(s, fmt).is_ok()
}

/// What str::trim leaves of the text.
pub uninterp spec fn trim_of(s: Seq<char>) -> Seq<char>;

/// Relies on str::trim: what remains after removing leading and trailing
/// whitespace depends on the text alone; of empty text nothing remains.
#[verifier::external_body]
fn trim_str(s: &str) -> (r: &str)
    ensures
        r@ == trim_of(s@),
        s@.len() == 0 ==> r@.len() == 0,
{
    s.trim()
}

/// Whether the text is entirely whitespace, as str::trim judges it.
pub open spec fn is_blank(s: Seq<char>) -> bool {
    trim_of(s).len() == 0
}

/// How a date input is judged before it is accepted.
#[derive(Debug, Clone, Copy, PartialEq, Eq, Structural)]
pub enum DateCheck {
    /// Nothing but whitespace was entered.
    Empty,
    /// The text does not parse as a year-month-day date.
    BadFormat,
    /// The text is an acceptable date.
    Valid,
}

/// Judges a date input: blank text is empty, text chrono cannot parse as
/// `%Y-%m-%d` is badly formatted, everything else is acceptable.
pub fn check_date_input(input: &String) -> (r: DateCheck)
    ensures
        r == (if is_blank(input@) {
            DateCheck::Empty
        } else if date_parses(input@, "%Y-%m-%d"@) {
            DateCheck::Valid
        } else {
            DateCheck::BadFormat
        }),
{
    if trim_str(input.as_str()).is_empty() {
        DateCheck::Empty
    } else if parse_date(input.as_str(), "%Y-%m-%d") {
        DateCheck::Valid
    } else {
        DateCheck::BadFormat
    }
}

/// A project name is acceptable exactly when something was entered.
pub fn check_project_name(name: &String) -> (r: bool)
    ensures
        r == (name@.len() > 0),
{
    !name.as_str().is_empty()
}

/// A keyword choice is acceptable exactly when at least one was picked.
pub fn check_keywords(keywords: &Vec<String>) -> (r: bool)
    ensures
        r == (keywords@.len() >= 1),
{
    keywords.len() >= 1
}

impl ProjectConfig {
    /// Assembles the configuration from already-validated answers.
    pub fn new(name: String, language: String, keywords: Vec<String>) -> (r: ProjectConfig)
        ensures
            r.name == name,
            r.language == language,
            r.keywords == keywords,
    {
        ProjectConfig { name, language, keywords }
    }
}

} // verus!
