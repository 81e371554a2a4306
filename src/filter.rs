use vstd::prelude::*;
use vstd::string::*;

use crate::error::ApiError;
use crate::text::{same_text, uuid_string, uuid_text};

verus! {

/// How the question pool of a test is chosen.
#[derive(Clone, Copy, Debug, PartialEq, Eq, Structural)]
pub enum FilterType {
    /// The caller's favorite questions.
    Favorites,
    /// The questions of one category.
    Category,
    /// The questions of one topic.
    Topic,
}

/// The name of a filter type as it is written in requests.
pub open spec fn filter_tag(t: FilterType) -> Seq<char> {
    match t {
        FilterType::Favorites => "favorites"@,
        FilterType::Category => "category"@,
        FilterType::Topic => "topic"@,
    }
}

/// The filter type that a request names, if any.
pub open spec fn filter_type_named(s: Seq<char>) -> Option<FilterType> {
    if s == "favorites"@ {
        Some(FilterType::Favorites)
    } else if s == "category"@ {
        Some(FilterType::Category)
    } else if s == "topic"@ {
        Some(FilterType::Topic)
    } else {
        None
    }
}

/// Whether a filter type selects its pool by an identifier.
pub open spec fn needs_id(t: FilterType) -> bool {
    t != FilterType::Favorites
}

/// The deduplication key of a filter: its type, its identifier when there is
/// one, and the language, joined by colons.
pub open spec fn fingerprint(tag: Seq<char>, filter_id: Option<u128>, lang: Seq<char>) -> Seq<char> {
    match filter_id {
        Some(id) => tag + seq![':'] + uuid_text(id) + seq![':'] + lang,
        None => tag + seq![':'] + lang,
    }
}

/// The outcome of reading a filter descriptor: the filter type, or the error
/// for an unknown type or a missing identifier.
pub open spec fn filter_outcome(tag: Seq<char>, filter_id: Option<u128>) -> Result<FilterType, ApiError> {
    match filter_type_named(tag) {
        None => Err(ApiError::InvalidFieldValue),
        Some(t) => if needs_id(t) && filter_id is None {
            Err(ApiError::MissingField)
        } else {
            Ok(t)
        },
    }
}

impl FilterType {
    /// Reads a filter type from its name.
    pub fn parse(s: &str) -> (r: Result<FilterType, ApiError>)
        ensures
            r == (match filter_type_named(s@) {
                Some(t) => Ok(t),
                None => Err(ApiError::InvalidFieldValue),
            }),
    {
        if same_text(s, "favorites") {
            Ok(FilterType::Favorites)
        } else if same_text(s, "category") {
            Ok(FilterType::Category)
        } else if same_text(s, "topic") {
            Ok(FilterType::Topic)
        } else {
            Err(ApiError::InvalidFieldValue)
        }
    }

    /// The name of this filter type.
    pub fn as_str(&self) -> (r: &'static str)
        ensures
            r@ == filter_tag(*self),
    {
        match self {
            FilterType::Favorites => "favorites",
            FilterType::Category => "category",
            FilterType::Topic => "topic",
        }
    }
}

/// Checks a filter descriptor: the type must be known, and a type that
/// selects by identifier must come with one.
pub fn resolve_filter(filter_type: &str, filter_id: Option<u128>) -> (r: Result<FilterType, ApiError>)
    ensures
        r == filter_outcome(filter_type@, filter_id),
{
    let t = FilterType::parse(filter_type)?;
    if t != FilterType::Favorites && filter_id.is_none() {
        return Err(ApiError::MissingField);
    }
    Ok(t)
}

/// The fingerprint under which at most one active test per user may exist.
pub fn generate_filter_hash(filter_type: &str, filter_id: Option<u128>, lang: &str) -> (r: String)
    ensures
        r@ == fingerprint(filter_type@, filter_id, lang@),
{
    proof {
        reveal_strlit(":");
    }
    let mut h = String::from_str(filter_type);
    h.append(":");
    match filter_id {
        Some(id) => {
            let u = uuid_string(id);
            h.append(u.as_str());
            h.append(":");
        },
        None => {},
    }
    h.append(lang);
    h
}

} // verus!
