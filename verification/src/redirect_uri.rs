//! The redirect target of an authorization request.
//!
//! Parsing and resolving URLs is the work of the `url` crate. What this library reads of
//! a parsed URL is held in [`ParsedUrl`]; the rules that make a parsed URL a usable
//! redirect target are stated and checked here.
use crate::form::{decode_pairs, decoded_pairs};
use vstd::prelude::*;

verus! {

/// The error of `url::Url::parse` and `url::Url::join`.
#[verifier::external_type_specification]
#[verifier::external_body]
pub struct ExUrlParseError(url::ParseError);

/// What this library reads of a URL that the `url` crate has parsed.
#[derive(Debug, PartialEq, Eq)]
pub struct ParsedUrl {
    /// The URL written out (`Url::as_str`).
    pub href: String,
    /// Whether the URL has an authority (`Url::has_authority`).
    pub has_authority: bool,
    /// The query component (`Url::query`).
    pub query: Option<String>,
    /// The fragment component (`Url::fragment`).
    pub fragment: Option<String>,
}

/// [`ParsedUrl`] as specifications see it.
pub ghost struct ParsedUrlView {
    pub href: Seq<char>,
    pub has_authority: bool,
    pub query: Option<Seq<char>>,
    pub fragment: Option<Seq<char>>,
}

impl View for ParsedUrl {
    type V = ParsedUrlView;

    open spec fn view(&self) -> ParsedUrlView {
        ParsedUrlView {
            href: self.href@,
            has_authority: self.has_authority,
            query: match self.query {
                Some(query) => Some(query@),
                None => None,
            },
            fragment: match self.fragment {
                Some(fragment) => Some(fragment@),
                None => None,
            },
        }
    }
}

/// The URL that `url::Url::parse` reads from `text`; `None` where it reports an error.
pub uninterp spec fn parsed_url(text: Seq<char>) -> Option<ParsedUrlView>;

/// The URL that `url::Url::join` resolves `reference` to against the URL that
/// `url::Url::parse` reads from `base`, written out; `None` where either reports an
/// error.
pub uninterp spec fn joined_url(base: Seq<char>, reference: Seq<char>) -> Option<Seq<char>>;

/// Calls `url::Url::parse` and reads the parsed URL with `Url::has_authority`,
/// `Url::query` and `Url::fragment`; its `String` conversion is `Url::as_str`. All of
/// them depend on `text` alone, so the outcome is [`parsed_url`] of it; nothing more is
/// claimed.
#[verifier::external_body]
pub(crate) fn parse_url(text: &str) -> (parsed: Result<ParsedUrl, url::ParseError>)
    ensures
        match parsed {
            Ok(url) => parsed_url(text@) == Some(url@),
            Err(_) => parsed_url(text@) is None,
        },
{
    let url = url::Url::parse(text)?;
    Ok(
        ParsedUrl {
            has_authority: url.has_authority(),
            query: url.query().map(str::to_owned),
            fragment: url.fragment().map(str::to_owned),
            href: url.into(),
        },
    )
}

/// Calls `url::Url::parse` on `base` and `url::Url::join` on the result, and writes the
/// resolved URL out. Both depend on the two texts alone, so the outcome is
/// [`joined_url`] of them; nothing more is claimed.
#[verifier::external_body]
pub(crate) fn join_url(base: &str, reference: &str) -> (joined: Result<String, url::ParseError>)
    ensures
        match joined {
            Ok(href) => joined_url(base@, reference@) == Some(href@),
            Err(_) => joined_url(base@, reference@) is None,
        },
{
    Ok(url::Url::parse(base)?.join(reference)?.into())
}

/// A validated redirect target, as specifications see it.
pub ghost struct RedirectTarget {
    /// The target written out.
    pub href: Seq<char>,
    /// The pairs of its query component, decoded; empty where it has none.
    pub query: Seq<(Seq<char>, Seq<char>)>,
}

/// The redirect target that a parsed URL is, if it is one: it has to have an authority
/// and no fragment, and its query component, if it has one, has to decode into pairs.
pub open spec fn accepted_target(url: ParsedUrlView) -> Option<RedirectTarget> {
    if !url.has_authority || url.fragment is Some {
        None
    } else {
        match url.query {
            None => Some(RedirectTarget { href: url.href, query: Seq::empty() }),
            Some(query) => match decoded_pairs(query) {
                None => None,
                Some(pairs) => Some(RedirectTarget { href: url.href, query: pairs }),
            },
        }
    }
}

impl RedirectTarget {
    /// Whether this is a redirect target: a parsed URL that was accepted as one.
    pub open spec fn wf(self) -> bool {
        exists|url: ParsedUrlView| accepted_target(url) == Some(self)
    }
}

/// The redirect target that `text` names, if it names one: `text` has to parse as an
/// absolute URL, and the URL has to be a redirect target.
pub open spec fn redirect_target(text: Seq<char>) -> Option<RedirectTarget> {
    match parsed_url(text) {
        None => None,
        Some(url) => accepted_target(url),
    }
}

/// The text is not a usable redirect target.
#[derive(Debug, Clone, Copy, PartialEq, Eq, Structural)]
pub struct InvalidUri;

/// Copies a list of pairs.
pub(crate) fn copy_pairs(pairs: &Vec<(String, String)>) -> (copy: Vec<(String, String)>)
    ensures
        copy.deep_view() == pairs.deep_view(),
{
    let mut copy: Vec<(String, String)> = Vec::new();
    let mut i: usize = 0;
    while i < pairs.len()
        invariant
            i <= pairs@.len(),
            copy.deep_view() == pairs.deep_view().take(i as int),
        decreases pairs@.len() - i,
    {
        let ghost before = copy.deep_view();
        copy.push((pairs[i].0.clone(), pairs[i].1.clone()));
        assert(copy.deep_view() == before.push(pairs.deep_view()[i as int]));
        i = i + 1;
    }
    assert(pairs.deep_view().take(i as int) == pairs.deep_view());
    copy
}

/// A redirect target that passed validation. Every value of this type was accepted by
/// [`RedirectUri::new`] or [`RedirectUri::from_url`]: it is an absolute URL with an
/// authority and without a fragment, and its query decoded into the pairs it holds.
#[derive(Debug, PartialEq, Eq)]
pub struct RedirectUri {
    href: String,
    query: Vec<(String, String)>,
}

impl View for RedirectUri {
    type V = RedirectTarget;

    closed spec fn view(&self) -> RedirectTarget {
        RedirectTarget { href: self.href@, query: self.query.deep_view() }
    }
}

impl Clone for RedirectUri {
    fn clone(&self) -> (copy: Self)
        ensures
            copy@ == self@,
    {
        proof {
            use_type_invariant(self);
        }
        RedirectUri { href: self.href.clone(), query: copy_pairs(&self.query) }
    }
}

impl RedirectUri {
    #[verifier::type_invariant]
    spec fn is_accepted(self) -> bool {
        self@.wf()
    }

    /// Validates `uri` as a redirect target: see [`redirect_target`].
    pub fn new(uri: &str) -> (validated: Result<Self, InvalidUri>)
        ensures
            match validated {
                Ok(target) => redirect_target(uri@) == Some(target@),
                Err(_) => redirect_target(uri@) is None,
            },
    {
        match parse_url(uri) {
            Ok(url) => Self::from_url(url),
            Err(_) => Err(InvalidUri),
        }
    }

    /// Judges a parsed URL: see [`accepted_target`].
    pub fn from_url(url: ParsedUrl) -> (validated: Result<Self, InvalidUri>)
        ensures
            match validated {
                Ok(target) => accepted_target(url@) == Some(target@),
                Err(_) => accepted_target(url@) is None,
            },
    {
        if !url.has_authority || url.fragment.is_some() {
            return Err(InvalidUri);
        }
        let query = match &url.query {
            None => Vec::new(),
            Some(query) => match decode_pairs(query.as_str()) {
                Ok(pairs) => pairs,
                Err(_) => return Err(InvalidUri),
            },
        };
        assert(url.query is None ==> query.deep_view() == Seq::<(Seq<char>, Seq<char>)>::empty());
        assert(accepted_target(url@) == Some(
            RedirectTarget { href: url.href@, query: query.deep_view() },
        ));
        Ok(RedirectUri { href: url.href, query })
    }

    /// The target written out.
    pub fn get(&self) -> (href: &str)
        ensures
            href@ == self@.href,
            self@.wf(),
    {
        proof {
            use_type_invariant(self);
        }
        self.href.as_str()
    }

    /// The pairs of the target's query component.
    pub fn query_pairs(&self) -> (pairs: &Vec<(String, String)>)
        ensures
            pairs.deep_view() == self@.query,
    {
        &self.query
    }
}

} // verus!
