//! The closed set of query keys that an authorization request recognizes.
use crate::text::same_text;
use std::str::FromStr;
use vstd::prelude::*;

verus! {

/// A recognized query key. Every other key is opaque.
#[derive(Debug, Clone, Copy, PartialEq, Eq, Structural)]
pub enum AuthorizationQueryParams {
    ResponseType,
    ClientId,
    RedirectUri,
    Scope,
    State,
}

/// The recognized key that `key` spells, if any. The match is exact and case-sensitive.
pub open spec fn known_key(key: Seq<char>) -> Option<AuthorizationQueryParams> {
    if key == "response_type"@ {
        Some(AuthorizationQueryParams::ResponseType)
    } else if key == "client_id"@ {
        Some(AuthorizationQueryParams::ClientId)
    } else if key == "redirect_uri"@ {
        Some(AuthorizationQueryParams::RedirectUri)
    } else if key == "scope"@ {
        Some(AuthorizationQueryParams::Scope)
    } else if key == "state"@ {
        Some(AuthorizationQueryParams::State)
    } else {
        None
    }
}

impl DeepView for AuthorizationQueryParams {
    type V = Self;

    open spec fn deep_view(&self) -> Self {
        *self
    }
}

impl AuthorizationQueryParams {
    /// The key under which this parameter is sent.
    pub open spec fn spec_name(self) -> Seq<char> {
        match self {
            Self::ResponseType => "response_type"@,
            Self::ClientId => "client_id"@,
            Self::RedirectUri => "redirect_uri"@,
            Self::Scope => "scope"@,
            Self::State => "state"@,
        }
    }

    /// The key under which this parameter is sent.
    pub fn name(&self) -> (name: &'static str)
        ensures
            name@ == self.spec_name(),
    {
        match self {
            Self::ResponseType => "response_type",
            Self::ClientId => "client_id",
            Self::RedirectUri => "redirect_uri",
            Self::Scope => "scope",
            Self::State => "state",
        }
    }

    /// Sorts a decoded pair: `Ok` with the parameter that its key names, or `Err` with
    /// the pair untouched where the key names none.
    pub fn split(key_value: (String, String)) -> (sorted: Result<(Self, String), (String, String)>)
        ensures
            match sorted {
                Ok(entry) => known_key(key_value.0@) == Some(entry.0) && entry.1@
                    == key_value.1@,
                Err(pair) => known_key(key_value.0@) is None && pair.deep_view()
                    == key_value.deep_view(),
            },
    {
        match Self::from_str(key_value.0.as_str()) {
            Ok(param) => Ok((param, key_value.1)),
            Err(_) => Err(key_value),
        }
    }

    /// Every recognized parameter, once, in the order of declaration.
    pub fn variants() -> (all: [Self; 5])
        ensures
            all@ == seq![
                Self::ResponseType,
                Self::ClientId,
                Self::RedirectUri,
                Self::Scope,
                Self::State,
            ],
    {
        [Self::ResponseType, Self::ClientId, Self::RedirectUri, Self::Scope, Self::State]
    }

    /// The keys of all recognized parameters, in the order of [`Self::variants`].
    pub fn names() -> (all: [&'static str; 5])
        ensures
            all@.len() == 5,
            forall|i: int|
                0 <= i < 5 ==> (#[trigger] all@[i])@ == seq![
                    Self::ResponseType,
                    Self::ClientId,
                    Self::RedirectUri,
                    Self::Scope,
                    Self::State,
                ][i].spec_name(),
    {
        ["response_type", "client_id", "redirect_uri", "scope", "state"]
    }

    /// The five keys are pairwise different, so a key names at most one parameter and
    /// each parameter is found again under its own name.
    pub proof fn law_name_round_trip(self)
        ensures
            known_key(self.spec_name()) == Some(self),
    {
        reveal_strlit("response_type");
        reveal_strlit("client_id");
        reveal_strlit("redirect_uri");
        reveal_strlit("scope");
        reveal_strlit("state");
        assert("response_type"@.len() == 13);
        assert("client_id"@.len() == 9);
        assert("redirect_uri"@.len() == 12);
        assert("scope"@.len() == 5);
        assert("state"@.len() == 5);
        assert("scope"@[1] == 'c');
        assert("state"@[1] == 't');
    }

    /// A key is recognized exactly when it is the name of a parameter.
    pub proof fn law_known_key_is_name(key: Seq<char>)
        ensures
            match known_key(key) {
                Some(param) => param.spec_name() == key,
                None => forall|param: Self| param.spec_name() != key,
            },
    {
    }
}

impl std::str::FromStr for AuthorizationQueryParams {
    type Err = ();

    /// Looks a key up among the recognized parameters.
    fn from_str(key: &str) -> (found: Result<Self, ()>)
        ensures
            match found {
                Ok(param) => known_key(key@) == Some(param),
                Err(_) => known_key(key@) is None,
            },
    {
        if same_text(key, "response_type") {
            Ok(Self::ResponseType)
        } else if same_text(key, "client_id") {
            Ok(Self::ClientId)
        } else if same_text(key, "redirect_uri") {
            Ok(Self::RedirectUri)
        } else if same_text(key, "scope") {
            Ok(Self::Scope)
        } else if same_text(key, "state") {
            Ok(Self::State)
        } else {
            Err(())
        }
    }
}

} // verus!
