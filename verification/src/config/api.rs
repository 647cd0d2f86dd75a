//! Credentials of the sites' APIs.
use vstd::prelude::*;

verus! {

/// The key, and the secret where the API has one, of an API.
#[derive(Debug, Clone)]
pub struct Credentials {
    key: String,
    secret: Option<String>,
}

impl Credentials {
    pub fn new(key: String, secret: Option<String>) -> (r: Credentials)
        ensures
            r.spec_key() == key@,
            r.spec_secret() == crate::item::text_of(secret),
    {
        Credentials { key, secret }
    }

    pub closed spec fn spec_key(&self) -> Seq<char> {
        self.key@
    }

    pub closed spec fn spec_secret(&self) -> Option<Seq<char>> {
        crate::item::text_of(self.secret)
    }

    pub fn key(&self) -> (r: &str)
        ensures
            r@ == self.spec_key(),
    {
        self.key.as_str()
    }

    pub fn secret(&self) -> (r: Option<&str>)
        ensures
            match r {
                Some(s) => self.spec_secret() == Some(s@),
                None => self.spec_secret() is None,
            },
    {
        match &self.secret {
            None => None,
            Some(s) => Some(s.as_str()),
        }
    }
}

/// The credentials of the NLGO and Aladin APIs.
#[derive(Debug, Clone)]
pub struct API {
    nlgo: Credentials,
    aladin: Credentials,
}

impl API {
    pub fn new(nlgo: Credentials, aladin: Credentials) -> (r: API)
        ensures
            r.spec_nlgo() == nlgo,
            r.spec_aladin() == aladin,
    {
        API { nlgo, aladin }
    }

    pub closed spec fn spec_nlgo(&self) -> Credentials {
        self.nlgo
    }

    pub closed spec fn spec_aladin(&self) -> Credentials {
        self.aladin
    }

    pub fn nlgo(&self) -> (r: &Credentials)
        ensures
            *r == self.spec_nlgo(),
    {
        &self.nlgo
    }

    pub fn aladin(&self) -> (r: &Credentials)
        ensures
            *r == self.spec_aladin(),
    {
        &self.aladin
    }
}

/// The credentials of every site's API.
#[derive(Debug, Clone)]
pub struct Config {
    nlgo: Credentials,
    aladin: Credentials,
    naver: Credentials,
    kyobo: Credentials,
}

impl Config {
    pub fn new(nlgo: Credentials, aladin: Credentials, naver: Credentials, kyobo: Credentials) -> (r: Config)
        ensures
            r.spec_nlgo() == nlgo,
            r.spec_aladin() == aladin,
            r.spec_naver() == naver,
            r.spec_kyobo() == kyobo,
    {
        Config { nlgo, aladin, naver, kyobo }
    }

    pub closed spec fn spec_nlgo(&self) -> Credentials {
        self.nlgo
    }

    pub closed spec fn spec_aladin(&self) -> Credentials {
        self.aladin
    }

    pub closed spec fn spec_naver(&self) -> Credentials {
        self.naver
    }

    pub closed spec fn spec_kyobo(&self) -> Credentials {
        self.kyobo
    }

    pub fn nlgo(&self) -> (r: &Credentials)
        ensures
            *r == self.spec_nlgo(),
    {
        &self.nlgo
    }

    pub fn aladin(&self) -> (r: &Credentials)
        ensures
            *r == self.spec_aladin(),
    {
        &self.aladin
    }

    pub fn naver(&self) -> (r: &Credentials)
        ensures
            *r == self.spec_naver(),
    {
        &self.naver
    }

    pub fn kyobo(&self) -> (r: &Credentials)
        ensures
            *r == self.spec_kyobo(),
    {
        &self.kyobo
    }
}

} // verus!
