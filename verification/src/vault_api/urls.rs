//! The addresses of a server.
use vstd::prelude::*;
use vstd::string::*;
use crate::text::{chars_of, ends_with, has_suffix, same_text};
use crate::vault_api::error::{Error, Result};
use crate::vault_core::error::prefixed;

verus! {

/// The usual form of the URL that a text denotes, if it denotes one.
pub uninterp spec fn url_of(s: Seq<char>) -> Option<Seq<char>>;

/// The host of a URL; empty where the text denotes no URL or it has no host.
pub uninterp spec fn url_host(s: Seq<char>) -> Seq<char>;

/// The path of a URL; empty where the text denotes no URL.
pub uninterp spec fn url_path(s: Seq<char>) -> Seq<char>;

/// The scheme of a URL; empty where the text denotes no URL.
pub uninterp spec fn url_scheme(s: Seq<char>) -> Seq<char>;

/// A URL with another path; empty where the text denotes no URL.
pub uninterp spec fn url_with_path(s: Seq<char>, path: Seq<char>) -> Seq<char>;

/// A reference resolved against a URL, if both are well-formed.
pub uninterp spec fn url_join(base: Seq<char>, reference: Seq<char>) -> Option<Seq<char>>;

/// `url::Url::parse`: the URL that a text denotes, as its serialization.
#[verifier::external_body]
pub(crate) fn parse_url(s: &str) -> (r: Option<String>)
    ensures
        r is Some <==> url_of(s@) is Some,
        r matches Some(u) ==> url_of(s@) == Some(u@),
{
    url::Url::parse(s).ok().map(|u| u.to_string())
}

/// `url::Url::host_str` of the URL that a text denotes.
#[verifier::external_body]
pub(crate) fn host_of(s: &str) -> (r: String)
    ensures
        r@ == url_host(s@),
{
    let url = url::Url::parse(s).ok();
    url.and_then(|u| u.host_str().map(str::to_owned)).unwrap_or_default()
}

/// `url::Url::path` of the URL that a text denotes.
#[verifier::external_body]
pub(crate) fn path_of(s: &str) -> (r: String)
    ensures
        r@ == url_path(s@),
{
    url::Url::parse(s).map(|u| u.path().to_owned()).unwrap_or_default()
}

/// `url::Url::scheme` of the URL that a text denotes.
#[verifier::external_body]
pub(crate) fn scheme_of(s: &str) -> (r: String)
    ensures
        r@ == url_scheme(s@),
{
    url::Url::parse(s).map(|u| u.scheme().to_owned()).unwrap_or_default()
}

/// `url::Url::set_path` on the URL that a text denotes.
#[verifier::external_body]
pub(crate) fn with_path(s: &str, path: &str) -> (r: String)
    ensures
        r@ == url_with_path(s@, path@),
{
    let mut url = match url::Url::parse(s) {
        Ok(u) => u,
        Err(_) => return String::new(),
    };
    url.set_path(path);
    url.to_string()
}

/// `url::Url::join` on the URL that a text denotes.
#[verifier::external_body]
pub(crate) fn join_url(base: &str, reference: &str) -> (r: Option<String>)
    ensures
        r is Some <==> url_join(base@, reference@) is Some,
        r matches Some(u) ==> url_join(base@, reference@) == Some(u@),
{
    url::Url::parse(base).ok()?.join(reference).ok().map(|u| u.to_string())
}

/// The two addresses of a server.
#[derive(Debug)]
pub struct BaseUrls {
    /// Address of the vault.
    pub api: String,
    /// Address of the logins.
    pub identity: String,
}

/// What [`BaseUrls`] hold.
pub struct BaseUrlsView {
    /// Address of the vault.
    pub api: Seq<char>,
    /// Address of the logins.
    pub identity: Seq<char>,
}

impl DeepView for BaseUrls {
    type V = BaseUrlsView;

    open spec fn deep_view(&self) -> BaseUrlsView {
        BaseUrlsView { api: self.api@, identity: self.identity@ }
    }
}

impl Clone for BaseUrls {
    fn clone(&self) -> (r: Self)
        ensures
            r.deep_view() == self.deep_view(),
    {
        BaseUrls { api: self.api.clone(), identity: self.identity.clone() }
    }
}

/// Who runs a server.
#[derive(Clone, Copy, Debug, PartialEq, Eq, Structural)]
pub enum Region {
    /// The cloud at `bitwarden.com`.
    Us,
    /// The cloud at `bitwarden.eu`.
    Eu,
    /// Anyone else.
    SelfHosted,
}

/// Who runs the server at a host.
pub open spec fn host_region(host: Seq<char>) -> Region {
    if host == "bitwarden.com"@ || has_suffix(host, ".bitwarden.com"@) {
        Region::Us
    } else if host == "bitwarden.eu"@ || has_suffix(host, ".bitwarden.eu"@) {
        Region::Eu
    } else {
        Region::SelfHosted
    }
}

/// The addresses of the cloud at `bitwarden.com`.
pub open spec fn us_urls() -> BaseUrlsView {
    BaseUrlsView {
        api: "https://api.bitwarden.com/"@,
        identity: "https://identity.bitwarden.com/"@,
    }
}

/// The addresses of the cloud at `bitwarden.eu`.
pub open spec fn eu_urls() -> BaseUrlsView {
    BaseUrlsView {
        api: "https://api.bitwarden.eu/"@,
        identity: "https://identity.bitwarden.eu/"@,
    }
}

/// A URL whose path ends with a slash: itself, or with one added.
pub open spec fn slashed(url: Seq<char>) -> Seq<char> {
    if has_suffix(url_path(url), "/"@) {
        url
    } else {
        url_with_path(url, url_path(url) + "/"@)
    }
}

/// The addresses of a server of one's own: below `api/` and `identity/`.
pub open spec fn self_hosted_urls(origin: Seq<char>) -> core::result::Result<
    BaseUrlsView,
    &'static str,
> {
    match url_of(origin) {
        None => Err("origin is not a valid URL"),
        Some(url) => match (url_join(slashed(url), "api/"@), url_join(slashed(url), "identity/"@)) {
            (None, _) => Err("could not join /api/"),
            (_, None) => Err("could not join /identity/"),
            (Some(api), Some(identity)) => Ok(BaseUrlsView { api, identity }),
        },
    }
}

/// The addresses of the server with a given origin.
pub open spec fn inferred_urls(server: Seq<char>) -> core::result::Result<
    BaseUrlsView,
    &'static str,
> {
    match url_of(server) {
        None => Err("server is not a valid URL"),
        Some(_) => match host_region(url_host(server)) {
            Region::Us => Ok(us_urls()),
            Region::Eu => Ok(eu_urls()),
            Region::SelfHosted => self_hosted_urls(server),
        },
    }
}

/// Who runs the server at a host.
pub fn region_of(host: &str) -> (r: Region)
    ensures
        r == host_region(host@),
{
    let chars: Vec<char> = chars_of(host);
    let h: &[char] = chars.as_slice();
    if same_text(host, "bitwarden.com") || ends_with(h, ".bitwarden.com") {
        Region::Us
    } else if same_text(host, "bitwarden.eu") || ends_with(h, ".bitwarden.eu") {
        Region::Eu
    } else {
        Region::SelfHosted
    }
}

/// `result` is as `spec` says.
pub open spec fn urls_match(
    result: Result<BaseUrls>,
    spec: core::result::Result<BaseUrlsView, &'static str>,
) -> bool {
    match (result, spec) {
        (Ok(u), Ok(v)) => u.deep_view() == v,
        (Err(e), Err(m)) => e == Error::BaseUrl(m),
        _ => false,
    }
}

impl BaseUrls {
    /// The cloud at `bitwarden.com`.
    pub fn bitwarden_hosted() -> (r: BaseUrls)
        ensures
            r.deep_view() == us_urls(),
    {
        BaseUrls {
            api: "https://api.bitwarden.com/".to_owned(),
            identity: "https://identity.bitwarden.com/".to_owned(),
        }
    }

    /// The cloud at `bitwarden.eu`.
    pub fn bitwarden_eu() -> (r: BaseUrls)
        ensures
            r.deep_view() == eu_urls(),
    {
        BaseUrls {
            api: "https://api.bitwarden.eu/".to_owned(),
            identity: "https://identity.bitwarden.eu/".to_owned(),
        }
    }

    /// The addresses of the server with a given origin.
    pub fn infer_from(server: &str) -> (r: Result<BaseUrls>)
        ensures
            urls_match(r, inferred_urls(server@)),
    {
        if parse_url(server).is_none() {
            return Err(Error::BaseUrl("server is not a valid URL"));
        }
        match region_of(host_of(server).as_str()) {
            Region::Us => Ok(Self::bitwarden_hosted()),
            Region::Eu => Ok(Self::bitwarden_eu()),
            Region::SelfHosted => Self::self_hosted(server),
        }
    }

    /// The addresses of a server of one's own.
    pub fn self_hosted(origin: &str) -> (r: Result<BaseUrls>)
        ensures
            urls_match(r, self_hosted_urls(origin@)),
    {
        let url: String = match parse_url(origin) {
            Some(u) => u,
            None => return Err(Error::BaseUrl("origin is not a valid URL")),
        };
        let path: String = path_of(url.as_str());
        let chars: Vec<char> = chars_of(path.as_str());
        let base: String = if ends_with(chars.as_slice(), "/") {
            url
        } else {
            with_path(url.as_str(), prefixed(path.as_str(), "/").as_str())
        };
        let api: String = match join_url(base.as_str(), "api/") {
            Some(u) => u,
            None => return Err(Error::BaseUrl("could not join /api/")),
        };
        let identity: String = match join_url(base.as_str(), "identity/") {
            Some(u) => u,
            None => return Err(Error::BaseUrl("could not join /identity/")),
        };
        Ok(BaseUrls { api, identity })
    }
}

/// A host is in a cloud exactly where it is the cloud's domain or a name below
/// it. A name that merely ends with the same letters is someone else's.
pub proof fn hosts_below_a_domain_are_in_its_cloud(name: Seq<char>)
    ensures
        host_region("bitwarden.com"@) is Us,
        host_region("bitwarden.eu"@) is Eu,
        host_region(name + ".bitwarden.com"@) is Us,
        host_region(name + ".bitwarden.eu"@) is Eu,
        name.len() > 0 && name.last() != '.' ==> host_region(name + "bitwarden.com"@) is SelfHosted,
        name.len() > 0 && name.last() != '.' ==> host_region(name + "bitwarden.eu"@) is SelfHosted,
{
    reveal_strlit("bitwarden.com");
    reveal_strlit(".bitwarden.com");
    reveal_strlit("bitwarden.eu");
    reveal_strlit(".bitwarden.eu");
    let com = name + ".bitwarden.com"@;
    let eu = name + ".bitwarden.eu"@;
    assert(com.skip(com.len() - 14) =~= ".bitwarden.com"@);
    assert(eu.skip(eu.len() - 13) =~= ".bitwarden.eu"@);
    assert(eu.last() == 'u' && ".bitwarden.com"@.last() == 'm' && "bitwarden.com"@.last() == 'm');
    assert(".bitwarden.eu"@.last() == 'u' && "bitwarden.eu"@.last() == 'u');
    if has_suffix(eu, ".bitwarden.com"@) {
        assert(eu.skip(eu.len() - 14)[13] == eu.last());
    }
    let e = "bitwarden.eu"@;
    if has_suffix(e, ".bitwarden.com"@) {
        assert(e.skip(e.len() - 14)[13] == e.last());
    }
    let c = "bitwarden.com"@;
    if has_suffix(c, ".bitwarden.eu"@) {
        assert(c.skip(c.len() - 13)[12] == c.last());
    }
    if name.len() > 0 && name.last() != '.' {
        let h = name + "bitwarden.com"@;
        assert(h.last() == 'm' && h[h.len() - 14] == name.last());
        if has_suffix(h, ".bitwarden.com"@) {
            assert(h.skip(h.len() - 14)[0] == h[h.len() - 14]);
        }
        if has_suffix(h, ".bitwarden.eu"@) {
            assert(h.skip(h.len() - 13)[12] == h.last());
        }
        let k = name + "bitwarden.eu"@;
        assert(k.last() == 'u' && k[k.len() - 13] == name.last());
        if has_suffix(k, ".bitwarden.com"@) {
            assert(k.skip(k.len() - 14)[13] == k.last());
        }
        if has_suffix(k, ".bitwarden.eu"@) {
            assert(k.skip(k.len() - 13)[0] == k[k.len() - 13]);
        }
    }
}

/// The servers of a cloud are `api` and `identity` below its domain, reached
/// over an encrypted connection.
pub proof fn clouds_have_their_servers(server: Seq<char>)
    requires
        url_of(server) is Some,
    ensures
        host_region(url_host(server)) is Us ==> (inferred_urls(server) matches Ok(u) && u.api
            == "https://"@ + "api"@ + ".bitwarden.com"@ + "/"@ && u.identity == "https://"@
            + "identity"@ + ".bitwarden.com"@ + "/"@),
        host_region(url_host(server)) is Eu ==> (inferred_urls(server) matches Ok(u) && u.api
            == "https://"@ + "api"@ + ".bitwarden.eu"@ + "/"@ && u.identity == "https://"@
            + "identity"@ + ".bitwarden.eu"@ + "/"@),
        host_region(url_host(server)) is SelfHosted ==> inferred_urls(server) == self_hosted_urls(
            server,
        ),
{
    reveal_strlit("https://");
    reveal_strlit("api");
    reveal_strlit("identity");
    reveal_strlit(".bitwarden.com");
    reveal_strlit(".bitwarden.eu");
    reveal_strlit("/");
    reveal_strlit("https://api.bitwarden.com/");
    reveal_strlit("https://identity.bitwarden.com/");
    reveal_strlit("https://api.bitwarden.eu/");
    reveal_strlit("https://identity.bitwarden.eu/");
    assert("https://api.bitwarden.com/"@ =~= "https://"@ + "api"@ + ".bitwarden.com"@ + "/"@);
    assert("https://identity.bitwarden.com/"@ =~= "https://"@ + "identity"@ + ".bitwarden.com"@
        + "/"@);
    assert("https://api.bitwarden.eu/"@ =~= "https://"@ + "api"@ + ".bitwarden.eu"@ + "/"@);
    assert("https://identity.bitwarden.eu/"@ =~= "https://"@ + "identity"@ + ".bitwarden.eu"@
        + "/"@);
}

/// The servers of an origin of one's own are `api/` and `identity/` below it,
/// where below a path that has no slash at its end one is put there first. What
/// is no URL has no servers.
pub proof fn own_servers_are_below_the_origin(origin: Seq<char>, url: Seq<char>, base: Seq<char>)
    requires
        url_of(origin) == Some(url),
        url_path(url).len() > 0 && url_path(url).last() == '/' ==> base == url,
        url_path(url).len() == 0 || url_path(url).last() != '/' ==> base == url_with_path(
            url,
            url_path(url).push('/'),
        ),
    ensures
        self_hosted_urls(origin) is Ok <==> url_join(base, "api/"@) is Some && url_join(
            base,
            "identity/"@,
        ) is Some,
        self_hosted_urls(origin) matches Ok(u) ==> url_join(base, "api/"@) == Some(u.api)
            && url_join(base, "identity/"@) == Some(u.identity),
{
    reveal_strlit("/");
    let path = url_path(url);
    assert("/"@ =~= seq!['/']);
    assert(path + "/"@ =~= path.push('/'));
    if path.len() > 0 {
        assert(path.skip(path.len() - 1) =~= seq![path.last()]);
        if path.last() != '/' && has_suffix(path, "/"@) {
            assert(path.skip(path.len() - 1)[0] == "/"@[0]);
        }
    }
}

/// What is no URL has no servers.
pub proof fn other_texts_have_no_servers(server: Seq<char>)
    ensures
        url_of(server) is None ==> inferred_urls(server) is Err && self_hosted_urls(server) is Err,
{
}

} // verus!
