//! The location of a table: a URL, with the parts that decide which object store
//! answers for it.

use vstd::prelude::*;

use crate::text::{decimal, numerals_hold_digits, numerals_tell_numbers, opt_text};

verus! {

/// What `url::ParseError` says is left to those who show it.
#[verifier::external_type_specification]
#[verifier::external_body]
pub struct ExUrlParseError(url::ParseError);

/// The URL that `url::Url::parse` reads from a text: its serialization, scheme,
/// host and port, or `None` where the text is no URL.
pub uninterp spec fn parsed_url(source: Seq<char>) -> Option<
    (Seq<char>, Seq<char>, Option<Seq<char>>, Option<u16>),
>;

/// A host is not empty, and a `:` stands in it only where it is an IPv6 address in
/// brackets.
pub open spec fn host_shape(host: Seq<char>) -> bool {
    host.len() > 0 && (host.contains(':') ==> host.last() == ']')
}

/// `url::Url::parse`, with the parts of the URL read off by `as_str`, `scheme`,
/// `host_str` and `port`. What URL a text denotes is the URL standard's matter and
/// is only named here; it depends on the text alone. This much is claimed of
/// the parts: a scheme has no `:`, and a host is not empty and has none either,
/// unless it is an IPv6 address, which ends in `]`.
#[verifier::external_body]
fn read_url(source: &str) -> (r: Result<
    (String, String, Option<String>, Option<u16>),
    url::ParseError,
>)
    ensures
        r is Ok <==> parsed_url(source@) is Some,
        r matches Ok(p) ==> parsed_url(source@) == Some((p.0@, p.1@, opt_text(p.2), p.3)),
        r matches Ok(p) ==> !p.1@.contains(':'),
        r matches Ok(p) ==> (p.2 matches Some(h) ==> host_shape(h@)),
{
    let url = url::Url::parse(source)?;
    let host = url.host_str().map(str::to_string);
    Ok((url.as_str().to_string(), url.scheme().to_string(), host, url.port()))
}

/// A URL, as its parts.
pub ghost struct UrlParts {
    /// The whole URL.
    pub text: Seq<char>,
    pub scheme: Seq<char>,
    pub host: Option<Seq<char>>,
    /// The port, where it is not the scheme's default.
    pub port: Option<u16>,
}

impl UrlParts {
    /// Scheme and host are such as a URL can have.
    pub open spec fn valid(self) -> bool {
        &&& !self.scheme.contains(':')
        &&& self.host matches Some(h) ==> host_shape(h)
    }

    /// Host and port, as a URL shows them.
    pub open spec fn authority(self) -> Seq<char> {
        let host = match self.host {
            Some(h) => h,
            None => seq![],
        };
        match self.port {
            Some(p) => host + seq![':'] + decimal(p as nat),
            None => host,
        }
    }

    /// What stores are found by: scheme, host and port.
    pub open spec fn store_key(self) -> Seq<char> {
        self.scheme + "://"@ + self.authority()
    }
}

/// A URL that locates a table.
#[derive(Debug)]
pub struct StoreUrl {
    source: String,
    text: String,
    scheme: String,
    host: Option<String>,
    port: Option<u16>,
}

impl View for StoreUrl {
    type V = UrlParts;

    closed spec fn view(&self) -> UrlParts {
        UrlParts {
            text: self.text@,
            scheme: self.scheme@,
            host: opt_text(self.host),
            port: self.port,
        }
    }
}

impl StoreUrl {
    /// The parts are those of the URL that `source` denotes.
    #[verifier::type_invariant]
    closed spec fn parts_of_source(self) -> bool {
        &&& parsed_url(self.source@) == Some(
            (self.text@, self.scheme@, opt_text(self.host), self.port),
        )
        &&& self@.valid()
    }

    /// The text that the URL was read from.
    pub closed spec fn source(self) -> Seq<char> {
        self.source@
    }

    /// Reads a URL.
    pub fn parse(source: &str) -> (r: Result<StoreUrl, url::ParseError>)
        ensures
            r is Ok <==> parsed_url(source@) is Some,
            r matches Ok(u) ==> u.source() == source@ && parsed_url(source@) == Some(
                (u@.text, u@.scheme, u@.host, u@.port),
            ) && u@.valid(),
    {
        match read_url(source) {
            Ok((text, scheme, host, port)) => {
                let kept = source.to_owned();
                Ok(StoreUrl { source: kept, text, scheme, host, port })
            },
            Err(e) => Err(e),
        }
    }

    /// The text that the URL was read from; reading it again gives the same URL.
    pub fn source_text(&self) -> (s: &str)
        ensures
            s@ == self.source(),
            parsed_url(s@) == Some((self@.text, self@.scheme, self@.host, self@.port)),
            self@.valid(),
    {
        proof {
            use_type_invariant(self);
        }
        self.source.as_str()
    }

    /// The whole URL.
    pub fn text(&self) -> (s: &str)
        ensures
            s@ == self@.text,
    {
        self.text.as_str()
    }

    pub fn scheme(&self) -> (s: &str)
        ensures
            s@ == self@.scheme,
    {
        self.scheme.as_str()
    }

    pub fn host(&self) -> (s: Option<&str>)
        ensures
            s is Some <==> self@.host is Some,
            s matches Some(h) ==> self@.host == Some(h@),
    {
        match &self.host {
            Some(h) => Some(h.as_str()),
            None => None,
        }
    }

    /// The port, where it is not the scheme's default.
    pub fn port(&self) -> (p: Option<u16>)
        ensures
            p == self@.port,
    {
        self.port
    }
}

proof fn lemma_first_colon(a: Seq<char>, x: Seq<char>, b: Seq<char>, y: Seq<char>)
    requires
        !a.contains(':'),
        !b.contains(':'),
        a + seq![':'] + x == b + seq![':'] + y,
    ensures
        a == b,
        x == y,
{
    let s = a + seq![':'] + x;
    let t = b + seq![':'] + y;
    assert(s[a.len() as int] == ':');
    assert(t[b.len() as int] == ':');
    if a.len() < b.len() {
        assert(t[a.len() as int] == b[a.len() as int]);
    } else if b.len() < a.len() {
        assert(s[b.len() as int] == a[b.len() as int]);
    }
    assert(a =~= s.take(a.len() as int));
    assert(b =~= t.take(b.len() as int));
    assert(x =~= s.skip(a.len() as int + 1));
    assert(y =~= t.skip(b.len() as int + 1));
}

/// A host without a port does not read like one with a port.
proof fn lemma_port_shows(host: Seq<char>, other: Seq<char>, port: u16)
    requires
        host.contains(':') ==> host.last() == ']',
    ensures
        host != other + seq![':'] + decimal(port as nat),
{
    let s = other + seq![':'] + decimal(port as nat);
    numerals_hold_digits(port as nat);
    assert(s[other.len() as int] == ':');
    assert(s.last() == decimal(port as nat).last());
}

proof fn lemma_last_colon(a: Seq<char>, p: u16, b: Seq<char>, q: u16)
    requires
        a + seq![':'] + decimal(p as nat) == b + seq![':'] + decimal(q as nat),
    ensures
        a == b,
        p == q,
{
    let x = decimal(p as nat);
    let y = decimal(q as nat);
    let s = a + seq![':'] + x;
    let t = b + seq![':'] + y;
    numerals_hold_digits(p as nat);
    numerals_hold_digits(q as nat);
    assert(s[a.len() as int] == ':');
    assert(t[b.len() as int] == ':');
    assert(s == t);
    assert(b.len() < s.len() && a.len() < t.len());
    if a.len() < b.len() {
        assert(s[b.len() as int] == x[b.len() - a.len() - 1]);
    } else if b.len() < a.len() {
        assert(t[a.len() as int] == y[a.len() - b.len() - 1]);
    }
    assert(a =~= s.take(a.len() as int));
    assert(b =~= t.take(b.len() as int));
    assert(x =~= s.skip(a.len() as int + 1));
    assert(y =~= t.skip(b.len() as int + 1));
    numerals_tell_numbers(p as nat, q as nat);
}

/// Two URLs have the same key exactly where they agree in scheme, host and port; path,
/// query and user have no part in it.
pub proof fn keys_tell_scheme_host_and_port(u: UrlParts, v: UrlParts)
    requires
        u.valid(),
        v.valid(),
    ensures
        u.store_key() == v.store_key() <==> u.scheme == v.scheme && u.host == v.host && u.port
            == v.port,
{
    if u.store_key() == v.store_key() {
        reveal_strlit("://");
        let slashes = seq!['/', '/'];
        let x = slashes + u.authority();
        let y = slashes + v.authority();
        assert(u.store_key() =~= u.scheme + seq![':'] + x);
        assert(v.store_key() =~= v.scheme + seq![':'] + y);
        lemma_first_colon(u.scheme, x, v.scheme, y);
        assert(u.authority() =~= x.skip(2));
        assert(v.authority() =~= y.skip(2));
        let g = match u.host {
            Some(h) => h,
            None => seq![],
        };
        let h = match v.host {
            Some(h) => h,
            None => seq![],
        };
        match (u.port, v.port) {
            (Some(p), Some(q)) => lemma_last_colon(g, p, h, q),
            (Some(p), None) => lemma_port_shows(h, g, p),
            (None, Some(q)) => lemma_port_shows(g, h, q),
            (None, None) => {},
        }
        assert(g == h);
    }
}

/// A URL's host is shown whole, with its port behind `:` exactly where it has one; stores are
/// found by that behind the scheme and `://`.
pub proof fn keys_hold_the_whole_host(u: UrlParts)
    ensures
        u.host matches Some(h) ==> (u.port is None ==> u.authority() == h),
        u.host matches Some(h) ==> (u.port matches Some(p) ==> u.authority() == h + seq![':']
            + decimal(p as nat)),
        u.host is None && u.port is None ==> u.authority() == Seq::<char>::empty(),
        u.store_key() == u.scheme + seq![':', '/', '/'] + u.authority(),
{
    reveal_strlit("://");
    assert("://"@ =~= seq![':', '/', '/']);
}

} // verus!
