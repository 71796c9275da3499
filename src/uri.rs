//! Decoding of `otpauth://totp/<label>?secret=<base32>` URIs.
use vstd::prelude::*;
use vstd::string::*;

verus! {

/// The components of a parsed URI that the decoder reads.
pub struct UrlParts {
    pub scheme: String,
    pub host: Option<String>,
    pub path: String,
    pub query: Option<String>,
}

/// The view of an optional string.
pub open spec fn opt_view(o: Option<String>) -> Option<Seq<char>> {
    match o {
        Some(s) => Some(s@),
        None => None,
    }
}

impl View for UrlParts {
    /// Scheme, host, path and query.
    type V = (Seq<char>, Option<Seq<char>>, Seq<char>, Option<Seq<char>>);

    open spec fn view(&self) -> Self::V {
        (self.scheme@, opt_view(self.host), self.path@, opt_view(self.query))
    }
}

/// Scheme, host, path and query of `s` parsed as a URL, if it is one.
pub uninterp spec fn url_parts_of(s: Seq<char>) -> Option<
    (Seq<char>, Option<Seq<char>>, Seq<char>, Option<Seq<char>>),
>;

/// The name/value pairs of a form-encoded query string, in order and
/// percent-decoded.
pub uninterp spec fn form_pairs_of(query: Seq<char>) -> Seq<(Seq<char>, Seq<char>)>;

/// Relies on `url::Url::parse`, read back through `scheme`, `host_str`,
/// `path` and `query`: the components of the URL, a function of the input.
#[verifier::external_body]
fn parse_url(s: &str) -> (r: Option<UrlParts>)
    ensures
        r matches Some(p) ==> url_parts_of(s@) == Some(p@),
        r is None ==> url_parts_of(s@) is None,
{
    let u = url::Url::parse(s).ok()?;
    Some(
        UrlParts {
            scheme: u.scheme().to_owned(),
            host: u.host_str().map(str::to_owned),
            path: u.path().to_owned(),
            query: u.query().map(str::to_owned),
        },
    )
}

/// Relies on `url::form_urlencoded::parse`: the `application/x-www-form-urlencoded`
/// pairs of the query, in order, each name and value percent-decoded.
#[verifier::external_body]
fn query_pairs(query: &str) -> (r: Vec<(String, String)>)
    ensures
        r@.len() == form_pairs_of(query@).len(),
        forall|i: int|
            0 <= i < r@.len() ==> (#[trigger] r@[i]).0@ == form_pairs_of(query@)[i].0 && r@[i].1@
                == form_pairs_of(query@)[i].1,
{
    url::form_urlencoded::parse(query.as_bytes()).into_owned().collect()
}

/// The path with its single leading `/` removed, if it has one.
pub open spec fn strip_separator(path: Seq<char>) -> Seq<char> {
    if path.len() > 0 && path[0] == '/' {
        path.drop_first()
    } else {
        path
    }
}

/// The value of the first pair at or after index `i` whose name is `key`.
pub open spec fn value_from(pairs: Seq<(Seq<char>, Seq<char>)>, key: Seq<char>, i: int) -> Option<
    Seq<char>,
>
    decreases pairs.len() - i,
{
    if i < 0 || i >= pairs.len() {
        None
    } else if pairs[i].0 == key {
        Some(pairs[i].1)
    } else {
        value_from(pairs, key, i + 1)
    }
}

/// The label and secret that `uri` carries: its scheme must be `otpauth`,
/// its host `totp`, and its query must name a `secret`.
pub open spec fn otpauth_fields(uri: Seq<char>) -> Option<(Seq<char>, Seq<char>)> {
    match url_parts_of(uri) {
        Some((scheme, host, path, query)) => {
            if scheme == "otpauth"@ && host == Some("totp"@) {
                match query {
                    Some(q) => match value_from(form_pairs_of(q), "secret"@, 0) {
                        Some(secret) => Some((strip_separator(path), secret)),
                        None => None,
                    },
                    None => None,
                }
            } else {
                None
            }
        },
        None => None,
    }
}

/// The value of the first pair named `key`, if any.
fn find_value(pairs: &Vec<(String, String)>, key: &String) -> (r: Option<String>)
    ensures
        r matches Some(v) ==> value_from(pairs@.map_values(|p: (String, String)| (p.0@, p.1@)), key@, 0) == Some(v@),
        r is None ==> value_from(pairs@.map_values(|p: (String, String)| (p.0@, p.1@)), key@, 0) is None,
{
    let ghost seen = pairs@.map_values(|p: (String, String)| (p.0@, p.1@));
    let mut i: usize = 0;
    while i < pairs.len()
        invariant
            i <= pairs@.len(),
            seen == pairs@.map_values(|p: (String, String)| (p.0@, p.1@)),
            value_from(seen, key@, 0) == value_from(seen, key@, i as int),
        decreases pairs.len() - i,
    {
        if pairs[i].0 == *key {
            return Some(pairs[i].1.clone());
        }
        i = i + 1;
    }
    None
}

/// The path of a URL with its leading `/` removed.
fn label_of(path: &String) -> (r: String)
    ensures
        r@ == strip_separator(path@),
{
    let p = path.as_str();
    let n = p.unicode_len();
    if n > 0 && p.get_char(0) == '/' {
        p.substring_char(1, n).to_owned()
    } else {
        path.clone()
    }
}

/// Decodes `otpauth://totp/<label>?secret=<base32>` into its label and its
/// (percent-decoded) secret. Any other scheme or host, a missing query or a
/// query without `secret`, or a string that is no URL, gives `None`.
pub fn decode_otpauth_url(url_string: &str) -> (r: Option<(String, String)>)
    ensures
        r matches Some((label, secret)) ==> otpauth_fields(url_string@) == Some((label@, secret@)),
        r is None ==> otpauth_fields(url_string@) is None,
{
    let parts = parse_url(url_string)?;
    let otpauth = String::from_str("otpauth");
    let totp = String::from_str("totp");
    let secret_key = String::from_str("secret");
    let host_matches = match &parts.host {
        Some(h) => *h == totp,
        None => false,
    };
    if !(parts.scheme == otpauth) || !host_matches {
        return None;
    }
    let query = match &parts.query {
        Some(q) => q,
        None => return None,
    };
    let pairs = query_pairs(query.as_str());
    let ghost named = form_pairs_of(query@);
    assert(pairs@.map_values(|p: (String, String)| (p.0@, p.1@)) =~= named);
    let secret = find_value(&pairs, &secret_key)?;
    Some((label_of(&parts.path), secret))
}

} // verus!
