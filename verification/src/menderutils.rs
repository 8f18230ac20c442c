//! Common types of the update client: status codes, deployment states, the
//! identity key store, and string helpers.

use vstd::prelude::*;

verus! {

/// Status of a client operation.
#[derive(Debug, Clone, Copy, PartialEq, Eq, Structural)]
pub enum MenderStatus {
    Done,
    Okay,
    Failed,
    NotFound,
    NotImplemented,
    Other,
    Network,
}

/// Result of a client operation: the payload travels with an `Ok`-grade
/// status.
pub type MenderResult<T> = Result<(MenderStatus, T), MenderStatus>;

/// State of a deployment as reported to the cloud.
#[derive(Debug, Clone, Copy, PartialEq, Eq, Structural)]
pub enum DeploymentStatus {
    Downloading,
    Installing,
    Rebooting,
    Success,
    Failure,
    AlreadyInstalled,
}

/// The wire word of a deployment state.
pub open spec fn spec_deployment_status_str(s: DeploymentStatus) -> Seq<char> {
    match s {
        DeploymentStatus::Downloading => "downloading"@,
        DeploymentStatus::Installing => "installing"@,
        DeploymentStatus::Rebooting => "rebooting"@,
        DeploymentStatus::Success => "success"@,
        DeploymentStatus::Failure => "failure"@,
        DeploymentStatus::AlreadyInstalled => "already-installed"@,
    }
}

impl DeploymentStatus {
    /// The word the cloud API uses for this state.
    pub fn as_str(&self) -> (r: &'static str)
        ensures
            r@ == spec_deployment_status_str(*self),
    {
        match self {
            DeploymentStatus::Downloading => "downloading",
            DeploymentStatus::Installing => "installing",
            DeploymentStatus::Rebooting => "rebooting",
            DeploymentStatus::Success => "success",
            DeploymentStatus::Failure => "failure",
            DeploymentStatus::AlreadyInstalled => "already-installed",
        }
    }
}

/// Whether two strings hold the same characters.
pub fn str_eq(a: &str, b: &str) -> (r: bool)
    ensures
        r == (a@ == b@),
{
    let al: usize = a.unicode_len();
    let bl: usize = b.unicode_len();
    if al != bl {
        proof {
            assert(a@.len() != b@.len());
        }
        return false;
    }
    let mut i: usize = 0;
    while i < al
        invariant
            i <= al,
            al == a@.len(),
            al == b@.len(),
            forall|j: int| 0 <= j < i ==> a@[j] == b@[j],
        decreases al - i,
    {
        if a.get_char(i) != b.get_char(i) {
            return false;
        }
        i = i + 1;
    }
    proof {
        assert(a@ =~= b@);
    }
    true
}

/// One identity or inventory entry.
pub struct KeyStoreItem {
    pub name: String,
    pub value: String,
}

/// A list of named string values; names are unique.
pub struct KeyStore {
    pub items: Vec<KeyStoreItem>,
}

impl KeyStore {
    /// The entries as (name, value) pairs.
    pub open spec fn entries(&self) -> Seq<(Seq<char>, Seq<char>)> {
        self.items@.map_values(|it: KeyStoreItem| (it.name@, it.value@))
    }

    /// An empty store.
    pub fn new() -> (r: KeyStore)
        ensures
            r.entries() == Seq::<(Seq<char>, Seq<char>)>::empty(),
    {
        let r = KeyStore { items: Vec::new() };
        proof {
            assert(r.entries() =~= Seq::<(Seq<char>, Seq<char>)>::empty());
        }
        r
    }

    /// Sets `name` to `value`: overwrites the first entry of that name, or
    /// appends a new entry when none exists.
    pub fn set_item(&mut self, name: &str, value: &str) -> (r: MenderResult<()>)
        ensures
            r is Ok,
            ({
                let old_e = old(self).entries();
                let new_e = final(self).entries();
                if exists|i: int| 0 <= i < old_e.len() && (#[trigger] old_e[i]).0 == name@ {
                    exists|i: int|
                        {
                            &&& 0 <= i < old_e.len()
                            &&& (#[trigger] old_e[i]).0 == name@
                            &&& forall|j: int| 0 <= j < i ==> (#[trigger] old_e[j]).0 != name@
                            &&& new_e == old_e.update(i, (name@, value@))
                        }
                } else {
                    new_e == old_e.push((name@, value@))
                }
            }),
    {
        let n: usize = self.items.len();
        let mut i: usize = 0;
        while i < n
            invariant
                i <= n,
                n == self.items@.len(),
                self == old(self),
                forall|j: int| 0 <= j < i ==> (#[trigger] old(self).entries()[j]).0 != name@,
            decreases n - i,
        {
            let hit: bool = str_eq(self.items[i].name.as_str(), name);
            if hit {
                proof {
                    assert(old(self).entries()[i as int].0 == name@);
                }
                let item: KeyStoreItem = KeyStoreItem {
                    name: String::from_str(name),
                    value: String::from_str(value),
                };
                self.items.set(i, item);
                proof {
                    assert(self.entries() =~= old(self).entries().update(
                        i as int,
                        (name@, value@),
                    ));
                    assert((old(self).entries()[i as int]).0 == name@);
                }
                return Ok((MenderStatus::Okay, ()));
            }
            i = i + 1;
        }
        self.items.push(KeyStoreItem { name: String::from_str(name), value: String::from_str(value) });
        proof {
            assert(self.entries() =~= old(self).entries().push((name@, value@)));
            assert forall|i: int| 0 <= i < old(self).entries().len() implies (#[trigger] old(
                self,
            ).entries()[i]).0 != name@ by {}
        }
        Ok((MenderStatus::Okay, ()))
    }

    /// Whether the store has no entries.
    pub fn is_empty(&self) -> (r: bool)
        ensures
            r == (self.entries().len() == 0),
    {
        self.items.len() == 0
    }
}

/// `n` occurs in `h` at position `i` (character sequences).
pub open spec fn str_occurs_at(h: Seq<char>, n: Seq<char>, i: int) -> bool {
    0 <= i && i + n.len() <= h.len() && h.subrange(i, i + n.len()) == n
}

/// The highest occurrence of `n` in `h` at or below `i`.
pub open spec fn str_last_occ_before(h: Seq<char>, n: Seq<char>, i: int) -> Option<int>
    decreases i + 1,
{
    if i < 0 {
        None
    } else if str_occurs_at(h, n, i) {
        Some(i)
    } else {
        str_last_occ_before(h, n, i - 1)
    }
}

/// The position of the last occurrence of `n` in `h`.
pub open spec fn str_last_occurrence(h: Seq<char>, n: Seq<char>) -> Option<int> {
    str_last_occ_before(h, n, h.len() - n.len())
}

/// Whether `needle` occurs in `haystack` at character position `i`.
fn str_occurs_at_exec(haystack: &str, needle: &str, i: usize, hl: usize, nl: usize) -> (r: bool)
    requires
        hl == haystack@.len(),
        nl == needle@.len(),
        i + nl <= hl,
    ensures
        r == str_occurs_at(haystack@, needle@, i as int),
{
    let mut k: usize = 0;
    while k < nl
        invariant
            k <= nl,
            hl == haystack@.len(),
            nl == needle@.len(),
            i + nl <= hl,
            forall|j: int| 0 <= j < k ==> haystack@[i + j] == needle@[j],
        decreases nl - k,
    {
        if haystack.get_char(i + k) != needle.get_char(k) {
            proof {
                assert(haystack@.subrange(i as int, i + needle@.len())[k as int] != needle@[
                    k as int]);
            }
            return false;
        }
        k = k + 1;
    }
    proof {
        assert(haystack@.subrange(i as int, i + needle@.len()) =~= needle@);
    }
    true
}

/// The suffix of `haystack` starting at the last occurrence of `needle`,
/// like the C `strrstr`; an empty needle matches at the very end.
pub fn mender_utils_strrstr<'a>(haystack: &'a str, needle: &str) -> (r: Option<&'a str>)
    ensures
        match str_last_occurrence(haystack@, needle@) {
            Some(p) => r matches Some(t) && t@ == haystack@.subrange(p, haystack@.len() as int),
            None => r is None,
        },
{
    let hl: usize = haystack.unicode_len();
    let nl: usize = needle.unicode_len();
    if nl > hl {
        proof {
            assert(haystack@.len() - needle@.len() < 0);
        }
        return None;
    }
    let mut i: usize = hl - nl;
    loop
        invariant
            nl <= hl,
            hl == haystack@.len(),
            nl == needle@.len(),
            i + nl <= hl,
            str_last_occ_before(haystack@, needle@, hl - nl) == str_last_occ_before(
                haystack@,
                needle@,
                i as int,
            ),
        decreases i + 1,
    {
        if str_occurs_at_exec(haystack, needle, i, hl, nl) {
            return Some(haystack.substring_char(i, hl));
        }
        if i == 0 {
            proof {
                assert(!str_occurs_at(haystack@, needle@, 0));
                assert(str_last_occ_before(haystack@, needle@, -1) is None);
            }
            return None;
        }
        i = i - 1;
    }
}

/// The standard reason phrase of an HTTP status code, if one is assigned.
pub open spec fn spec_http_status_string(status: int) -> Option<Seq<char>> {
    if false {
        None
    } else if status == 100 {
        Some("Continue"@)
    } else if status == 101 {
        Some("Switching Protocols"@)
    } else if status == 103 {
        Some("Early Hints"@)
    } else if status == 200 {
        Some("OK"@)
    } else if status == 201 {
        Some("Created"@)
    } else if status == 202 {
        Some("Accepted"@)
    } else if status == 203 {
        Some("Non-Authoritative Information"@)
    } else if status == 204 {
        Some("No Content"@)
    } else if status == 205 {
        Some("Reset Content"@)
    } else if status == 206 {
        Some("Partial Content"@)
    } else if status == 300 {
        Some("Multiple Choices"@)
    } else if status == 301 {
        Some("Moved Permanently"@)
    } else if status == 302 {
        Some("Found"@)
    } else if status == 303 {
        Some("See Other"@)
    } else if status == 304 {
        Some("Not Modified"@)
    } else if status == 307 {
        Some("Temporary Redirect"@)
    } else if status == 308 {
        Some("Permanent Redirect"@)
    } else if status == 400 {
        Some("Bad Request"@)
    } else if status == 401 {
        Some("Unauthorized"@)
    } else if status == 402 {
        Some("Payment Required"@)
    } else if status == 403 {
        Some("Forbidden"@)
    } else if status == 404 {
        Some("Not Found"@)
    } else if status == 405 {
        Some("Method Not Allowed"@)
    } else if status == 406 {
        Some("Not Acceptable"@)
    } else if status == 407 {
        Some("Proxy Authentication Required"@)
    } else if status == 408 {
        Some("Request Timeout"@)
    } else if status == 409 {
        Some("Conflict"@)
    } else if status == 410 {
        Some("Gone"@)
    } else if status == 411 {
        Some("Length Required"@)
    } else if status == 412 {
        Some("Precondition Failed"@)
    } else if status == 413 {
        Some("Payload Too Large"@)
    } else if status == 414 {
        Some("URI Too Long"@)
    } else if status == 415 {
        Some("Unsupported Media Type"@)
    } else if status == 416 {
        Some("Range Not Satisfiable"@)
    } else if status == 417 {
        Some("Expectation Failed"@)
    } else if status == 418 {
        Some("I'm a teapot"@)
    } else if status == 422 {
        Some("Unprocessable Entity"@)
    } else if status == 425 {
        Some("Too Early"@)
    } else if status == 426 {
        Some("Upgrade Required"@)
    } else if status == 428 {
        Some("Precondition Required"@)
    } else if status == 429 {
        Some("Too Many Requests"@)
    } else if status == 431 {
        Some("Request Header Fields Too Large"@)
    } else if status == 451 {
        Some("Unavailable For Legal Reasons"@)
    } else if status == 500 {
        Some("Internal Server Error"@)
    } else if status == 501 {
        Some("Not Implemented"@)
    } else if status == 502 {
        Some("Bad Gateway"@)
    } else if status == 503 {
        Some("Service Unavailable"@)
    } else if status == 504 {
        Some("Gateway Timeout"@)
    } else if status == 505 {
        Some("HTTP Version Not Supported"@)
    } else if status == 506 {
        Some("Variant Also Negotiates"@)
    } else if status == 507 {
        Some("Insufficient Storage"@)
    } else if status == 508 {
        Some("Loop Detected"@)
    } else if status == 510 {
        Some("Not Extended"@)
    } else if status == 511 {
        Some("Network Authentication Required"@)
    } else {
        None
    }
}

/// The standard reason phrase of an HTTP status code.
pub fn mender_utils_http_status_to_string(status: i32) -> (r: Option<&'static str>)
    ensures
        match r {
            Some(t) => spec_http_status_string(status as int) == Some(t@),
            None => spec_http_status_string(status as int) is None,
        },
{
    match status {
        100 => Some("Continue"),
        101 => Some("Switching Protocols"),
        103 => Some("Early Hints"),
        200 => Some("OK"),
        201 => Some("Created"),
        202 => Some("Accepted"),
        203 => Some("Non-Authoritative Information"),
        204 => Some("No Content"),
        205 => Some("Reset Content"),
        206 => Some("Partial Content"),
        300 => Some("Multiple Choices"),
        301 => Some("Moved Permanently"),
        302 => Some("Found"),
        303 => Some("See Other"),
        304 => Some("Not Modified"),
        307 => Some("Temporary Redirect"),
        308 => Some("Permanent Redirect"),
        400 => Some("Bad Request"),
        401 => Some("Unauthorized"),
        402 => Some("Payment Required"),
        403 => Some("Forbidden"),
        404 => Some("Not Found"),
        405 => Some("Method Not Allowed"),
        406 => Some("Not Acceptable"),
        407 => Some("Proxy Authentication Required"),
        408 => Some("Request Timeout"),
        409 => Some("Conflict"),
        410 => Some("Gone"),
        411 => Some("Length Required"),
        412 => Some("Precondition Failed"),
        413 => Some("Payload Too Large"),
        414 => Some("URI Too Long"),
        415 => Some("Unsupported Media Type"),
        416 => Some("Range Not Satisfiable"),
        417 => Some("Expectation Failed"),
        418 => Some("I'm a teapot"),
        422 => Some("Unprocessable Entity"),
        425 => Some("Too Early"),
        426 => Some("Upgrade Required"),
        428 => Some("Precondition Required"),
        429 => Some("Too Many Requests"),
        431 => Some("Request Header Fields Too Large"),
        451 => Some("Unavailable For Legal Reasons"),
        500 => Some("Internal Server Error"),
        501 => Some("Not Implemented"),
        502 => Some("Bad Gateway"),
        503 => Some("Service Unavailable"),
        504 => Some("Gateway Timeout"),
        505 => Some("HTTP Version Not Supported"),
        506 => Some("Variant Also Negotiates"),
        507 => Some("Insufficient Storage"),
        508 => Some("Loop Detected"),
        510 => Some("Not Extended"),
        511 => Some("Network Authentication Required"),
        _ => None,
    }
}

/// The JSON text of one entry: the quoted name, a colon, the quoted value.
pub open spec fn entry_json(e: (Seq<char>, Seq<char>)) -> Seq<char> {
    seq!['"'] + e.0 + seq!['"', ':', '"'] + e.1 + seq!['"']
}

/// The JSON text of the first `n` entries, comma-separated.
pub open spec fn entries_json(items: Seq<(Seq<char>, Seq<char>)>, n: int) -> Seq<char>
    decreases n,
{
    if n <= 0 {
        Seq::empty()
    } else {
        entries_json(items, n - 1) + (if n > 1 {
            seq![',']
        } else {
            Seq::empty()
        }) + entry_json(items[n - 1])
    }
}

/// The key store rendered as one JSON object.
pub open spec fn spec_keystore_json(items: Seq<(Seq<char>, Seq<char>)>) -> Seq<char> {
    seq!['{'] + entries_json(items, items.len() as int) + seq!['}']
}

/// Renders the key store as a JSON object of its name/value pairs.
pub fn mender_utils_keystore_to_json(keystore: &KeyStore) -> (r: MenderResult<String>)
    ensures
        match r {
            Ok((st, json)) => st == MenderStatus::Okay && json@ == spec_keystore_json(
                keystore.entries(),
            ),
            Err(_) => false,
        },
{
    let mut json: String = String::new();
    json.append("{");
    proof {
        reveal_strlit("{");
        reveal_strlit("\"");
        reveal_strlit("\":\"");
        reveal_strlit(",");
        assert(json@ =~= seq!['{'] + entries_json(keystore.entries(), 0));
    }
    let n: usize = keystore.items.len();
    let mut i: usize = 0;
    while i < n
        invariant
            i <= n,
            n == keystore.entries().len(),
            json@ == seq!['{'] + entries_json(keystore.entries(), i as int),
        decreases n - i,
    {
        if i > 0 {
            json.append(",");
        }
        json.append("\"");
        json.append(keystore.items[i].name.as_str());
        json.append("\":\"");
        json.append(keystore.items[i].value.as_str());
        json.append("\"");
        proof {
            reveal_strlit("{");
            reveal_strlit("\"");
            reveal_strlit("\":\"");
            reveal_strlit(",");
            assert(keystore.entries()[i as int]
                == (keystore.items@[i as int].name@, keystore.items@[i as int].value@));
            assert(json@ =~= seq!['{'] + entries_json(keystore.entries(), i + 1));
        }
        i = i + 1;
    }
    json.append("}");
    proof {
        reveal_strlit("}");
        assert(json@ =~= spec_keystore_json(keystore.entries()));
    }
    Ok((MenderStatus::Okay, json))
}

} // verus!
