//! Input rules shared by every backend.

use vstd::prelude::*;
use vstd::string::{StrSliceExecFns, StringExecFns};
use crate::error::MemoryError;
use crate::model::MemoryCorpus;
use crate::text::chars_of;

verus! {

/// Longest accepted user id, in characters.
pub const MAX_USER_ID_LEN: usize = 255;

/// Tests two strings for equal contents.
pub fn same_text(a: &str, b: &str) -> (r: bool)
    ensures
        r == (a@ == b@),
{
    let x = chars_of(a);
    let y = chars_of(b);
    if x.len() != y.len() {
        return false;
    }
    let mut i: usize = 0;
    while i < x.len()
        invariant
            x@ == a@,
            y@ == b@,
            x@.len() == y@.len(),
            i <= x@.len(),
            forall|k: int| 0 <= k < i ==> x@[k] == y@[k],
        decreases x@.len() - i,
    {
        if x[i] != y[i] {
            return false;
        }
        i = i + 1;
    }
    assert(x@ =~= y@);
    true
}

/// Whether `p` is a prefix of `s`.
pub open spec fn has_prefix(s: Seq<char>, p: Seq<char>) -> bool {
    p.len() <= s.len() && s.subrange(0, p.len() as int) == p
}

/// Tests whether `s` starts with `p`.
pub fn starts_with(s: &str, p: &str) -> (r: bool)
    ensures
        r == has_prefix(s@, p@),
{
    let x = chars_of(s);
    let y = chars_of(p);
    if y.len() > x.len() {
        return false;
    }
    let mut i: usize = 0;
    while i < y.len()
        invariant
            x@ == s@,
            y@ == p@,
            y@.len() <= x@.len(),
            i <= y@.len(),
            forall|k: int| 0 <= k < i ==> x@[k] == y@[k],
        decreases y@.len() - i,
    {
        if x[i] != y[i] {
            assert(s@.subrange(0, p@.len() as int)[i as int] != p@[i as int]);
            return false;
        }
        i = i + 1;
    }
    assert(s@.subrange(0, p@.len() as int) =~= p@);
    true
}

/// Tests whether `c` occurs in `s`.
pub fn has_char(s: &str, c: char) -> (r: bool)
    ensures
        r == s@.contains(c),
{
    let x = chars_of(s);
    let mut i: usize = 0;
    while i < x.len()
        invariant
            x@ == s@,
            i <= x@.len(),
            forall|k: int| 0 <= k < i ==> x@[k] != c,
        decreases x@.len() - i,
    {
        if x[i] == c {
            return true;
        }
        i = i + 1;
    }
    false
}

/// Whether `id` is an acceptable user id: not empty and at most 255
/// characters. Beyond that an id is opaque.
pub open spec fn valid_user_id(id: Seq<char>) -> bool {
    &&& id.len() > 0
    &&& id.len() <= MAX_USER_ID_LEN
}

/// Whether the document store accepts `id`: a valid user id that, when it
/// holds an `@`, also holds a `.`.
pub open spec fn valid_document_user_id(id: Seq<char>) -> bool {
    &&& valid_user_id(id)
    &&& id.contains('@') ==> id.contains('.')
}

/// Whether a corpus may be stored.
pub open spec fn valid_corpus(c: MemoryCorpus) -> bool {
    &&& valid_user_id(c.user_id@)
    &&& c.version@.len() > 0
    &&& c.updated_at >= c.created_at
}

/// Whether `r` is a validation error about `field`.
pub open spec fn rejects_field(r: Result<(), MemoryError>, field: Seq<char>) -> bool {
    r matches Err(MemoryError::ValidationError { field: f, .. }) && f@ == field
}

fn rejected(field: &str, reason: &str) -> (r: MemoryError)
    ensures
        r is ValidationError,
        r->ValidationError_field@ == field@,
{
    MemoryError::ValidationError { field: String::from_str(field), reason: String::from_str(reason) }
}

/// Checks a user id: not empty and at most 255 characters.
pub fn check_user_id(user_id: &str) -> (r: Result<(), MemoryError>)
    ensures
        r is Ok <==> valid_user_id(user_id@),
        r is Err ==> rejects_field(r, "user_id"@),
{
    let n = user_id.unicode_len();
    if n == 0 {
        return Err(rejected("user_id", "User ID cannot be empty"));
    }
    if n > MAX_USER_ID_LEN {
        return Err(rejected("user_id", "User ID cannot exceed 255 characters"));
    }
    Ok(())
}

/// Checks a user id for the document store, which also rejects an id that
/// looks like a mail address without a `.`.
pub fn validate_user_id(user_id: &str) -> (r: Result<(), MemoryError>)
    ensures
        r is Ok <==> valid_document_user_id(user_id@),
        r is Err ==> rejects_field(r, "user_id"@),
{
    check_user_id(user_id)?;
    if has_char(user_id, '@') && !has_char(user_id, '.') {
        return Err(rejected("user_id", "Invalid email format"));
    }
    Ok(())
}

/// Checks a corpus before it is stored. The error names the first field
/// that fails: `user_id`, then `version`, then `updated_at`.
pub fn validate_memory_corpus(corpus: &MemoryCorpus) -> (r: Result<(), MemoryError>)
    ensures
        r is Ok <==> valid_corpus(*corpus),
        !valid_user_id(corpus.user_id@) ==> rejects_field(r, "user_id"@),
        valid_user_id(corpus.user_id@) && corpus.version@.len() == 0 ==> rejects_field(r, "version"@),
        valid_user_id(corpus.user_id@) && corpus.version@.len() > 0 && corpus.updated_at
            < corpus.created_at ==> rejects_field(r, "updated_at"@),
{
    check_user_id(corpus.user_id.as_str())?;
    if corpus.version.as_str().unicode_len() == 0 {
        return Err(rejected("version", "Version cannot be empty"));
    }
    if corpus.updated_at < corpus.created_at {
        return Err(rejected("updated_at", "Updated time cannot be before created time"));
    }
    Ok(())
}

/// Checks that a partial update changes something.
pub fn validate_update_count(count: usize) -> (r: Result<(), MemoryError>)
    ensures
        r is Ok <==> count > 0,
        r is Err ==> rejects_field(r, "updates"@),
{
    if count == 0 {
        return Err(rejected("updates", "Updates cannot be empty"));
    }
    Ok(())
}

/// Connection settings of the document-store backend.
#[derive(Debug, Clone, PartialEq, Eq)]
pub struct DatabaseConfig {
    pub url: String,
    pub max_connections: u32,
    /// Seconds.
    pub connect_timeout: u64,
}

/// Whether the connection settings are usable: a `mongodb://` or
/// `mongodb+srv://` URL and a positive pool size.
pub open spec fn valid_database_config(c: DatabaseConfig) -> bool {
    &&& c.url@.len() > 0
    &&& has_prefix(c.url@, "mongodb://"@) || has_prefix(c.url@, "mongodb+srv://"@)
    &&& c.max_connections > 0
}

/// Checks the connection settings of the document-store backend.
pub fn validate_config(config: &DatabaseConfig) -> (r: Result<(), MemoryError>)
    ensures
        r is Ok <==> valid_database_config(*config),
        r is Err ==> r->Err_0 is ConfigurationError,
{
    if config.url.as_str().unicode_len() == 0 {
        return Err(MemoryError::ConfigurationError { field: String::from_str("database.url is empty") });
    }
    if !starts_with(config.url.as_str(), "mongodb://") && !starts_with(
        config.url.as_str(),
        "mongodb+srv://",
    ) {
        return Err(
            MemoryError::ConfigurationError {
                field: String::from_str("database.url must be a valid MongoDB connection string"),
            },
        );
    }
    if config.max_connections == 0 {
        return Err(
            MemoryError::ConfigurationError {
                field: String::from_str("database.max_connections must be greater than 0"),
            },
        );
    }
    Ok(())
}

/// Name for the path component that `url::Url::parse` finds in a URL, or
/// `None` when the text is not a URL.
pub uninterp spec fn url_path_of(s: Seq<char>) -> Option<Seq<char>>;

/// Relies on `url::Url::parse` and `Url::path`: the path component of the
/// URL, or `None` when parsing fails.
#[verifier::external_body]
fn parse_url_path(s: &str) -> (r: Option<String>)
    ensures
        match r {
            Some(p) => url_path_of(s@) == Some(p@),
            None => url_path_of(s@) is None,
        },
{
    url::Url::parse(s).ok().map(|u| u.path().to_string())
}

/// `p` without its leading slashes.
pub open spec fn strip_slashes(p: Seq<char>) -> Seq<char>
    decreases p.len(),
{
    if p.len() > 0 && p[0] == '/' {
        strip_slashes(p.drop_first())
    } else {
        p
    }
}

/// `t` up to its first `?`.
pub open spec fn before_query(t: Seq<char>) -> Seq<char>
    decreases t.len(),
{
    if t.len() == 0 || t[0] == '?' {
        seq![]
    } else {
        seq![t[0]] + before_query(t.drop_first())
    }
}

/// The database that the URL path `p` names: `p` without its leading
/// slashes, cut at the first `?`; `sentio` when nothing remains.
pub open spec fn database_named(p: Seq<char>) -> Seq<char> {
    let t = strip_slashes(p);
    if t.len() == 0 {
        "sentio"@
    } else {
        before_query(t)
    }
}

/// The database that a URL path names.
pub fn database_name_from_path(path: &str) -> (r: String)
    ensures
        r@ == database_named(path@),
{
    let ghost p = path@;
    let n = path.unicode_len();
    let mut l: usize = 0;
    assert(p.skip(0) =~= p);
    loop
        invariant
            n == p.len(),
            p == path@,
            l <= n,
            strip_slashes(p) == strip_slashes(p.skip(l as int)),
        ensures
            l <= n,
            strip_slashes(p) == p.skip(l as int),
        decreases n - l,
    {
        if l == n {
            assert(p.skip(l as int).len() == 0);
            break;
        }
        let c = path.get_char(l);
        if c != '/' {
            assert(p.skip(l as int)[0] == c);
            break;
        }
        assert(p.skip(l as int).drop_first() =~= p.skip(l + 1));
        l = l + 1;
    }
    if l == n {
        proof {
            assert(p.skip(l as int).len() == 0);
        }
        return String::from_str("sentio");
    }
    let mut k: usize = l;
    loop
        invariant
            n == p.len(),
            p == path@,
            l < n,
            l <= k <= n,
            before_query(p.skip(l as int)) == p.subrange(l as int, k as int) + before_query(
                p.skip(k as int),
            ),
        ensures
            l <= k <= n,
            before_query(p.skip(l as int)) == p.subrange(l as int, k as int),
        decreases n - k,
    {
        if k == n {
            assert(p.subrange(l as int, k as int) + before_query(p.skip(k as int)) =~= p.subrange(
                l as int,
                k as int,
            ));
            break;
        }
        let c = path.get_char(k);
        if c == '?' {
            assert(p.skip(k as int)[0] == c);
            assert(p.subrange(l as int, k as int) + before_query(p.skip(k as int)) =~= p.subrange(
                l as int,
                k as int,
            ));
            break;
        }
        proof {
            let t = p.skip(k as int);
            assert(t[0] == c);
            assert(t.drop_first() =~= p.skip(k + 1));
            assert(before_query(t) == seq![c] + before_query(p.skip(k + 1)));
            assert(p.subrange(l as int, k + 1) =~= p.subrange(l as int, k as int) + seq![c]);
            assert(p.subrange(l as int, k as int) + (seq![c] + before_query(p.skip(k + 1))) =~= (
            p.subrange(l as int, k as int) + seq![c]) + before_query(p.skip(k + 1)));
        }
        k = k + 1;
    }
    let name = path.substring_char(l, k);
    String::from_str(name)
}

/// The database that a connection URL names. Fails with a configuration
/// error when the URL cannot be parsed.
pub fn database_name(url: &str) -> (r: Result<String, MemoryError>)
    ensures
        r is Ok <==> url_path_of(url@) is Some,
        r matches Ok(n) ==> n@ == database_named(url_path_of(url@)->Some_0),
        r matches Err(e) ==> e is ConfigurationError,
{
    match parse_url_path(url) {
        Some(p) => Ok(database_name_from_path(p.as_str())),
        None => Err(
            MemoryError::ConfigurationError { field: String::from_str("Invalid MongoDB URL format") },
        ),
    }
}

} // verus!
