//! Credentials that a repository URL carries: taking them out of the URL
//! before it is written down, and keeping them by repository for later use.

use vstd::prelude::*;
use crate::source::{copy_opt_text, copy_text, opt_text, Source, SourceView};

verus! {

/// A user name, a password, or both.
#[derive(Debug, Clone, PartialEq, Eq)]
pub struct Credentials {
    pub username: Option<String>,
    pub password: Option<String>,
}

/// The mathematical value of [`Credentials`].
pub ghost struct CredentialsView {
    pub username: Option<Seq<char>>,
    pub password: Option<Seq<char>>,
}

impl View for Credentials {
    type V = CredentialsView;

    open spec fn view(&self) -> CredentialsView {
        CredentialsView { username: opt_text(self.username), password: opt_text(self.password) }
    }
}

impl Credentials {
    /// A copy with the same value.
    pub fn duplicate(&self) -> (copy: Credentials)
        ensures
            copy@ == self@,
    {
        Credentials {
            username: copy_opt_text(&self.username),
            password: copy_opt_text(&self.password),
        }
    }
}

/// The user name and the password in the userinfo part of `url`, as the URL
/// holds them; `None` where `url` is not accepted as a URL.
pub uninterp spec fn url_userinfo(url: Seq<char>) -> Option<(Seq<char>, Option<Seq<char>>)>;

/// The text of `url` after its credentials were removed; `None` where `url` is
/// not accepted as a URL.
pub uninterp spec fn url_without_credentials(url: Seq<char>) -> Option<Seq<char>>;

/// The scheme and the path of `url`, as the URL holds them once it is
/// parsed; `None` where `url` is not accepted as a URL.
pub uninterp spec fn url_location(url: Seq<char>) -> Option<(Seq<char>, Seq<char>)>;

/// Whether a path holds two slashes in a row.
pub open spec fn has_empty_segment(path: Seq<char>) -> bool {
    exists|i: int| 0 <= i && i + 1 < path.len() && #[trigger] path[i] == '/' && path[i + 1] == '/'
}

/// Whether a URL of this scheme and path is reduced to a repository key: any
/// but a `file` URL, a path with a backslash and a path with two slashes in
/// a row.
pub open spec fn may_normalize(location: Option<(Seq<char>, Seq<char>)>) -> bool {
    location matches Some((scheme, path)) && scheme != "file"@ && !path.contains('\\')
        && !has_empty_segment(path)
}

/// The value of an optional pair of scheme and path.
pub open spec fn location_view(location: Option<(String, String)>) -> Option<
    (Seq<char>, Seq<char>),
> {
    match location {
        Some((scheme, path)) => Some((scheme@, path@)),
        None => None,
    }
}

/// The value of an optional pair of user name and password.
pub open spec fn userinfo_view(info: Option<(String, Option<String>)>) -> Option<
    (Seq<char>, Option<Seq<char>>),
> {
    match info {
        Some((username, password)) => Some((username@, opt_text(password))),
        None => None,
    }
}

/// Reads the userinfo part of a URL.
///
/// Trusted: parses with `uv_redacted::DisplaySafeUrl::parse` and hands out
/// what `url::Url::username` and `url::Url::password` return for it. The
/// contract only names that result.
#[verifier::external_body]
fn read_userinfo(url: &str) -> (info: Option<(String, Option<String>)>)
    ensures
        userinfo_view(info) == url_userinfo(url@),
{
    let parsed = uv_redacted::DisplaySafeUrl::parse(url).ok()?;
    Some((parsed.username().to_string(), parsed.password().map(|password| password.to_string())))
}

/// Removes the credentials from a URL.
///
/// Trusted: parses with `uv_redacted::DisplaySafeUrl::parse`, calls
/// `DisplaySafeUrl::remove_credentials` and hands out the URL's text. The
/// contract only names that result.
#[verifier::external_body]
fn strip_credentials(url: &str) -> (stripped: Option<String>)
    ensures
        opt_text(stripped) == url_without_credentials(url@),
{
    let mut parsed = uv_redacted::DisplaySafeUrl::parse(url).ok()?;
    parsed.remove_credentials();
    Some(parsed.as_str().to_string())
}

/// Reads the scheme and the path of a URL.
///
/// Trusted: parses with `uv_redacted::DisplaySafeUrl::parse` and hands out
/// what `url::Url::scheme` and `url::Url::path` return for it. The contract
/// only names that result.
#[verifier::external_body]
fn read_location(url: &str) -> (location: Option<(String, String)>)
    ensures
        location_view(location) == url_location(url@),
{
    let parsed = uv_redacted::DisplaySafeUrl::parse(url).ok()?;
    Some((parsed.scheme().to_string(), parsed.path().to_string()))
}

/// Reduces a URL to the text that identifies its repository.
///
/// Trusted: this is `uv_cache_key::RepositoryUrl::parse`, followed by the text
/// of the URL that it holds. Of the result only this is claimed, that
/// there is one for a text that parses as a URL, as every text does that
/// `requires` admits; the text itself goes through `std::path::Path`, which
/// reads a path as its system does. The function unwraps `Url::set_scheme`, which fails on a `file` URL with a
/// host, and cuts four bytes off the last segment of a path that `Path`
/// takes to end in `.git`, which fails where that segment is empty;
/// `requires` leaves `file` URLs and paths with an empty segment out.
#[verifier::external_body]
fn normalize_repository(url: &str) -> (key: Option<String>)
    requires
        may_normalize(url_location(url@)),
    ensures
        key is Some,
{
    let repository = uv_cache_key::RepositoryUrl::parse(url).ok()?;
    Some(repository.as_str().to_string())
}

/// Whether a path holds a backslash or two slashes in a row.
fn is_irregular(path: &str) -> (irregular: bool)
    ensures
        irregular == (path@.contains('\\') || has_empty_segment(path@)),
{
    let count: usize = path.unicode_len();
    let mut i: usize = 0;
    let mut after_slash: bool = false;
    while i < count
        invariant
            i <= count,
            count == path@.len(),
            after_slash == (i > 0 && path@[i - 1] == '/'),
            forall|k: int| 0 <= k < i ==> path@[k] != '\\',
            forall|k: int| 0 <= k && k + 1 < i ==> !(#[trigger] path@[k] == '/' && path@[k + 1] == '/'),
        decreases count - i,
    {
        let character: char = path.get_char(i);
        if character == '\\' {
            assert(path@.contains('\\'));
            return true;
        }
        if character == '/' && after_slash {
            assert(path@[i - 1] == '/' && path@[i as int] == '/');
            return true;
        }
        after_slash = character == '/';
        i = i + 1;
    }
    false
}

/// Whether `key` may be the text under which the credentials of the
/// repository behind `url` are kept: some text, for a URL that is reduced to
/// a repository key; for any other URL, the URL without its credentials.
pub open spec fn is_key(url: Seq<char>, key: Option<Seq<char>>) -> bool {
    if may_normalize(url_location(url)) {
        key is Some
    } else {
        key == url_without_credentials(url)
    }
}

/// The text under which the credentials of the repository behind `url` are
/// kept: the URL reduced to its repository, and the URL without its
/// credentials where it cannot be reduced; none for what is no URL.
pub fn read_repository_key(url: &str) -> (key: Option<String>)
    ensures
        is_key(url@, opt_text(key)),
{
    let reduced = match read_location(url) {
        Some((scheme, path)) => !(scheme == String::from_str("file")) && !is_irregular(
            path.as_str(),
        ),
        None => false,
    };
    if reduced {
        normalize_repository(url)
    } else {
        strip_credentials(url)
    }
}

/// The credentials that a userinfo part stands for: none where both the user
/// name is empty and the password is missing; else the user name, unless it is
/// empty, and the password.
pub open spec fn credentials_of(username: Seq<char>, password: Option<Seq<char>>) -> Option<
    CredentialsView,
> {
    if username.len() == 0 && password is None {
        None
    } else {
        Some(
            CredentialsView {
                username: if username.len() == 0 {
                    None
                } else {
                    Some(username)
                },
                password,
            },
        )
    }
}

/// The value of optional credentials.
pub open spec fn opt_credentials(value: Option<Credentials>) -> Option<CredentialsView> {
    match value {
        Some(credentials) => Some(credentials@),
        None => None,
    }
}

/// The credentials that a userinfo part stands for.
pub fn credentials_from_userinfo(username: String, password: Option<String>) -> (found: Option<
    Credentials,
>)
    ensures
        opt_credentials(found) == credentials_of(username@, opt_text(password)),
{
    let named: bool = username.as_str().unicode_len() > 0;
    if !named && password.is_none() {
        None
    } else if named {
        Some(Credentials { username: Some(username), password })
    } else {
        Some(Credentials { username: None, password })
    }
}

/// One repository and the credentials kept for it.
#[derive(Debug, Clone, PartialEq, Eq)]
pub struct CredentialEntry {
    pub key: String,
    pub credentials: Credentials,
}

/// The credentials kept during one invocation, by repository. An entry is
/// written when a repository is first seen and is never replaced.
pub struct CredentialStore {
    entries: Vec<CredentialEntry>,
}

/// The value of a store: its entries, oldest first, each a repository key and
/// its credentials.
pub open spec fn entry_views(entries: Seq<CredentialEntry>) -> Seq<(Seq<char>, CredentialsView)> {
    Seq::new(entries.len(), |i: int| (entries[i].key@, entries[i].credentials@))
}

/// No repository occurs twice.
pub open spec fn distinct_keys(entries: Seq<(Seq<char>, CredentialsView)>) -> bool {
    forall|i: int, j: int|
        0 <= i < j < entries.len() ==> (#[trigger] entries[i]).0 != (#[trigger] entries[j]).0
}

/// The credentials kept for `key`, if any.
pub open spec fn kept_for(entries: Seq<(Seq<char>, CredentialsView)>, key: Seq<char>) -> Option<
    CredentialsView,
>
    decreases entries.len(),
{
    if entries.len() == 0 {
        None
    } else if entries[0].0 == key {
        Some(entries[0].1)
    } else {
        kept_for(entries.skip(1), key)
    }
}

/// The store after `credentials` were offered for `key`: unchanged where the
/// key is known, else with one more entry.
pub open spec fn offered(
    entries: Seq<(Seq<char>, CredentialsView)>,
    key: Seq<char>,
    credentials: CredentialsView,
) -> Seq<(Seq<char>, CredentialsView)> {
    if kept_for(entries, key) is Some {
        entries
    } else {
        entries.push((key, credentials))
    }
}

/// The first entry that holds a key gives the credentials kept for it.
pub proof fn lemma_kept_at(entries: Seq<(Seq<char>, CredentialsView)>, key: Seq<char>, at: int)
    requires
        0 <= at < entries.len(),
        entries[at].0 == key,
        forall|j: int| 0 <= j < at ==> (#[trigger] entries[j]).0 != key,
    ensures
        kept_for(entries, key) == Some(entries[at].1),
    decreases at,
{
    if at > 0 {
        let rest = entries.skip(1);
        assert(entries[0].0 != key);
        assert(rest[at - 1] == entries[at]);
        assert forall|j: int| 0 <= j < at - 1 implies (#[trigger] rest[j]).0 != key by {
            assert(rest[j] == entries[j + 1]);
        }
        lemma_kept_at(rest, key, at - 1);
    }
}

/// A key that no entry holds has no credentials.
pub proof fn lemma_kept_nowhere(entries: Seq<(Seq<char>, CredentialsView)>, key: Seq<char>)
    requires
        forall|j: int| 0 <= j < entries.len() ==> (#[trigger] entries[j]).0 != key,
    ensures
        kept_for(entries, key) is None,
    decreases entries.len(),
{
    if entries.len() > 0 {
        let rest = entries.skip(1);
        assert(entries[0].0 != key);
        assert forall|j: int| 0 <= j < rest.len() implies (#[trigger] rest[j]).0 != key by {
            assert(rest[j] == entries[j + 1]);
        }
        lemma_kept_nowhere(rest, key);
    }
}

/// A key without credentials is held by no entry.
pub proof fn lemma_kept_none(entries: Seq<(Seq<char>, CredentialsView)>, key: Seq<char>, at: int)
    requires
        kept_for(entries, key) is None,
        0 <= at < entries.len(),
    ensures
        entries[at].0 != key,
    decreases at,
{
    if at > 0 {
        let rest = entries.skip(1);
        assert(rest[at - 1] == entries[at]);
        lemma_kept_none(rest, key, at - 1);
    }
}

impl CredentialStore {
    /// No repository occurs twice in the store.
    pub closed spec fn wf(&self) -> bool {
        distinct_keys(entry_views(self.entries@))
    }

    /// The entries of the store, oldest first.
    pub closed spec fn view(&self) -> Seq<(Seq<char>, CredentialsView)> {
        entry_views(self.entries@)
    }

    /// An empty store.
    pub fn new() -> (store: CredentialStore)
        ensures
            store.wf(),
            store@ == Seq::<(Seq<char>, CredentialsView)>::empty(),
    {
        let store = CredentialStore { entries: Vec::new() };
        assert(store@ =~= Seq::<(Seq<char>, CredentialsView)>::empty());
        store
    }

    /// How many repositories have credentials.
    pub fn len(&self) -> (count: usize)
        ensures
            count == self@.len(),
    {
        self.entries.len()
    }

    /// The credentials kept for the repository `key`; a miss means that none
    /// are to be used.
    pub fn get(&self, key: &String) -> (found: Option<Credentials>)
        ensures
            opt_credentials(found) == kept_for(self@, key@),
    {
        let mut i: usize = 0;
        while i < self.entries.len()
            invariant
                i <= self.entries.len(),
                forall|k: int| 0 <= k < i ==> (#[trigger] self@[k]).0 != key@,
            decreases self.entries.len() - i,
        {
            if self.entries[i].key == *key {
                proof {
                    assert(self@[i as int].0 == key@);
                    lemma_kept_at(self@, key@, i as int);
                }
                return Some(self.entries[i].credentials.duplicate());
            }
            assert(self@[i as int].0 != key@);
            i = i + 1;
        }
        proof {
            lemma_kept_nowhere(self@, key@);
        }
        None
    }

    /// Keeps `credentials` for the repository `key`, unless the store holds
    /// credentials for it already. Tells whether the entry was written.
    pub fn insert(&mut self, key: String, credentials: Credentials) -> (written: bool)
        requires
            old(self).wf(),
        ensures
            final(self).wf(),
            final(self)@ == offered(old(self)@, key@, credentials@),
            written == (kept_for(old(self)@, key@) is None),
    {
        let found = self.get(&key);
        if found.is_some() {
            return false;
        }
        proof {
            let pushed = self@.push((key@, credentials@));
            assert forall|i: int, j: int| 0 <= i < j < pushed.len() implies (#[trigger] pushed[i]).0
                != (#[trigger] pushed[j]).0 by {
                if j < self@.len() {
                    assert(pushed[i] == self@[i] && pushed[j] == self@[j]);
                } else {
                    assert(pushed[i] == self@[i]);
                    lemma_kept_none(self@, key@, i);
                }
            }
            assert(entry_views(self.entries@.push(CredentialEntry { key, credentials })) =~= pushed);
        }
        self.entries.push(CredentialEntry { key, credentials });
        true
    }
}

/// What taking the credentials out of `url` comes to, from the three readings
/// of the URL: the text to write down, and the entry to offer to the store.
///
/// A URL that carries credentials is written down without them wherever its
/// text without credentials is known, and its credentials are offered to the
/// store wherever its repository key is known. A URL without credentials
/// stays as it is and offers nothing.
pub open spec fn extraction(
    url: Seq<char>,
    userinfo: Option<(Seq<char>, Option<Seq<char>>)>,
    key: Option<Seq<char>>,
    stripped: Option<Seq<char>>,
) -> (Seq<char>, Option<(Seq<char>, CredentialsView)>) {
    match userinfo {
        Some((username, password)) => match credentials_of(username, password) {
            Some(credentials) => (
                match stripped {
                    Some(clean) => clean,
                    None => url,
                },
                match key {
                    Some(repository) => Some((repository, credentials)),
                    None => None,
                },
            ),
            None => (url, None),
        },
        None => (url, None),
    }
}

/// The text of `url` to write down: without its credentials, where it
/// carries some.
pub open spec fn redacted(url: Seq<char>) -> Seq<char> {
    extraction(url, url_userinfo(url), None, url_without_credentials(url)).0
}

/// The store after the credentials of `url` were offered to it under the
/// repository key `key`.
pub open spec fn store_with(
    entries: Seq<(Seq<char>, CredentialsView)>,
    url: Seq<char>,
    key: Option<Seq<char>>,
) -> Seq<(Seq<char>, CredentialsView)> {
    store_after(entries, extraction(url, url_userinfo(url), key, url_without_credentials(url)).1)
}

/// The store after an extraction's entry, if any, was offered to it.
pub open spec fn store_after(
    entries: Seq<(Seq<char>, CredentialsView)>,
    entry: Option<(Seq<char>, CredentialsView)>,
) -> Seq<(Seq<char>, CredentialsView)> {
    match entry {
        Some((key, credentials)) => offered(entries, key, credentials),
        None => entries,
    }
}

/// Takes the credentials out of `url`, given the three readings of the URL:
/// keeps them in `store` under the repository's key and returns the URL to
/// write down.
pub fn extract_with(
    store: &mut CredentialStore,
    url: &String,
    userinfo: Option<(String, Option<String>)>,
    key: Option<String>,
    stripped: Option<String>,
) -> (clean: String)
    requires
        old(store).wf(),
    ensures
        final(store).wf(),
        clean@ == extraction(url@, userinfo_view(userinfo), opt_text(key), opt_text(stripped)).0,
        final(store)@ == store_after(
            old(store)@,
            extraction(url@, userinfo_view(userinfo), opt_text(key), opt_text(stripped)).1,
        ),
{
    match userinfo {
        Some((username, password)) => {
            match credentials_from_userinfo(username, password) {
                Some(credentials) => {
                    match key {
                        Some(repository) => {
                            store.insert(repository, credentials);
                        },
                        None => {},
                    }
                    match stripped {
                        Some(clean) => clean,
                        None => copy_text(url),
                    }
                },
                None => copy_text(url),
            }
        },
        None => copy_text(url),
    }
}

/// Takes the credentials out of `url`: where the URL carries some, they are
/// kept in `store` under the repository's key, unless that repository has
/// credentials already, and the URL is returned without them. Any other URL
/// is returned as it is.
pub fn extract_and_cache(store: &mut CredentialStore, url: &String) -> (clean: String)
    requires
        old(store).wf(),
    ensures
        final(store).wf(),
        clean@ == redacted(url@),
        exists|key: Option<Seq<char>>|
            is_key(url@, key) && final(store)@ == #[trigger] store_with(old(store)@, url@, key),
{
    let userinfo = read_userinfo(url.as_str());
    let key = read_repository_key(url.as_str());
    let stripped = strip_credentials(url.as_str());
    let ghost used = opt_text(key);
    let clean = extract_with(store, url, userinfo, key, stripped);
    assert(store@ == store_with(old(store)@, url@, used));
    clean
}

/// A URL with credentials that is reduced to a repository key leaves its
/// credentials in the store: under some key, unless that key has credentials
/// already.
pub proof fn lemma_credentials_enter_the_store(
    before: Seq<(Seq<char>, CredentialsView)>,
    url: Seq<char>,
    key: Option<Seq<char>>,
)
    requires
        is_key(url, key),
        may_normalize(url_location(url)),
        url_userinfo(url) matches Some((username, password)) && credentials_of(username, password)
            is Some,
    ensures
        store_with(before, url, key) == offered(
            before,
            key->Some_0,
            credentials_of(url_userinfo(url)->Some_0.0, url_userinfo(url)->Some_0.1)->Some_0,
        ),
{
}

/// Keeps the credentials that an index URL carries, given the readings of the
/// URL, and leaves the URL alone. Tells whether an entry was written.
pub fn store_from_index_url_with(
    store: &mut CredentialStore,
    userinfo: Option<(String, Option<String>)>,
    key: Option<String>,
) -> (written: bool)
    requires
        old(store).wf(),
    ensures
        final(store).wf(),
        final(store)@ == store_after(old(store)@, index_entry(userinfo_view(userinfo), opt_text(key))),
        written == (index_entry(userinfo_view(userinfo), opt_text(key)) matches Some((name, _))
            && kept_for(old(store)@, name) is None),
{
    match userinfo {
        Some((username, password)) => {
            match credentials_from_userinfo(username, password) {
                Some(credentials) => {
                    match key {
                        Some(key) => store.insert(key, credentials),
                        None => false,
                    }
                },
                None => false,
            }
        },
        None => false,
    }
}

/// The entry that an index URL offers to the store, from two readings of the
/// URL: its credentials under its repository key, where it has both.
pub open spec fn index_entry(
    userinfo: Option<(Seq<char>, Option<Seq<char>>)>,
    key: Option<Seq<char>>,
) -> Option<(Seq<char>, CredentialsView)> {
    match userinfo {
        Some((username, password)) => match credentials_of(username, password) {
            Some(credentials) => match key {
                Some(key) => Some((key, credentials)),
                None => None,
            },
            None => None,
        },
        None => None,
    }
}

/// Keeps the credentials that the index URL `url` carries, so that later
/// requests can find them by repository. Tells whether an entry was written.
pub fn store_from_index_url(store: &mut CredentialStore, url: &String) -> (written: bool)
    requires
        old(store).wf(),
    ensures
        final(store).wf(),
        exists|key: Option<Seq<char>>|
            {
                &&& is_key(url@, key)
                &&& final(store)@ == #[trigger] store_after(
                    old(store)@,
                    index_entry(url_userinfo(url@), key),
                )
                &&& written == (index_entry(url_userinfo(url@), key) matches Some((name, _))
                    && kept_for(old(store)@, name) is None)
            },
{
    let userinfo = read_userinfo(url.as_str());
    let key = read_repository_key(url.as_str());
    let ghost used = opt_text(key);
    let written = store_from_index_url_with(store, userinfo, key);
    assert(store@ == store_after(old(store)@, index_entry(url_userinfo(url@), used)));
    written
}

/// The source with the credentials of its Git URL taken out, given the clean
/// URL; any other source is unchanged.
pub open spec fn with_git_url(source: SourceView, clean: Seq<char>) -> SourceView {
    match source {
        SourceView::Git { url, subdirectory, rev, tag, branch } => SourceView::Git {
            url: clean,
            subdirectory,
            rev,
            tag,
            branch,
        },
        _ => source,
    }
}

/// The Git URL of a source, if it is a Git source.
pub open spec fn git_url(source: SourceView) -> Option<Seq<char>> {
    match source {
        SourceView::Git { url, .. } => Some(url),
        _ => None,
    }
}

/// A source as the manifest records it: a Git source without the
/// credentials of its URL, any other source as it is.
pub open spec fn recorded(source: SourceView) -> SourceView {
    match git_url(source) {
        Some(url) => with_git_url(source, redacted(url)),
        None => source,
    }
}

/// The store after the credentials of a source were offered to it under the
/// repository key `key`: those of the URL of a Git source; no others.
pub open spec fn store_with_source(
    entries: Seq<(Seq<char>, CredentialsView)>,
    source: SourceView,
    key: Option<Seq<char>>,
) -> Seq<(Seq<char>, CredentialsView)> {
    match git_url(source) {
        Some(url) => store_with(entries, url, key),
        None => entries,
    }
}

/// Whether `key` may be the text under which the credentials of a source are
/// kept: a key of the URL of a Git source; any other source has none.
pub open spec fn is_source_key(source: SourceView, key: Option<Seq<char>>) -> bool {
    match git_url(source) {
        Some(url) => is_key(url, key),
        None => key is None,
    }
}

/// Takes the credentials out of a Git source's URL and keeps them in `store`;
/// a source of any other kind passes through, and the store with it.
pub fn redact_source(store: &mut CredentialStore, source: Source) -> (clean: Source)
    requires
        old(store).wf(),
    ensures
        final(store).wf(),
        clean@ == recorded(source@),
        exists|key: Option<Seq<char>>|
            is_source_key(source@, key) && final(store)@ == #[trigger] store_with_source(
                old(store)@,
                source@,
                key,
            ),
{
    match source {
        Source::Git { url, subdirectory, rev, tag, branch } => {
            let clean = extract_and_cache(store, &url);
            proof {
                let key = choose|key: Option<Seq<char>>|
                    is_key(url@, key) && store@ == #[trigger] store_with(old(store)@, url@, key);
                assert(store@ == store_with_source(old(store)@, source@, key));
            }
            Source::Git { url: clean, subdirectory, rev, tag, branch }
        },
        other => {
            assert(store@ == store_with_source(old(store)@, other@, None));
            other
        },
    }
}

/// Offering credentials for a repository never changes what the store keeps
/// for any repository that it knew, and afterwards the repository has
/// credentials: those it had, or else those offered.
pub proof fn lemma_offer_is_write_once(
    entries: Seq<(Seq<char>, CredentialsView)>,
    key: Seq<char>,
    credentials: CredentialsView,
    other: Seq<char>,
)
    ensures
        kept_for(entries, other) is Some ==> kept_for(offered(entries, key, credentials), other)
            == kept_for(entries, other),
        kept_for(offered(entries, key, credentials), key) == (if kept_for(entries, key) is Some {
            kept_for(entries, key)
        } else {
            Some(credentials)
        }),
    decreases entries.len(),
{
    if kept_for(entries, key) is None {
        let pushed = entries.push((key, credentials));
        if entries.len() > 0 {
            assert(pushed.skip(1) =~= entries.skip(1).push((key, credentials)));
            lemma_offer_is_write_once(entries.skip(1), key, credentials, other);
        } else {
            assert(pushed.skip(1) =~= Seq::<(Seq<char>, CredentialsView)>::empty());
        }
    }
}

} // verus!
