//! Which credentials are offered to a git server that asks for some.

use vstd::prelude::*;

use crate::config::Config;
use crate::text::{
    characters, find_from, lemma_position_is_the_first, lemma_position_of_tail, part,
    position_from, same_text,
};

verus! {

/// The kinds of credentials that a server takes.
#[derive(Debug, Clone, Copy, PartialEq, Eq, Structural)]
pub struct Allowed {
    pub username: bool,
    pub ssh_key: bool,
    pub user_pass_plaintext: bool,
}

/// Credentials to offer.
#[derive(Debug)]
pub enum Credential {
    Username { username: String },
    SshKey { username: String, path: String, passphrase: String },
    UserPassPlaintext { username: String, password: String },
}

/// Credentials to offer, as text.
pub enum CredentialView {
    Username { username: Seq<char> },
    SshKey { username: Seq<char>, path: Seq<char>, passphrase: Seq<char> },
    UserPassPlaintext { username: Seq<char>, password: Seq<char> },
}

impl View for Credential {
    type V = CredentialView;

    open spec fn view(&self) -> CredentialView {
        match self {
            Credential::Username { username } => CredentialView::Username { username: username@ },
            Credential::SshKey { username, path, passphrase } => CredentialView::SshKey {
                username: username@,
                path: path@,
                passphrase: passphrase@,
            },
            Credential::UserPassPlaintext { username, password } =>
                CredentialView::UserPassPlaintext { username: username@, password: password@ },
        }
    }
}

/// What is offered during one fetch: the key and the token, and whether each was
/// tried.
#[derive(Debug)]
pub struct CredentialChooser {
    pub private_key: Option<(String, String)>,
    pub github_token: Option<String>,
    pub tried_ssh: bool,
    pub tried_userpass: bool,
}

/// What is offered during one fetch, as text.
pub struct ChooserView {
    pub private_key: Option<(Seq<char>, Seq<char>)>,
    pub github_token: Option<Seq<char>>,
    pub tried_ssh: bool,
    pub tried_userpass: bool,
}

impl View for CredentialChooser {
    type V = ChooserView;

    open spec fn view(&self) -> ChooserView {
        ChooserView {
            private_key: match self.private_key {
                Some((path, passphrase)) => Some((path@, passphrase@)),
                None => None,
            },
            github_token: match self.github_token {
                Some(token) => Some(token@),
                None => None,
            },
            tried_ssh: self.tried_ssh,
            tried_userpass: self.tried_userpass,
        }
    }
}

/// A character of a URL's scheme.
pub open spec fn is_scheme_char(c: char) -> bool {
    'a' <= c <= 'z' || 'A' <= c <= 'Z' || '0' <= c <= '9' || c == '+' || c == '-' || c == '.'
}

/// A character that ends the authority of a URL.
pub open spec fn ends_authority(c: char) -> bool {
    c == '/' || c == '?' || c == '#'
}

/// What follows `://` in a URL, up to the path, the query or the fragment;
/// nothing where the URL does not begin with a scheme and `://`.
pub open spec fn url_authority(url: Seq<char>) -> Option<Seq<char>> {
    let colon = position_from(url, ':', 0);
    let start = colon + 3;
    if start <= url.len() && url[colon + 1] == '/' && url[colon + 2] == '/' && forall|i: int|
        0 <= i < colon ==> is_scheme_char(#[trigger] url[i]) {
        Some(url.subrange(start, authority_end(url, start)))
    } else {
        None
    }
}

/// Where the authority that begins at `from` ends.
pub open spec fn authority_end(url: Seq<char>, from: int) -> int
    decreases url.len() - from,
{
    if from >= url.len() {
        url.len() as int
    } else if ends_authority(url[from]) {
        from
    } else {
        authority_end(url, from + 1)
    }
}

/// A text without what stands before its last `@`, and without that.
pub open spec fn without_userinfo(authority: Seq<char>) -> Seq<char>
    decreases authority.len(),
{
    let at = position_from(authority, '@', 0);
    if 0 <= at < authority.len() {
        without_userinfo(authority.skip(at + 1))
    } else {
        authority
    }
}

/// The host in an authority: what follows any user information, up to the port.
pub open spec fn authority_host(authority: Seq<char>) -> Seq<char> {
    let host = without_userinfo(authority);
    host.take(position_from(host, ':', 0))
}

/// What stands before the first `:` of a URL without a scheme, such as
/// `git@host:path`; nothing where there is none, or a `/` stands before it.
pub open spec fn scp_authority(url: Seq<char>) -> Option<Seq<char>> {
    let colon = position_from(url, ':', 0);
    if colon < url.len() && forall|i: int| 0 <= i < colon ==> #[trigger] url[i] != '/' {
        Some(url.take(colon))
    } else {
        None
    }
}

/// The host of a URL: what follows `://` and any user information, up to the
/// port, the path, the query or the fragment; without a scheme, what follows any
/// user information, up to the `:` before the path.
pub open spec fn url_host(url: Seq<char>) -> Option<Seq<char>> {
    match url_authority(url) {
        Some(authority) => Some(authority_host(authority)),
        None => match scp_authority(url) {
            Some(authority) => Some(authority_host(authority)),
            None => None,
        },
    }
}

/// Whether a URL has this host.
fn has_host(url: &str, host: &str) -> (has: bool)
    ensures
        has == (url_host(url@) == Some(host@)),
{
    let chars = characters(url);
    let colon = find_from(&chars, ':', 0);
    if colon >= chars.len() {
        return false;
    }
    let authority = if has_scheme(&chars, colon) {
        let start: usize = colon + 3;
        let mut end: usize = start;
        while end < chars.len() && chars[end] != '/' && chars[end] != '?' && chars[end] != '#'
            invariant
                start <= end <= chars.len(),
                chars@ == url@,
                authority_end(url@, start as int) == authority_end(url@, end as int),
            decreases chars.len() - end,
        {
            end = end + 1;
        }
        part(url, start, end)
    } else {
        let mut i: usize = 0;
        while i < colon
            invariant
                i <= colon < chars.len(),
                chars@ == url@,
                colon == position_from(url@, ':', 0),
                url_authority(url@) is None,
                forall|j: int| 0 <= j < i ==> #[trigger] url@[j] != '/',
            decreases colon - i,
        {
            if chars[i] == '/' {
                assert(url@[i as int] == '/');
                return false;
            }
            i = i + 1;
        }
        part(url, 0, colon)
    };
    let name = host_of(authority.as_str());
    same_text(name.as_str(), host)
}

/// Whether the text begins with a scheme and `://`.
fn has_scheme(chars: &Vec<char>, colon: usize) -> (has: bool)
    requires
        colon == position_from(chars@, ':', 0),
        colon < chars@.len(),
    ensures
        has == (url_authority(chars@) is Some),
{
    if chars.len() - colon < 3 || chars[colon + 1] != '/' || chars[colon + 2] != '/' {
        return false;
    }
    let mut i: usize = 0;
    while i < colon
        invariant
            i <= colon < chars.len(),
            colon == position_from(chars@, ':', 0),
            forall|j: int| 0 <= j < i ==> is_scheme_char(#[trigger] chars@[j]),
        decreases colon - i,
    {
        let c = chars[i];
        if !(('a' <= c && c <= 'z') || ('A' <= c && c <= 'Z') || ('0' <= c && c <= '9') || c == '+'
            || c == '-' || c == '.') {
            assert(!is_scheme_char(chars@[i as int]));
            return false;
        }
        i = i + 1;
    }
    true
}

/// The host in the authority of a URL.
fn host_of(authority: &str) -> (host: String)
    ensures
        host@ == authority_host(authority@),
{
    let chars = characters(authority);
    let mut start: usize = 0;
    assert(authority@.skip(0) == authority@);
    loop
        invariant
            start <= chars@.len(),
            chars@ == authority@,
            without_userinfo(authority@) == without_userinfo(authority@.skip(start as int)),
        ensures
            start <= chars@.len(),
            without_userinfo(authority@) == authority@.skip(start as int),
        decreases chars@.len() - start,
    {
        let at = find_from(&chars, '@', start);
        proof {
            lemma_position_of_tail(authority@, '@', start as int, 0);
        }
        if at >= chars.len() {
            break ;
        }
        assert(authority@.skip(start as int).skip(at - start + 1) == authority@.skip(at + 1));
        start = at + 1;
    }
    let end = find_from(&chars, ':', start);
    proof {
        lemma_position_of_tail(authority@, ':', start as int, 0);
    }
    assert(authority@.subrange(start as int, end as int) == authority@.skip(start as int).take(
        end - start,
    ));
    part(authority, start, end)
}

/// The user that the server asks about, `git` if it names none.
pub open spec fn user_or_git(username: Option<Seq<char>>) -> Seq<char> {
    match username {
        Some(name) => name,
        None => "git"@,
    }
}

impl ChooserView {
    /// This request has the key tried.
    pub open spec fn turns_to_ssh(self, allowed: Allowed) -> bool {
        !allowed.username && allowed.ssh_key && !self.tried_ssh
    }

    /// This request has the key offered.
    pub open spec fn offers_ssh(self, allowed: Allowed) -> bool {
        self.turns_to_ssh(allowed) && self.private_key is Some
    }

    /// This request has the token tried.
    pub open spec fn turns_to_userpass(self, url: Seq<char>, allowed: Allowed) -> bool {
        &&& !allowed.username
        &&& !self.offers_ssh(allowed)
        &&& allowed.user_pass_plaintext
        &&& !self.tried_userpass
        &&& url_host(url) == Some("github.com"@)
    }

    /// What is offered: a user name where one is asked for, else the key unless
    /// it was tried, else the token unless it was tried, and that to the host of
    /// GitHub only.
    pub open spec fn offer(
        self,
        url: Seq<char>,
        username: Option<Seq<char>>,
        allowed: Allowed,
    ) -> Option<CredentialView> {
        if allowed.username {
            Some(CredentialView::Username { username: user_or_git(username) })
        } else if self.offers_ssh(allowed) {
            Some(
                CredentialView::SshKey {
                    username: user_or_git(username),
                    path: self.private_key.unwrap().0,
                    passphrase: self.private_key.unwrap().1,
                },
            )
        } else if self.turns_to_userpass(url, allowed) && self.github_token is Some {
            Some(
                CredentialView::UserPassPlaintext {
                    username: "x-access-token"@,
                    password: self.github_token.unwrap(),
                },
            )
        } else {
            None
        }
    }

    /// What was tried once an offer is made.
    pub open spec fn after_offer(self, url: Seq<char>, allowed: Allowed) -> ChooserView {
        ChooserView {
            tried_ssh: self.tried_ssh || self.turns_to_ssh(allowed),
            tried_userpass: self.tried_userpass || self.turns_to_userpass(url, allowed),
            ..self
        }
    }
}

impl CredentialChooser {
    /// What is offered during one fetch under a configuration.
    pub fn new(config: &Config) -> (chooser: CredentialChooser)
        ensures
            chooser@ == (ChooserView {
                private_key: match config.private_key {
                    Some(key) => Some((key.path@, key.secret@)),
                    None => None,
                },
                github_token: match config.github_token {
                    Some(token) => Some(token@),
                    None => None,
                },
                tried_ssh: false,
                tried_userpass: false,
            }),
    {
        let private_key = match &config.private_key {
            Some(key) => Some((key.path.clone(), key.passphrase().clone())),
            None => None,
        };
        CredentialChooser {
            private_key,
            github_token: config.github_token.clone(),
            tried_ssh: false,
            tried_userpass: false,
        }
    }

    /// What to offer to a server that asks for credentials; nothing where none
    /// are left.
    pub fn offer(&mut self, url: &str, username: Option<&str>, allowed: Allowed) -> (credential:
        Option<Credential>)
        ensures
            final(self)@ == old(self)@.after_offer(url@, allowed),
            match (
                credential,
                old(self)@.offer(
                    url@,
                    match username {
                        Some(name) => Some(name@),
                        None => None,
                    },
                    allowed,
                ),
            ) {
                (Some(c), Some(expected)) => c@ == expected,
                (None, None) => true,
                _ => false,
            },
    {
        let user: String = match username {
            Some(name) => name.to_owned(),
            None => "git".to_owned(),
        };
        // A server may ask for the name before it asks for the key.
        if allowed.username {
            return Some(Credential::Username { username: user });
        }
        if allowed.ssh_key && !self.tried_ssh {
            self.tried_ssh = true;
            if let Some((path, passphrase)) = &self.private_key {
                return Some(
                    Credential::SshKey {
                        username: user,
                        path: path.clone(),
                        passphrase: passphrase.clone(),
                    },
                );
            }
        }
        // The token is for GitHub alone: no other host may see it.
        if allowed.user_pass_plaintext && !self.tried_userpass && has_host(url, "github.com") {
            self.tried_userpass = true;
            if let Some(token) = &self.github_token {
                return Some(
                    Credential::UserPassPlaintext {
                        username: "x-access-token".to_owned(),
                        password: token.clone(),
                    },
                );
            }
        }
        None
    }

    /// What is reported where no credentials are left.
    pub fn refusal() -> (message: String)
        ensures
            message@ == "No credentials available"@,
    {
        "No credentials available".to_owned()
    }
}

/// The token is offered to no host but `github.com`.
pub proof fn lemma_token_is_for_github_only(
    chooser: ChooserView,
    url: Seq<char>,
    username: Option<Seq<char>>,
    allowed: Allowed,
)
    ensures
        chooser.offer(url, username, allowed) matches Some(credential)
            && credential is UserPassPlaintext ==> url_host(url) == Some("github.com"@),
{
}

/// One request for credentials.
pub struct CredentialRequest {
    pub url: Seq<char>,
    pub username: Option<Seq<char>>,
    pub allowed: Allowed,
}

/// What was tried after a run of requests.
pub open spec fn after_requests(
    chooser: ChooserView,
    requests: Seq<CredentialRequest>,
) -> ChooserView
    decreases requests.len(),
{
    if requests.len() == 0 {
        chooser
    } else {
        let before = after_requests(chooser, requests.drop_last());
        before.after_offer(requests.last().url, requests.last().allowed)
    }
}

/// What is offered to the `i`th of a run of requests.
pub open spec fn offer_at(
    chooser: ChooserView,
    requests: Seq<CredentialRequest>,
    i: int,
) -> Option<CredentialView> {
    after_requests(chooser, requests.take(i)).offer(
        requests[i].url,
        requests[i].username,
        requests[i].allowed,
    )
}

/// Neither the key nor the token is offered twice during one fetch, however
/// often the server asks.
pub proof fn lemma_nothing_secret_is_offered_twice(
    chooser: ChooserView,
    requests: Seq<CredentialRequest>,
    i: int,
    j: int,
)
    requires
        0 <= i < j < requests.len(),
    ensures
        !((offer_at(chooser, requests, i) matches Some(a) && a is SshKey) && (offer_at(
            chooser,
            requests,
            j,
        ) matches Some(b) && b is SshKey)),
        !((offer_at(chooser, requests, i) matches Some(a) && a is UserPassPlaintext) && (offer_at(
            chooser,
            requests,
            j,
        ) matches Some(b) && b is UserPassPlaintext)),
{
    let next = requests.take(i + 1);
    assert(next.drop_last() == requests.take(i));
    assert(next.last() == requests[i]);
    lemma_tried_stays_tried(chooser, requests, i + 1, j);
}

proof fn lemma_tried_stays_tried(
    chooser: ChooserView,
    requests: Seq<CredentialRequest>,
    i: int,
    j: int,
)
    requires
        0 <= i <= j <= requests.len(),
    ensures
        after_requests(chooser, requests.take(i)).tried_ssh ==> after_requests(
            chooser,
            requests.take(j),
        ).tried_ssh,
        after_requests(chooser, requests.take(i)).tried_userpass ==> after_requests(
            chooser,
            requests.take(j),
        ).tried_userpass,
    decreases j - i,
{
    if i < j {
        lemma_tried_stays_tried(chooser, requests, i, j - 1);
        assert(requests.take(j).drop_last() == requests.take(j - 1));
    }
}

/// The key comes before the token: a server that takes both is offered the key
/// first, if there is one.
pub proof fn lemma_key_before_token(
    chooser: ChooserView,
    url: Seq<char>,
    username: Option<Seq<char>>,
    allowed: Allowed,
)
    requires
        chooser.private_key is Some,
        !chooser.tried_ssh,
        allowed.ssh_key,
    ensures
        chooser.offer(url, username, allowed) matches Some(credential)
            && credential !is UserPassPlaintext,
{
}

/// The token is offered whenever it can be: to the host of GitHub, where a password
/// is taken, the token is there and was not tried, and no key is offered to this
/// request, be it that none is there, that none is taken, or that it was tried.
pub proof fn lemma_token_is_offered_where_it_can_be(
    chooser: ChooserView,
    url: Seq<char>,
    username: Option<Seq<char>>,
    allowed: Allowed,
    token: Seq<char>,
)
    requires
        !allowed.username,
        allowed.user_pass_plaintext,
        chooser.github_token == Some(token),
        !chooser.tried_userpass,
        url_host(url) == Some("github.com"@),
        chooser.private_key is None || !allowed.ssh_key || chooser.tried_ssh,
    ensures
        chooser.offer(url, username, allowed) == Some(
            CredentialView::UserPassPlaintext { username: "x-access-token"@, password: token },
        ),
        chooser.after_offer(url, allowed).tried_userpass,
{
}

/// The key is offered whenever it can be: where a key is taken, one is there and it
/// was not tried. It is offered in full, for the user that the server asks about,
/// else for `git`, and no server is left out.
pub proof fn lemma_key_is_offered_where_it_can_be(
    chooser: ChooserView,
    url: Seq<char>,
    username: Option<Seq<char>>,
    allowed: Allowed,
    user: Seq<char>,
    path: Seq<char>,
    passphrase: Seq<char>,
)
    requires
        !allowed.username,
        allowed.ssh_key,
        chooser.private_key == Some((path, passphrase)),
        !chooser.tried_ssh,
        username == Some(user) || (username is None && user == "git"@),
    ensures
        chooser.offer(url, username, allowed) == Some(
            CredentialView::SshKey { username: user, path, passphrase },
        ),
        chooser.after_offer(url, allowed).tried_ssh,
{
}

/// A server that asks for a user name gets it, and nothing counts as tried by it:
/// the name that it asks about, else `git`.
pub proof fn lemma_name_is_given_where_it_is_asked_for(
    chooser: ChooserView,
    url: Seq<char>,
    username: Option<Seq<char>>,
    allowed: Allowed,
    user: Seq<char>,
)
    requires
        allowed.username,
        username == Some(user) || (username is None && user == "git"@),
    ensures
        chooser.offer(url, username, allowed) == Some(CredentialView::Username { username: user }),
        chooser.after_offer(url, allowed) == chooser,
{
}

/// Nothing is offered that is not there, not taken, or tried already. What is there
/// stays the same from request to request, and what is not taken by a server does
/// not count as tried.
pub proof fn lemma_nothing_else_is_offered(
    chooser: ChooserView,
    url: Seq<char>,
    username: Option<Seq<char>>,
    allowed: Allowed,
)
    requires
        !allowed.username,
    ensures
        !(allowed.ssh_key && chooser.private_key is Some && !chooser.tried_ssh) && !(
        allowed.user_pass_plaintext && chooser.github_token is Some && !chooser.tried_userpass
            && url_host(url) == Some("github.com"@)) ==> chooser.offer(url, username, allowed)
            is None,
        ({
            let after = chooser.after_offer(url, allowed);
            &&& after.private_key == chooser.private_key
            &&& after.github_token == chooser.github_token
            &&& after.tried_ssh <==> chooser.tried_ssh || allowed.ssh_key
            &&& after.tried_userpass && !chooser.tried_userpass ==> allowed.user_pass_plaintext
                && url_host(url) == Some("github.com"@) && !(chooser.offer(
                url,
                username,
                allowed,
            ) matches Some(credential) && credential is SshKey)
        }),
{
}

/// What is offered, and what is known of it, is what the fields hold.
pub proof fn lemma_credentials_say_what_they_hold(
    chooser: CredentialChooser,
    credential: Credential,
)
    ensures
        chooser@.tried_ssh == chooser.tried_ssh,
        chooser@.tried_userpass == chooser.tried_userpass,
        chooser.private_key is None ==> chooser@.private_key is None,
        chooser.private_key matches Some((path, passphrase)) ==> chooser@.private_key == Some(
            (path@, passphrase@),
        ),
        chooser.github_token is None ==> chooser@.github_token is None,
        chooser.github_token matches Some(token) ==> chooser@.github_token == Some(token@),
        match credential {
            Credential::Username { username } => credential@ == (CredentialView::Username {
                username: username@,
            }),
            Credential::SshKey { username, path, passphrase } => credential@ == (
            CredentialView::SshKey {
                username: username@,
                path: path@,
                passphrase: passphrase@,
            }),
            Credential::UserPassPlaintext { username, password } => credential@ == (
            CredentialView::UserPassPlaintext { username: username@, password: password@ }),
        },
{
}

/// The host of a URL with a scheme stands behind the scheme and any user, and
/// before any port, path, query or fragment. What the user, the port or the rest
/// hold plays no part.
pub proof fn lemma_host_stands_between_user_and_port(
    scheme: Seq<char>,
    user: Seq<char>,
    host: Seq<char>,
    port: Seq<char>,
    rest: Seq<char>,
)
    requires
        forall|i: int|
            0 <= i < scheme.len() ==> {
                let c = #[trigger] scheme[i];
                'a' <= c <= 'z' || 'A' <= c <= 'Z' || '0' <= c <= '9' || c == '+' || c == '-' || c
                    == '.'
            },
        user.len() == 0 || user.last() == '@',
        !host.contains('@') && !host.contains(':'),
        port.len() == 0 || port[0] == ':',
        !port.contains('@'),
        forall|c: char|
            c == '/' || c == '?' || c == '#' ==> !#[trigger] (user + host + port).contains(c),
        rest.len() == 0 || rest[0] == '/' || rest[0] == '?' || rest[0] == '#',
    ensures
        url_host(scheme + seq![':', '/', '/'] + (user + host + port) + rest) == Some(host),
{
    let authority = user + host + port;
    let url = scheme + seq![':', '/', '/'] + authority + rest;
    let colon = scheme.len() as int;
    let start = colon + 3;
    let end = start + authority.len();
    assert(url[colon] == ':' && url[colon + 1] == '/' && url[colon + 2] == '/');
    lemma_position_is_the_first(url, ':', 0);
    let p = position_from(url, ':', 0);
    if p < colon {
        assert(url[p] == scheme[p]);
    }
    assert(p == colon);
    assert forall|i: int| 0 <= i < colon implies is_scheme_char(#[trigger] url[i]) by {
        assert(url[i] == scheme[i]);
    }
    assert forall|i: int| start <= i < end implies !ends_authority(#[trigger] url[i]) by {
        assert(url[i] == authority[i - start]);
        assert(authority.contains(authority[i - start]));
    }
    if end < url.len() {
        assert(url[end] == rest[0]);
    }
    lemma_authority_ends_at_the_first(url, start, end);
    assert(url.subrange(start, end) =~= authority);
    lemma_host_of_authority(user, host, port);
}

/// The host of a URL without a scheme stands behind any user and before the first
/// colon; a path with a slash before any colon names no host, and neither does a
/// text without a colon.
pub proof fn lemma_host_stands_before_the_path(
    user: Seq<char>,
    host: Seq<char>,
    path: Seq<char>,
)
    requires
        user.len() == 0 || user.last() == '@',
        !host.contains('@'),
        !(user + host).contains(':'),
        !(path.len() >= 2 && path[0] == '/' && path[1] == '/') || exists|i: int|
            0 <= i < (user + host).len() && {
                let c = #[trigger] (user + host)[i];
                !('a' <= c <= 'z' || 'A' <= c <= 'Z' || '0' <= c <= '9' || c == '+' || c == '-'
                    || c == '.')
            },
    ensures
        !(user + host).contains('/') ==> url_host(user + host + seq![':'] + path) == Some(host),
        (user + host).contains('/') ==> url_host(user + host + seq![':'] + path) is None,
        url_host(user + host) is None,
{
    let lead = user + host;
    let n = lead.len() as int;
    let url = lead + seq![':'] + path;
    assert forall|i: int| 0 <= i < n implies url[i] == lead[i] && lead[i] != ':' by {
        assert(lead.contains(lead[i]));
    }
    assert(url[n] == ':');
    lemma_position_is_the_first(url, ':', 0);
    assert(position_from(url, ':', 0) == n);
    lemma_position_is_the_first(lead, ':', 0);
    assert(position_from(lead, ':', 0) == n);
    if url.len() >= n + 3 {
        assert(url[n + 1] == path[0] && url[n + 2] == path[1]);
        if path[0] == '/' && path[1] == '/' {
            let i = choose|i: int| 0 <= i < lead.len() && !is_scheme_char(#[trigger] lead[i]);
            assert(!is_scheme_char(url[i]));
        }
    }
    assert(url_authority(url) is None);
    assert(url.take(n) =~= lead);
    if lead.contains('/') {
        let i = choose|i: int| 0 <= i < lead.len() && lead[i] == '/';
        assert(url[i] == '/');
        assert(scp_authority(url) is None);
    } else {
        assert forall|i: int| 0 <= i < n implies #[trigger] url[i] != '/' by {
            assert(lead.contains(lead[i]));
        }
        assert(lead =~= user + host + Seq::<char>::empty());
        assert forall|c: char| host.contains(c) implies c != ':' by {
            let i = choose|i: int| 0 <= i < host.len() && host[i] == c;
            assert(lead[user.len() + i] == c);
        }
        lemma_host_of_authority(user, host, Seq::empty());
    }
}

proof fn lemma_authority_ends_at_the_first(url: Seq<char>, from: int, end: int)
    requires
        0 <= from <= end <= url.len(),
        forall|i: int| from <= i < end ==> !ends_authority(#[trigger] url[i]),
        end < url.len() ==> ends_authority(url[end]),
    ensures
        authority_end(url, from) == end,
    decreases end - from,
{
    if from < end {
        lemma_authority_ends_at_the_first(url, from + 1, end);
    }
}

proof fn lemma_host_of_authority(user: Seq<char>, host: Seq<char>, port: Seq<char>)
    requires
        user.len() == 0 || user.last() == '@',
        !host.contains('@') && !host.contains(':'),
        port.len() == 0 || port[0] == ':',
        !port.contains('@'),
    ensures
        authority_host(user + host + port) == host,
    decreases user.len(),
{
    let authority = user + host + port;
    let tail = host + port;
    let at = position_from(authority, '@', 0);
    lemma_position_is_the_first(authority, '@', 0);
    if user.len() == 0 {
        assert(authority =~= tail);
        if at < authority.len() {
            if at < host.len() {
                assert(host.contains(host[at]));
            } else {
                assert(port.contains(port[at - host.len()]));
            }
        }
        assert(without_userinfo(authority) == tail);
        let colon = position_from(tail, ':', 0);
        lemma_position_is_the_first(tail, ':', 0);
        if colon < host.len() {
            assert(host.contains(host[colon]));
        }
        if port.len() > 0 {
            assert(tail[host.len() as int] == ':');
        }
        assert(colon == host.len());
        assert(tail.take(colon) =~= host);
    } else {
        assert(authority[user.len() - 1] == '@');
        assert(at < user.len());
        let rest = user.skip(at + 1);
        assert(authority.skip(at + 1) =~= rest + host + port);
        if rest.len() > 0 {
            assert(rest.last() == user.last());
        }
        lemma_host_of_authority(rest, host, port);
    }
}

} // verus!
