//! Downloading themes from a GitHub repository: which repository a user
//! means, where its file tree and files are fetched from, which files are
//! themes, where they are stored, and what a download reports.
use crate::error::AppError;
use crate::text::{
    chars_contain, chars_end_with, chars_of, chars_start_with, concat, copy_str, file_name,
    file_stem, has_infix, has_prefix, has_suffix, join, join_path, path_file_name,
    path_file_stem, str_ends_with, string_of,
};
use vstd::prelude::*;

verus! {

/// The repository downloaded when none is given.
pub const DEFAULT_REPO: &'static str = "alacritty/alacritty-theme";

/// The branch downloaded when none is given.
pub const DEFAULT_BRANCH: &'static str = "master";

/// An entry of a repository's file tree.
#[derive(Debug, Clone)]
pub struct TreeItem {
    pub path: String,
}

/// The body of an error reply of the GitHub API.
#[derive(Debug, Clone)]
pub struct ErrorResponse {
    pub message: String,
}

/// The owner and name of a GitHub repository.
#[derive(Debug, Clone)]
pub struct RepoInfo {
    pub owner: String,
    pub repo: String,
}

/// A theme file to fetch: its path in the repository and its URL.
#[derive(Debug, Clone)]
pub struct DownloadFile {
    pub path: String,
    pub url: String,
}

/// What the user asked to download.
#[derive(Debug, Clone)]
pub struct DownloadOptions {
    pub repo: Option<String>,
    pub branch: Option<String>,
    pub force: bool,
}

// ---------------------------------------------------------------------------
// Repository addresses
// ---------------------------------------------------------------------------

/// The position of the first `c` in `s`.
pub open spec fn first_index_of(s: Seq<char>, c: char) -> Option<int>
    decreases s.len(),
{
    if s.len() == 0 {
        None
    } else if s[0] == c {
        Some(0)
    } else {
        match first_index_of(s.drop_first(), c) {
            Some(i) => Some(i + 1),
            None => None,
        }
    }
}

/// `s` does not contain `c`.
pub open spec fn lacks(s: Seq<char>, c: char) -> bool {
    forall|i: int| 0 <= i < s.len() ==> s[i] != c
}

/// How many times `c` occurs in `s`.
pub open spec fn count_of(s: Seq<char>, c: char) -> nat
    decreases s.len(),
{
    if s.len() == 0 {
        0
    } else {
        count_of(s.drop_last(), c) + if s.last() == c {
            1nat
        } else {
            0nat
        }
    }
}

/// A repository name without a trailing `.git`, unless nothing would remain.
pub open spec fn strip_git(t: Seq<char>) -> Seq<char> {
    if t.len() > 4 && has_suffix(t, ".git"@) {
        t.subrange(0, t.len() - 4)
    } else {
        t
    }
}

/// `rest` split at its first `/` into a non-empty owner and what follows.
pub open spec fn owner_and_tail(rest: Seq<char>) -> Option<(Seq<char>, Seq<char>)> {
    match first_index_of(rest, '/') {
        Some(k) => if k > 0 {
            Some((rest.subrange(0, k), rest.subrange(k + 1, rest.len() as int)))
        } else {
            None
        },
        None => None,
    }
}

/// What follows `https://github.com/` or `http://github.com/`.
pub open spec fn web_rest(url: Seq<char>) -> Option<Seq<char>> {
    if has_prefix(url, "https://github.com/"@) {
        Some(url.skip(19))
    } else if has_prefix(url, "http://github.com/"@) {
        Some(url.skip(18))
    } else {
        None
    }
}

/// The owner and repository of a web address, as the pattern
/// `^https?://github\.com/([^/]+)/([^/]+?)(?:\.git)?/?$` captures them.
pub open spec fn parse_web(url: Seq<char>) -> Option<(Seq<char>, Seq<char>)> {
    match web_rest(url) {
        None => None,
        Some(rest) => match owner_and_tail(rest) {
            None => None,
            Some((owner, tail)) => {
                let t = if tail.len() > 0 && tail.last() == '/' {
                    tail.drop_last()
                } else {
                    tail
                };
                if t.len() > 0 && lacks(t, '/') {
                    Some((owner, strip_git(t)))
                } else {
                    None
                }
            },
        },
    }
}

/// The owner and repository of an SSH address, as the pattern
/// `^git@github\.com:([^/]+)/(.+?)(?:\.git)?$` captures them (`.` does not
/// match a line break).
pub open spec fn parse_ssh(url: Seq<char>) -> Option<(Seq<char>, Seq<char>)> {
    if has_prefix(url, "git@github.com:"@) {
        match owner_and_tail(url.skip(15)) {
            None => None,
            Some((owner, tail)) => if tail.len() > 0 && lacks(tail, '\n') {
                Some((owner, strip_git(tail)))
            } else {
                None
            },
        }
    } else {
        None
    }
}

/// `url` split at its only `/`.
pub open spec fn split_pair(url: Seq<char>) -> Option<(Seq<char>, Seq<char>)> {
    if count_of(url, '/') == 1 {
        match first_index_of(url, '/') {
            Some(k) => Some((url.subrange(0, k), url.subrange(k + 1, url.len() as int))),
            None => None,
        }
    } else {
        None
    }
}

/// The owner and repository a user means by `url`: a GitHub web address, a
/// GitHub SSH address, or `owner/repo` (when `url` does not mention
/// `github.com`).
pub open spec fn parse_repo(url: Seq<char>) -> Option<(Seq<char>, Seq<char>)> {
    match parse_web(url) {
        Some(p) => Some(p),
        None => match parse_ssh(url) {
            Some(p) => Some(p),
            None => if !has_infix(url, "github.com"@) {
                split_pair(url)
            } else {
                None
            },
        },
    }
}

/// The owner and repository of a parsed address.
pub open spec fn info_parts(i: Option<RepoInfo>) -> Option<(Seq<char>, Seq<char>)> {
    match i {
        Some(r) => Some((r.owner@, r.repo@)),
        None => None,
    }
}

proof fn lemma_first_index_props(s: Seq<char>, c: char)
    ensures
        match first_index_of(s, c) {
            Some(k) => 0 <= k < s.len() && s[k] == c && lacks(s.subrange(0, k), c),
            None => lacks(s, c),
        },
    decreases s.len(),
{
    if s.len() > 0 && s[0] != c {
        lemma_first_index_props(s.drop_first(), c);
        match first_index_of(s.drop_first(), c) {
            Some(k) => {
                let sub = s.subrange(0, k + 1);
                assert forall|i: int| 0 <= i < k + 1 implies #[trigger] sub[i] != c by {
                    if i > 0 {
                        assert(sub[i] == s.drop_first().subrange(0, k)[i - 1]);
                    }
                }
            },
            None => {
                assert forall|i: int| 0 <= i < s.len() implies s[i] != c by {
                    if i > 0 {
                        assert(s[i] == s.drop_first()[i - 1]);
                    }
                }
            },
        }
    }
}

proof fn lemma_first_index_found(s: Seq<char>, c: char, k: int)
    requires
        0 <= k < s.len(),
        s[k] == c,
        forall|i: int| 0 <= i < k ==> s[i] != c,
    ensures
        first_index_of(s, c) == Some(k),
    decreases k,
{
    if k > 0 {
        assert forall|i: int| 0 <= i < k - 1 implies s.drop_first()[i] != c by {
            assert(s.drop_first()[i] == s[i + 1]);
        }
        lemma_first_index_found(s.drop_first(), c, k - 1);
    }
}

proof fn lemma_first_index_none(s: Seq<char>, c: char)
    requires
        lacks(s, c),
    ensures
        first_index_of(s, c) is None,
    decreases s.len(),
{
    if s.len() > 0 {
        assert forall|i: int| 0 <= i < s.len() - 1 implies s.drop_first()[i] != c by {
            assert(s.drop_first()[i] == s[i + 1]);
        }
        lemma_first_index_none(s.drop_first(), c);
    }
}

/// The position of the first `c` in `s`.
fn find_char(s: &[char], c: char) -> (r: Option<usize>)
    ensures
        r matches Some(k) ==> first_index_of(s@, c) == Some(k as int) && k < s@.len(),
        r is None ==> first_index_of(s@, c) is None,
{
    let mut i: usize = 0;
    while i < s.len()
        invariant
            i <= s@.len(),
            forall|j: int| 0 <= j < i ==> s@[j] != c,
        decreases s@.len() - i,
    {
        if s[i] == c {
            proof {
                lemma_first_index_found(s@, c, i as int);
            }
            return Some(i);
        }
        i = i + 1;
    }
    proof {
        lemma_first_index_none(s@, c);
    }
    None
}

/// Whether `c` does not occur in `s`.
fn lacks_char(s: &[char], c: char) -> (r: bool)
    ensures
        r == lacks(s@, c),
{
    let mut i: usize = 0;
    while i < s.len()
        invariant
            i <= s@.len(),
            forall|j: int| 0 <= j < i ==> s@[j] != c,
        decreases s@.len() - i,
    {
        if s[i] == c {
            return false;
        }
        i = i + 1;
    }
    true
}

/// How many times `c` occurs in `s`, up to two.
fn occurrences_up_to_two(s: &[char], c: char) -> (r: usize)
    ensures
        r == if count_of(s@, c) < 2 {
            count_of(s@, c) as int
        } else {
            2
        },
{
    let mut n: usize = 0;
    let mut i: usize = 0;
    assert(s@.take(0) =~= Seq::<char>::empty());
    while i < s.len()
        invariant
            i <= s@.len(),
            n == count_of(s@.take(i as int), c),
            n < 2,
        decreases s@.len() - i,
    {
        proof {
            assert(s@.take(i + 1).drop_last() =~= s@.take(i as int));
        }
        if s[i] == c {
            n = n + 1;
        }
        i = i + 1;
        if n >= 2 {
            proof {
                lemma_count_prefix_le(s@, c, i as int);
            }
            return 2;
        }
    }
    assert(s@.take(s@.len() as int) =~= s@);
    n
}

proof fn lemma_count_prefix_le(s: Seq<char>, c: char, k: int)
    requires
        0 <= k <= s.len(),
    ensures
        count_of(s.take(k), c) <= count_of(s, c),
    decreases s.len() - k,
{
    if k < s.len() {
        lemma_count_prefix_le(s, c, k + 1);
        assert(s.take(k + 1).drop_last() =~= s.take(k));
    } else {
        assert(s.take(k) =~= s);
    }
}

/// The characters of `s` from `from` to `to`.
fn slice_chars(s: &[char], from: usize, to: usize) -> (r: Vec<char>)
    requires
        from <= to <= s@.len(),
    ensures
        r@ == s@.subrange(from as int, to as int),
{
    let mut r: Vec<char> = Vec::new();
    let mut i = from;
    while i < to
        invariant
            from <= i <= to <= s@.len(),
            r@ =~= s@.subrange(from as int, i as int),
        decreases to - i,
    {
        r.push(s[i]);
        i = i + 1;
    }
    r
}

/// `rest` split at its first `/` into a non-empty owner and what follows.
fn split_owner(rest: &[char]) -> (r: Option<(Vec<char>, Vec<char>)>)
    ensures
        match r {
            Some((o, t)) => owner_and_tail(rest@) == Some((o@, t@)),
            None => owner_and_tail(rest@) is None,
        },
{
    let n = rest.len();
    match find_char(rest, '/') {
        Some(k) => if k > 0 {
            let o = slice_chars(rest, 0, k);
            let t = slice_chars(rest, k + 1, n);
            Some((o, t))
        } else {
            None
        },
        None => None,
    }
}

/// `t` without a trailing `.git`, unless nothing would remain.
fn strip_git_suffix(t: Vec<char>) -> (r: Vec<char>)
    ensures
        r@ == strip_git(t@),
{
    let suffix = chars_of(".git");
    if t.len() > 4 && chars_end_with(t.as_slice(), suffix.as_slice()) {
        slice_chars(t.as_slice(), 0, t.len() - 4)
    } else {
        t
    }
}

/// The owner and repository of a web address.
fn parse_web_url(url: &[char]) -> (r: Option<(Vec<char>, Vec<char>)>)
    ensures
        match r {
            Some((o, n)) => parse_web(url@) == Some((o@, n@)),
            None => parse_web(url@) is None,
        },
{
    let https = chars_of("https://github.com/");
    let http = chars_of("http://github.com/");
    proof {
        reveal_strlit("https://github.com/");
        reveal_strlit("http://github.com/");
    }
    let skip: usize = if chars_start_with(url, https.as_slice()) {
        19
    } else if chars_start_with(url, http.as_slice()) {
        18
    } else {
        return None;
    };
    let rest = slice_chars(url, skip, url.len());
    assert(rest@ =~= url@.skip(skip as int));
    match split_owner(rest.as_slice()) {
        None => None,
        Some((owner, tail)) => {
            let t = if tail.len() > 0 && tail[tail.len() - 1] == '/' {
                slice_chars(tail.as_slice(), 0, tail.len() - 1)
            } else {
                tail
            };
            if t.len() > 0 && lacks_char(t.as_slice(), '/') {
                Some((owner, strip_git_suffix(t)))
            } else {
                None
            }
        },
    }
}

/// The owner and repository of an SSH address.
fn parse_ssh_url(url: &[char]) -> (r: Option<(Vec<char>, Vec<char>)>)
    ensures
        match r {
            Some((o, n)) => parse_ssh(url@) == Some((o@, n@)),
            None => parse_ssh(url@) is None,
        },
{
    let prefix = chars_of("git@github.com:");
    proof {
        reveal_strlit("git@github.com:");
    }
    if !chars_start_with(url, prefix.as_slice()) {
        return None;
    }
    let rest = slice_chars(url, 15, url.len());
    assert(rest@ =~= url@.skip(15));
    match split_owner(rest.as_slice()) {
        None => None,
        Some((owner, tail)) => if tail.len() > 0 && lacks_char(tail.as_slice(), '\n') {
            Some((owner, strip_git_suffix(tail)))
        } else {
            None
        },
    }
}

/// `url` split at its only `/`.
fn split_at_slash(url: &[char]) -> (r: Option<(Vec<char>, Vec<char>)>)
    ensures
        match r {
            Some((a, b)) => split_pair(url@) == Some((a@, b@)),
            None => split_pair(url@) is None,
        },
{
    if occurrences_up_to_two(url, '/') != 1 {
        return None;
    }
    let n = url.len();
    match find_char(url, '/') {
        Some(k) => Some((slice_chars(url, 0, k), slice_chars(url, k + 1, n))),
        None => None,
    }
}

/// The repository a user means by `url`: `https://github.com/owner/repo`
/// (optionally with `.git` or a trailing `/`), `git@github.com:owner/repo`
/// (optionally with `.git`), or `owner/repo`.
pub fn parse_github_url(url: &str) -> (r: Option<RepoInfo>)
    ensures
        info_parts(r) == parse_repo(url@),
{
    let u = chars_of(url);
    if let Some((o, n)) = parse_web_url(u.as_slice()) {
        return Some(RepoInfo { owner: string_of(o.as_slice()), repo: string_of(n.as_slice()) });
    }
    if let Some((o, n)) = parse_ssh_url(u.as_slice()) {
        return Some(RepoInfo { owner: string_of(o.as_slice()), repo: string_of(n.as_slice()) });
    }
    let marker = chars_of("github.com");
    if chars_contain(u.as_slice(), marker.as_slice()) {
        return None;
    }
    match split_at_slash(u.as_slice()) {
        Some((o, n)) => Some(RepoInfo { owner: string_of(o.as_slice()), repo: string_of(n.as_slice()) }),
        None => None,
    }
}

/// The owner and repository to download from: those `repo` names, else
/// those of the default repository. A `repo` that is no address but holds
/// exactly one `/` is split there; any other is refused.
pub open spec fn resolved_repo(repo: Option<Seq<char>>) -> Option<(Seq<char>, Seq<char>)> {
    match repo {
        Some(url) => match parse_repo(url) {
            Some(p) => Some(p),
            None => split_pair(url),
        },
        None => parse_repo(DEFAULT_REPO@),
    }
}

/// The owner and repository to download from (see [`resolved_repo`]); an
/// address that names none is refused as `InvalidRepoUrl`.
pub fn resolve_repo(repo: Option<&str>) -> (r: Result<(String, String), AppError>)
    ensures
        match resolved_repo(
            match repo {
                Some(u) => Some(u@),
                None => None,
            },
        ) {
            Some((o, n)) => r matches Ok((a, b)) && a@ == o && b@ == n,
            None => r matches Err(AppError::InvalidRepoUrl(u)) && u@ == (match repo {
                Some(s) => s@,
                None => DEFAULT_REPO@,
            }),
        },
{
    match repo {
        Some(url) => {
            if let Some(info) = parse_github_url(url) {
                Ok((info.owner, info.repo))
            } else {
                let u = chars_of(url);
                match split_at_slash(u.as_slice()) {
                    Some((o, n)) => Ok((string_of(o.as_slice()), string_of(n.as_slice()))),
                    None => Err(AppError::InvalidRepoUrl(copy_str(url))),
                }
            }
        },
        None => match parse_github_url(DEFAULT_REPO) {
            Some(info) => Ok((info.owner, info.repo)),
            None => Err(AppError::InvalidRepoUrl(copy_str(DEFAULT_REPO))),
        },
    }
}

// ---------------------------------------------------------------------------
// Replies of the GitHub API
// ---------------------------------------------------------------------------

/// What a reply of the GitHub API was found to hold.
pub enum ApiReply<T> {
    /// The reply is not JSON; the parser's message.
    NotJson(String),
    /// The reply has a `message` field: the error body, or the message of
    /// the parser that could not read it as one.
    ErrorBody(Result<ErrorResponse, String>),
    /// Any other JSON value: read as the expected type, or the message of the
    /// parser that could not.
    Body(Result<T, String>),
}

/// Declares `serde_json::Value`, a parsed JSON value, which is carried from
/// the parser to the field test.
#[verifier::external_type_specification]
#[verifier::external_body]
pub struct ExJsonValue(serde_json::Value);

/// What `serde_json::from_str::<serde_json::Value>` gives for the text
/// `text`: the value, or the parser's error message.
pub uninterp spec fn json_parsed(text: Seq<char>) -> Result<serde_json::Value, Seq<char>>;

/// What `serde_json::Value::get(key).is_some()` gives: whether the value is
/// an object with the field `key`.
pub uninterp spec fn json_has_field(v: serde_json::Value, key: Seq<char>) -> bool;

/// `serde_json::from_str::<serde_json::Value>`, with the error given as its
/// message; the contract names the result.
#[verifier::external_body]
fn json_parse(text: &str) -> (r: Result<serde_json::Value, String>)
    ensures
        match r {
            Ok(v) => json_parsed(text@) == Ok::<serde_json::Value, Seq<char>>(v),
            Err(m) => json_parsed(text@) == Err::<serde_json::Value, Seq<char>>(m@),
        },
{
    serde_json::from_str::<serde_json::Value>(text).map_err(|e| e.to_string())
}

/// `serde_json::Value::get`, telling only whether the field is there; the
/// contract names the result.
#[verifier::external_body]
fn json_has(v: &serde_json::Value, key: &str) -> (r: bool)
    ensures
        r == json_has_field(*v, key@),
{
    v.get(key).is_some()
}

/// What kind of reply the GitHub API sent.
#[derive(Debug, Clone, PartialEq, Eq)]
pub enum ReplyKind {
    /// The reply is not JSON; the parser's message.
    NotJson(String),
    /// The reply is JSON with a `message` field: an error body.
    ErrorBody,
    /// Any other JSON value: the expected body.
    Body,
}

/// What kind of reply `text` is: not JSON, an error body (a JSON value with
/// a `message` field, which is how the GitHub API reports an error), or a
/// body to read as the expected type.
pub fn reply_kind(text: &str) -> (r: ReplyKind)
    ensures
        match json_parsed(text@) {
            Err(m) => r matches ReplyKind::NotJson(x) && x@ == m,
            Ok(v) => if json_has_field(v, "message"@) {
                r == ReplyKind::ErrorBody
            } else {
                r == ReplyKind::Body
            },
        },
{
    match json_parse(text) {
        Err(m) => ReplyKind::NotJson(m),
        Ok(v) => if json_has(&v, "message") {
            ReplyKind::ErrorBody
        } else {
            ReplyKind::Body
        },
    }
}

/// The outcome of a reply: the value it carries, or the API's error.
pub fn reply_result<T>(reply: ApiReply<T>) -> (r: Result<T, AppError>)
    ensures
        match reply {
            ApiReply::NotJson(m) => r matches Err(AppError::GitHubApi(x)) && x@
                == "Failed to parse JSON: "@ + m@,
            ApiReply::ErrorBody(Ok(e)) => r matches Err(AppError::GitHubApi(x)) && x@
                == e.message@,
            ApiReply::ErrorBody(Err(m)) => r matches Err(AppError::JsonParse(x)) && x@ == m@,
            ApiReply::Body(Ok(v)) => r matches Ok(w) && w == v,
            ApiReply::Body(Err(m)) => r matches Err(AppError::GitHubApi(x)) && x@
                == "Failed to deserialize: "@ + m@,
        },
{
    match reply {
        ApiReply::NotJson(m) => Err(AppError::GitHubApi(concat("Failed to parse JSON: ", m.as_str()))),
        ApiReply::ErrorBody(Ok(e)) => Err(AppError::GitHubApi(e.message)),
        ApiReply::ErrorBody(Err(m)) => Err(AppError::JsonParse(m)),
        ApiReply::Body(Ok(v)) => Ok(v),
        ApiReply::Body(Err(m)) => Err(AppError::GitHubApi(concat("Failed to deserialize: ", m.as_str()))),
    }
}

// ---------------------------------------------------------------------------
// Planning a download
// ---------------------------------------------------------------------------

/// The address of the file tree of `owner/repo` at `branch`, listed
/// recursively.
pub open spec fn tree_url_of(owner: Seq<char>, repo: Seq<char>, branch: Seq<char>) -> Seq<char> {
    "https://api.github.com/repos/"@ + owner + "/"@ + repo + "/git/trees/"@ + branch
        + "?recursive=1"@
}

/// The address of the raw contents of `path` in `owner/repo` at `branch`.
pub open spec fn raw_url_of(
    owner: Seq<char>,
    repo: Seq<char>,
    branch: Seq<char>,
    path: Seq<char>,
) -> Seq<char> {
    "https://raw.githubusercontent.com/"@ + owner + "/"@ + repo + "/"@ + branch + "/"@ + path
}

/// The address of the file tree of `owner/repo` at `branch`.
pub fn tree_url(owner: &str, repo: &str, branch: &str) -> (r: String)
    ensures
        r@ == tree_url_of(owner@, repo@, branch@),
{
    let mut r = copy_str("https://api.github.com/repos/");
    r.append(owner);
    r.append("/");
    r.append(repo);
    r.append("/git/trees/");
    r.append(branch);
    r.append("?recursive=1");
    r
}

/// The address of the raw contents of `path` in `owner/repo` at `branch`.
pub fn raw_url(owner: &str, repo: &str, branch: &str, path: &str) -> (r: String)
    ensures
        r@ == raw_url_of(owner@, repo@, branch@, path@),
{
    let mut r = copy_str("https://raw.githubusercontent.com/");
    r.append(owner);
    r.append("/");
    r.append(repo);
    r.append("/");
    r.append(branch);
    r.append("/");
    r.append(path);
    r
}

/// The tree entries among the first `n` whose path ends in `.toml`, in order.
pub open spec fn toml_entries(tree: Seq<TreeItem>, n: int) -> Seq<TreeItem>
    decreases n,
{
    if n <= 0 {
        Seq::empty()
    } else if has_suffix(tree[n - 1].path@, ".toml"@) {
        toml_entries(tree, n - 1).push(tree[n - 1])
    } else {
        toml_entries(tree, n - 1)
    }
}

/// The entries of the tree whose path ends in `.toml`, in order.
pub fn filter_toml_files(tree: &Vec<TreeItem>) -> (r: Vec<TreeItem>)
    ensures
        r@ == toml_entries(tree@, tree@.len() as int),
{
    let mut r: Vec<TreeItem> = Vec::new();
    let mut i: usize = 0;
    while i < tree.len()
        invariant
            i <= tree@.len(),
            r@ == toml_entries(tree@, i as int),
        decreases tree@.len() - i,
    {
        if str_ends_with(tree[i].path.as_str(), ".toml") {
            r.push(TreeItem { path: tree[i].path.clone() });
        }
        i = i + 1;
    }
    r
}

/// The file name a theme at `path` is stored under.
pub open spec fn file_name_for(path: Seq<char>) -> Seq<char> {
    match path_file_name(path) {
        Some(n) => n,
        None => "theme.toml"@,
    }
}

/// The file name a theme at `path` in the repository is stored under: the
/// last component of the path, or `theme.toml` when it has none.
pub fn get_filename(path: &str) -> (r: String)
    ensures
        r@ == file_name_for(path@),
{
    match file_name(path) {
        Some(n) => n,
        None => copy_str("theme.toml"),
    }
}

/// The repository and branch a download reads from.
#[derive(Debug, Clone)]
pub struct DownloadTarget {
    pub owner: String,
    pub repo: String,
    pub branch: String,
}

/// The message of a download that found no theme files.
pub open spec fn no_toml_message(owner: Seq<char>, repo: Seq<char>, branch: Seq<char>) -> Seq<
    char,
> {
    "No TOML files found in "@ + owner + "/"@ + repo + " on branch '"@ + branch + "'"@
}

/// The message of a download that stored nothing.
pub open spec fn nothing_downloaded_message() -> Seq<char> {
    "No themes were downloaded (try using --force to override)"@
}

impl DownloadTarget {
    /// The repository (see [`resolve_repo`]) and branch (by default
    /// `master`) the options ask for.
    pub fn from_options(options: &DownloadOptions) -> (r: Result<DownloadTarget, AppError>)
        ensures
            match resolved_repo(
                match options.repo {
                    Some(u) => Some(u@),
                    None => None,
                },
            ) {
                Some((o, n)) => r matches Ok(t) && t.owner@ == o && t.repo@ == n && t.branch@
                    == (match options.branch {
                    Some(b) => b@,
                    None => DEFAULT_BRANCH@,
                }),
                None => r matches Err(AppError::InvalidRepoUrl(u)) && u@ == (match options.repo {
                    Some(s) => s@,
                    None => DEFAULT_REPO@,
                }),
            },
    {
        let repo_arg = match &options.repo {
            Some(s) => Some(s.as_str()),
            None => None,
        };
        let (owner, repo) = match resolve_repo(repo_arg) {
            Ok(p) => p,
            Err(e) => return Err(e),
        };
        let branch = match &options.branch {
            Some(b) => b.clone(),
            None => copy_str(DEFAULT_BRANCH),
        };
        Ok(DownloadTarget { owner, repo, branch })
    }

    /// The address of the repository's file tree.
    pub fn tree_url(&self) -> (r: String)
        ensures
            r@ == tree_url_of(self.owner@, self.repo@, self.branch@),
    {
        tree_url(self.owner.as_str(), self.repo.as_str(), self.branch.as_str())
    }

    /// The theme files of the tree, with their addresses; an error naming the
    /// repository and branch when the tree holds none.
    pub fn plan(&self, tree: &Vec<TreeItem>) -> (r: Result<Vec<DownloadFile>, AppError>)
        ensures
            ({
                let toml = toml_entries(tree@, tree@.len() as int);
                if toml.len() == 0 {
                    r matches Err(AppError::Download(m)) && m@ == no_toml_message(
                        self.owner@,
                        self.repo@,
                        self.branch@,
                    )
                } else {
                    r matches Ok(files) && files@.len() == toml.len() && forall|k: int|
                        0 <= k < toml.len() ==> #[trigger] files@[k].path@ == toml[k].path@
                            && files@[k].url@ == raw_url_of(
                            self.owner@,
                            self.repo@,
                            self.branch@,
                            toml[k].path@,
                        )
                }
            }),
    {
        let toml = filter_toml_files(tree);
        if toml.len() == 0 {
            let mut m = copy_str("No TOML files found in ");
            m.append(self.owner.as_str());
            m.append("/");
            m.append(self.repo.as_str());
            m.append(" on branch '");
            m.append(self.branch.as_str());
            m.append("'");
            return Err(AppError::Download(m));
        }
        let mut files: Vec<DownloadFile> = Vec::new();
        let mut i: usize = 0;
        while i < toml.len()
            invariant
                i <= toml@.len(),
                files@.len() == i,
                forall|k: int|
                    0 <= k < i ==> #[trigger] files@[k].path@ == toml@[k].path@ && files@[k].url@
                        == raw_url_of(self.owner@, self.repo@, self.branch@, toml@[k].path@),
            decreases toml@.len() - i,
        {
            let path = toml[i].path.clone();
            let url = raw_url(
                self.owner.as_str(),
                self.repo.as_str(),
                self.branch.as_str(),
                path.as_str(),
            );
            files.push(DownloadFile { path, url });
            i = i + 1;
        }
        Ok(files)
    }
}

impl DownloadFile {
    /// Where the file is stored: its file name in the themes directory.
    pub fn destination(&self, themes_dir: &str) -> (r: String)
        ensures
            r@ == join(themes_dir@, file_name_for(self.path@)),
    {
        let name = get_filename(self.path.as_str());
        join_path(themes_dir, name.as_str())
    }
}

/// A file is fetched unless it already exists and overwriting was not asked
/// for.
pub fn needs_download(dest_exists: bool, force: bool) -> (r: bool)
    ensures
        r == (!dest_exists || force),
{
    !(dest_exists && !force)
}

/// The theme names, in order, of the stored files that have a stem.
pub open spec fn stems_of(paths: Seq<String>, n: int) -> Seq<Seq<char>>
    decreases n,
{
    if n <= 0 {
        Seq::empty()
    } else {
        match path_file_stem(paths[n - 1]@) {
            Some(s) => stems_of(paths, n - 1).push(s),
            None => stems_of(paths, n - 1),
        }
    }
}

/// What a download reports: the names of the themes it stored, or an error
/// when it stored none.
pub fn downloaded_theme_names(paths: &Vec<String>) -> (r: Result<Vec<String>, AppError>)
    ensures
        paths@.len() == 0 ==> (r matches Err(AppError::Download(m)) && m@
            == nothing_downloaded_message()),
        paths@.len() > 0 ==> (r matches Ok(names) && names@.map_values(|s: String| s@)
            == stems_of(paths@, paths@.len() as int)),
{
    if paths.len() == 0 {
        return Err(
            AppError::Download(copy_str("No themes were downloaded (try using --force to override)")),
        );
    }
    let mut names: Vec<String> = Vec::new();
    let mut i: usize = 0;
    while i < paths.len()
        invariant
            i <= paths@.len(),
            names@.map_values(|s: String| s@) == stems_of(paths@, i as int),
        decreases paths@.len() - i,
    {
        match file_stem(paths[i].as_str()) {
            Some(s) => {
                let ghost before = names@;
                names.push(s);
                assert(names@.map_values(|s: String| s@) =~= before.map_values(|s: String| s@).push(s@));
            },
            None => {},
        }
        i = i + 1;
    }
    Ok(names)
}

// ---------------------------------------------------------------------------
// Laws
// ---------------------------------------------------------------------------

proof fn lemma_count_concat(a: Seq<char>, b: Seq<char>, c: char)
    ensures
        count_of(a + b, c) == count_of(a, c) + count_of(b, c),
    decreases b.len(),
{
    if b.len() == 0 {
        assert(a + b =~= a);
    } else {
        assert((a + b).drop_last() =~= a + b.drop_last());
        lemma_count_concat(a, b.drop_last(), c);
    }
}

proof fn lemma_count_lacks(a: Seq<char>, c: char)
    requires
        lacks(a, c),
    ensures
        count_of(a, c) == 0,
    decreases a.len(),
{
    if a.len() > 0 {
        lemma_count_lacks(a.drop_last(), c);
    }
}

proof fn lemma_split_owner(o: Seq<char>, r: Seq<char>)
    requires
        o.len() > 0,
        lacks(o, '/'),
    ensures
        owner_and_tail(o + "/"@ + r) == Some((o, r)),
{
    reveal_strlit("/");
    let u = o + "/"@ + r;
    assert forall|i: int| 0 <= i < o.len() implies u[i] != '/' by {
        assert(u[i] == o[i]);
    }
    assert(u[o.len() as int] == '/');
    lemma_first_index_found(u, '/', o.len() as int);
    assert(u.subrange(0, o.len() as int) =~= o);
    assert(u.subrange(o.len() as int + 1, u.len() as int) =~= r);
}

proof fn lemma_prefix_infix(u: Seq<char>, pre: Seq<char>, at: int, part: Seq<char>)
    requires
        has_prefix(u, pre),
        0 <= at,
        at + part.len() <= pre.len(),
        pre.subrange(at, at + part.len()) == part,
    ensures
        has_infix(u, part),
{
    assert(u.subrange(at, at + part.len()) =~= pre.subrange(at, at + part.len()));
}

/// A repository given as `owner/repo` is that owner's repository, provided
/// neither part holds a `/` and the text does not mention `github.com`.
pub proof fn law_shorthand_names_repo(owner: Seq<char>, repo: Seq<char>)
    requires
        lacks(owner, '/'),
        lacks(repo, '/'),
        !has_infix(owner + "/"@ + repo, "github.com"@),
    ensures
        parse_repo(owner + "/"@ + repo) == Some((owner, repo)),
        resolved_repo(Some(owner + "/"@ + repo)) == Some((owner, repo)),
{
    reveal_strlit("/");
    reveal_strlit("github.com");
    reveal_strlit("https://github.com/");
    reveal_strlit("http://github.com/");
    reveal_strlit("git@github.com:");
    let u = owner + "/"@ + repo;
    assert("https://github.com/"@.subrange(8, 18) =~= "github.com"@);
    assert("http://github.com/"@.subrange(7, 17) =~= "github.com"@);
    assert("git@github.com:"@.subrange(4, 14) =~= "github.com"@);
    if has_prefix(u, "https://github.com/"@) {
        lemma_prefix_infix(u, "https://github.com/"@, 8, "github.com"@);
    }
    if has_prefix(u, "http://github.com/"@) {
        lemma_prefix_infix(u, "http://github.com/"@, 7, "github.com"@);
    }
    if has_prefix(u, "git@github.com:"@) {
        lemma_prefix_infix(u, "git@github.com:"@, 4, "github.com"@);
    }
    lemma_count_concat(owner + "/"@, repo, '/');
    lemma_count_concat(owner, "/"@, '/');
    lemma_count_lacks(owner, '/');
    lemma_count_lacks(repo, '/');
    assert(count_of("/"@, '/') == 1) by {
        assert("/"@.len() == 1);
        assert("/"@.last() == '/');
        assert("/"@.drop_last() =~= Seq::<char>::empty());
        assert(count_of(Seq::<char>::empty(), '/') == 0);
    }
    assert forall|i: int| 0 <= i < owner.len() implies u[i] != '/' by {
        assert(u[i] == owner[i]);
    }
    lemma_first_index_found(u, '/', owner.len() as int);
    assert(u.subrange(0, owner.len() as int) =~= owner);
    assert(u.subrange(owner.len() as int + 1, u.len() as int) =~= repo);
}

/// `https://github.com/owner/repo`, with or without `.git` and a trailing
/// `/`, is that owner's repository, as `owner/repo` is.
pub proof fn law_web_address_names_repo(owner: Seq<char>, repo: Seq<char>)
    requires
        owner.len() > 0,
        repo.len() > 0,
        lacks(owner, '/'),
        lacks(repo, '/'),
        !(repo.len() > 4 && has_suffix(repo, ".git"@)),
    ensures
        parse_repo("https://github.com/"@ + owner + "/"@ + repo) == Some((owner, repo)),
        parse_repo("https://github.com/"@ + owner + "/"@ + repo + ".git"@) == Some((owner, repo)),
        parse_repo("https://github.com/"@ + owner + "/"@ + repo + "/"@) == Some((owner, repo)),
{
    reveal_strlit("/");
    reveal_strlit(".git");
    reveal_strlit("https://github.com/");
    let pre = "https://github.com/"@;
    let forms = seq![repo, repo + ".git"@, repo + "/"@];
    assert forall|k: int| 0 <= k < 3 implies parse_web(pre + owner + "/"@ + #[trigger] forms[k])
        == Some((owner, repo)) by {
        let tail = forms[k];
        let u = pre + owner + "/"@ + tail;
        assert(has_prefix(u, pre)) by {
            assert(u.subrange(0, pre.len() as int) =~= pre);
        }
        assert(u.skip(19) =~= owner + "/"@ + tail);
        lemma_split_owner(owner, tail);
        if k == 0 {
            assert(tail.last() != '/');
        } else if k == 1 {
            let t = repo + ".git"@;
            assert(t.last() != '/');
            assert(lacks(t, '/')) by {
                assert forall|i: int| 0 <= i < t.len() implies t[i] != '/' by {
                    if i >= repo.len() {
                        assert(t[i] == ".git"@[i - repo.len()]);
                    }
                }
            }
            assert(has_suffix(t, ".git"@)) by {
                assert(t.subrange(t.len() - 4, t.len() as int) =~= ".git"@);
            }
            assert(t.subrange(0, t.len() - 4) =~= repo);
        } else {
            let t = repo + "/"@;
            assert(t.drop_last() =~= repo);
        }
    }
    assert(forms[0] == repo);
    assert(forms[1] == repo + ".git"@);
    assert(forms[2] == repo + "/"@);
    assert(parse_web(pre + owner + "/"@ + forms[1]) == Some((owner, repo)));
    assert(parse_web(pre + owner + "/"@ + forms[2]) == Some((owner, repo)));
    assert(pre + owner + "/"@ + repo + ".git"@ =~= pre + owner + "/"@ + forms[1]);
    assert(pre + owner + "/"@ + repo + "/"@ =~= pre + owner + "/"@ + forms[2]);
}

/// `git@github.com:owner/repo`, with or without `.git`, is that owner's
/// repository: the owner is everything up to the first `/`, and the
/// repository is the rest (which may hold further `/`s but no line break).
pub proof fn law_ssh_address_names_repo(owner: Seq<char>, repo: Seq<char>)
    requires
        owner.len() > 0,
        repo.len() > 0,
        lacks(owner, '/'),
        lacks(repo, '\n'),
        !has_suffix(repo, ".git"@),
    ensures
        parse_repo("git@github.com:"@ + owner + "/"@ + repo) == Some((owner, repo)),
        parse_repo("git@github.com:"@ + owner + "/"@ + repo + ".git"@) == Some((owner, repo)),
        resolved_repo(Some("git@github.com:"@ + owner + "/"@ + repo)) == Some((owner, repo)),
        resolved_repo(Some("git@github.com:"@ + owner + "/"@ + repo + ".git"@)) == Some(
            (owner, repo),
        ),
{
    reveal_strlit("/");
    reveal_strlit(".git");
    reveal_strlit("git@github.com:");
    reveal_strlit("https://github.com/");
    reveal_strlit("http://github.com/");
    let pre = "git@github.com:"@;
    let forms = seq![repo, repo + ".git"@];
    assert forall|k: int| 0 <= k < 2 implies parse_repo(pre + owner + "/"@ + #[trigger] forms[k])
        == Some((owner, repo)) by {
        let tail = forms[k];
        let u = pre + owner + "/"@ + tail;
        assert(u[0] == 'g');
        assert(!has_prefix(u, "https://github.com/"@)) by {
            if has_prefix(u, "https://github.com/"@) {
                assert(u.subrange(0, 19)[0] == "https://github.com/"@[0]);
            }
        }
        assert(!has_prefix(u, "http://github.com/"@)) by {
            if has_prefix(u, "http://github.com/"@) {
                assert(u.subrange(0, 18)[0] == "http://github.com/"@[0]);
            }
        }
        assert(parse_web(u) is None);
        assert(has_prefix(u, pre)) by {
            assert(u.subrange(0, pre.len() as int) =~= pre);
        }
        assert(u.skip(15) =~= owner + "/"@ + tail);
        lemma_split_owner(owner, tail);
        if k == 0 {
            assert(tail == repo);
            assert(strip_git(tail) == repo);
        } else {
            let t = repo + ".git"@;
            assert(tail == t);
            assert(lacks(t, '\n')) by {
                assert forall|i: int| 0 <= i < t.len() implies t[i] != '\n' by {
                    if i >= repo.len() {
                        assert(t[i] == ".git"@[i - repo.len()]);
                    }
                }
            }
            assert(has_suffix(t, ".git"@)) by {
                assert(t.subrange(t.len() - 4, t.len() as int) =~= ".git"@);
            }
            assert(t.subrange(0, t.len() - 4) =~= repo);
        }
    }
    assert(forms[0] == repo);
    assert(forms[1] == repo + ".git"@);
    assert(pre + owner + "/"@ + repo + ".git"@ =~= pre + owner + "/"@ + forms[1]);
    assert(parse_repo(pre + owner + "/"@ + forms[0]) == Some((owner, repo)));
    assert(parse_repo(pre + owner + "/"@ + forms[1]) == Some((owner, repo)));
}

} // verus!
