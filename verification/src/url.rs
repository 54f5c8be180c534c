//! Repository URLs.
//!
//! A registration URL must have the shape
//! `https://github.com/<owner>/<repository>`: after the fixed prefix at most
//! 39 characters, no double hyphen anywhere in them, an owner of letters,
//! digits and hyphens that neither starts nor ends with a hyphen, and a
//! repository name of word characters, dots, hyphens and anything beyond
//! ASCII.  An optional `.git` suffix on the repository name is stripped.
//! The grammar is stated here as spec functions and the parser is verified
//! against it.

use vstd::prelude::*;
use vstd::string::StrSliceExecFns;
use vstd::string::StringExecFns;

use crate::data::PluginData;

verus! {

/// The fixed scheme-and-host prefix of a repository URL.
pub open spec fn repo_url_prefix() -> Seq<char> {
    "https://github.com/"@
}

/// `c` is an ASCII letter or digit.
pub open spec fn is_alnum(c: char) -> bool {
    ('a' <= c && c <= 'z') || ('A' <= c && c <= 'Z') || ('0' <= c && c <= '9')
}

/// `c` may stand in an owner segment.
pub open spec fn is_owner_char(c: char) -> bool {
    is_alnum(c) || c == '-'
}

/// `c` may stand in a repository-name segment: an ASCII word character, dot
/// or hyphen, or any character beyond ASCII — the segment is otherwise
/// unconstrained.
pub open spec fn is_repo_char(c: char) -> bool {
    is_alnum(c) || c == '-' || c == '.' || c == '_' || c > '\u{007f}'
}

/// A well-formed owner segment: nonempty, owner characters only, neither
/// starting nor ending with a hyphen.
pub open spec fn valid_owner(s: Seq<char>) -> bool {
    &&& s.len() >= 1
    &&& forall|j: int| 0 <= j < s.len() ==> is_owner_char(#[trigger] s[j])
    &&& is_alnum(s[0])
    &&& is_alnum(s[s.len() - 1])
}

/// A well-formed repository-name segment: nonempty, repo characters only.
pub open spec fn valid_repo_name(s: Seq<char>) -> bool {
    s.len() >= 1 && forall|j: int| 0 <= j < s.len() ==> is_repo_char(#[trigger] s[j])
}

/// Two hyphens stand side by side somewhere in `s`.
pub open spec fn has_double_hyphen(s: Seq<char>) -> bool {
    exists|j: int| 0 <= j < s.len() - 1 && (#[trigger] s[j]) == '-' && s[j + 1] == '-'
}

/// Position `k` splits the part after the prefix into a well-formed owner
/// and repository name.
pub open spec fn slash_candidate(rest: Seq<char>, k: int) -> bool {
    &&& 0 <= k < rest.len()
    &&& rest[k] == '/'
    &&& valid_owner(rest.take(k))
    &&& valid_repo_name(rest.skip(k + 1))
}

/// The URL matches the repository-URL grammar.
pub open spec fn valid_repository_url(u: Seq<char>) -> bool {
    let p = repo_url_prefix();
    let rest = u.skip(p.len() as int);
    &&& u.len() > p.len()
    &&& u.take(p.len() as int) == p
    &&& rest.len() <= 39
    &&& !has_double_hyphen(rest)
    &&& exists|k: int| #[trigger] slash_candidate(rest, k)
}

/// The split position of a valid URL's tail.
pub open spec fn spec_slash(rest: Seq<char>) -> int {
    choose|k: int| slash_candidate(rest, k)
}

/// The owner segment of a valid URL.
pub open spec fn spec_owner(u: Seq<char>) -> Seq<char> {
    let rest = u.skip(repo_url_prefix().len() as int);
    rest.take(spec_slash(rest))
}

/// The repository-name segment of a valid URL, `.git` suffix and all.
pub open spec fn spec_repo_raw(u: Seq<char>) -> Seq<char> {
    let rest = u.skip(repo_url_prefix().len() as int);
    rest.skip(spec_slash(rest) + 1)
}

/// The repository name of a valid URL, with a `.git` suffix stripped.
pub open spec fn spec_repo(u: Seq<char>) -> Seq<char> {
    let raw = spec_repo_raw(u);
    if crate::text::spec_ends_with(raw, ".git"@) {
        raw.take(raw.len() - 4)
    } else {
        raw
    }
}

/// At most one position can split the tail: segment characters never hold a
/// slash, so a second slash poisons one side.
pub proof fn lemma_slash_candidate_unique(rest: Seq<char>, k1: int, k2: int)
    requires
        slash_candidate(rest, k1),
        slash_candidate(rest, k2),
    ensures
        k1 == k2,
{
    if k1 < k2 {
        assert(rest.take(k2)[k1] == '/');
        assert(is_owner_char(rest.take(k2)[k1]));
        assert(false);
    }
    if k2 < k1 {
        assert(rest.take(k1)[k2] == '/');
        assert(is_owner_char(rest.take(k1)[k2]));
        assert(false);
    }
}

/// Where the first slash is no valid split, no position is.
pub proof fn lemma_no_valid_candidate(rest: Seq<char>, k1: int)
    requires
        0 <= k1 < rest.len(),
        rest[k1] == '/',
        forall|j: int| 0 <= j < k1 ==> rest[j] != '/',
        !slash_candidate(rest, k1),
    ensures
        !exists|k: int| #[trigger] slash_candidate(rest, k),
{
    assert forall|k: int| !(#[trigger] slash_candidate(rest, k)) by {
        if slash_candidate(rest, k) {
            if k < k1 {
                assert(rest[k] == '/');
                assert(false);
            } else if k > k1 {
                assert(rest.take(k)[k1] == '/');
                assert(is_owner_char(rest.take(k)[k1]));
                assert(false);
            }
        }
    }
}

/// The split position of a valid URL's tail is its first slash.
pub proof fn lemma_spec_slash_is(rest: Seq<char>, k1: int)
    requires
        slash_candidate(rest, k1),
    ensures
        spec_slash(rest) == k1,
{
    assert(exists|k: int| #[trigger] slash_candidate(rest, k));
    let ks = spec_slash(rest);
    assert(slash_candidate(rest, ks));
    lemma_slash_candidate_unique(rest, k1, ks);
}

/// An owner and repository name drawn from a registration URL.
#[derive(Debug)]
pub struct RepoRef {
    pub owner: String,
    pub repo: String,
}

/// Whether `c` is an ASCII letter or digit.
fn char_is_alnum(c: char) -> (r: bool)
    ensures
        r == is_alnum(c),
{
    ('a' <= c && c <= 'z') || ('A' <= c && c <= 'Z') || ('0' <= c && c <= '9')
}

/// Parse a registration URL against the repository-URL grammar; hand back
/// its owner and repository name (the `.git` suffix stripped) exactly where
/// the URL is valid.
pub fn parse_repository_url(url: &str) -> (r: Option<RepoRef>)
    ensures
        r is Some <==> valid_repository_url(url@),
        r matches Some(rr) ==> rr.owner@ == spec_owner(url@) && rr.repo@ == spec_repo(url@),
{
    proof {
        reveal_strlit("https://github.com/");
    }
    let n = url.unicode_len();
    if n < 20 {
        return None;
    }
    let prefix = url.substring_char(0, 19);
    if !crate::text::str_eq(prefix, "https://github.com/") {
        proof {
            assert(url@.take(19) =~= url@.subrange(0, 19));
        }
        return None;
    }
    let ghost rest = url@.skip(19);
    proof {
        assert(url@.take(19) =~= url@.subrange(0, 19));
        assert(rest.len() == n - 19);
        assert(forall|j: int| 0 <= j < rest.len() ==> #[trigger] rest[j] == url@[j + 19]);
    }
    if n - 19 > 39 {
        return None;
    }
    // no double hyphen anywhere after the prefix
    let mut j: usize = 19;
    while j + 1 < n
        invariant
            n == url@.len(),
            rest == url@.skip(19),
            rest.len() == n - 19,
            forall|j2: int| 0 <= j2 < rest.len() ==> #[trigger] rest[j2] == url@[j2 + 19],
            19 <= j <= n <= 58,
            forall|j2: int| 19 <= j2 < j && j2 + 1 < n ==> !((#[trigger] url@[j2]) == '-'
                && url@[j2 + 1] == '-'),
        decreases n - j,
    {
        if url.get_char(j) == '-' && url.get_char(j + 1) == '-' {
            proof {
                reveal_strlit("https://github.com/");
                assert(rest[j - 19] == '-' && rest[j - 19 + 1] == '-');
                assert(has_double_hyphen(rest));
            }
            return None;
        }
        j = j + 1;
    }
    proof {
        assert(!has_double_hyphen(rest)) by {
            if has_double_hyphen(rest) {
                let w = choose|w: int|
                    0 <= w < rest.len() - 1 && (#[trigger] rest[w]) == '-' && rest[w + 1] == '-';
                assert(url@[w + 19] == '-' && url@[w + 19 + 1] == '-');
            }
        }
    }
    // the first slash after the prefix splits owner from repository name
    let mut si: usize = 19;
    let mut found = false;
    while si < n && !found
        invariant
            n == url@.len(),
            rest == url@.skip(19),
            rest.len() == n - 19,
            forall|j2: int| 0 <= j2 < rest.len() ==> #[trigger] rest[j2] == url@[j2 + 19],
            19 <= si <= n,
            found ==> si < n && url@[si as int] == '/',
            forall|j2: int| 19 <= j2 < si ==> (#[trigger] url@[j2]) != '/',
        decreases n - si + (if found {
            0int
        } else {
            1int
        }),
    {
        if url.get_char(si) == '/' {
            found = true;
        } else {
            si = si + 1;
        }
    }
    proof {
        assert(forall|j2: int| 0 <= j2 < si - 19 ==> (#[trigger] rest[j2]) != '/');
    }
    if !found {
        proof {
            assert forall|k: int| !(#[trigger] slash_candidate(rest, k)) by {
                if 0 <= k < rest.len() {
                    assert(rest[k] == url@[k + 19]);
                }
            }
        }
        return None;
    }
    let ghost k1 = si - 19;
    proof {
        assert(rest[k1] == '/');
    }
    // validate the owner segment
    let ghost owner = rest.take(k1);
    proof {
        assert(forall|j2: int| 0 <= j2 < owner.len() ==> #[trigger] owner[j2] == url@[j2 + 19]);
    }
    if si == 19 {
        proof {
            lemma_no_valid_candidate(rest, k1);
        }
        return None;
    }
    let mut ok = true;
    let mut j: usize = 19;
    while j < si
        invariant
            n == url@.len(),
            19 <= j <= si < n,
            owner.len() == si - 19,
            forall|j2: int| 0 <= j2 < owner.len() ==> #[trigger] owner[j2] == url@[j2 + 19],
            ok ==> forall|j2: int| 19 <= j2 < j ==> is_owner_char(#[trigger] url@[j2]),
            !ok ==> exists|j2: int|
                0 <= j2 < owner.len() && !is_owner_char(#[trigger] owner[j2]),
        decreases si - j,
    {
        let c = url.get_char(j);
        if !(char_is_alnum(c) || c == '-') {
            proof {
                assert(!is_owner_char(owner[j - 19]));
            }
            ok = false;
        }
        j = j + 1;
    }
    if !ok {
        proof {
            assert(!valid_owner(owner));
            lemma_no_valid_candidate(rest, k1);
        }
        return None;
    }
    if !char_is_alnum(url.get_char(19)) || !char_is_alnum(url.get_char(si - 1)) {
        proof {
            assert(owner[0] == url@[19]);
            assert(owner[owner.len() - 1] == url@[si - 1]);
            assert(!valid_owner(owner));
            lemma_no_valid_candidate(rest, k1);
        }
        return None;
    }
    proof {
        assert forall|j2: int| 0 <= j2 < owner.len() implies is_owner_char(
            #[trigger] owner[j2],
        ) by {
            assert(owner[j2] == url@[j2 + 19]);
        }
        assert(valid_owner(owner));
    }
    // validate the repository-name segment
    let ghost repo_raw = rest.skip(k1 + 1);
    proof {
        assert(forall|j2: int| 0 <= j2 < repo_raw.len() ==> #[trigger] repo_raw[j2] == url@[j2
            + si + 1]);
    }
    if si + 1 >= n {
        proof {
            lemma_no_valid_candidate(rest, k1);
        }
        return None;
    }
    let mut ok = true;
    let mut j: usize = si + 1;
    while j < n
        invariant
            n == url@.len(),
            si + 1 <= j <= n,
            si + 1 < n,
            repo_raw.len() == n - si - 1,
            forall|j2: int| 0 <= j2 < repo_raw.len() ==> #[trigger] repo_raw[j2] == url@[j2 + si
                + 1],
            ok ==> forall|j2: int|
                si + 1 <= j2 < j ==> is_repo_char(#[trigger] url@[j2]),
            !ok ==> exists|j2: int|
                0 <= j2 < repo_raw.len() && !is_repo_char(#[trigger] repo_raw[j2]),
        decreases n - j,
    {
        let c = url.get_char(j);
        if !(char_is_alnum(c) || c == '-' || c == '.' || c == '_' || c > '\u{007f}') {
            proof {
                assert(!is_repo_char(repo_raw[j - si - 1]));
            }
            ok = false;
        }
        j = j + 1;
    }
    if !ok {
        proof {
            assert(!valid_repo_name(repo_raw));
            lemma_no_valid_candidate(rest, k1);
        }
        return None;
    }
    proof {
        assert forall|j2: int| 0 <= j2 < repo_raw.len() implies is_repo_char(
            #[trigger] repo_raw[j2],
        ) by {
            assert(repo_raw[j2] == url@[j2 + si + 1]);
        }
        assert(valid_repo_name(repo_raw));
        assert(slash_candidate(rest, k1));
        lemma_spec_slash_is(rest, k1);
    }
    let owner_str = url.substring_char(19, si).to_owned();
    let raw_str = url.substring_char(si + 1, n);
    proof {
        assert(owner_str@ =~= owner);
        assert(raw_str@ =~= repo_raw);
    }
    let raw_len = n - si - 1;
    let repo_str = if crate::text::str_ends_with(raw_str, ".git") {
        proof {
            reveal_strlit(".git");
        }
        raw_str.substring_char(0, raw_len - 4).to_owned()
    } else {
        raw_str.to_owned()
    };
    proof {
        assert(spec_repo(url@) == repo_str@);
    }
    Some(RepoRef { owner: owner_str, repo: repo_str })
}

/// The releases-listing endpoint for an owner and repository name.
pub open spec fn releases_endpoint_view(owner: Seq<char>, repo: Seq<char>) -> Seq<char> {
    "https://api.github.com/repos/"@ + owner + "/"@ + repo + "/releases"@
}

/// Build the releases-listing endpoint for an owner and repository name.
pub fn releases_endpoint(owner: &str, repo: &str) -> (r: String)
    ensures
        r@ == releases_endpoint_view(owner@, repo@),
{
    let mut out = String::new();
    out.append("https://api.github.com/repos/");
    out.append(owner);
    out.append("/");
    out.append(repo);
    out.append("/releases");
    out
}

/// The canonical repository URL for an owner and repository name.
pub fn github_repo_url(owner: &str, name: &str) -> (r: String)
    ensures
        r@ == repo_url_prefix() + owner@ + "/"@ + name@,
{
    let mut out = String::new();
    out.append("https://github.com/");
    out.append(owner);
    out.append("/");
    out.append(name);
    out
}

/// The asset-download URL of a recorded release.
pub open spec fn download_url_view(
    repo_url: Seq<char>,
    version: Seq<char>,
    file: Seq<char>,
) -> Seq<char> {
    repo_url + "/releases/download/"@ + version + "/"@ + file
}

/// Build the asset-download URL of a recorded release.
pub fn download_url(p: &PluginData) -> (r: String)
    ensures
        r@ == download_url_view(p@.repository_url, p@.version, p@.file_name),
{
    let mut out = String::new();
    out.append(p.repository_url.as_str());
    out.append("/releases/download/");
    out.append(p.version.as_str());
    out.append("/");
    out.append(p.file_name.as_str());
    out
}

/// The releases-listing endpoint derived from a stored repository URL, by
/// its slash-separated segments (owner is the fourth, name the fifth); `None`
/// where the URL has too few segments.
pub fn endpoint_from_repository_url(u: &str) -> (r: Option<String>)
    ensures
        r is Some <==> crate::text::spec_split(u@, '/').len() >= 5,
        r matches Some(v) ==> v@ == releases_endpoint_view(
            crate::text::spec_split(u@, '/')[3],
            crate::text::spec_split(u@, '/')[4],
        ),
{
    let parts = crate::text::split_char(u, '/');
    if parts.len() < 5 {
        return None;
    }
    let r = releases_endpoint(parts[3].as_str(), parts[4].as_str());
    Some(r)
}

} // verus!
