//! Skill names, repository sources of skills, and the summary of an import.
use vstd::prelude::*;
use crate::text::{
    chars_of, concat_str, contains, decimal, decimal_string, find_char, has_prefix, index_from,
    lemma_index_from_bounds, opt_view, same_text, starts_with_chars, str_contains, string_of_range,
    trim_to_string, trimmed,
};

verus! {

/// The outcome of a command, as reported to the host.
pub struct ExecResult {
    pub ok: bool,
    pub status: i32,
    pub stdout: String,
    pub stderr: String,
}

/// The view of a `Result` of strings.
pub open spec fn result_view(r: Result<String, String>) -> Result<Seq<char>, Seq<char>> {
    match r {
        Ok(s) => Ok(s@),
        Err(e) => Err(e@),
    }
}

pub open spec fn is_kebab_char(c: char) -> bool {
    ('a' <= c && c <= 'z') || ('0' <= c && c <= '9') || c == '-'
}

/// Lower-case letters, digits and single inner hyphens.
pub open spec fn is_kebab_case(s: Seq<char>) -> bool {
    &&& forall|i: int| 0 <= i < s.len() ==> is_kebab_char(#[trigger] s[i])
    &&& s.len() > 0 ==> s[0] != '-' && s.last() != '-'
    &&& !contains(s, "--"@)
}

/// A skill name, trimmed, when it is present and in kebab case.
pub open spec fn skill_name_check(name: Seq<char>) -> Result<Seq<char>, Seq<char>> {
    let t = trimmed(name);
    if t.len() == 0 {
        Err("skill name is required"@)
    } else if !is_kebab_case(t) {
        Err("skill name must be kebab-case"@)
    } else {
        Ok(t)
    }
}

/// Checks a skill name and returns it trimmed.
pub fn validate_skill_name(name: &str) -> (r: Result<String, String>)
    ensures
        result_view(r) == skill_name_check(name@),
{
    let t = trim_to_string(name);
    let v = chars_of(t.as_str());
    if v.len() == 0 {
        return Err(String::from_str("skill name is required"));
    }
    let mut i: usize = 0;
    while i < v.len()
        invariant
            v@ == t@,
            t@ == trimmed(name@),
            v@.len() > 0,
            i <= v@.len(),
            forall|k: int| 0 <= k < i ==> is_kebab_char(#[trigger] v@[k]),
        decreases v@.len() - i,
    {
        let c = v[i];
        if !(('a' <= c && c <= 'z') || ('0' <= c && c <= '9') || c == '-') {
            assert(!is_kebab_char(t@[i as int]));
            return Err(String::from_str("skill name must be kebab-case"));
        }
        i = i + 1;
    }
    if v[0] == '-' || v[v.len() - 1] == '-' || str_contains(t.as_str(), "--") {
        return Err(String::from_str("skill name must be kebab-case"));
    }
    Ok(t)
}

/// Where skills are fetched from: a clone URL, and optionally a branch and a
/// directory inside the repository.
pub struct RepoSource {
    pub repo_url: String,
    pub branch: Option<String>,
    pub subdir: Option<String>,
}

pub struct RepoSourceView {
    pub repo_url: Seq<char>,
    pub branch: Option<Seq<char>>,
    pub subdir: Option<Seq<char>>,
}

impl View for RepoSource {
    type V = RepoSourceView;

    open spec fn view(&self) -> RepoSourceView {
        RepoSourceView {
            repo_url: self.repo_url@,
            branch: opt_view(self.branch),
            subdir: opt_view(self.subdir),
        }
    }
}

/// A GitHub `tree` or `blob` URL read as owner, repository, branch and an
/// optional directory; anything else is not such a URL.
pub open spec fn github_tree(source: Seq<char>) -> Option<RepoSourceView> {
    let prefix = "https://github.com/"@;
    if !has_prefix(source, prefix) {
        None
    } else {
        let rem = source.subrange(prefix.len() as int, source.len() as int);
        let s1 = index_from(rem, '/', 0);
        let s2 = index_from(rem, '/', s1 + 1);
        let s3 = index_from(rem, '/', s2 + 1);
        if s3 >= rem.len() {
            None
        } else {
            let marker = rem.subrange(s2 + 1, s3);
            if marker != "tree"@ && marker != "blob"@ {
                None
            } else {
                let s4 = index_from(rem, '/', s3 + 1);
                Some(
                    RepoSourceView {
                        repo_url: "https://github.com/"@ + rem.subrange(0, s1) + "/"@ + rem.subrange(s1 + 1, s2)
                            + ".git"@,
                        branch: Some(rem.subrange(s3 + 1, s4)),
                        subdir: if s4 < rem.len() {
                            Some(rem.subrange(s4 + 1, rem.len() as int))
                        } else {
                            None
                        },
                    },
                )
            }
        }
    }
}

/// Reads a GitHub `tree` or `blob` URL.
pub fn parse_github_tree_url(source: &str) -> (r: Option<RepoSource>)
    ensures
        match r {
            Some(s) => github_tree(source@) == Some(s@),
            None => github_tree(source@) is None,
        },
{
    let v = chars_of(source);
    if !starts_with_chars(&v, "https://github.com/") {
        return None;
    }
    let plen = "https://github.com/".unicode_len();
    let rest = string_of_range(&v, plen, v.len());
    let rem = chars_of(rest.as_str());
    let n = rem.len();
    let ghost g = rem@;
    proof {
        lemma_index_from_bounds(g, '/', 0);
        assert(index_from(g, '/', n + 1) == n);
    }
    let s1 = find_char(&rem, '/', 0);
    if s1 >= n {
        assert(index_from(g, '/', s1 + 1) == n);
        return None;
    }
    let s2 = find_char(&rem, '/', s1 + 1);
    if s2 >= n {
        assert(index_from(g, '/', s2 + 1) == n);
        return None;
    }
    let s3 = find_char(&rem, '/', s2 + 1);
    if s3 >= n {
        return None;
    }
    let marker = string_of_range(&rem, s2 + 1, s3);
    if !same_text(marker.as_str(), "tree") && !same_text(marker.as_str(), "blob") {
        return None;
    }
    let s4 = find_char(&rem, '/', s3 + 1);
    let owner = string_of_range(&rem, 0, s1);
    let repo = string_of_range(&rem, s1 + 1, s2);
    let url = concat_str("https://github.com/", owner.as_str()).concat("/").concat(repo.as_str()).concat(".git");
    let branch = string_of_range(&rem, s3 + 1, s4);
    let subdir = if s4 < n {
        Some(string_of_range(&rem, s4 + 1, n))
    } else {
        None
    };
    Some(RepoSource { repo_url: url, branch: Some(branch), subdir })
}

/// `s` without its trailing `c` characters.
pub open spec fn strip_trailing(s: Seq<char>, c: char) -> Seq<char>
    decreases s.len(),
{
    if s.len() > 0 && s.last() == c {
        strip_trailing(s.drop_last(), c)
    } else {
        s
    }
}

/// The source named by `source`: a GitHub tree URL is read as such, anything
/// else is taken as a clone URL as it stands, trimmed and without trailing
/// slashes.
pub open spec fn repo_source(source: Seq<char>) -> RepoSourceView {
    let t = strip_trailing(trimmed(source), '/');
    match github_tree(t) {
        Some(r) => r,
        None => RepoSourceView { repo_url: t, branch: None, subdir: None },
    }
}

/// Reads where skills should be imported from.
pub fn parse_repo_source(source: &str) -> (r: RepoSource)
    ensures
        r@ == repo_source(source@),
{
    let t = trim_to_string(source);
    let v = chars_of(t.as_str());
    let mut k = v.len();
    assert(v@.subrange(0, k as int) =~= v@);
    while k > 0 && v[k - 1] == '/'
        invariant
            v@ == t@,
            k <= v@.len(),
            strip_trailing(t@, '/') == strip_trailing(v@.subrange(0, k as int), '/'),
        decreases k,
    {
        assert(v@.subrange(0, k as int).drop_last() =~= v@.subrange(0, k - 1));
        k = k - 1;
    }
    let stripped = string_of_range(&v, 0, k);
    match parse_github_tree_url(stripped.as_str()) {
        Some(parsed) => parsed,
        None => RepoSource { repo_url: stripped, branch: None, subdir: None },
    }
}

/// The summary of a skill import that copied `imported` skills and left
/// `skipped` already installed ones alone.
pub open spec fn import_summary_text(imported: nat, skipped: nat) -> Seq<char> {
    if imported == 0 {
        "No new skills imported ("@ + decimal(skipped as int) + " already installed)."@
    } else if skipped > 0 {
        "Imported "@ + decimal(imported as int) + " skill(s); skipped "@ + decimal(skipped as int) + " existing."@
    } else {
        "Imported "@ + decimal(imported as int) + " skill(s)."@
    }
}

/// The summary line of a skill import.
pub fn import_summary(imported: u32, skipped: u32) -> (r: String)
    ensures
        r@ == import_summary_text(imported as nat, skipped as nat),
{
    if imported == 0 {
        let n = decimal_string(skipped as i64);
        concat_str("No new skills imported (", n.as_str()).concat(" already installed).")
    } else if skipped > 0 {
        let a = decimal_string(imported as i64);
        let b = decimal_string(skipped as i64);
        concat_str("Imported ", a.as_str()).concat(" skill(s); skipped ").concat(b.as_str()).concat(" existing.")
    } else {
        let a = decimal_string(imported as i64);
        concat_str("Imported ", a.as_str()).concat(" skill(s).")
    }
}

} // verus!
