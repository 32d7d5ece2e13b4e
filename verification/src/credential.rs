//! The credential: a single bearer token read from a per-user file, trimmed of
//! surrounding whitespace, or provisioned interactively once and persisted
//! verbatim.
//!
//! This module holds the decisions; reading the file, prompting the operator
//! and writing the file are the host's, which hands the outcomes in as plain
//! values.

use vstd::prelude::*;

verus! {

/// The Unicode `White_Space` characters, the set `str::trim` removes.
pub open spec fn is_space(c: char) -> bool {
    let u = c as u32;
    (0x09 <= u && u <= 0x0D) || u == 0x20 || u == 0x85 || u == 0xA0 || u == 0x1680 || (0x2000 <= u
        && u <= 0x200A) || u == 0x2028 || u == 0x2029 || u == 0x202F || u == 0x205F || u == 0x3000
}

/// `s` with its leading whitespace removed.
pub open spec fn trim_start_spec(s: Seq<char>) -> Seq<char>
    decreases s.len(),
{
    if s.len() > 0 && is_space(s[0]) {
        trim_start_spec(s.subrange(1, s.len() as int))
    } else {
        s
    }
}

/// `s` with its trailing whitespace removed.
pub open spec fn trim_end_spec(s: Seq<char>) -> Seq<char>
    decreases s.len(),
{
    if s.len() > 0 && is_space(s.last()) {
        trim_end_spec(s.drop_last())
    } else {
        s
    }
}

/// `s` with both surrounding runs of whitespace removed.
pub open spec fn trimmed_spec(s: Seq<char>) -> Seq<char> {
    trim_end_spec(trim_start_spec(s))
}

/// Whether `c` is a Unicode `White_Space` character.
pub fn is_space_char(c: char) -> (r: bool)
    ensures
        r == is_space(c),
{
    let u = c as u32;
    (0x09 <= u && u <= 0x0D) || u == 0x20 || u == 0x85 || u == 0xA0 || u == 0x1680 || (0x2000 <= u
        && u <= 0x200A) || u == 0x2028 || u == 0x2029 || u == 0x202F || u == 0x205F || u == 0x3000
}

/// Dropping a fully-whitespace prefix is exactly `trim_start_spec`.
proof fn lemma_trim_start(s: Seq<char>, a: int)
    requires
        0 <= a <= s.len(),
        forall|j: int| 0 <= j < a ==> is_space(s[j]),
        a < s.len() ==> !is_space(s[a]),
    ensures
        trim_start_spec(s) =~= s.subrange(a, s.len() as int),
    decreases a,
{
    if a == 0 {
        assert(s.subrange(0, s.len() as int) =~= s);
    } else {
        let s1 = s.subrange(1, s.len() as int);
        lemma_trim_start(s1, a - 1);
        assert(s1.subrange(a - 1, s1.len() as int) =~= s.subrange(a, s.len() as int));
    }
}

/// Dropping a fully-whitespace suffix is exactly `trim_end_spec`: `b` is the
/// index of the last non-whitespace character, or `-1` when there is none.
proof fn lemma_trim_end(s: Seq<char>, b: int)
    requires
        -1 <= b < s.len(),
        forall|j: int| b < j < s.len() ==> is_space(s[j]),
        b >= 0 ==> !is_space(s[b]),
    ensures
        trim_end_spec(s) =~= s.subrange(0, b + 1),
    decreases s.len(),
{
    if b == s.len() - 1 {
        assert(s.subrange(0, s.len() as int) =~= s);
    } else {
        lemma_trim_end(s.drop_last(), b);
        assert(s.drop_last().subrange(0, b + 1) =~= s.subrange(0, b + 1));
    }
}

/// `s` without its surrounding whitespace, as `str::trim` returns it.
pub fn trim_spaces(s: &str) -> (r: String)
    ensures
        r@ == trimmed_spec(s@),
{
    let n = s.unicode_len();
    let mut a: usize = 0;
    while a < n && is_space_char(s.get_char(a))
        invariant
            n == s@.len(),
            a <= n,
            forall|j: int| 0 <= j < a ==> is_space(s@[j]),
        decreases n - a,
    {
        a += 1;
    }
    proof {
        lemma_trim_start(s@, a as int);
    }
    if a == n {
        proof {
            assert(trim_start_spec(s@) =~= Seq::<char>::empty());
        }
        return String::new();
    }
    let mut b: usize = n - 1;
    while is_space_char(s.get_char(b))
        invariant
            n == s@.len(),
            a < n,
            !is_space(s@[a as int]),
            a <= b < n,
            forall|j: int| b < j < n ==> is_space(s@[j]),
        decreases b,
    {
        proof {
            assert(b > a);
        }
        b -= 1;
    }
    proof {
        let t = trim_start_spec(s@);
        lemma_trim_end(t, b - a);
        assert(t.subrange(0, b - a + 1) =~= s@.subrange(a as int, b + 1));
    }
    s.substring_char(a, b + 1).to_owned()
}

/// How the credential comes to exist for this process.
pub enum CredentialDecision {
    /// The token file existed: use its trimmed contents.
    Ready(String),
    /// The token file was missing: prompt the operator once.
    Prompt,
}

/// Decide from the token file's contents (`None` when the file was missing):
/// existing contents are used trimmed; a missing file demands provisioning.
pub fn credential_from_read(read: Option<String>) -> (r: CredentialDecision)
    ensures
        match read {
            Some(s) => r matches CredentialDecision::Ready(t) && t@ == trimmed_spec(s@),
            None => r is Prompt,
        },
{
    match read {
        Some(raw) => CredentialDecision::Ready(trim_spaces(raw.as_str())),
        None => CredentialDecision::Prompt,
    }
}

/// What provisioning does with the operator's entered token.
pub struct ProvisionedCredential {
    /// Written to the token file, verbatim.
    pub file_contents: String,
    /// Used as the credential for this process, verbatim.
    pub credential: String,
}

/// Provision the entered token: it is persisted and used exactly as entered.
pub fn provision(entered: &str) -> (r: ProvisionedCredential)
    ensures
        r.file_contents@ == entered@,
        r.credential@ == entered@,
{
    ProvisionedCredential { file_contents: entered.to_owned(), credential: entered.to_owned() }
}

} // verus!
