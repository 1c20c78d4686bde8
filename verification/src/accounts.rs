//! Accounts, their tokens, and what is known of their usage.

use vstd::prelude::*;

verus! {

/// An account at the upstream.
pub struct Account {
    pub id: String,
    pub label: String,
    pub issuer: String,
    pub chatgpt_account_id: Option<String>,
    pub workspace_id: Option<String>,
    pub group_name: Option<String>,
    pub sort: i64,
    pub status: String,
    pub created_at: i64,
    pub updated_at: i64,
}

/// What an account proves itself with.
pub struct Token {
    pub account_id: String,
    pub id_token: String,
    pub access_token: String,
    pub refresh_token: String,
    pub api_key_access_token: Option<String>,
    pub last_refresh: i64,
}

/// A percentage, held as the bits of a double-precision number.
#[derive(Debug, Clone, Copy, PartialEq, Eq, Structural)]
pub struct Percent {
    pub bits: u64,
}

impl Percent {
    /// The place of the number in the total order of double-precision numbers: negative ones, sign
    /// bit set, come first, the larger their magnitude the earlier.
    pub open spec fn place(self) -> int {
        if self.bits < 0x8000_0000_0000_0000 {
            self.bits as int
        } else {
            0x7fff_ffff_ffff_ffff - self.bits
        }
    }

    /// The place of the number in the total order of double-precision numbers.
    pub fn ordinal(self) -> (r: i64)
        ensures
            r == self.place(),
    {
        if self.bits < 0x8000_0000_0000_0000 {
            self.bits as i64
        } else {
            -1 - ((self.bits - 0x8000_0000_0000_0000) as i64)
        }
    }
}

/// What an account has used of its limits when it was last looked at: in a window, and in a second
/// one that spans a longer time.
pub struct UsageSnapshotRecord {
    pub account_id: String,
    pub used_percent: Option<Percent>,
    pub window_minutes: Option<i64>,
    pub resets_at: Option<i64>,
    pub secondary_used_percent: Option<Percent>,
    pub secondary_window_minutes: Option<i64>,
    pub secondary_resets_at: Option<i64>,
    pub credits_json: Option<String>,
    pub captured_at: i64,
}

/// An account that requests can go to, with its token.
pub type Candidate = (Account, Token);

/// A copy of an optional text.
pub fn clone_text(text: &Option<String>) -> (r: Option<String>)
    ensures
        r == *text,
{
    match text {
        Some(text) => Some(text.clone()),
        None => None,
    }
}

impl Clone for Account {
    fn clone(&self) -> (r: Account)
        ensures
            r == *self,
    {
        Account {
            id: self.id.clone(),
            label: self.label.clone(),
            issuer: self.issuer.clone(),
            chatgpt_account_id: clone_text(&self.chatgpt_account_id),
            workspace_id: clone_text(&self.workspace_id),
            group_name: clone_text(&self.group_name),
            sort: self.sort,
            status: self.status.clone(),
            created_at: self.created_at,
            updated_at: self.updated_at,
        }
    }
}

impl Clone for Token {
    fn clone(&self) -> (r: Token)
        ensures
            r == *self,
    {
        Token {
            account_id: self.account_id.clone(),
            id_token: self.id_token.clone(),
            access_token: self.access_token.clone(),
            refresh_token: self.refresh_token.clone(),
            api_key_access_token: clone_text(&self.api_key_access_token),
            last_refresh: self.last_refresh,
        }
    }
}

/// A copy of each candidate.
pub fn clone_candidates(candidates: &Vec<Candidate>) -> (r: Vec<Candidate>)
    ensures
        r@ == candidates@,
{
    let mut out: Vec<Candidate> = Vec::new();
    let mut i: usize = 0;
    while i < candidates.len()
        invariant
            i <= candidates@.len(),
            out@ == candidates@.take(i as int),
        decreases candidates@.len() - i,
    {
        out.push((candidates[i].0.clone(), candidates[i].1.clone()));
        assert(candidates@.take(i + 1) =~= candidates@.take(i as int).push(candidates@[i as int]));
        i += 1;
    }
    assert(candidates@.take(candidates@.len() as int) =~= candidates@);
    out
}

} // verus!
