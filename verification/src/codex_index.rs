//! Loading the Codex account index, and rebuilding it from the account files
//! when it is missing, blank, empty or damaged.
use vstd::prelude::*;
use vstd::relations::sorted_by;
use crate::codex::{summary_of, summary_position, CodexAccount, CodexAccountIndex, CodexAccountSummary};
use crate::strings::opt_str;
use crate::text::trim;

verus! {

broadcast use vstd::string::group_string_axioms;

impl CodexAccountIndex {
    /// An index without accounts and without a current one.
    pub fn new() -> (r: CodexAccountIndex)
        ensures
            r.accounts@.len() == 0,
            r.current_account_id is None,
    {
        CodexAccountIndex { accounts: Vec::new(), current_account_id: None }
    }
}

/// What was found where the index file lives.
#[derive(Debug)]
pub enum CodexIndexFile {
    /// There is no index file.
    Missing,
    /// The file could not be read, with the reason.
    Unreadable(String),
    /// The file holds only white space.
    Blank,
    /// The file holds an index.
    Parsed(CodexAccountIndex),
    /// The file holds no index, with the parse error.
    Corrupt(String),
}

/// Why the index could not be loaded.
#[derive(Debug)]
pub enum CodexIndexError {
    /// Reading failed and no account file could rebuild it; the message.
    ReadFailed(String),
    /// The file is damaged and no account file could rebuild it; the parse
    /// error.
    Corrupted(String),
}

/// `content.trim().is_empty()`: whether an index file's text is blank.
pub fn index_content_is_blank(content: &str) -> (r: bool)
    ensures
        r == (trim(content@).len() == 0),
{
    crate::text::trimmed(content).len() == 0
}

/// Whether a parsed index lists accounts.
pub open spec fn lists_accounts(file: CodexIndexFile) -> bool {
    file matches CodexIndexFile::Parsed(i) && i.accounts@.len() > 0
}

/// Whether loading the index first tries to rebuild it from the account
/// files; the checked load also tries after a failed read.
pub open spec fn needs_repair(file: CodexIndexFile, checked: bool) -> bool {
    match file {
        CodexIndexFile::Unreadable(_) => checked,
        _ => !lists_accounts(file),
    }
}

/// `load_account_index` and `load_account_index_checked` rebuild the index
/// from the account files in these cases.
pub fn index_needs_repair(file: &CodexIndexFile, checked: bool) -> (r: bool)
    ensures
        r == needs_repair(*file, checked),
{
    match file {
        CodexIndexFile::Missing => true,
        CodexIndexFile::Unreadable(_) => checked,
        CodexIndexFile::Blank => true,
        CodexIndexFile::Parsed(i) => i.accounts.len() == 0,
        CodexIndexFile::Corrupt(_) => true,
    }
}

/// `load_account_index_checked`: the index the file gives, else the one
/// rebuilt from the account files (`repaired`), else an empty index, or the
/// error when the file could not be read or is damaged and nothing was
/// rebuilt.
pub fn load_account_index_checked(file: CodexIndexFile, repaired: Option<CodexAccountIndex>) -> (r: Result<
    CodexAccountIndex,
    CodexIndexError,
>)
    ensures
        lists_accounts(file) ==> r == Ok::<CodexAccountIndex, CodexIndexError>(file->Parsed_0),
        !lists_accounts(file) && repaired is Some ==> r == Ok::<CodexAccountIndex, CodexIndexError>(repaired->0),
        !lists_accounts(file) && repaired is None ==> match file {
            CodexIndexFile::Missing => r matches Ok(i) && i.accounts@.len() == 0 && i.current_account_id is None,
            CodexIndexFile::Blank => r matches Ok(i) && i.accounts@.len() == 0 && i.current_account_id is None,
            CodexIndexFile::Parsed(p) => r == Ok::<CodexAccountIndex, CodexIndexError>(p),
            CodexIndexFile::Unreadable(e) => r matches Err(CodexIndexError::ReadFailed(m)) && m@ == "读取账号索引失败: "@ + e@,
            CodexIndexFile::Corrupt(e) => r matches Err(CodexIndexError::Corrupted(m)) && m == e,
        },
{
    match file {
        CodexIndexFile::Parsed(i) => {
            if i.accounts.len() > 0 {
                return Ok(i);
            }
            match repaired {
                Some(x) => Ok(x),
                None => Ok(i),
            }
        },
        CodexIndexFile::Missing => match repaired {
            Some(x) => Ok(x),
            None => Ok(CodexAccountIndex::new()),
        },
        CodexIndexFile::Blank => match repaired {
            Some(x) => Ok(x),
            None => Ok(CodexAccountIndex::new()),
        },
        CodexIndexFile::Unreadable(e) => match repaired {
            Some(x) => Ok(x),
            None => Err(CodexIndexError::ReadFailed(crate::text::concat("读取账号索引失败: ", e.as_str()))),
        },
        CodexIndexFile::Corrupt(e) => match repaired {
            Some(x) => Ok(x),
            None => Err(CodexIndexError::Corrupted(e)),
        },
    }
}

/// `load_account_index`: the index the file gives, else (but after a failed
/// read) the one rebuilt from the account files, else an empty index.
pub fn load_account_index(file: CodexIndexFile, repaired: Option<CodexAccountIndex>) -> (r: CodexAccountIndex)
    ensures
        lists_accounts(file) ==> r == file->Parsed_0,
        file is Unreadable ==> r.accounts@.len() == 0 && r.current_account_id is None,
        needs_repair(file, false) && repaired is Some ==> r == repaired->0,
        needs_repair(file, false) && repaired is None ==> r.accounts@.len() == 0 && r.current_account_id is None,
{
    match file {
        CodexIndexFile::Parsed(i) => {
            if i.accounts.len() > 0 {
                return i;
            }
            match repaired {
                Some(x) => x,
                None => CodexAccountIndex::new(),
            }
        },
        CodexIndexFile::Unreadable(_) => CodexAccountIndex::new(),
        _ => match repaired {
            Some(x) => x,
            None => CodexAccountIndex::new(),
        },
    }
}

/// The order of texts by their characters, a prefix first.
pub open spec fn text_le(a: Seq<char>, b: Seq<char>) -> bool
    decreases a.len(),
{
    if a.len() == 0 {
        true
    } else if b.len() == 0 {
        false
    } else if a[0] != b[0] {
        a[0] < b[0]
    } else {
        text_le(a.drop_first(), b.drop_first())
    }
}

proof fn lemma_text_le_total(a: Seq<char>, b: Seq<char>)
    ensures
        text_le(a, b) || text_le(b, a),
    decreases a.len(),
{
    if a.len() > 0 && b.len() > 0 {
        if a[0] == b[0] {
            lemma_text_le_total(a.drop_first(), b.drop_first());
        }
    }
}

proof fn lemma_text_le_transitive(a: Seq<char>, b: Seq<char>, c: Seq<char>)
    requires
        text_le(a, b),
        text_le(b, c),
    ensures
        text_le(a, c),
    decreases a.len(),
{
    if a.len() > 0 && b.len() > 0 && c.len() > 0 && a[0] == b[0] && b[0] == c[0] {
        lemma_text_le_transitive(a.drop_first(), b.drop_first(), c.drop_first());
    }
}

/// Whether `a` comes before or with `b` when accounts are ordered most
/// recently used first, then most recently created, then by id.
pub open spec fn recency_le(a: CodexAccount, b: CodexAccount) -> bool {
    ||| a.last_used > b.last_used
    ||| a.last_used == b.last_used && a.created_at > b.created_at
    ||| a.last_used == b.last_used && a.created_at == b.created_at && text_le(a.id@, b.id@)
}

proof fn lemma_recency_total(a: CodexAccount, b: CodexAccount)
    ensures
        recency_le(a, b) || recency_le(b, a),
{
    lemma_text_le_total(a.id@, b.id@);
}

proof fn lemma_recency_transitive(a: CodexAccount, b: CodexAccount, c: CodexAccount)
    requires
        recency_le(a, b),
        recency_le(b, c),
    ensures
        recency_le(a, c),
{
    if a.last_used == b.last_used && b.last_used == c.last_used && a.created_at == b.created_at && b.created_at
        == c.created_at {
        lemma_text_le_transitive(a.id@, b.id@, c.id@);
    }
}

/// Whether `a` comes before or with `b` in recency order.
fn recency_le_exec(a: &CodexAccount, b: &CodexAccount) -> (r: bool)
    ensures
        r == recency_le(*a, *b),
{
    if a.last_used != b.last_used {
        return a.last_used > b.last_used;
    }
    if a.created_at != b.created_at {
        return a.created_at > b.created_at;
    }
    let x = crate::text::chars_of(a.id.as_str());
    let y = crate::text::chars_of(b.id.as_str());
    let mut i: usize = 0;
    assert(x@.skip(0) =~= x@);
    assert(y@.skip(0) =~= y@);
    while i < x.len() && i < y.len()
        invariant
            i <= x@.len() && i <= y@.len(),
            x@ == a.id@ && y@ == b.id@,
            a.last_used == b.last_used && a.created_at == b.created_at,
            text_le(a.id@, b.id@) == text_le(x@.skip(i as int), y@.skip(i as int)),
        decreases x.len() - i,
    {
        assert(x@.skip(i as int)[0] == x@[i as int]);
        assert(y@.skip(i as int)[0] == y@[i as int]);
        assert(x@.skip(i as int).drop_first() =~= x@.skip(i + 1));
        assert(y@.skip(i as int).drop_first() =~= y@.skip(i + 1));
        if x[i] != y[i] {
            return x[i] < y[i];
        }
        i += 1;
    }
    i == x.len()
}

/// The accounts ordered by recency: the same accounts, each as often.
fn sort_accounts_by_recency(accounts: Vec<CodexAccount>) -> (r: Vec<CodexAccount>)
    ensures
        r@.to_multiset() == accounts@.to_multiset(),
        sorted_by(r@, |a: CodexAccount, b: CodexAccount| recency_le(a, b)),
{
    let ghost leq = |a: CodexAccount, b: CodexAccount| recency_le(a, b);
    let mut rest = accounts;
    let ghost original = rest@;
    let mut sorted: Vec<CodexAccount> = Vec::new();
    let ghost mut taken: Seq<CodexAccount> = Seq::empty();
    while rest.len() > 0
        invariant
            original == taken + rest@,
            sorted@.to_multiset() == taken.to_multiset(),
            sorted_by(sorted@, leq),
            leq == (|a: CodexAccount, b: CodexAccount| recency_le(a, b)),
        decreases rest.len(),
    {
        let x = rest.remove(0);
        proof {
            assert(original =~= (taken.push(x)) + rest@);
        }
        let mut p: usize = 0;
        while p < sorted.len() && recency_le_exec(&sorted[p], &x)
            invariant
                p <= sorted@.len(),
                forall|k: int| 0 <= k < p ==> recency_le(#[trigger] sorted@[k], x),
            decreases sorted.len() - p,
        {
            p += 1;
        }
        proof {
            assert forall|k: int| p <= k < sorted@.len() implies recency_le(x, #[trigger] sorted@[k]) by {
                if !recency_le(sorted@[k], x) {
                    lemma_recency_total(sorted@[k], x);
                } else {
                    assert(p < sorted@.len());
                    assert(!recency_le(sorted@[p as int], x));
                    if p != k {
                        assert(leq(sorted@[p as int], sorted@[k]));
                        lemma_recency_transitive(sorted@[p as int], sorted@[k], x);
                    }
                }
            }
        }
        let ghost before = sorted@;
        sorted.insert(p, x);
        proof {
            assert(sorted@ == before.insert(p as int, x));
            assert forall|i: int, j: int| 0 <= i < j < sorted@.len() implies #[trigger] leq(sorted@[i], sorted@[j]) by {
                if i < p && j == p {
                } else if i == p && j > p {
                    assert(sorted@[j] == before[j - 1]);
                } else if j < p {
                    assert(leq(before[i], before[j]));
                } else if i > p {
                    assert(leq(before[i - 1], before[j - 1]));
                } else {
                    assert(i < p && j > p);
                    assert(leq(before[i], before[j - 1]));
                }
            }
            vstd::seq_lib::to_multiset_insert(before, p as int, x);
            vstd::seq_lib::to_multiset_build(taken, x);
            taken = taken.push(x);
        }
    }
    assert(taken =~= original);
    sorted
}

/// The summaries of some accounts, in order.
pub open spec fn summaries_of(accounts: Seq<CodexAccount>) -> Seq<CodexAccountSummary> {
    accounts.map_values(|a: CodexAccount| summary_of(a))
}

/// Whether some account has the id.
pub open spec fn has_account_id(accounts: Seq<CodexAccount>, id: Seq<char>) -> bool {
    exists|k: int| 0 <= k < accounts.len() && (#[trigger] accounts[k]).id@ == id
}

/// `repair_account_index_from_details`: the index rebuilt from the accounts
/// whose files could be read, ordered by recency, keeping the previous
/// current account when it is among them; nothing when there are none.
/// Returns the index with the accounts in its order.
pub fn repair_account_index_from_details(
    previous_current_account_id: Option<String>,
    accounts: Vec<CodexAccount>,
) -> (r: Option<(CodexAccountIndex, Vec<CodexAccount>)>)
    ensures
        accounts@.len() == 0 <==> r is None,
        r matches Some(x) ==> {
            &&& x.1@.to_multiset() == accounts@.to_multiset()
            &&& sorted_by(x.1@, |a: CodexAccount, b: CodexAccount| recency_le(a, b))
            &&& x.0.accounts@ == summaries_of(x.1@)
            &&& x.0.current_account_id == match previous_current_account_id {
                Some(c) => if has_account_id(accounts@, c@) {
                    Some(c)
                } else {
                    None
                },
                None => None,
            }
        },
{
    if accounts.len() == 0 {
        return None;
    }
    let ghost original = accounts@;
    let sorted = sort_accounts_by_recency(accounts);
    let mut summaries: Vec<CodexAccountSummary> = Vec::new();
    let mut i: usize = 0;
    while i < sorted.len()
        invariant
            i <= sorted@.len(),
            summaries@ == summaries_of(sorted@.take(i as int)),
        decreases sorted.len() - i,
    {
        let a = &sorted[i];
        summaries.push(
            CodexAccountSummary {
                id: a.id.clone(),
                email: a.email.clone(),
                plan_type: crate::codex::copy_opt(&a.plan_type),
                subscription_active_until: crate::codex::copy_opt(&a.subscription_active_until),
                created_at: a.created_at,
                last_used: a.last_used,
            },
        );
        proof {
            assert(sorted@.take(i + 1) =~= sorted@.take(i as int).push(sorted@[i as int]));
            assert(summaries@ =~= summaries_of(sorted@.take(i + 1)));
        }
        i += 1;
    }
    assert(sorted@.take(sorted@.len() as int) =~= sorted@);
    let mut found = false;
    match &previous_current_account_id {
        Some(c) => {
            let mut k: usize = 0;
            while k < sorted.len() && !found
                invariant
                    k <= sorted@.len(),
                    found ==> has_account_id(sorted@, c@),
                    !found ==> forall|j: int| 0 <= j < k ==> (#[trigger] sorted@[j]).id@ != c@,
                decreases sorted.len() - k + (if found { 0int } else { 1int }),
            {
                if crate::text::str_eq(sorted[k].id.as_str(), c.as_str()) {
                    found = true;
                } else {
                    k += 1;
                }
            }
            proof {
                broadcast use vstd::seq_lib::group_to_multiset_ensures;

                if has_account_id(original, c@) {
                    let j = choose|j: int| 0 <= j < original.len() && (#[trigger] original[j]).id@ == c@;
                    assert(original.to_multiset().count(original[j]) > 0);
                    assert(sorted@.contains(original[j]));
                }
                if has_account_id(sorted@, c@) {
                    let j = choose|j: int| 0 <= j < sorted@.len() && (#[trigger] sorted@[j]).id@ == c@;
                    assert(sorted@.to_multiset().count(sorted@[j]) > 0);
                    assert(original.contains(sorted@[j]));
                }
            }
        },
        None => {},
    }
    let current = if found {
        previous_current_account_id
    } else {
        None
    };
    Some((CodexAccountIndex { accounts: summaries, current_account_id: current }, sorted))
}

/// An account is loaded again after the index was
/// rebuilt only when the rebuilt index lists it.
pub fn repaired_index_lists(repaired: &Option<CodexAccountIndex>, account_id: &str) -> (r: bool)
    ensures
        r == (repaired matches Some(x) && summary_position(x.accounts@, account_id@, 0) is Some),
{
    match repaired {
        Some(x) => crate::codex::find_summary(&x.accounts, account_id).is_some(),
        None => false,
    }
}

} // verus!
