//! Transaction records, the remembered actions they leave behind, and the
//! validation of a record's fields.

use crate::amount::Amount;
use vstd::prelude::*;

verus! {

/// What a record asks for. Deposits and withdrawals carry a positive
/// amount; the corrections name an earlier transaction by its id.
#[derive(Clone, Copy, Debug)]
pub enum TransactionKind {
    Deposit { amount: Amount },
    Withdrawal { amount: Amount },
    Dispute,
    Resolve,
    Chargeback,
}

#[derive(Clone, Copy, Debug)]
pub struct Transaction {
    pub tid: u32,
    pub cid: u16,
    pub kind: TransactionKind,
}

/// The effect of an accepted deposit or withdrawal, kept so that it can be
/// disputed later.
#[derive(Clone, Copy, Debug)]
pub enum ActionKind {
    Deposit { amount: Amount },
    Withdrawal { amount: Amount },
}

/// Life cycle of an action: `Fresh -> Disputed -> Final`.
#[derive(Clone, Copy, Debug, PartialEq, Eq, Structural)]
pub enum ActionStatus {
    /// Recorded, never disputed.
    Fresh,
    /// Under dispute, awaiting a resolve or a chargeback.
    Disputed,
    /// Resolved or charged back; it never changes again.
    Final,
}

#[derive(Clone, Copy, Debug)]
pub struct Action {
    /// The client that issued the deposit or withdrawal.
    pub cid: u16,
    pub kind: ActionKind,
    pub status: ActionStatus,
}

/// Why a record's fields do not make a transaction.
#[derive(Clone, Copy, Debug, PartialEq, Eq, Structural)]
pub enum ParseError {
    DepositRequiresAmount,
    WithdrawalRequiresAmount,
    DepositNotPositive,
    WithdrawalNotPositive,
    DisputeHasAmount,
    ResolveHasAmount,
    ChargebackHasAmount,
    UnknownType,
}

/// The whitespace that is ignored around a type tag.
pub open spec fn is_blank(c: char) -> bool {
    c == ' ' || c == '\t' || c == '\n' || c == '\r' || c == '\x0B' || c == '\x0C'
}

/// The code of `c` with an ASCII capital letter made small.
pub open spec fn lower_code(c: char) -> u32 {
    if 'A' <= c <= 'Z' {
        (c as u32 + 32) as u32
    } else {
        c as u32
    }
}

/// `s` without its leading blanks.
pub open spec fn trim_start(s: Seq<char>) -> Seq<char>
    decreases s.len(),
{
    if s.len() > 0 && is_blank(s[0]) {
        trim_start(s.drop_first())
    } else {
        s
    }
}

/// `s` without its trailing blanks.
pub open spec fn trim_end(s: Seq<char>) -> Seq<char>
    decreases s.len(),
{
    if s.len() > 0 && is_blank(s.last()) {
        trim_end(s.drop_last())
    } else {
        s
    }
}

/// Whether the type tag `s` names `word`: blanks around it are ignored,
/// and so is the case of ASCII letters (`word` is written in small letters).
pub open spec fn tag_matches(s: Seq<char>, word: Seq<char>) -> bool {
    let t = trim_end(trim_start(s));
    &&& t.len() == word.len()
    &&& forall|i: int| 0 <= i < t.len() ==> lower_code(#[trigger] t[i]) == word[i] as u32
}

fn is_blank_char(c: char) -> (r: bool)
    ensures
        r == is_blank(c),
{
    c == ' ' || c == '\t' || c == '\n' || c == '\r' || c == '\x0B' || c == '\x0C'
}

proof fn lemma_trim_start_step(s: Seq<char>, lo: int)
    requires
        0 <= lo < s.len(),
        is_blank(s[lo]),
    ensures
        trim_start(s.subrange(lo, s.len() as int)) == trim_start(s.subrange(lo + 1, s.len() as int)),
{
    let t = s.subrange(lo, s.len() as int);
    assert(t.drop_first() =~= s.subrange(lo + 1, s.len() as int));
}

proof fn lemma_trim_end_step(s: Seq<char>, lo: int, hi: int)
    requires
        0 <= lo < hi <= s.len(),
        is_blank(s[hi - 1]),
    ensures
        trim_end(s.subrange(lo, hi)) == trim_end(s.subrange(lo, hi - 1)),
{
    let t = s.subrange(lo, hi);
    assert(t.drop_last() =~= s.subrange(lo, hi - 1));
}

/// Whether the type tag `s` names `word`, as `tag_matches` says.
pub fn tag_is(s: &str, word: &str) -> (r: bool)
    ensures
        r == tag_matches(s@, word@),
{
    let n = s.unicode_len();
    let mut lo: usize = 0;
    assert(s@.subrange(0, n as int) =~= s@);
    while lo < n && is_blank_char(s.get_char(lo))
        invariant
            lo <= n,
            n == s@.len(),
            trim_start(s@) == trim_start(s@.subrange(lo as int, n as int)),
        decreases n - lo,
    {
        proof {
            lemma_trim_start_step(s@, lo as int);
        }
        lo = lo + 1;
    }
    let ghost rest = s@.subrange(lo as int, n as int);
    assert(trim_start(s@) == rest);
    let mut hi: usize = n;
    while hi > lo && is_blank_char(s.get_char(hi - 1))
        invariant
            lo <= hi <= n,
            n == s@.len(),
            rest == s@.subrange(lo as int, n as int),
            trim_end(rest) == trim_end(s@.subrange(lo as int, hi as int)),
        decreases hi,
    {
        proof {
            lemma_trim_end_step(s@, lo as int, hi as int);
        }
        hi = hi - 1;
    }
    let ghost t = s@.subrange(lo as int, hi as int);
    assert(trim_end(trim_start(s@)) == t);
    let m = word.unicode_len();
    if hi - lo != m {
        assert(t.len() == hi - lo);
        return false;
    }
    let mut i: usize = 0;
    while i < m
        invariant
            i <= m,
            m == word@.len(),
            hi - lo == m,
            lo <= hi <= n,
            n == s@.len(),
            t == s@.subrange(lo as int, hi as int),
            t == trim_end(trim_start(s@)),
            forall|j: int| 0 <= j < i ==> lower_code(#[trigger] t[j]) == word@[j] as u32,
        decreases m - i,
    {
        let c = s.get_char(lo + i);
        let code: u32 = if 'A' <= c && c <= 'Z' {
            c as u32 + 32
        } else {
            c as u32
        };
        if code != word.get_char(i) as u32 {
            assert(lower_code(t[i as int]) != word@[i as int] as u32);
            return false;
        }
        i = i + 1;
    }
    true
}

/// The transaction that a record's fields describe: its type tag, client
/// id, transaction id and optional amount.
pub open spec fn spec_parse(tag: Seq<char>, cid: u16, tid: u32, amount: Option<Amount>) -> Result<
    Transaction,
    ParseError,
> {
    if tag_matches(tag, "deposit"@) {
        match amount {
            None => Err(ParseError::DepositRequiresAmount),
            Some(a) => if a.units() > 0 {
                Ok(Transaction { tid, cid, kind: TransactionKind::Deposit { amount: a } })
            } else {
                Err(ParseError::DepositNotPositive)
            },
        }
    } else if tag_matches(tag, "withdrawal"@) {
        match amount {
            None => Err(ParseError::WithdrawalRequiresAmount),
            Some(a) => if a.units() > 0 {
                Ok(Transaction { tid, cid, kind: TransactionKind::Withdrawal { amount: a } })
            } else {
                Err(ParseError::WithdrawalNotPositive)
            },
        }
    } else if tag_matches(tag, "dispute"@) {
        if amount is Some {
            Err(ParseError::DisputeHasAmount)
        } else {
            Ok(Transaction { tid, cid, kind: TransactionKind::Dispute })
        }
    } else if tag_matches(tag, "resolve"@) {
        if amount is Some {
            Err(ParseError::ResolveHasAmount)
        } else {
            Ok(Transaction { tid, cid, kind: TransactionKind::Resolve })
        }
    } else if tag_matches(tag, "chargeback"@) {
        if amount is Some {
            Err(ParseError::ChargebackHasAmount)
        } else {
            Ok(Transaction { tid, cid, kind: TransactionKind::Chargeback })
        }
    } else {
        Err(ParseError::UnknownType)
    }
}

impl Transaction {
    /// Checks a record's fields and builds the transaction they describe.
    pub fn from_row(kind: &str, cid: u16, tid: u32, amount: Option<Amount>) -> (r: Result<
        Transaction,
        ParseError,
    >)
        ensures
            r == spec_parse(kind@, cid, tid, amount),
    {
        if tag_is(kind, "deposit") {
            match amount {
                None => Err(ParseError::DepositRequiresAmount),
                Some(a) => if a.is_positive() {
                    Ok(Transaction { tid, cid, kind: TransactionKind::Deposit { amount: a } })
                } else {
                    Err(ParseError::DepositNotPositive)
                },
            }
        } else if tag_is(kind, "withdrawal") {
            match amount {
                None => Err(ParseError::WithdrawalRequiresAmount),
                Some(a) => if a.is_positive() {
                    Ok(Transaction { tid, cid, kind: TransactionKind::Withdrawal { amount: a } })
                } else {
                    Err(ParseError::WithdrawalNotPositive)
                },
            }
        } else if tag_is(kind, "dispute") {
            if amount.is_some() {
                Err(ParseError::DisputeHasAmount)
            } else {
                Ok(Transaction { tid, cid, kind: TransactionKind::Dispute })
            }
        } else if tag_is(kind, "resolve") {
            if amount.is_some() {
                Err(ParseError::ResolveHasAmount)
            } else {
                Ok(Transaction { tid, cid, kind: TransactionKind::Resolve })
            }
        } else if tag_is(kind, "chargeback") {
            if amount.is_some() {
                Err(ParseError::ChargebackHasAmount)
            } else {
                Ok(Transaction { tid, cid, kind: TransactionKind::Chargeback })
            }
        } else {
            Err(ParseError::UnknownType)
        }
    }
}

impl ParseError {
    pub open spec fn spec_message(self) -> Seq<char> {
        match self {
            ParseError::DepositRequiresAmount => "deposit requires amount"@,
            ParseError::WithdrawalRequiresAmount => "withdrawal requires amount"@,
            ParseError::DepositNotPositive => "deposit amount must be positive"@,
            ParseError::WithdrawalNotPositive => "withdrawal amount must be positive"@,
            ParseError::DisputeHasAmount => "dispute must not have amount"@,
            ParseError::ResolveHasAmount => "resolve must not have amount"@,
            ParseError::ChargebackHasAmount => "chargeback must not have amount"@,
            ParseError::UnknownType => "unknown transaction type"@,
        }
    }

    /// A description of the error for the operator.
    pub fn message(&self) -> (r: String)
        ensures
            r@ == self.spec_message(),
    {
        match self {
            ParseError::DepositRequiresAmount => String::from_str("deposit requires amount"),
            ParseError::WithdrawalRequiresAmount => String::from_str("withdrawal requires amount"),
            ParseError::DepositNotPositive => String::from_str("deposit amount must be positive"),
            ParseError::WithdrawalNotPositive => String::from_str(
                "withdrawal amount must be positive",
            ),
            ParseError::DisputeHasAmount => String::from_str("dispute must not have amount"),
            ParseError::ResolveHasAmount => String::from_str("resolve must not have amount"),
            ParseError::ChargebackHasAmount => String::from_str("chargeback must not have amount"),
            ParseError::UnknownType => String::from_str("unknown transaction type"),
        }
    }
}

} // verus!
