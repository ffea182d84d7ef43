use vstd::prelude::*;

verus! {

/// Supported transaction types.
#[derive(Clone, Copy, PartialEq, Eq, Structural, Debug)]
pub enum TransactionType {
    Deposit,
    Withdrawal,
    Dispute,
    Resolve,
    Chargeback,
    Unknown,
}

/// The transaction type that a textual tag denotes; every unrecognized tag
/// denotes `Unknown`.
pub open spec fn spec_type_of_text(s: Seq<char>) -> TransactionType {
    if s == "deposit"@ {
        TransactionType::Deposit
    } else if s == "withdrawal"@ {
        TransactionType::Withdrawal
    } else if s == "dispute"@ {
        TransactionType::Dispute
    } else if s == "resolve"@ {
        TransactionType::Resolve
    } else if s == "chargeback"@ {
        TransactionType::Chargeback
    } else {
        TransactionType::Unknown
    }
}

/// The textual tag of a transaction type.
pub open spec fn spec_text_of_type(t: TransactionType) -> Seq<char> {
    match t {
        TransactionType::Deposit => "deposit"@,
        TransactionType::Withdrawal => "withdrawal"@,
        TransactionType::Dispute => "dispute"@,
        TransactionType::Resolve => "resolve"@,
        TransactionType::Chargeback => "chargeback"@,
        TransactionType::Unknown => "unknown"@,
    }
}

impl TransactionType {
    /// Text to transaction type conversion; expects the bare tag, already
    /// stripped of surrounding whitespace.
    pub fn from_text(type_str: &str) -> (t: TransactionType)
        ensures
            t == spec_type_of_text(type_str@),
    {
        let s = type_str.to_owned();
        if s == "deposit".to_owned() {
            TransactionType::Deposit
        } else if s == "withdrawal".to_owned() {
            TransactionType::Withdrawal
        } else if s == "dispute".to_owned() {
            TransactionType::Dispute
        } else if s == "resolve".to_owned() {
            TransactionType::Resolve
        } else if s == "chargeback".to_owned() {
            TransactionType::Chargeback
        } else {
            TransactionType::Unknown
        }
    }

    /// Transaction type to text conversion.
    pub fn as_text(self) -> (r: &'static str)
        ensures
            r@ == spec_text_of_type(self),
    {
        match self {
            TransactionType::Deposit => "deposit",
            TransactionType::Withdrawal => "withdrawal",
            TransactionType::Dispute => "dispute",
            TransactionType::Resolve => "resolve",
            TransactionType::Chargeback => "chargeback",
            TransactionType::Unknown => "unknown",
        }
    }
}

/// Base transaction details: one incoming action of the input stream, or one
/// journaled deposit/withdrawal.
///
/// The amount is a fixed-point value in minor units (four implied decimal
/// places); dispute-lifecycle actions carry no amount.
#[derive(Clone, Copy, PartialEq, Eq, Debug)]
pub struct TransactionDetails {
    /// The transaction type.
    pub transaction_type: TransactionType,
    /// Unique Id of the client.
    pub client: u16,
    /// The transaction Id.
    pub tx: u32,
    /// Amount of transaction - only for deposit and withdrawal.
    pub amount: Option<i64>,
}

} // verus!
