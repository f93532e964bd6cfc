//! Errors of ledger operations, and their messages.
use super::id::ResourceId;
use vstd::prelude::*;

verus! {

#[derive(Debug, PartialEq)]
pub enum ModelError {
    /// Adding `attempted` would pass the ledger's capacity, which has only
    /// `available` room left.
    CapacityExceeded { resource: ResourceId, attempted: u64, available: u64 },
    /// Taking `requested` would take more than the `available` stock.
    InsufficientResources { resource: ResourceId, requested: u64, available: u64 },
}

/// The text that std's `Debug` gives a string slice with these characters.
pub uninterp spec fn debug_text(s: Seq<char>) -> Seq<char>;

/// Formats `s` with std's `Debug` for `str` (`format!("{:?}", s)`), which
/// quotes it and escapes the characters that need escaping. The contract
/// names the text without spelling out the escaping rules.
#[verifier::external_body]
fn str_debug(s: &str) -> (r: String)
    ensures
        r@ == debug_text(s@),
{
    format!("{:?}", s)
}

/// The decimal digit `d`.
pub open spec fn digit_text(d: u64) -> Seq<char> {
    if d == 0 {
        "0"@
    } else if d == 1 {
        "1"@
    } else if d == 2 {
        "2"@
    } else if d == 3 {
        "3"@
    } else if d == 4 {
        "4"@
    } else if d == 5 {
        "5"@
    } else if d == 6 {
        "6"@
    } else if d == 7 {
        "7"@
    } else if d == 8 {
        "8"@
    } else {
        "9"@
    }
}

/// `n` written in decimal, without leading zeros.
pub open spec fn decimal(n: u64) -> Seq<char>
    decreases n,
{
    if n < 10 {
        digit_text(n)
    } else {
        decimal(n / 10) + digit_text(n % 10)
    }
}

fn digit_str(d: u64) -> (s: &'static str)
    requires
        d < 10,
    ensures
        s@ == digit_text(d),
{
    if d == 0 {
        "0"
    } else if d == 1 {
        "1"
    } else if d == 2 {
        "2"
    } else if d == 3 {
        "3"
    } else if d == 4 {
        "4"
    } else if d == 5 {
        "5"
    } else if d == 6 {
        "6"
    } else if d == 7 {
        "7"
    } else if d == 8 {
        "8"
    } else {
        "9"
    }
}

/// `n` in decimal.
pub fn decimal_string(n: u64) -> (s: String)
    ensures
        s@ == decimal(n),
    decreases n,
{
    if n < 10 {
        let mut s = String::new();
        s.append(digit_str(n));
        assert(s@ =~= decimal(n));
        s
    } else {
        let mut s = decimal_string(n / 10);
        s.append(digit_str(n % 10));
        s
    }
}

/// How `Debug` shows a resource id.
pub open spec fn resource_id_text(id: ResourceId) -> Seq<char> {
    "ResourceId("@ + debug_text(id.0@) + ")"@
}

impl ModelError {
    /// The error's message.
    pub open spec fn message_text(&self) -> Seq<char> {
        match self {
            ModelError::CapacityExceeded { resource, attempted, available } => "Capacity exceeded when adding resource "@
                + resource_id_text(*resource) + ": attempted to add "@ + decimal(*attempted)
                + ", but only "@ + decimal(*available) + " space available"@,
            ModelError::InsufficientResources { resource, requested, available } => "Insufficient resources for "@
                + resource_id_text(*resource) + ": requested "@ + decimal(*requested)
                + ", but only "@ + decimal(*available) + " available"@,
        }
    }

    /// The error's message.
    pub fn message(&self) -> (s: String)
        ensures
            s@ == self.message_text(),
    {
        let mut s = String::new();
        match self {
            ModelError::CapacityExceeded { resource, attempted, available } => {
                s.append("Capacity exceeded when adding resource ");
                s.append("ResourceId(");
                s.append(str_debug(resource.0.as_str()).as_str());
                s.append(")");
                s.append(": attempted to add ");
                s.append(decimal_string(*attempted).as_str());
                s.append(", but only ");
                s.append(decimal_string(*available).as_str());
                s.append(" space available");
            },
            ModelError::InsufficientResources { resource, requested, available } => {
                s.append("Insufficient resources for ");
                s.append("ResourceId(");
                s.append(str_debug(resource.0.as_str()).as_str());
                s.append(")");
                s.append(": requested ");
                s.append(decimal_string(*requested).as_str());
                s.append(", but only ");
                s.append(decimal_string(*available).as_str());
                s.append(" available");
            },
        }
        assert(s@ =~= self.message_text());
        s
    }
}

} // verus!
