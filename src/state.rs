//! The state record of an on-chain program: its defaults, its validity
//! rule, and its messages.

use vstd::prelude::*;
use crate::text::string_of;

verus! {

/// The character of the decimal digit `d`.
pub open spec fn digit(d: nat) -> char {
    if d == 0 {
        '0'
    } else if d == 1 {
        '1'
    } else if d == 2 {
        '2'
    } else if d == 3 {
        '3'
    } else if d == 4 {
        '4'
    } else if d == 5 {
        '5'
    } else if d == 6 {
        '6'
    } else if d == 7 {
        '7'
    } else if d == 8 {
        '8'
    } else if d == 9 {
        '9'
    } else {
        '9'
    }
}

/// The decimal digits of `n`, without leading zeros.
pub open spec fn decimal(n: nat) -> Seq<char>
    decreases n,
{
    if n < 10 {
        seq![digit(n)]
    } else {
        decimal(n / 10).push(digit(n % 10))
    }
}

fn digit_char(d: u64) -> (r: char)
    requires
        d < 10,
    ensures
        r == digit(d as nat),
{
    if d == 0 {
        '0'
    } else if d == 1 {
        '1'
    } else if d == 2 {
        '2'
    } else if d == 3 {
        '3'
    } else if d == 4 {
        '4'
    } else if d == 5 {
        '5'
    } else if d == 6 {
        '6'
    } else if d == 7 {
        '7'
    } else if d == 8 {
        '8'
    } else if d == 9 {
        '9'
    } else {
        '9'
    }
}

/// The decimal digits of `n`, as [`decimal`] states.
pub fn decimal_chars(n: u64) -> (r: Vec<char>)
    ensures
        r@ == decimal(n as nat),
    decreases n,
{
    if n < 10 {
        let mut v: Vec<char> = Vec::new();
        v.push(digit_char(n));
        assert(v@ =~= seq![digit(n as nat)]);
        v
    } else {
        let mut v = decimal_chars(n / 10);
        v.push(digit_char(n % 10));
        v
    }
}

/// When and in which version a state was made.
pub struct MetaData {
    pub created_at: u64,
    pub version: String,
}

/// The state an account holds.
pub struct TestState {
    pub count: u64,
    pub name: String,
    pub metadata: MetaData,
    pub history: Vec<String>,
}

/// Why a state is refused.
pub enum TestError {
    InvalidCount(u64),
    InvalidName(String),
    InvalidMetadata(String),
}

/// Whether `s` holds the default values: count 42, name `test`, metadata
/// made at 0 with an empty version, and no history.
pub open spec fn is_default(s: TestState) -> bool {
    s.count == 42 && s.name@ == "test"@ && s.metadata.created_at == 0
        && s.metadata.version@.len() == 0 && s.history@.len() == 0
}

impl MetaData {
    /// Metadata made at 0 with an empty version.
    pub fn new() -> (r: Self)
        ensures
            r.created_at == 0,
            r.version@.len() == 0,
    {
        MetaData { created_at: 0, version: String::new() }
    }
}

impl TestState {
    /// A state with the default values.
    pub fn new() -> (r: Self)
        ensures
            is_default(r),
    {
        TestState {
            count: 42,
            name: String::from_str("test"),
            metadata: MetaData::new(),
            history: Vec::new(),
        }
    }

    /// Puts the default values back.
    pub fn reset(&mut self)
        ensures
            is_default(*final(self)),
    {
        *self = TestState::new();
    }

    /// A state is valid when its name is not empty and its count not 0.
    pub fn is_valid(&self) -> (r: bool)
        ensures
            r == (self.name@.len() > 0 && self.count > 0),
    {
        !self.name.as_str().is_empty() && self.count > 0
    }

    /// `TestState(count: C, name: N)`.
    pub fn display(&self) -> (r: String)
        ensures
            r@ == "TestState(count: "@ + decimal(self.count as nat) + ", name: "@ + self.name@ + ")"@,
    {
        let digits = string_of(&decimal_chars(self.count));
        String::from_str("TestState(count: ").concat(digits.as_str()).concat(", name: ").concat(
            self.name.as_str(),
        ).concat(")")
    }

    /// `State with N entries in history`, N the length of the history.
    pub fn describe(&self) -> (r: String)
        ensures
            r@ == "State with "@ + decimal(self.history@.len()) + " entries in history"@,
    {
        let n = self.history.len() as u64;
        let digits = string_of(&decimal_chars(n));
        let r = String::from_str("State with ");
        let r = r.concat(digits.as_str());
        r.concat(" entries in history")
    }
}

impl TestError {
    /// The message of the error: `Invalid count: N`, `Invalid name: S` or
    /// `Invalid metadata: S`.
    pub fn message(&self) -> (r: String)
        ensures
            r@ == match self {
                TestError::InvalidCount(n) => "Invalid count: "@ + decimal(*n as nat),
                TestError::InvalidName(s) => "Invalid name: "@ + s@,
                TestError::InvalidMetadata(s) => "Invalid metadata: "@ + s@,
            },
    {
        match self {
            TestError::InvalidCount(n) => {
                let digits = string_of(&decimal_chars(*n));
                String::from_str("Invalid count: ").concat(digits.as_str())
            },
            TestError::InvalidName(s) => String::from_str("Invalid name: ").concat(s.as_str()),
            TestError::InvalidMetadata(s) => String::from_str("Invalid metadata: ").concat(
                s.as_str(),
            ),
        }
    }
}

} // verus!
