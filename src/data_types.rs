use vstd::prelude::*;
use vstd::string::*;

verus! {

/// The market an archive belongs to.
#[derive(Debug, Clone, Copy, PartialEq, Eq, Structural)]
pub enum Asset {
    Futures,
    Option,
    Spot,
}

/// How much time one archive covers.
#[derive(Debug, Clone, Copy, PartialEq, Eq, Structural)]
pub enum Cadence {
    Daily,
    Monthly,
}

/// What kind of records an archive holds.
#[derive(Debug, Clone, Copy, PartialEq, Eq, Structural)]
pub enum DataType {
    AggTrades,
    KLines,
    Trades,
}

impl Asset {
    /// The variant's name in lower case, as it stands in bucket keys.
    pub open spec fn spec_name(self) -> Seq<char> {
        match self {
            Asset::Futures => "futures"@,
            Asset::Option => "option"@,
            Asset::Spot => "spot"@,
        }
    }

    /// The variant's name in lower case.
    pub fn as_str(&self) -> (r: &'static str)
        ensures
            r@ == self.spec_name(),
    {
        match self {
            Asset::Futures => "futures",
            Asset::Option => "option",
            Asset::Spot => "spot",
        }
    }

    /// The variant's name in lower case, owned.
    pub fn to_string(&self) -> (r: String)
        ensures
            r@ == self.spec_name(),
    {
        String::from_str(self.as_str())
    }
}

impl Cadence {
    /// The variant's name in lower case, as it stands in bucket keys.
    pub open spec fn spec_name(self) -> Seq<char> {
        match self {
            Cadence::Daily => "daily"@,
            Cadence::Monthly => "monthly"@,
        }
    }

    /// The variant's name in lower case.
    pub fn as_str(&self) -> (r: &'static str)
        ensures
            r@ == self.spec_name(),
    {
        match self {
            Cadence::Daily => "daily",
            Cadence::Monthly => "monthly",
        }
    }

    /// The variant's name in lower case, owned.
    pub fn to_string(&self) -> (r: String)
        ensures
            r@ == self.spec_name(),
    {
        String::from_str(self.as_str())
    }
}

impl DataType {
    /// The variant's name in lower case, as it stands in bucket keys.
    pub open spec fn spec_name(self) -> Seq<char> {
        match self {
            DataType::AggTrades => "aggtrades"@,
            DataType::KLines => "klines"@,
            DataType::Trades => "trades"@,
        }
    }

    /// The variant's name in lower case.
    pub fn as_str(&self) -> (r: &'static str)
        ensures
            r@ == self.spec_name(),
    {
        match self {
            DataType::AggTrades => "aggtrades",
            DataType::KLines => "klines",
            DataType::Trades => "trades",
        }
    }

    /// The variant's name in lower case, owned.
    pub fn to_string(&self) -> (r: String)
        ensures
            r@ == self.spec_name(),
    {
        String::from_str(self.as_str())
    }
}

} // verus!
