//! One conversion: the request that the user typed, the address of the rate
//! service, and the rules that turn the service's answer into the rate to
//! apply or into an error.

use crate::amount::Amount;
use crate::rates::RateTable;
use vstd::prelude::*;
use vstd::string::StringExecFns;

verus! {

broadcast use vstd::string::group_string_axioms;

/// The address of the rate service, to which the base currency is appended.
pub const RATES_ENDPOINT: &'static str = "https://api.exchangerate-api.com/v4/latest/";

/// Why a conversion failed.
#[derive(Clone, Debug, PartialEq, Eq)]
pub enum ConvertError {
    /// The service does not know the base currency, or its table lacks the
    /// target currency.
    UnknownCurrency(String),
    /// The service answered with this status code.
    HttpError(u16),
    /// No answer came from the service.
    RequestError,
    /// The service answered with success, but not with a rate table.
    MalformedResponse,
}

/// What came of asking the rate service for a base currency's table.
pub enum FetchOutcome<R> {
    /// A successful answer, read as a rate table.
    Rates(RateTable<R>),
    /// A successful answer that is not a rate table.
    Malformed,
    /// The service answered with this error status.
    Status(u16),
    /// The request failed before any answer: connection, timeout, TLS.
    Failed,
}

/// The status with which the service says that it has no such base currency.
pub const NOT_FOUND: u16 = 404;

/// The upper-case form of a string, as std's Unicode case mapping gives it.
pub uninterp spec fn upper_of(s: Seq<char>) -> Seq<char>;

/// Relies on `str::to_uppercase`: the upper-case form of each character, a
/// function of the string alone.
#[verifier::external_body]
fn to_upper(s: &str) -> (r: String)
    ensures
        r@ == upper_of(s@),
{
    s.to_uppercase()
}

/// What the service's answer means for a request whose base currency is `base`.
pub open spec fn fetch_result<R>(base: String, outcome: FetchOutcome<R>) -> Result<
    RateTable<R>,
    ConvertError,
> {
    match outcome {
        FetchOutcome::Rates(t) => Ok(t),
        FetchOutcome::Malformed => Err(ConvertError::MalformedResponse),
        FetchOutcome::Status(c) => if c == NOT_FOUND {
            Err(ConvertError::UnknownCurrency(base))
        } else {
            Err(ConvertError::HttpError(c))
        },
        FetchOutcome::Failed => Err(ConvertError::RequestError),
    }
}

/// The rate of `target` in `table`, or the error naming it.
pub open spec fn lookup_result<R>(target: String, table: RateTable<R>) -> Result<R, ConvertError> {
    if table@.contains_key(target@) {
        Ok(table@[target@])
    } else {
        Err(ConvertError::UnknownCurrency(target))
    }
}

/// A conversion request: from the input currency, as typed, to the output
/// currency, in upper case, of an amount.
pub struct Convert {
    input_currency: String,
    output_currency: String,
    amount: Amount,
}

impl Convert {
    pub closed spec fn spec_input(&self) -> String {
        self.input_currency
    }

    pub closed spec fn spec_output(&self) -> String {
        self.output_currency
    }

    pub closed spec fn spec_amount(&self) -> Amount {
        self.amount
    }

    /// A request from `i` to `o` of `a`; the output code is put in upper case.
    pub fn new(i: &str, o: &str, a: Amount) -> (r: Convert)
        ensures
            r.spec_input()@ == i@,
            r.spec_output()@ == upper_of(o@),
            r.spec_amount() == a,
    {
        Convert { input_currency: String::from_str(i), output_currency: to_upper(o), amount: a }
    }

    /// The base currency, as typed.
    pub fn input_currency(&self) -> (r: &String)
        ensures
            *r == self.spec_input(),
    {
        &self.input_currency
    }

    /// The target currency, in upper case.
    pub fn output_currency(&self) -> (r: &String)
        ensures
            *r == self.spec_output(),
    {
        &self.output_currency
    }

    pub fn amount(&self) -> (r: &Amount)
        ensures
            *r == self.spec_amount(),
    {
        &self.amount
    }

    /// The address from which the base currency's rate table is fetched.
    pub fn request_url(&self) -> (r: String)
        ensures
            r@ == RATES_ENDPOINT@ + self.spec_input()@,
    {
        let mut url = String::from_str(RATES_ENDPOINT);
        url.append(self.input_currency.as_str());
        url
    }

    /// The rate table that the service's answer holds, or the error that the
    /// answer stands for: a missing base currency for status 404, the status
    /// for any other error status, and no detail for a failed request.
    pub fn deserialise<R>(&self, outcome: FetchOutcome<R>) -> (r: Result<RateTable<R>, ConvertError>)
        ensures
            r == fetch_result(self.spec_input(), outcome),
    {
        match outcome {
            FetchOutcome::Rates(t) => Ok(t),
            FetchOutcome::Malformed => Err(ConvertError::MalformedResponse),
            FetchOutcome::Status(c) => {
                if c == NOT_FOUND {
                    Err(ConvertError::UnknownCurrency(self.input_currency.clone()))
                } else {
                    Err(ConvertError::HttpError(c))
                }
            },
            FetchOutcome::Failed => Err(ConvertError::RequestError),
        }
    }

    /// The rate of the output currency in `table`, or `UnknownCurrency` with
    /// the output code where the table lacks it.
    pub fn rate_in<R: Copy>(&self, table: &RateTable<R>) -> (r: Result<R, ConvertError>)
        requires
            table.wf(),
        ensures
            r == lookup_result(self.spec_output(), *table),
    {
        match table.get(&self.output_currency) {
            Some(v) => Ok(*v),
            None => Err(ConvertError::UnknownCurrency(self.output_currency.clone())),
        }
    }

    /// The rate to apply to the amount: the service's error where the fetch
    /// failed, else the output currency's rate in the table fetched.
    pub fn rate_for<R: Copy>(&self, outcome: FetchOutcome<R>) -> (r: Result<R, ConvertError>)
        requires
            outcome matches FetchOutcome::Rates(t) ==> t.wf(),
        ensures
            r == match fetch_result(self.spec_input(), outcome) {
                Ok(t) => lookup_result(self.spec_output(), t),
                Err(e) => Err(e),
            },
    {
        match self.deserialise(outcome) {
            Ok(t) => self.rate_in(&t),
            Err(e) => Err(e),
        }
    }
}

} // verus!
