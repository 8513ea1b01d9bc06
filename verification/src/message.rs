use vstd::prelude::*;

verus! {

/// One application-level event: an ordered list of string tokens.
/// By convention token 0 names the kind and the rest are payload.
pub struct Message {
    pub parameter: Vec<String>,
}

/// Relies on str::parse: parses the string through `T`'s `FromStr`
/// implementation; which strings succeed is up to that implementation.
#[verifier::external_body]
fn parse_str<T: core::str::FromStr>(s: &String) -> (r: Result<T, ()>) {
    match s.as_str().parse::<T>() {
        Ok(v) => Ok(v),
        Err(_) => Err(()),
    }
}

impl Message {
    pub fn from_strings(strings: Vec<String>) -> (r: Self)
        ensures
            r.parameter == strings,
    {
        Self { parameter: strings }
    }

    /// Parses token `index`; an out-of-range index is a typed parse
    /// miss, never a fault.
    pub fn get_value<T: core::str::FromStr>(&self, index: usize) -> (r: Result<T, ()>)
        ensures
            self.parameter@.len() <= index ==> r is Err,
    {
        if self.parameter.len() > index {
            parse_str(&self.parameter[index])
        } else {
            Err(())
        }
    }
}

} // verus!
