//! Countries from which every request is challenged.

use crate::request::Request;
use crate::text::same_str;
use vstd::prelude::*;

verus! {

/// Whether the country that a request comes from, if it names one, is on
/// the list `geo_risk`.
pub open spec fn high_risk_geo(country: Option<String>, geo_risk: Seq<String>) -> bool {
    country is Some && exists|i: int|
        0 <= i < geo_risk.len() && (#[trigger] geo_risk[i])@ == country->0@
}

/// Whether `req` comes from a country on the list `geo_risk`.
pub fn is_high_risk_geo(req: &Request, geo_risk: &[String]) -> (r: bool)
    ensures
        r == high_risk_geo(req.geo_country, geo_risk@),
{
    match &req.geo_country {
        Some(country) => {
            let mut i: usize = 0;
            while i < geo_risk.len()
                invariant
                    i <= geo_risk.len(),
                    req.geo_country == Some(*country),
                    forall|j: int| 0 <= j < i ==> (#[trigger] geo_risk@[j])@ != country@,
                decreases geo_risk.len() - i,
            {
                if same_str(geo_risk[i].as_str(), country.as_str()) {
                    assert(geo_risk@[i as int]@ == req.geo_country->0@);
                    return true;
                }
                i = i + 1;
            }
            false
        },
        None => false,
    }
}

} // verus!
