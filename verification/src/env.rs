//! The names of the environment variables the runtime is
//! configured through. The variables themselves are read and set
//! outside the library; only the names are derived here.
use vstd::prelude::*;

verus! {

/// The upper-case form of a string, as `str::to_uppercase` yields
/// it.
pub uninterp spec fn upper_of(s: Seq<char>) -> Seq<char>;

/// Relies on `str::to_uppercase`: the result depends on the
/// characters alone, and an empty string stays empty.
#[verifier::external_body]
fn to_uppercase(s: &String) -> (r: String)
    ensures
        r@ == upper_of(s@),
        s@.len() == 0 ==> r@.len() == 0,
{
    s.to_uppercase()
}

/// The name of the variable naming the system: `HOLLYWOOD_SYSTEM`.
pub fn format_hollywood_system() -> (r: String)
    ensures
        r@ == "HOLLYWOOD_SYSTEM"@,
{
    let mut s = String::new();
    s.append("HOLLYWOOD_SYSTEM");
    proof {
        assert(Seq::<char>::empty() + "HOLLYWOOD_SYSTEM"@ =~= "HOLLYWOOD_SYSTEM"@);
    }
    s
}

/// The name of the variable carrying a system's bus uri:
/// `HOLLYWOOD_SYSTEM_{NAME}_NATS_URI`, with the system name in
/// upper case.
pub fn format_hollywood_system_nats_uri(system_name: String) -> (r: String)
    ensures
        r@ == "HOLLYWOOD_SYSTEM_"@ + upper_of(system_name@) + "_NATS_URI"@,
{
    let upper = to_uppercase(&system_name);
    let mut s = String::new();
    s.append("HOLLYWOOD_SYSTEM_");
    s.append(upper.as_str());
    s.append("_NATS_URI");
    proof {
        assert(Seq::<char>::empty() + "HOLLYWOOD_SYSTEM_"@ + upper_of(system_name@) + "_NATS_URI"@
            =~= "HOLLYWOOD_SYSTEM_"@ + upper_of(system_name@) + "_NATS_URI"@);
    }
    s
}

} // verus!
