use vstd::prelude::*;
use vstd::string::StringExecFns;

verus! {

/// What `str::to_uppercase` makes of a text.
pub uninterp spec fn upper_of(s: Seq<char>) -> Seq<char>;

/// Relies on `str::to_uppercase`: the result depends on the characters alone.
#[verifier::external_body]
fn uppercase(s: &str) -> (r: String)
    ensures
        r@ == upper_of(s@),
{
    s.to_uppercase()
}

/// `s` with every `-` written as `_`.
pub open spec fn underscored(s: Seq<char>) -> Seq<char> {
    s.map_values(|c: char| if c == '-' { '_' } else { c })
}

/// Relies on `str::replace`: every `-` replaced by `_`, the rest kept.
#[verifier::external_body]
fn dashes_to_underscores(s: &str) -> (r: String)
    ensures
        r@ == underscored(s@),
{
    s.replace('-', "_")
}

/// The part of a variable name that stands for `s`.
pub open spec fn name_part(s: Seq<char>) -> Seq<char> {
    underscored(upper_of(s))
}

/// Name of the variable holding the address of a service of an app.
pub open spec fn ip_var_spec(app: Seq<char>, service: Seq<char>) -> Seq<char> {
    "APP_"@ + name_part(app) + "_"@ + name_part(service) + "_IP"@
}

/// Name of the variable holding the shared-data subdirectory of an app.
pub open spec fn shared_subdir_var_spec(app: Seq<char>) -> Seq<char> {
    "APP_"@ + name_part(app) + "_SHARED_SUBDIR"@
}

fn name_part_of(s: &str) -> (r: String)
    ensures
        r@ == name_part(s@),
{
    let up = uppercase(s);
    dashes_to_underscores(up.as_str())
}

/// `APP_<APP>_<SERVICE>_IP`, both parts upper-cased with `-` as `_`.
pub fn ip_var_name(app: &str, service: &str) -> (r: String)
    ensures
        r@ == ip_var_spec(app@, service@),
{
    let mut r = String::from_str("APP_");
    let a = name_part_of(app);
    r.append(a.as_str());
    r.append("_");
    let s = name_part_of(service);
    r.append(s.as_str());
    r.append("_IP");
    r
}

/// `APP_<APP>_SHARED_SUBDIR`, the app part upper-cased with `-` as `_`.
pub fn shared_subdir_var_name(app: &str) -> (r: String)
    ensures
        r@ == shared_subdir_var_spec(app@),
{
    let mut r = String::from_str("APP_");
    let a = name_part_of(app);
    r.append(a.as_str());
    r.append("_SHARED_SUBDIR");
    r
}

} // verus!
