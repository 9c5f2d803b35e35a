use vstd::prelude::*;
use vstd::string::StringExecFns;

verus! {

/// `s` with every `.` replaced by `-`.
pub open spec fn dots_to_dashes(s: Seq<char>) -> Seq<char> {
    Seq::new(s.len(), |i: int| if s[i] == '.' { '-' } else { s[i] })
}

/// What `str::to_lowercase` makes of `s`.
pub uninterp spec fn lower_of(s: Seq<char>) -> Seq<char>;

/// Relies on str::replace, here replacing each `.` by `-`.
#[verifier::external_body]
fn replace_dots(s: &String) -> (r: String)
    ensures
        r@ == dots_to_dashes(s@),
{
    s.replace(".", "-")
}

/// The two parts with a `.` between them.
fn join_with_dot(a: &String, b: &String) -> (r: String)
    ensures
        r@ == a@ + seq!['.'] + b@,
{
    let dot: &str = ".";
    proof {
        reveal_strlit(".");
    }
    let first = a.clone().concat(dot);
    first.concat(b.as_str())
}

/// Relies on str::to_lowercase, whose result depends on the characters alone.
#[verifier::external_body]
fn lowercase(s: &String) -> (r: String)
    ensures
        r@ == lower_of(s@),
{
    s.to_lowercase()
}

/// The account of the vault for an asset symbol, under the registry's own
/// account: the symbol with dots made dashes, a dot, the registry's account,
/// all in lower case.
pub open spec fn pair_account_of(target: Seq<char>, factory: Seq<char>) -> Seq<char> {
    lower_of(dots_to_dashes(target) + seq!['.'] + factory)
}

pub fn get_pair_contract_name(target: &String, factory: &String) -> (r: String)
    ensures
        r@ == pair_account_of(target@, factory@),
{
    let prefix = replace_dots(target);
    let joined = join_with_dot(&prefix, factory);
    lowercase(&joined)
}

} // verus!
