//! The claims that a module carries, and the token that pairs them with
//! their signed textual form.

use vstd::prelude::*;

verus! {

/// Capability claims about a module: who signed it, what it is, what it may
/// do, and when.
#[derive(Debug, Clone, PartialEq)]
pub struct Claims {
    /// Upper-case hexadecimal SHA-256 of the module without its claims
    /// section; empty until the claims are embedded.
    pub module_hash: String,
    /// Expiry, in seconds since the Unix epoch.
    pub expires: Option<u64>,
    /// A unique identifier of these claims.
    pub id: String,
    /// When the claims were issued, in seconds since the Unix epoch.
    pub issued_at: u64,
    /// Public key of the signer.
    pub issuer: String,
    /// Public key of the module.
    pub subject: String,
    /// Start of validity, in seconds since the Unix epoch.
    pub not_before: Option<u64>,
    /// Free-form tags, in order.
    pub tags: Option<Vec<String>>,
    /// Capabilities granted to the module, in order.
    pub caps: Option<Vec<String>>,
}

/// Claims as plain values.
pub struct ClaimsView {
    pub module_hash: Seq<char>,
    pub expires: Option<u64>,
    pub id: Seq<char>,
    pub issued_at: u64,
    pub issuer: Seq<char>,
    pub subject: Seq<char>,
    pub not_before: Option<u64>,
    pub tags: Option<Seq<Seq<char>>>,
    pub caps: Option<Seq<Seq<char>>>,
}

/// The characters of each string, in order.
pub open spec fn strings_view(v: Seq<String>) -> Seq<Seq<char>> {
    v.map_values(|s: String| s@)
}

/// The characters of each string of an optional list.
pub open spec fn opt_strings_view(v: Option<Vec<String>>) -> Option<Seq<Seq<char>>> {
    match v {
        Some(l) => Some(strings_view(l@)),
        None => None,
    }
}

impl View for Claims {
    type V = ClaimsView;

    open spec fn view(&self) -> ClaimsView {
        ClaimsView {
            module_hash: self.module_hash@,
            expires: self.expires,
            id: self.id@,
            issued_at: self.issued_at,
            issuer: self.issuer@,
            subject: self.subject@,
            not_before: self.not_before,
            tags: opt_strings_view(self.tags),
            caps: opt_strings_view(self.caps),
        }
    }
}

/// A copy of each string of `v`.
fn copy_strings(v: &Vec<String>) -> (r: Vec<String>)
    ensures
        strings_view(r@) == strings_view(v@),
{
    let mut r: Vec<String> = Vec::new();
    let mut i: usize = 0;
    while i < v.len()
        invariant
            i <= v@.len(),
            strings_view(r@) == strings_view(v@.subrange(0, i as int)),
        decreases v@.len() - i,
    {
        r.push(v[i].clone());
        assert(strings_view(v@.subrange(0, i + 1)) =~= strings_view(v@.subrange(0, i as int))
            .push(v@[i as int]@));
        i = i + 1;
    }
    assert(v@.subrange(0, v@.len() as int) =~= v@);
    r
}

/// A copy of each string of an optional list.
fn copy_opt_strings(v: &Option<Vec<String>>) -> (r: Option<Vec<String>>)
    ensures
        opt_strings_view(r) == opt_strings_view(*v),
{
    match v {
        Some(l) => Some(copy_strings(l)),
        None => None,
    }
}

impl Claims {
    /// Claims issued at `issued_at` under the identifier `id`, with no module
    /// hash yet.
    pub fn with_dates(
        issuer: String,
        subject: String,
        caps: Option<Vec<String>>,
        tags: Option<Vec<String>>,
        not_before: Option<u64>,
        expires: Option<u64>,
        issued_at: u64,
        id: String,
    ) -> (r: Claims)
        ensures
            r.issuer == issuer,
            r.subject == subject,
            r.caps == caps,
            r.tags == tags,
            r.not_before == not_before,
            r.expires == expires,
            r.issued_at == issued_at,
            r.id == id,
            r.module_hash@.len() == 0,
    {
        Claims {
            module_hash: String::new(),
            expires,
            id,
            issued_at,
            issuer,
            subject,
            not_before,
            tags,
            caps,
        }
    }

    /// A copy of these claims that declares `hash` as the module hash.
    pub fn with_module_hash(&self, hash: String) -> (r: Claims)
        ensures
            r@ == (ClaimsView { module_hash: hash@, ..self@ }),
    {
        Claims {
            module_hash: hash,
            expires: self.expires,
            id: self.id.clone(),
            issued_at: self.issued_at,
            issuer: self.issuer.clone(),
            subject: self.subject.clone(),
            not_before: self.not_before,
            tags: copy_opt_strings(&self.tags),
            caps: copy_opt_strings(&self.caps),
        }
    }
}

/// Signed claims: the textual token, and the claims decoded from it.
#[derive(Debug, Clone, PartialEq)]
pub struct Token {
    pub jwt: String,
    pub claims: Claims,
}

} // verus!
