use vstd::prelude::*;

use crate::proxy_core::validator::opt_texts;
use crate::text::copy_list;

verus! {

/// What the token verification service answers about a token: whether it is
/// valid, and the roles and permissions of its holder.
#[derive(Debug, Clone)]
pub struct AuthResponse {
    pub valid: bool,
    pub roles: Option<Vec<String>>,
    pub permissions: Option<Vec<String>>,
}

/// A token service's answer, by its texts.
pub struct AuthView {
    pub valid: bool,
    pub roles: Option<Seq<Seq<char>>>,
    pub permissions: Option<Seq<Seq<char>>>,
}

impl View for AuthResponse {
    type V = AuthView;

    open spec fn view(&self) -> AuthView {
        AuthView { valid: self.valid, roles: opt_texts(self.roles), permissions: opt_texts(self.permissions) }
    }
}

fn copy_opt_list(o: &Option<Vec<String>>) -> (r: Option<Vec<String>>)
    ensures
        opt_texts(r) == opt_texts(*o),
{
    match o {
        Some(v) => Some(copy_list(v)),
        None => None,
    }
}

impl AuthResponse {
    /// A copy of the answer, with the same validity, roles and permissions.
    pub fn copied(&self) -> (c: AuthResponse)
        ensures
            c@ == self@,
    {
        AuthResponse {
            valid: self.valid,
            roles: copy_opt_list(&self.roles),
            permissions: copy_opt_list(&self.permissions),
        }
    }
}

} // verus!
