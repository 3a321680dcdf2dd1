use vstd::prelude::*;

use crate::config::{has_id, idx_of, lemma_id_unique, ConfigManager};
use crate::keys::{is_token_char, keeps_token, TOKEN_LEN};
use crate::structs::{Key, KeyManager};
use vstd::string::StringExecFns;

verus! {

/// The outcome reported at the HTTP boundary.
#[derive(Clone, Copy, PartialEq, Eq, Structural, Debug)]
pub enum VerifyOutcome {
    Success,
    Failure,
}

impl VerifyOutcome {
    /// The plain-text response body for this outcome.
    pub fn as_response(&self) -> (r: &'static str)
        ensures
            *self == VerifyOutcome::Success ==> r@ == "success"@,
            *self == VerifyOutcome::Failure ==> r@ == "failure"@,
    {
        match self {
            VerifyOutcome::Success => "success",
            VerifyOutcome::Failure => "failure",
        }
    }
}

/// The external role-grant action to attempt: assign `role_id` to `user_id`
/// within `server_id`.
#[derive(Clone, Copy, PartialEq, Eq, Structural, Debug)]
pub struct RoleGrant {
    pub server_id: u64,
    pub user_id: u64,
    pub role_id: u64,
}

/// Prefix of every verification URL handed to a member.
pub open spec fn url_prefix() -> Seq<char> {
    "http://localhost:3000/verify/"@
}

/// The custom identifier that marks the verify button.
pub open spec fn verify_custom_id() -> Seq<char> {
    "verify"@
}

/// The verification URL embedding this token.
pub fn verification_url(token: &String) -> (r: String)
    ensures
        r@ == url_prefix() + token@,
{
    let prefix = "http://localhost:3000/verify/".to_owned();
    prefix.concat(token.as_str())
}

/// The first live key carrying `token`; meaningful when some live key does.
pub open spec fn matched_key(keys: KeyManager, token: Seq<char>) -> Key {
    keys.keys@[choose|i: int| keys.is_first_match(token, i)]
}

/// Handles one component interaction, the start of a verification. When the
/// interaction's custom identifier names the verify action, a key scoped to
/// `(server_id, user_id)` is minted and the member is told the verification
/// URL embedding its token; any other interaction is ignored.
pub fn handle_component_interaction(
    keys: &mut KeyManager,
    custom_id: &String,
    server_id: u64,
    user_id: u64,
) -> (r: Option<String>)
    ensures
        custom_id@ != verify_custom_id() ==> r is None && *final(keys) == *old(keys),
        custom_id@ == verify_custom_id() ==> match r {
            Some(url) => exists|k: Key|
                {
                    &&& final(keys).keys@ == old(keys).keys@.push(k)
                    &&& k.user_id == user_id
                    &&& k.server_id == server_id
                    &&& k.key@.len() == TOKEN_LEN
                    &&& (forall|i: int| 0 <= i < k.key@.len() ==> is_token_char(k.key@[i]))
                    &&& url@ == url_prefix() + k.key@
                },
            None => false,
        },
{
    let expected = "verify".to_owned();
    if custom_id.eq(&expected) {
        let token = keys.create_key(server_id, user_id);
        let url = verification_url(&token);
        proof {
            let k = Key { user_id, server_id, key: token };
            assert(keys.keys@ == old(keys).keys@.push(k));
        }
        Some(url)
    } else {
        None
    }
}

/// Decides a completion request once the external challenge verdict is in.
/// The checks run in order: the challenge verdict, then the key lookup, then
/// the community's configuration. `None` means the request is answered
/// `"failure"` and no role grant is attempted; `Some` carries the grant to
/// attempt, scoped by the matched key and the community's configured role.
pub fn begin_complete(
    keys: &KeyManager,
    registry: &ConfigManager,
    challenge_ok: bool,
    verification_key: &String,
) -> (r: Option<RoleGrant>)
    requires
        registry.wf(),
    ensures
        ({
            let k = matched_key(*keys, verification_key@);
            match r {
                Some(g) => {
                    &&& challenge_ok
                    &&& keys.has_token(verification_key@)
                    &&& has_id(registry.servers(), k.server_id)
                    &&& g.server_id == k.server_id
                    &&& g.user_id == k.user_id
                    &&& g.role_id == registry.servers()[idx_of(
                        registry.servers(),
                        k.server_id,
                    )].grant_role_id
                },
                None => !(challenge_ok && keys.has_token(verification_key@) && has_id(
                    registry.servers(),
                    k.server_id,
                )),
            }
        }),
{
    if !challenge_ok {
        return None;
    }
    match keys.get_key(verification_key.clone()) {
        None => None,
        Some(k) => {
            proof {
                let i = choose|i: int|
                    #[trigger] keys.is_first_match(verification_key@, i) && *k == keys.keys@[i];
                assert(keys.keys@[i].key@ == verification_key@);
                let j = choose|j: int| keys.is_first_match(verification_key@, j);
                crate::keys::lemma_first_match_unique(*keys, verification_key@, i, j);
                assert(matched_key(*keys, verification_key@) == *k);
            }
            match registry.get_server_config(k.server_id) {
                None => None,
                Some(c) => {
                    proof {
                        let s = registry.servers();
                        let i1 = choose|i1: int| 0 <= i1 < s.len() && *c == #[trigger] s[i1];
                        let i2 = idx_of(s, c.id);
                        lemma_id_unique(s, i1, i2);
                        assert(s[i2].grant_role_id == c.grant_role_id);
                    }
                    Some(
                        RoleGrant {
                            server_id: k.server_id,
                            user_id: k.user_id,
                            role_id: c.grant_role_id,
                        },
                    )
                },
            }
        },
    }
}

/// Applies the external grant verdict, the end of a completion. On success
/// the key is consumed — only then — and `"success"` is owed; on failure the
/// store is untouched, so the member may retry with the same link.
pub fn finish_complete(
    keys: &mut KeyManager,
    grant_ok: bool,
    verification_key: &String,
) -> (r: VerifyOutcome)
    ensures
        grant_ok ==> {
            &&& final(keys).keys@ == old(keys).keys@.filter(keeps_token(verification_key@))
            &&& !final(keys).has_token(verification_key@)
            &&& r == VerifyOutcome::Success
        },
        !grant_ok ==> *final(keys) == *old(keys) && r == VerifyOutcome::Failure,
{
    if grant_ok {
        keys.remove_key(verification_key.clone());
        VerifyOutcome::Success
    } else {
        VerifyOutcome::Failure
    }
}

} // verus!
