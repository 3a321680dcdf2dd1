use vstd::prelude::*;

verus! {

/// A single-use verification key: an unguessable token scoped to one member
/// (`user_id`) of one community (`server_id`).
pub struct Key {
    pub user_id: u64,
    pub server_id: u64,
    pub key: String,
}

impl Clone for Key {
    fn clone(&self) -> (r: Self)
        ensures
            r == *self,
    {
        Key { user_id: self.user_id, server_id: self.server_id, key: self.key.clone() }
    }
}

/// The set of all live verification keys.
pub struct KeyManager {
    pub keys: Vec<Key>,
}

impl Clone for KeyManager {
    fn clone(&self) -> (r: Self)
        ensures
            r.keys@ == self.keys@,
    {
        let mut keys: Vec<Key> = Vec::new();
        let n = self.keys.len();
        let mut i: usize = 0;
        while i < n
            invariant
                i <= n,
                n == self.keys@.len(),
                keys@ == self.keys@.take(i as int),
            decreases n - i,
        {
            keys.push(self.keys[i].clone());
            proof {
                assert(keys@ =~= self.keys@.take(i + 1));
            }
            i += 1;
        }
        proof {
            assert(self.keys@.take(n as int) =~= self.keys@);
        }
        KeyManager { keys }
    }
}

/// Configuration for one community: which role to grant on successful
/// verification.
#[derive(Clone, Copy, PartialEq, Eq, Structural, Debug)]
pub struct ServerConfig {
    pub id: u64,
    pub grant_role_id: u64,
}

/// All per-community configurations.
pub struct Config {
    pub servers: Vec<ServerConfig>,
}

impl Clone for Config {
    fn clone(&self) -> (r: Self)
        ensures
            r.servers@ == self.servers@,
    {
        let mut servers: Vec<ServerConfig> = Vec::new();
        let n = self.servers.len();
        let mut i: usize = 0;
        while i < n
            invariant
                i <= n,
                n == self.servers@.len(),
                servers@ == self.servers@.take(i as int),
            decreases n - i,
        {
            servers.push(self.servers[i]);
            proof {
                assert(servers@ =~= self.servers@.take(i + 1));
            }
            i += 1;
        }
        proof {
            assert(self.servers@.take(n as int) =~= self.servers@);
        }
        Config { servers }
    }
}

/// The body of a completion request: the verification key and the challenge
/// response (the latter is also named `token` on the wire).
pub struct JsonBody {
    pub key: String,
    pub token: String,
}

/// The data behind the challenge page for one verification key.
pub struct VerifyPageTemplate {
    pub key: String,
}

/// Wraps a renderable template so it can be turned into an HTML response.
pub struct HtmlTemplate<T>(pub T);

/// User data attached to the bot framework; this bot keeps none.
pub struct Data {}

} // verus!
