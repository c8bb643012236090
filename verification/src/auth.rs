//! The keys that go with requests, by where the requests go.

use vstd::prelude::*;

use crate::markup;
use crate::text;

verus! {

/// A key for everything that starts with an origin.
pub struct Credential {
    pub origin: String,
    pub api_key: String,
}

/// What a key for an origin is.
#[verifier::ext_equal]
pub struct CredentialView {
    pub origin: Seq<char>,
    pub api_key: Seq<char>,
}

impl View for Credential {
    type V = CredentialView;

    open spec fn view(&self) -> CredentialView {
        CredentialView { origin: self.origin@, api_key: self.api_key@ }
    }
}

/// The keys that are known, the oldest first.
pub struct AuthRegistry {
    pub entries: Vec<Credential>,
}

impl View for AuthRegistry {
    type V = Seq<CredentialView>;

    open spec fn view(&self) -> Seq<CredentialView> {
        Seq::new(self.entries@.len(), |i: int| self.entries@[i]@)
    }
}

impl AuthRegistry {
    /// No keys.
    pub fn new() -> (res: Self)
        ensures
            res@ == Seq::<CredentialView>::empty(),
    {
        let res = AuthRegistry { entries: Vec::new() };
        assert(res@ =~= Seq::<CredentialView>::empty());
        res
    }
}

/// Add a key for what starts with `origin`.
pub fn register_auth(registry: &mut AuthRegistry, origin: &str, api_key: &str)
    ensures
        final(registry)@ == old(registry)@.push(
            CredentialView { origin: origin@, api_key: api_key@ },
        ),
{
    let ghost before = registry@;
    registry.entries.push(Credential { origin: origin.to_owned(), api_key: api_key.to_owned() });
    assert(registry@ =~= before.push(CredentialView { origin: origin@, api_key: api_key@ }));
}

/// Forget all keys.
pub fn clear_auth_registry(registry: &mut AuthRegistry)
    ensures
        final(registry)@ == Seq::<CredentialView>::empty(),
{
    registry.entries = Vec::new();
    assert(registry@ =~= Seq::<CredentialView>::empty());
}

/// The key of the first origin that `url` starts with.
pub open spec fn key_for(registry: Seq<CredentialView>, url: Seq<char>) -> Option<Seq<char>>
    decreases registry.len(),
{
    if registry.len() == 0 {
        None
    } else if markup::starts_with(url, registry[0].origin) {
        Some(registry[0].api_key)
    } else {
        key_for(registry.drop_first(), url)
    }
}

/// The key of the first origin that `url` starts with.
pub fn find_api_key_for_url(registry: &AuthRegistry, url: &str) -> (res: Option<String>)
    ensures
        text::opt_text(res) == key_for(registry@, url@),
{
    let ghost all = registry@;
    let mut i: usize = 0;
    assert(all.skip(0) =~= all);
    while i < registry.entries.len()
        invariant
            i <= registry.entries.len(),
            all == registry@,
            key_for(all, url@) == key_for(all.skip(i as int), url@),
        decreases registry.entries.len() - i,
    {
        assert(all.skip(i as int)[0] == registry.entries@[i as int]@);
        assert(all.skip(i as int).drop_first() =~= all.skip(i + 1));
        if text::starts_with(url, registry.entries[i].origin.as_str()) {
            return Some(registry.entries[i].api_key.clone());
        }
        i = i + 1;
    }
    None
}

/// A key is found if and only if one was added for an origin that the address
/// starts with.
pub proof fn law_key_is_found(registry: Seq<CredentialView>, url: Seq<char>)
    ensures
        key_for(registry, url) is Some <==> exists|i: int|
            0 <= i < registry.len() && markup::starts_with(url, (#[trigger] registry[i]).origin),
    decreases registry.len(),
{
    if registry.len() > 0 {
        let rest = registry.drop_first();
        law_key_is_found(rest, url);
        if markup::starts_with(url, registry[0].origin) {
        } else if key_for(rest, url) is Some {
            let i = choose|i: int|
                0 <= i < rest.len() && markup::starts_with(url, (#[trigger] rest[i]).origin);
            assert(registry[i + 1] == rest[i]);
        } else {
            assert forall|i: int| 0 <= i < registry.len() implies !markup::starts_with(
                url,
                (#[trigger] registry[i]).origin,
            ) by {
                if i > 0 {
                    assert(rest[i - 1] == registry[i]);
                }
            }
        }
    }
}

/// A key that is added later does not take the place of one that is found
/// already.
pub proof fn law_first_key_wins(registry: Seq<CredentialView>, url: Seq<char>, c: CredentialView)
    ensures
        key_for(registry.push(c), url) == if key_for(registry, url) is Some {
            key_for(registry, url)
        } else if markup::starts_with(url, c.origin) {
            Some(c.api_key)
        } else {
            None
        },
    decreases registry.len(),
{
    if registry.len() > 0 {
        assert(registry.push(c).drop_first() =~= registry.drop_first().push(c));
        assert(registry.push(c)[0] == registry[0]);
        law_first_key_wins(registry.drop_first(), url, c);
    } else {
        assert(registry.push(c).drop_first() =~= Seq::<CredentialView>::empty());
        assert(key_for(Seq::<CredentialView>::empty(), url) is None);
    }
}

/// What goes into the header of a request to `url`.
pub open spec fn header_for(registry: Seq<CredentialView>, url: Seq<char>) -> Option<Seq<char>> {
    match key_for(registry, url) {
        Some(key) => Some("Bearer "@ + key),
        None => None,
    }
}

/// What goes into the header of a request to `url`.
pub fn authorization(registry: &AuthRegistry, url: &str) -> (res: Option<String>)
    ensures
        text::opt_text(res) == header_for(registry@, url@),
{
    match find_api_key_for_url(registry, url) {
        Some(key) => Some(text::concat("Bearer ", key.as_str())),
        None => None,
    }
}

} // verus!
