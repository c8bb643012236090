//! Putting providers into the user interface.

use vstd::prelude::*;

use crate::app_state;
use crate::app_state::{AppRenderer, ProviderInfo, ProviderView, Ui};
use crate::ffon;
use crate::ffon::{FfonElement, FfonObject, Node};
use crate::text;

verus! {

/// The root of a provider: its name, with what was fetched below it.
pub fn init_provider_root(display_name: &str, children: Vec<FfonElement>) -> (res: FfonElement)
    ensures
        res@ == (Node::Obj { key: display_name@, children: ffon::forest(children@) }),
{
    let root = FfonObject { key: display_name.to_owned(), children };
    proof {
        ffon::lemma_obj_view(root);
    }
    FfonElement::Obj(root)
}

/// `u` with the provider `p` added, where `children` is what it fetched and
/// `error` what went wrong.
pub open spec fn registered(
    u: Ui,
    p: ProviderView,
    children: Seq<Node>,
    error: Option<Seq<char>>,
) -> Ui {
    Ui {
        ffon: u.ffon.push(Node::Obj { key: p.display_name, children }),
        providers: u.providers.push(p),
        error_message: match error {
            Some(e) => e,
            None => u.error_message,
        },
        ..u
    }
}

/// Add a provider that was started; `children` is what it fetched first, and
/// `error` what went wrong then.
pub fn register_provider(
    r: &mut AppRenderer,
    p: ProviderInfo,
    children: Vec<FfonElement>,
    error: Option<String>,
)
    ensures
        final(r)@ == registered(
            old(r)@,
            p@,
            ffon::forest(children@),
            text::opt_text(error),
        ),
        app_state::tabs_ok(old(r)@) ==> app_state::tabs_ok(final(r)@),
{
    let ghost before = r@;
    let ghost info = p@;
    let root = init_provider_root(p.display_name.as_str(), children);
    if let Some(e) = error {
        r.error_message = e;
    }
    let ghost node = root@;
    r.ffon.push(root);
    assert(ffon::forest(r.ffon@) =~= before.ffon.push(node));
    r.providers.push(p);
    assert(app_state::infos(r.providers@) =~= before.providers.push(info));
}

/// Adding a provider adds a tree, so that each provider has its tree.
pub proof fn law_a_tree_for_each_provider(
    u: Ui,
    p: ProviderView,
    children: Seq<Node>,
    error: Option<Seq<char>>,
)
    requires
        u.ffon.len() == u.providers.len(),
    ensures
        registered(u, p, children, error).ffon.len() == registered(
            u,
            p,
            children,
            error,
        ).providers.len(),
{
}

} // verus!
