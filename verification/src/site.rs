//! The assembled site: the static mounts and the route table together decide
//! what answers a request.

use crate::mounts::lookup_of;
use crate::mounts::mounts_of;
use crate::mounts::standard_mount_views;
use crate::mounts::standard_mounts;
use crate::mounts::tail_under;
use crate::mounts::LookupView;
use crate::mounts::MountLookup;
use crate::mounts::MountView;
use crate::mounts::StaticMount;
use crate::routes::binding_matches;
use crate::routes::route_for;
use crate::routes::standard_bindings;
use crate::routes::Endpoint;
use crate::routes::Method;
use crate::routes::RouteTable;
use crate::text::texts;
use vstd::prelude::*;

verus! {

/// What answers a request, over plain text.
pub enum TargetView {
    Asset { mount: int, names: Seq<Seq<char>> },
    Rejected { mount: int },
    Page(Endpoint),
}

/// What answers a request.
#[derive(Debug, PartialEq, Eq)]
pub enum Target {
    /// What lies under the root of the mount with this index, at these
    /// names taken in order.
    Asset { mount: usize, names: Vec<String> },
    /// Nothing: the path is under the mount with this index but would leave
    /// its root.
    Rejected { mount: usize },
    /// A page.
    Page(Endpoint),
}

impl View for Target {
    type V = TargetView;

    open spec fn view(&self) -> TargetView {
        match self {
            Target::Asset { mount, names } => TargetView::Asset {
                mount: *mount as int,
                names: texts(names@),
            },
            Target::Rejected { mount } => TargetView::Rejected { mount: *mount as int },
            Target::Page(endpoint) => TargetView::Page(*endpoint),
        }
    }
}

/// What the first mount at or after `from` that `path` is under makes of
/// it; `None` where the path is under none of them.
pub open spec fn mount_target(mounts: Seq<MountView>, from: int, path: Seq<char>) -> Option<
    TargetView,
>
    decreases mounts.len() - from,
{
    if from < 0 || from >= mounts.len() {
        None
    } else {
        match lookup_of(mounts[from].url_prefix, path) {
            LookupView::Outside => mount_target(mounts, from + 1, path),
            LookupView::Rejected => Some(TargetView::Rejected { mount: from }),
            LookupView::Inside(names) => Some(TargetView::Asset { mount: from, names }),
        }
    }
}

/// What answers a request. The mounts come first, in order, and answer
/// requests with the method `Get` only; what is under no mount goes to the
/// route table, whose fallback takes the rest.
pub open spec fn target_of(mounts: Seq<MountView>, method: Method, path: Seq<char>) -> TargetView {
    if method == Method::Get && mount_target(mounts, 0, path) is Some {
        mount_target(mounts, 0, path)->0
    } else {
        TargetView::Page(route_for(method, path))
    }
}

/// The static mounts and the route table of the site. It is built once,
/// before the server listens, and never changed.
pub struct Site {
    mounts: Vec<StaticMount>,
    routes: RouteTable,
}

impl Site {
    #[verifier::type_invariant]
    spec fn holds_standard_parts(self) -> bool {
        &&& mounts_of(self.mounts@) == standard_mount_views()
        &&& self.routes.bindings() == standard_bindings()
    }

    /// The site with its two mounts and five named pages.
    pub fn standard() -> (site: Site)
        ensures
            site.mount_views() == standard_mount_views(),
    {
        Site { mounts: standard_mounts(), routes: RouteTable::standard() }
    }

    /// The mounts held, in the order in which they are tried.
    pub closed spec fn mount_views(self) -> Seq<MountView> {
        mounts_of(self.mounts@)
    }

    /// The mounts held, in the order in which they are tried.
    pub fn mounts(&self) -> (mounts: &Vec<StaticMount>)
        ensures
            mounts_of(mounts@) == standard_mount_views(),
    {
        proof {
            use_type_invariant(self);
        }
        &self.mounts
    }

    /// The route table held.
    pub fn routes(&self) -> (routes: &RouteTable)
        ensures
            routes.bindings() == standard_bindings(),
    {
        proof {
            use_type_invariant(self);
        }
        &self.routes
    }

    /// Finds what answers a request. `path` is the path of the request
    /// alone, without a query, and is taken as the text it is: nothing in
    /// it is decoded here. A caller that gets its paths percent-encoded
    /// decodes them before the call, or an encoded `..` counts as a plain
    /// name.
    pub fn resolve(&self, method: Method, path: &str) -> (target: Target)
        ensures
            target@ == target_of(standard_mount_views(), method, path@),
    {
        proof {
            use_type_invariant(self);
        }
        if method == Method::Get {
            let ghost views = mounts_of(self.mounts@);
            let mut i: usize = 0;
            while i < self.mounts.len()
                invariant
                    i <= self.mounts.len(),
                    method == Method::Get,
                    views == mounts_of(self.mounts@),
                    views == standard_mount_views(),
                    mount_target(views, 0, path@) == mount_target(views, i as int, path@),
                decreases self.mounts.len() - i,
            {
                match self.mounts[i].lookup(path) {
                    MountLookup::Outside => {},
                    MountLookup::Rejected => {
                        return Target::Rejected { mount: i };
                    },
                    MountLookup::Inside(names) => {
                        return Target::Asset { mount: i, names };
                    },
                }
                i += 1;
            }
        }
        Target::Page(self.routes.dispatch(method, path))
    }
}

/// Where `path` is under neither standard mount.
pub open spec fn under_no_mount(path: Seq<char>) -> bool {
    forall|k: int|
        0 <= k < standard_mount_views().len() ==> tail_under(
            (#[trigger] standard_mount_views()[k]).url_prefix,
            path,
        ) is None
}

/// Routing is fixed by the request alone: a request that is under no mount,
/// or does not have the method `Get`, goes to the page that the route table
/// names for it.
pub proof fn lemma_pages_answer_outside_mounts(method: Method, path: Seq<char>)
    requires
        method != Method::Get || under_no_mount(path),
    ensures
        target_of(standard_mount_views(), method, path) == TargetView::Page(route_for(method, path)),
{
    if method == Method::Get {
        let mounts = standard_mount_views();
        assert(tail_under(mounts[0].url_prefix, path) is None);
        assert(tail_under(mounts[1].url_prefix, path) is None);
        reveal_with_fuel(mount_target, 3);
    }
}

/// A request that is under no mount and that no named binding matches goes
/// to the fallback page.
pub proof fn lemma_unbound_request_is_not_found(method: Method, path: Seq<char>)
    requires
        method != Method::Get || under_no_mount(path),
        forall|i: int|
            0 <= i < standard_bindings().len() ==> !binding_matches(
                #[trigger] standard_bindings()[i],
                method,
                path,
            ),
    ensures
        target_of(standard_mount_views(), method, path) == TargetView::Page(Endpoint::NotFound),
{
    lemma_pages_answer_outside_mounts(method, path);
    crate::routes::lemma_unbound_request_falls_back(method, path);
}

/// A request to the exact path of a named binding, with its method, goes to
/// the page of that binding and to nothing else.
pub proof fn lemma_named_page_is_reached(i: int)
    requires
        0 <= i < standard_bindings().len(),
    ensures
        target_of(standard_mount_views(), standard_bindings()[i].method, standard_bindings()[i].path)
            == TargetView::Page(standard_bindings()[i].endpoint),
{
    let binding = standard_bindings()[i];
    let path = binding.path;
    reveal_strlit("/robots.txt");
    reveal_strlit("/");
    reveal_strlit("/search");
    reveal_strlit("/about");
    reveal_strlit("/settings");
    reveal_strlit("/static");
    reveal_strlit("/images");
    // The named paths part from both mount points at their third character.
    let mounts = standard_mount_views();
    assert(mounts[0].url_prefix[2] == 't' && mounts[1].url_prefix[2] == 'm');
    assert(path.len() >= 7 ==> path.take(7)[2] == path[2]);
    assert(under_no_mount(path));
    lemma_pages_answer_outside_mounts(binding.method, path);
    crate::routes::lemma_bindings_exclusive(i, i, binding.method, path);
}

} // verus!
