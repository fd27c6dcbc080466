//! An application: the address it is served at, and the routers that are mounted
//! in it.

use crate::handler::{EdgeHandler, HandlerView};
use crate::router::{get_inner, is_pattern, segments_of, Router, RouterAny, SegmentView};
use vstd::prelude::*;

verus! {

/// An application. `F` is what it registers as callbacks, `M` what it registers
/// as middleware.
pub struct Edge<F, M> {
    base_url: String,
    routers: Vec<RouterAny<F, M>>,
}

impl<F, M> Edge<F, M> {
    /// The URL that request targets are resolved against.
    pub closed spec fn spec_base_url(&self) -> Seq<char> {
        self.base_url@
    }

    /// The routers, in the order in which they were mounted.
    pub closed spec fn spec_routers(&self) -> Vec<RouterAny<F, M>> {
        self.routers
    }

    /// An application that is served at the given address, a host and a port, over
    /// HTTP.
    pub fn new(addr: &str) -> (edge: Edge<F, M>)
        ensures
            edge.spec_base_url() == "http://"@ + addr@,
            edge.spec_routers()@ == Seq::<RouterAny<F, M>>::empty(),
    {
        let mut base_url = String::from_str("http://");
        base_url.append(addr);
        Edge { base_url, routers: Vec::new() }
    }

    /// Mounts a router at a path, behind the routers that are mounted. Mounted at
    /// `/`, a router sees every path.
    pub fn mount(&mut self, mount: &str, router: Router<F, M>)
        requires
            is_pattern(mount@),
        ensures
            final(self).spec_base_url() == old(self).spec_base_url(),
            final(self).spec_routers()@.len() == old(self).spec_routers()@.len() + 1,
            final(self).spec_routers()@.drop_last() == old(self).spec_routers()@,
            ({
                let mounted = final(self).spec_routers()@.last();
                &&& mounted@.routes == router@.routes
                &&& mounted@.prefix == if segments_of(mount@) == seq![
                    SegmentView::Fixed(Seq::empty()),
                ] {
                    router@.prefix
                } else {
                    segments_of(mount@)
                }
                &&& mounted.spec_middleware() == router.spec_middleware()
                &&& forall|i: int| mounted.callback_at(i) == router.callback_at(i)
            }),
    {
        let mut inner = get_inner(router);
        inner.set_prefix(mount);
        let ghost before = self.routers@;
        self.routers.push(inner);
        assert(self.routers@.drop_last() =~= before);
    }

    /// The URL that request targets are resolved against.
    pub fn base_url(&self) -> (r: &str)
        ensures
            r@ == self.spec_base_url(),
    {
        self.base_url.as_str()
    }

    /// The routers, in the order in which they were mounted.
    pub fn routers(&self) -> (r: &Vec<RouterAny<F, M>>)
        ensures
            *r == self.spec_routers(),
    {
        &self.routers
    }

    /// The state for a request that is yet to come in.
    pub fn handler(&self) -> (h: EdgeHandler)
        ensures
            h@ == (HandlerView {
                base_url: self.spec_base_url(),
                request: None,
                is_head_request: false,
                buffer: None,
                streaming: false,
            }),
    {
        EdgeHandler::new(self.base_url.clone())
    }
}

} // verus!
