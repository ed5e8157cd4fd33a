//! Listing the interfaces of the host.

use crate::config_routes::ok_response;
use crate::http::{Response, State, APPLICATION_JSON, STATUS_OK};
use crate::models::{Interface, InterfaceVec};
use crate::wire::{to_text, views, Wire};
use vstd::prelude::*;

verus! {

impl InterfaceVec {
    /// The response that lists the interfaces: a JSON list with one object for
    /// each, in their order.
    pub fn into_response(self) -> (res: Response)
        ensures
            res@ == ok_response(InterfaceVec::to_tree(self@).text()),
    {
        Response::new(STATUS_OK, APPLICATION_JSON, to_text::<InterfaceVec>(&self))
    }
}

/// The interfaces of the host, given the names under which the host lists
/// them: one for each name, in the same order.
pub fn get_interfaces(state: State, names: Vec<String>) -> (res: (State, InterfaceVec))
    ensures
        res.0 == state,
        res.1@ == views(names@),
{
    let mut items: Vec<Interface> = Vec::new();
    let mut i: usize = 0;
    while i < names.len()
        invariant
            i <= names.len(),
            items@.len() == i,
            forall|k: int| 0 <= k < i ==> (#[trigger] items@[k]).iface@ == names@[k]@,
        decreases names.len() - i,
    {
        let iface_name: String = names[i].clone();
        items.push(Interface { iface: iface_name });
        i += 1;
    }
    let result_intf = InterfaceVec::from_iter(items);
    proof {
        assert(result_intf@ =~= views(names@));
    }
    (state, result_intf)
}

} // verus!
