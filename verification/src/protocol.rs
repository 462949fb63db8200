//! The parts of a parsed Wayland protocol description that the server
//! generator reads.

use vstd::prelude::*;

use crate::names::str_eq;

verus! {

/// The wire type of a message argument.
#[derive(Clone, Copy, Debug, PartialEq, Eq, Structural)]
pub enum Type {
    Int,
    Uint,
    Fixed,
    String,
    Object,
    NewId,
    Array,
    Fd,
    Destructor,
}

/// One argument of a request or an event.
#[derive(Clone, Debug)]
pub struct Arg {
    pub name: String,
    pub typ: Type,
    /// The interface of an `object` or `new_id` argument, where one is given.
    pub interface: Option<String>,
    pub allow_null: bool,
    /// The enum this argument takes its values from: `name` for an enum of
    /// the same interface, `interface.name` for one of another interface.
    pub enum_: Option<String>,
}

/// A request or an event.
#[derive(Clone, Debug)]
pub struct Message {
    pub name: String,
    /// The interface version that introduced the message.
    pub since: u16,
    /// Summary and long description.
    pub description: Option<(String, String)>,
    pub args: Vec<Arg>,
}

/// An interface: its requests (client to server) and events (server to client).
#[derive(Clone, Debug)]
pub struct Interface {
    pub name: String,
    pub version: u32,
    /// Summary and long description.
    pub description: Option<(String, String)>,
    pub requests: Vec<Message>,
    pub events: Vec<Message>,
}

/// A whole protocol.
#[derive(Clone, Debug)]
pub struct Protocol {
    pub name: String,
    pub copyright: Option<String>,
    pub interfaces: Vec<Interface>,
}

/// The two interfaces that the server library implements itself; no code is
/// generated for them.
pub open spec fn is_builtin_interface(name: Seq<char>) -> bool {
    name == "wl_display"@ || name == "wl_registry"@
}

/// A `new_id` argument names the interface of the object it creates.
pub open spec fn arg_names_its_new_interface(a: Arg) -> bool {
    a.typ == Type::NewId ==> a.interface is Some
}

/// Requests are decoded from the wire: a `new_id` argument names its
/// interface, and no argument has the `destructor` type.
pub open spec fn request_decodable(m: Message) -> bool {
    forall|k: int|
        0 <= k < m.args@.len() ==> {
            &&& arg_names_its_new_interface(#[trigger] m.args@[k])
            &&& m.args@[k].typ != Type::Destructor
        }
}

/// Events are sent: a `new_id` argument names its interface.
pub open spec fn event_sendable(m: Message) -> bool {
    forall|k: int| 0 <= k < m.args@.len() ==> arg_names_its_new_interface(#[trigger] m.args@[k])
}

/// What code generation asks of an interface.
pub open spec fn interface_generable(i: Interface) -> bool {
    &&& forall|j: int| 0 <= j < i.requests@.len() ==> request_decodable(#[trigger] i.requests@[j])
    &&& forall|j: int| 0 <= j < i.events@.len() ==> event_sendable(#[trigger] i.events@[j])
}

/// What code generation asks of a protocol: every interface that gets code
/// is generable.
pub open spec fn protocol_generable(p: Protocol) -> bool {
    forall|i: int|
        0 <= i < p.interfaces@.len() && !is_builtin_interface(p.interfaces@[i].name@)
            ==> interface_generable(#[trigger] p.interfaces@[i])
}

/// Two protocols that differ at most in the contents (requests, events,
/// description, version) of the interfaces the library handles itself.
pub open spec fn differ_only_in_builtin(p1: Protocol, p2: Protocol) -> bool {
    &&& p1.name == p2.name
    &&& p1.copyright == p2.copyright
    &&& p1.interfaces@.len() == p2.interfaces@.len()
    &&& forall|i: int|
        0 <= i < p1.interfaces@.len() ==> {
            &&& #[trigger] p1.interfaces@[i].name == p2.interfaces@[i].name
            &&& !is_builtin_interface(p1.interfaces@[i].name@) ==> p1.interfaces@[i]
                == p2.interfaces@[i]
        }
}

/// Whether code can be generated depends only on the interfaces that get
/// code: the ones the library handles itself may hold anything.
pub proof fn lemma_generable_ignores_builtin(p1: Protocol, p2: Protocol)
    requires
        differ_only_in_builtin(p1, p2),
    ensures
        protocol_generable(p1) == protocol_generable(p2),
{
    assert forall|i: int|
        0 <= i < p2.interfaces@.len() && !is_builtin_interface(p2.interfaces@[i].name@)
            implies p1.interfaces@[i] == p2.interfaces@[i] by {
        assert(p1.interfaces@[i].name == p2.interfaces@[i].name);
    }
}

/// A request argument of the `destructor` type, or a `new_id` argument
/// without its interface, in an interface that gets code, rules out
/// generating code for the protocol.
pub proof fn lemma_bad_argument_not_generable(p: Protocol, i: int, j: int, k: int, is_request: bool)
    requires
        0 <= i < p.interfaces@.len(),
        !is_builtin_interface(p.interfaces@[i].name@),
        is_request ==> 0 <= j < p.interfaces@[i].requests@.len() && 0 <= k
            < p.interfaces@[i].requests@[j].args@.len() && (p.interfaces@[i].requests@[j].args@[k].typ
            == Type::Destructor || (p.interfaces@[i].requests@[j].args@[k].typ == Type::NewId
            && p.interfaces@[i].requests@[j].args@[k].interface is None)),
        !is_request ==> 0 <= j < p.interfaces@[i].events@.len() && 0 <= k
            < p.interfaces@[i].events@[j].args@.len() && p.interfaces@[i].events@[j].args@[k].typ
            == Type::NewId && p.interfaces@[i].events@[j].args@[k].interface is None,
    ensures
        !protocol_generable(p),
{
    let iface = p.interfaces@[i];
    if is_request {
        let m = iface.requests@[j];
        assert(!(arg_names_its_new_interface(m.args@[k]) && m.args@[k].typ != Type::Destructor));
        assert(!request_decodable(iface.requests@[j]));
    } else {
        let m = iface.events@[j];
        assert(!arg_names_its_new_interface(m.args@[k]));
        assert(!event_sendable(iface.events@[j]));
    }
    assert(!interface_generable(p.interfaces@[i]));
}

/// An event can be sent exactly when each of its `new_id` arguments names
/// its interface: no other argument keeps it from being sent.
pub proof fn lemma_event_sendable_exactly(m: Message)
    ensures
        event_sendable(m) <==> forall|k: int|
            0 <= k < m.args@.len() && (#[trigger] m.args@[k]).typ == Type::NewId
                ==> m.args@[k].interface is Some,
{
    if forall|k: int|
        0 <= k < m.args@.len() && (#[trigger] m.args@[k]).typ == Type::NewId
            ==> m.args@[k].interface is Some {
        assert forall|k: int| 0 <= k < m.args@.len() implies arg_names_its_new_interface(
            #[trigger] m.args@[k],
        ) by {
            if m.args@[k].typ == Type::NewId {
                assert(m.args@[k].interface is Some);
            }
        }
    }
}

/// A request can be decoded exactly when each of its `new_id` arguments
/// names its interface and none of its arguments has the `destructor` type.
pub proof fn lemma_request_decodable_exactly(m: Message)
    ensures
        request_decodable(m) <==> forall|k: int|
            0 <= k < m.args@.len() ==> ((#[trigger] m.args@[k]).typ == Type::NewId
                ==> m.args@[k].interface is Some) && m.args@[k].typ != Type::Destructor,
{
}

/// Code can be generated for a protocol exactly when, in every interface
/// other than `wl_display` and `wl_registry`, every `new_id` argument of a
/// request or an event names its interface and no request argument has the
/// `destructor` type.
pub proof fn lemma_generable_exactly(p: Protocol)
    ensures
        protocol_generable(p) <==> forall|i: int, j: int, k: int|
        #![trigger p.interfaces@[i].requests@[j].args@[k]]
        #![trigger p.interfaces@[i].events@[j].args@[k]]
            0 <= i < p.interfaces@.len() && !is_builtin_interface(p.interfaces@[i].name@) ==> {
                &&& (0 <= j < p.interfaces@[i].requests@.len() && 0 <= k
                    < p.interfaces@[i].requests@[j].args@.len()) ==> {
                    let a = p.interfaces@[i].requests@[j].args@[k];
                    (a.typ == Type::NewId ==> a.interface is Some) && a.typ != Type::Destructor
                }
                &&& (0 <= j < p.interfaces@[i].events@.len() && 0 <= k
                    < p.interfaces@[i].events@[j].args@.len()) ==> {
                    let a = p.interfaces@[i].events@[j].args@[k];
                    a.typ == Type::NewId ==> a.interface is Some
                }
            },
{
    let cond = forall|i: int, j: int, k: int|
        #![trigger p.interfaces@[i].requests@[j].args@[k]]
        #![trigger p.interfaces@[i].events@[j].args@[k]]
        0 <= i < p.interfaces@.len() && !is_builtin_interface(p.interfaces@[i].name@) ==> {
            &&& (0 <= j < p.interfaces@[i].requests@.len() && 0 <= k
                < p.interfaces@[i].requests@[j].args@.len()) ==> {
                let a = p.interfaces@[i].requests@[j].args@[k];
                (a.typ == Type::NewId ==> a.interface is Some) && a.typ != Type::Destructor
            }
            &&& (0 <= j < p.interfaces@[i].events@.len() && 0 <= k
                < p.interfaces@[i].events@[j].args@.len()) ==> {
                let a = p.interfaces@[i].events@[j].args@[k];
                a.typ == Type::NewId ==> a.interface is Some
            }
        };
    if cond {
        assert forall|i: int|
            0 <= i < p.interfaces@.len() && !is_builtin_interface(p.interfaces@[i].name@)
                implies interface_generable(#[trigger] p.interfaces@[i]) by {
            let iface = p.interfaces@[i];
            assert forall|j: int| 0 <= j < iface.requests@.len() implies request_decodable(
                #[trigger] iface.requests@[j],
            ) by {
                assert forall|k: int| 0 <= k < iface.requests@[j].args@.len() implies {
                    &&& arg_names_its_new_interface(#[trigger] iface.requests@[j].args@[k])
                    &&& iface.requests@[j].args@[k].typ != Type::Destructor
                } by {
                    let a = p.interfaces@[i].requests@[j].args@[k];
                    assert((a.typ == Type::NewId ==> a.interface is Some) && a.typ
                        != Type::Destructor);
                }
            }
            assert forall|j: int| 0 <= j < iface.events@.len() implies event_sendable(
                #[trigger] iface.events@[j],
            ) by {
                assert forall|k: int| 0 <= k < iface.events@[j].args@.len() implies arg_names_its_new_interface(
                    #[trigger] iface.events@[j].args@[k],
                ) by {
                    let a = p.interfaces@[i].events@[j].args@[k];
                    assert(a.typ == Type::NewId ==> a.interface is Some);
                }
            }
        }
    }
    if protocol_generable(p) {
        assert forall|i: int, j: int, k: int|
        #![trigger p.interfaces@[i].requests@[j].args@[k]]
        #![trigger p.interfaces@[i].events@[j].args@[k]]
            0 <= i < p.interfaces@.len() && !is_builtin_interface(p.interfaces@[i].name@) implies {
            &&& (0 <= j < p.interfaces@[i].requests@.len() && 0 <= k
                < p.interfaces@[i].requests@[j].args@.len()) ==> {
                let a = p.interfaces@[i].requests@[j].args@[k];
                (a.typ == Type::NewId ==> a.interface is Some) && a.typ != Type::Destructor
            }
            &&& (0 <= j < p.interfaces@[i].events@.len() && 0 <= k
                < p.interfaces@[i].events@[j].args@.len()) ==> {
                let a = p.interfaces@[i].events@[j].args@[k];
                a.typ == Type::NewId ==> a.interface is Some
            }
        } by {
            assert(interface_generable(p.interfaces@[i]));
            if 0 <= j < p.interfaces@[i].requests@.len() && 0 <= k
                < p.interfaces@[i].requests@[j].args@.len() {
                assert(request_decodable(p.interfaces@[i].requests@[j]));
                assert(arg_names_its_new_interface(p.interfaces@[i].requests@[j].args@[k]));
            }
            if 0 <= j < p.interfaces@[i].events@.len() && 0 <= k
                < p.interfaces@[i].events@[j].args@.len() {
                assert(event_sendable(p.interfaces@[i].events@[j]));
                assert(arg_names_its_new_interface(p.interfaces@[i].events@[j].args@[k]));
            }
        }
    }
}

/// Whether `name` is that of an interface the library handles itself.
pub fn is_builtin_name(name: &str) -> (r: bool)
    ensures
        r == is_builtin_interface(name@),
{
    str_eq(name, "wl_display") || str_eq(name, "wl_registry")
}

fn arg_sendable(a: &Arg) -> (r: bool)
    ensures
        r == arg_names_its_new_interface(*a),
{
    !(a.typ == Type::NewId && a.interface.is_none())
}

fn message_checks(m: &Message, is_request: bool) -> (r: bool)
    ensures
        r == (if is_request {
            request_decodable(*m)
        } else {
            event_sendable(*m)
        }),
{
    let mut k: usize = 0;
    while k < m.args.len()
        invariant
            k <= m.args@.len(),
            forall|j: int|
                0 <= j < k ==> {
                    &&& arg_names_its_new_interface(#[trigger] m.args@[j])
                    &&& (is_request ==> m.args@[j].typ != Type::Destructor)
                },
        decreases m.args@.len() - k,
    {
        let a = &m.args[k];
        if !arg_sendable(a) || (is_request && a.typ == Type::Destructor) {
            return false;
        }
        k += 1;
    }
    true
}

/// Whether `interface` meets what code generation asks of it.
pub fn interface_is_generable(interface: &Interface) -> (r: bool)
    ensures
        r == interface_generable(*interface),
{
    let mut j: usize = 0;
    while j < interface.requests.len()
        invariant
            j <= interface.requests@.len(),
            forall|k: int| 0 <= k < j ==> request_decodable(#[trigger] interface.requests@[k]),
        decreases interface.requests@.len() - j,
    {
        if !message_checks(&interface.requests[j], true) {
            return false;
        }
        j += 1;
    }
    let mut j: usize = 0;
    while j < interface.events.len()
        invariant
            j <= interface.events@.len(),
            forall|k: int| 0 <= k < interface.requests@.len() ==> request_decodable(
                #[trigger] interface.requests@[k],
            ),
            forall|k: int| 0 <= k < j ==> event_sendable(#[trigger] interface.events@[k]),
        decreases interface.events@.len() - j,
    {
        if !message_checks(&interface.events[j], false) {
            return false;
        }
        j += 1;
    }
    true
}

/// Whether code can be generated for `protocol`.
pub fn is_generable(protocol: &Protocol) -> (r: bool)
    ensures
        r == protocol_generable(*protocol),
{
    let mut i: usize = 0;
    while i < protocol.interfaces.len()
        invariant
            i <= protocol.interfaces@.len(),
            forall|k: int|
                0 <= k < i && !is_builtin_interface(protocol.interfaces@[k].name@)
                    ==> interface_generable(#[trigger] protocol.interfaces@[k]),
        decreases protocol.interfaces@.len() - i,
    {
        let interface = &protocol.interfaces[i];
        if !is_builtin_name(interface.name.as_str()) && !interface_is_generable(interface) {
            return false;
        }
        i += 1;
    }
    true
}

} // verus!
