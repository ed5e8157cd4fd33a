//! The firewall's configuration document and the other bodies that travel as
//! JSON.

use crate::json::{find, lemma_find_field, lemma_find_none, Json, JsonView};
use crate::wire::{
    decode_list, encode_list, entry_views, from_read, lemma_list_round_trip,
    lemma_map_read_valid, lemma_map_round_trip, list_field, list_from_tree, list_to_trees,
    map_field, map_valid, object, option_entry_views, option_view, option_views, optional,
    optional_field, optional_list, optional_list_field, optional_map, optional_map_field,
    read_optional, read_optional_list, read_optional_map, read_required, read_required_list,
    read_required_map, required, required_field, required_list, required_map, views,
    write_list, write_map, write_optional, write_optional_list, write_optional_map,
    write_required, Key, ParseErrorView, SchemaError, Shape, Wire,
};
use vstd::prelude::*;

verus! {

/// The body of an error response.
#[derive(Debug, PartialEq, Eq)]
pub struct Message {
    pub message: String,
}

impl View for Message {
    type V = Seq<char>;

    /// The message.
    open spec fn view(&self) -> Seq<char> {
        self.message@
    }
}

impl Wire for Message {
    open spec fn valid(m: Seq<char>) -> bool {
        true
    }

    open spec fn to_tree(m: Seq<char>) -> JsonView {
        JsonView::Object(Seq::empty() + required_field::<String>(Key::Message, m))
    }

    open spec fn from_tree(j: JsonView) -> Result<Seq<char>, SchemaError> {
        match j {
            JsonView::Object(members) => required::<String>(members, Key::Message),
            _ => Err(SchemaError::Type(Shape::Object)),
        }
    }

    fn encode(&self) -> (res: Json) {
        let mut members: Vec<(String, Json)> = Vec::new();
        write_required::<String>(&mut members, Key::Message, &self.message);
        object(members)
    }

    fn decode(j: &Json) -> (res: Result<Message, SchemaError>) {
        match j {
            Json::Object(members) => {
                proof {
                    j.lemma_view_object();
                }
                let message = read_required::<String>(members, Key::Message)?;
                Ok(Message { message })
            },
            _ => Err(SchemaError::Type(Shape::Object)),
        }
    }

    proof fn lemma_round_trip(m: Seq<char>) {
        broadcast use {lemma_find_field, lemma_find_none};

    }

    proof fn lemma_read_valid(j: JsonView) {
    }
}

/// A network interface, by its name.
#[derive(Debug, PartialEq, Eq)]
pub struct Interface {
    pub iface: String,
}

impl View for Interface {
    type V = Seq<char>;

    /// The name.
    open spec fn view(&self) -> Seq<char> {
        self.iface@
    }
}

impl Wire for Interface {
    open spec fn valid(m: Seq<char>) -> bool {
        true
    }

    open spec fn to_tree(m: Seq<char>) -> JsonView {
        JsonView::Object(Seq::empty() + required_field::<String>(Key::Iface, m))
    }

    open spec fn from_tree(j: JsonView) -> Result<Seq<char>, SchemaError> {
        match j {
            JsonView::Object(members) => required::<String>(members, Key::Iface),
            _ => Err(SchemaError::Type(Shape::Object)),
        }
    }

    fn encode(&self) -> (res: Json) {
        let mut members: Vec<(String, Json)> = Vec::new();
        write_required::<String>(&mut members, Key::Iface, &self.iface);
        object(members)
    }

    fn decode(j: &Json) -> (res: Result<Interface, SchemaError>) {
        match j {
            Json::Object(members) => {
                proof {
                    j.lemma_view_object();
                }
                let iface = read_required::<String>(members, Key::Iface)?;
                Ok(Interface { iface })
            },
            _ => Err(SchemaError::Type(Shape::Object)),
        }
    }

    proof fn lemma_round_trip(m: Seq<char>) {
        broadcast use {lemma_find_field, lemma_find_none};

    }

    proof fn lemma_read_valid(j: JsonView) {
    }
}

/// The interfaces of the host, in the order in which the host lists them.
#[derive(Debug, PartialEq, Eq)]
pub struct InterfaceVec(pub Vec<Interface>);

impl View for InterfaceVec {
    type V = Seq<Seq<char>>;

    /// The names, in their order.
    open spec fn view(&self) -> Seq<Seq<char>> {
        views(self.0@)
    }
}

impl InterfaceVec {
    /// The interfaces in the order given.
    pub fn from_iter(iter: Vec<Interface>) -> (res: InterfaceVec)
        ensures
            res@ == views(iter@),
    {
        InterfaceVec(iter)
    }
}

impl Wire for InterfaceVec {
    open spec fn valid(m: Seq<Seq<char>>) -> bool {
        true
    }

    open spec fn to_tree(m: Seq<Seq<char>>) -> JsonView {
        JsonView::List(list_to_trees::<Interface>(m))
    }

    open spec fn from_tree(j: JsonView) -> Result<Seq<Seq<char>>, SchemaError> {
        list_from_tree::<Interface>(j)
    }

    fn encode(&self) -> (res: Json) {
        encode_list::<Interface>(&self.0)
    }

    fn decode(j: &Json) -> (res: Result<InterfaceVec, SchemaError>) {
        let items = decode_list::<Interface>(j)?;
        Ok(InterfaceVec(items))
    }

    proof fn lemma_round_trip(m: Seq<Seq<char>>) {
        lemma_list_round_trip::<Interface>(m);
    }

    proof fn lemma_read_valid(j: JsonView) {
    }
}

/// A traffic policy between zones.
#[derive(Debug, PartialEq, Eq)]
pub struct Policy {
    pub in_f: Option<String>,
    pub out: Option<String>,
    pub action: String,
}

pub struct PolicyView {
    pub in_f: Option<Seq<char>>,
    pub out: Option<Seq<char>>,
    pub action: Seq<char>,
}

impl View for Policy {
    type V = PolicyView;

    open spec fn view(&self) -> PolicyView {
        PolicyView {
            in_f: option_view(self.in_f),
            out: option_view(self.out),
            action: self.action@,
        }
    }
}

impl Wire for Policy {
    open spec fn valid(m: PolicyView) -> bool {
        true
    }

    open spec fn to_tree(m: PolicyView) -> JsonView {
        JsonView::Object(
            Seq::empty() + optional_field::<String>(Key::In, m.in_f) + optional_field::<String>(
                Key::Out,
                m.out,
            ) + required_field::<String>(Key::Action, m.action),
        )
    }

    open spec fn from_tree(j: JsonView) -> Result<PolicyView, SchemaError> {
        match j {
            JsonView::Object(members) => {
                let in_f = optional::<String>(members, Key::In);
                let out = optional::<String>(members, Key::Out);
                let action = required::<String>(members, Key::Action);
                if in_f is Err {
                    Err(in_f->Err_0)
                } else if out is Err {
                    Err(out->Err_0)
                } else if action is Err {
                    Err(action->Err_0)
                } else {
                    Ok(PolicyView { in_f: in_f->Ok_0, out: out->Ok_0, action: action->Ok_0 })
                }
            },
            _ => Err(SchemaError::Type(Shape::Object)),
        }
    }

    fn encode(&self) -> (res: Json) {
        let mut members: Vec<(String, Json)> = Vec::new();
        write_optional::<String>(&mut members, Key::In, &self.in_f);
        write_optional::<String>(&mut members, Key::Out, &self.out);
        write_required::<String>(&mut members, Key::Action, &self.action);
        object(members)
    }

    fn decode(j: &Json) -> (res: Result<Policy, SchemaError>) {
        match j {
            Json::Object(members) => {
                proof {
                    j.lemma_view_object();
                }
                let in_f = read_optional::<String>(members, Key::In)?;
                let out = read_optional::<String>(members, Key::Out)?;
                let action = read_required::<String>(members, Key::Action)?;
                Ok(Policy { in_f, out, action })
            },
            _ => Err(SchemaError::Type(Shape::Object)),
        }
    }

    proof fn lemma_round_trip(m: PolicyView) {
        broadcast use {lemma_find_field, lemma_find_none};

        Key::lemma_names_differ();
    }

    proof fn lemma_read_valid(j: JsonView) {
    }
}

/// Source NAT on what leaves through a zone.
#[derive(Debug, PartialEq, Eq)]
pub struct Snat {
    pub out: String,
}

impl View for Snat {
    type V = Seq<char>;

    /// The zone.
    open spec fn view(&self) -> Seq<char> {
        self.out@
    }
}

impl Wire for Snat {
    open spec fn valid(m: Seq<char>) -> bool {
        true
    }

    open spec fn to_tree(m: Seq<char>) -> JsonView {
        JsonView::Object(Seq::empty() + required_field::<String>(Key::Out, m))
    }

    open spec fn from_tree(j: JsonView) -> Result<Seq<char>, SchemaError> {
        match j {
            JsonView::Object(members) => required::<String>(members, Key::Out),
            _ => Err(SchemaError::Type(Shape::Object)),
        }
    }

    fn encode(&self) -> (res: Json) {
        let mut members: Vec<(String, Json)> = Vec::new();
        write_required::<String>(&mut members, Key::Out, &self.out);
        object(members)
    }

    fn decode(j: &Json) -> (res: Result<Snat, SchemaError>) {
        match j {
            Json::Object(members) => {
                proof {
                    j.lemma_view_object();
                }
                let out = read_required::<String>(members, Key::Out)?;
                Ok(Snat { out })
            },
            _ => Err(SchemaError::Type(Shape::Object)),
        }
    }

    proof fn lemma_round_trip(m: Seq<char>) {
        broadcast use {lemma_find_field, lemma_find_none};

    }

    proof fn lemma_read_valid(j: JsonView) {
    }
}

/// Clamping of the segment size on what leaves through a zone.
#[derive(Debug, PartialEq, Eq)]
pub struct ClampMss {
    pub out: String,
}

impl View for ClampMss {
    type V = Seq<char>;

    /// The zone.
    open spec fn view(&self) -> Seq<char> {
        self.out@
    }
}

impl Wire for ClampMss {
    open spec fn valid(m: Seq<char>) -> bool {
        true
    }

    open spec fn to_tree(m: Seq<char>) -> JsonView {
        JsonView::Object(Seq::empty() + required_field::<String>(Key::Out, m))
    }

    open spec fn from_tree(j: JsonView) -> Result<Seq<char>, SchemaError> {
        match j {
            JsonView::Object(members) => required::<String>(members, Key::Out),
            _ => Err(SchemaError::Type(Shape::Object)),
        }
    }

    fn encode(&self) -> (res: Json) {
        let mut members: Vec<(String, Json)> = Vec::new();
        write_required::<String>(&mut members, Key::Out, &self.out);
        object(members)
    }

    fn decode(j: &Json) -> (res: Result<ClampMss, SchemaError>) {
        match j {
            Json::Object(members) => {
                proof {
                    j.lemma_view_object();
                }
                let out = read_required::<String>(members, Key::Out)?;
                Ok(ClampMss { out })
            },
            _ => Err(SchemaError::Type(Shape::Object)),
        }
    }

    proof fn lemma_round_trip(m: Seq<char>) {
        broadcast use {lemma_find_field, lemma_find_none};

    }

    proof fn lemma_read_valid(j: JsonView) {
    }
}

/// A limit on connections: so many in so many seconds.
#[derive(Clone, Copy, Debug, PartialEq, Eq, Structural)]
pub struct ConnLimit {
    pub count: i32,
    pub interval: i32,
}

impl View for ConnLimit {
    type V = ConnLimit;

    open spec fn view(&self) -> ConnLimit {
        *self
    }
}

impl Wire for ConnLimit {
    open spec fn valid(m: ConnLimit) -> bool {
        true
    }

    open spec fn to_tree(m: ConnLimit) -> JsonView {
        JsonView::Object(
            Seq::empty() + required_field::<i32>(Key::Count, m.count) + required_field::<i32>(
                Key::Interval,
                m.interval,
            ),
        )
    }

    open spec fn from_tree(j: JsonView) -> Result<ConnLimit, SchemaError> {
        match j {
            JsonView::Object(members) => {
                let count = required::<i32>(members, Key::Count);
                let interval = required::<i32>(members, Key::Interval);
                if count is Err {
                    Err(count->Err_0)
                } else if interval is Err {
                    Err(interval->Err_0)
                } else {
                    Ok(ConnLimit { count: count->Ok_0, interval: interval->Ok_0 })
                }
            },
            _ => Err(SchemaError::Type(Shape::Object)),
        }
    }

    fn encode(&self) -> (res: Json) {
        let mut members: Vec<(String, Json)> = Vec::new();
        write_required::<i32>(&mut members, Key::Count, &self.count);
        write_required::<i32>(&mut members, Key::Interval, &self.interval);
        object(members)
    }

    fn decode(j: &Json) -> (res: Result<ConnLimit, SchemaError>) {
        match j {
            Json::Object(members) => {
                proof {
                    j.lemma_view_object();
                }
                let count = read_required::<i32>(members, Key::Count)?;
                let interval = read_required::<i32>(members, Key::Interval)?;
                Ok(ConnLimit { count, interval })
            },
            _ => Err(SchemaError::Type(Shape::Object)),
        }
    }

    proof fn lemma_round_trip(m: ConnLimit) {
        broadcast use {lemma_find_field, lemma_find_none};

        Key::lemma_names_differ();
    }

    proof fn lemma_read_valid(j: JsonView) {
    }
}

/// A limit on flows: so many in so many seconds.
#[derive(Clone, Copy, Debug, PartialEq, Eq, Structural)]
pub struct FlowLimit {
    pub count: i32,
    pub interval: i32,
}

impl View for FlowLimit {
    type V = FlowLimit;

    open spec fn view(&self) -> FlowLimit {
        *self
    }
}

impl Wire for FlowLimit {
    open spec fn valid(m: FlowLimit) -> bool {
        true
    }

    open spec fn to_tree(m: FlowLimit) -> JsonView {
        JsonView::Object(
            Seq::empty() + required_field::<i32>(Key::Count, m.count) + required_field::<i32>(
                Key::Interval,
                m.interval,
            ),
        )
    }

    open spec fn from_tree(j: JsonView) -> Result<FlowLimit, SchemaError> {
        match j {
            JsonView::Object(members) => {
                let count = required::<i32>(members, Key::Count);
                let interval = required::<i32>(members, Key::Interval);
                if count is Err {
                    Err(count->Err_0)
                } else if interval is Err {
                    Err(interval->Err_0)
                } else {
                    Ok(FlowLimit { count: count->Ok_0, interval: interval->Ok_0 })
                }
            },
            _ => Err(SchemaError::Type(Shape::Object)),
        }
    }

    fn encode(&self) -> (res: Json) {
        let mut members: Vec<(String, Json)> = Vec::new();
        write_required::<i32>(&mut members, Key::Count, &self.count);
        write_required::<i32>(&mut members, Key::Interval, &self.interval);
        object(members)
    }

    fn decode(j: &Json) -> (res: Result<FlowLimit, SchemaError>) {
        match j {
            Json::Object(members) => {
                proof {
                    j.lemma_view_object();
                }
                let count = read_required::<i32>(members, Key::Count)?;
                let interval = read_required::<i32>(members, Key::Interval)?;
                Ok(FlowLimit { count, interval })
            },
            _ => Err(SchemaError::Type(Shape::Object)),
        }
    }

    proof fn lemma_round_trip(m: FlowLimit) {
        broadcast use {lemma_find_field, lemma_find_none};

        Key::lemma_names_differ();
    }

    proof fn lemma_read_valid(j: JsonView) {
    }
}

/// A service: a protocol and a port.
#[derive(Debug, PartialEq, Eq)]
pub struct Service {
    pub proto: String,
    pub port: i16,
}

pub struct ServiceView {
    pub proto: Seq<char>,
    pub port: i16,
}

impl View for Service {
    type V = ServiceView;

    open spec fn view(&self) -> ServiceView {
        ServiceView { proto: self.proto@, port: self.port }
    }
}

impl Wire for Service {
    open spec fn valid(m: ServiceView) -> bool {
        true
    }

    open spec fn to_tree(m: ServiceView) -> JsonView {
        JsonView::Object(
            Seq::empty() + required_field::<String>(Key::Proto, m.proto) + required_field::<i16>(
                Key::Port,
                m.port,
            ),
        )
    }

    open spec fn from_tree(j: JsonView) -> Result<ServiceView, SchemaError> {
        match j {
            JsonView::Object(members) => {
                let proto = required::<String>(members, Key::Proto);
                let port = required::<i16>(members, Key::Port);
                if proto is Err {
                    Err(proto->Err_0)
                } else if port is Err {
                    Err(port->Err_0)
                } else {
                    Ok(ServiceView { proto: proto->Ok_0, port: port->Ok_0 })
                }
            },
            _ => Err(SchemaError::Type(Shape::Object)),
        }
    }

    fn encode(&self) -> (res: Json) {
        let mut members: Vec<(String, Json)> = Vec::new();
        write_required::<String>(&mut members, Key::Proto, &self.proto);
        write_required::<i16>(&mut members, Key::Port, &self.port);
        object(members)
    }

    fn decode(j: &Json) -> (res: Result<Service, SchemaError>) {
        match j {
            Json::Object(members) => {
                proof {
                    j.lemma_view_object();
                }
                let proto = read_required::<String>(members, Key::Proto)?;
                let port = read_required::<i16>(members, Key::Port)?;
                Ok(Service { proto, port })
            },
            _ => Err(SchemaError::Type(Shape::Object)),
        }
    }

    proof fn lemma_round_trip(m: ServiceView) {
        broadcast use {lemma_find_field, lemma_find_none};

        Key::lemma_names_differ();
    }

    proof fn lemma_read_valid(j: JsonView) {
    }
}

/// The services that the document defines, each under its name. No name
/// occurs twice.
#[derive(Debug, PartialEq, Eq)]
pub struct ServiceMap {
    pub service: Vec<(String, Service)>,
}

impl View for ServiceMap {
    type V = Seq<(Seq<char>, ServiceView)>;

    /// The services with their names, in their order.
    open spec fn view(&self) -> Seq<(Seq<char>, ServiceView)> {
        entry_views(self.service@)
    }
}

impl Wire for ServiceMap {
    open spec fn valid(m: Seq<(Seq<char>, ServiceView)>) -> bool {
        map_valid::<Service>(m)
    }

    open spec fn to_tree(m: Seq<(Seq<char>, ServiceView)>) -> JsonView {
        JsonView::Object(Seq::empty() + map_field::<Service>(Key::Service, m))
    }

    open spec fn from_tree(j: JsonView) -> Result<Seq<(Seq<char>, ServiceView)>, SchemaError> {
        match j {
            JsonView::Object(members) => required_map::<Service>(members, Key::Service),
            _ => Err(SchemaError::Type(Shape::Object)),
        }
    }

    fn encode(&self) -> (res: Json) {
        let mut members: Vec<(String, Json)> = Vec::new();
        write_map::<Service>(&mut members, Key::Service, &self.service);
        object(members)
    }

    fn decode(j: &Json) -> (res: Result<ServiceMap, SchemaError>) {
        match j {
            Json::Object(members) => {
                proof {
                    j.lemma_view_object();
                }
                let service = read_required_map::<Service>(members, Key::Service)?;
                Ok(ServiceMap { service })
            },
            _ => Err(SchemaError::Type(Shape::Object)),
        }
    }

    proof fn lemma_round_trip(m: Seq<(Seq<char>, ServiceView)>) {
        broadcast use {lemma_find_field, lemma_find_none};

        lemma_map_round_trip::<Service>(m);
    }

    proof fn lemma_read_valid(j: JsonView) {
        match j {
            JsonView::Object(members) => {
                match find(members, Key::Service.name()) {
                    Some(JsonView::Object(entries)) => {
                        lemma_map_read_valid::<Service>(entries);
                    },
                    _ => {},
                }
            },
            _ => {},
        }
    }
}

/// Destination NAT: what comes in through a zone for a service goes to
/// another host and port.
#[derive(Debug, PartialEq, Eq)]
pub struct Dnat {
    pub in_f: String,
    pub dest: String,
    pub service: String,
    pub to_port: String,
}

pub struct DnatView {
    pub in_f: Seq<char>,
    pub dest: Seq<char>,
    pub service: Seq<char>,
    pub to_port: Seq<char>,
}

impl View for Dnat {
    type V = DnatView;

    open spec fn view(&self) -> DnatView {
        DnatView {
            in_f: self.in_f@,
            dest: self.dest@,
            service: self.service@,
            to_port: self.to_port@,
        }
    }
}

impl Wire for Dnat {
    open spec fn valid(m: DnatView) -> bool {
        true
    }

    open spec fn to_tree(m: DnatView) -> JsonView {
        JsonView::Object(
            Seq::empty() + required_field::<String>(Key::In, m.in_f) + required_field::<String>(
                Key::Dest,
                m.dest,
            ) + required_field::<String>(Key::Service, m.service) + required_field::<String>(
                Key::ToPort,
                m.to_port,
            ),
        )
    }

    open spec fn from_tree(j: JsonView) -> Result<DnatView, SchemaError> {
        match j {
            JsonView::Object(members) => {
                let in_f = required::<String>(members, Key::In);
                let dest = required::<String>(members, Key::Dest);
                let service = required::<String>(members, Key::Service);
                let to_port = required::<String>(members, Key::ToPort);
                if in_f is Err {
                    Err(in_f->Err_0)
                } else if dest is Err {
                    Err(dest->Err_0)
                } else if service is Err {
                    Err(service->Err_0)
                } else if to_port is Err {
                    Err(to_port->Err_0)
                } else {
                    Ok(
                        DnatView {
                            in_f: in_f->Ok_0,
                            dest: dest->Ok_0,
                            service: service->Ok_0,
                            to_port: to_port->Ok_0,
                        },
                    )
                }
            },
            _ => Err(SchemaError::Type(Shape::Object)),
        }
    }

    fn encode(&self) -> (res: Json) {
        let mut members: Vec<(String, Json)> = Vec::new();
        write_required::<String>(&mut members, Key::In, &self.in_f);
        write_required::<String>(&mut members, Key::Dest, &self.dest);
        write_required::<String>(&mut members, Key::Service, &self.service);
        write_required::<String>(&mut members, Key::ToPort, &self.to_port);
        object(members)
    }

    fn decode(j: &Json) -> (res: Result<Dnat, SchemaError>) {
        match j {
            Json::Object(members) => {
                proof {
                    j.lemma_view_object();
                }
                let in_f = read_required::<String>(members, Key::In)?;
                let dest = read_required::<String>(members, Key::Dest)?;
                let service = read_required::<String>(members, Key::Service)?;
                let to_port = read_required::<String>(members, Key::ToPort)?;
                Ok(Dnat { in_f, dest, service, to_port })
            },
            _ => Err(SchemaError::Type(Shape::Object)),
        }
    }

    proof fn lemma_round_trip(m: DnatView) {
        broadcast use {lemma_find_field, lemma_find_none};

        Key::lemma_names_differ();
    }

    proof fn lemma_read_valid(j: JsonView) {
    }
}

/// A filter rule: what passes from one zone to another for a service, and
/// within which limit.
#[derive(Debug, PartialEq, Eq)]
pub struct Filter {
    pub in_f: String,
    pub out: String,
    pub service: String,
    pub action: String,
    pub conn_limit: ConnLimit,
}

pub struct FilterView {
    pub in_f: Seq<char>,
    pub out: Seq<char>,
    pub service: Seq<char>,
    pub action: Seq<char>,
    pub conn_limit: ConnLimit,
}

impl View for Filter {
    type V = FilterView;

    open spec fn view(&self) -> FilterView {
        FilterView {
            in_f: self.in_f@,
            out: self.out@,
            service: self.service@,
            action: self.action@,
            conn_limit: self.conn_limit,
        }
    }
}

impl Wire for Filter {
    open spec fn valid(m: FilterView) -> bool {
        true
    }

    open spec fn to_tree(m: FilterView) -> JsonView {
        JsonView::Object(
            Seq::empty() + required_field::<String>(Key::In, m.in_f) + required_field::<String>(
                Key::Out,
                m.out,
            ) + required_field::<String>(Key::Service, m.service) + required_field::<String>(
                Key::Action,
                m.action,
            ) + required_field::<ConnLimit>(Key::ConnLimit, m.conn_limit),
        )
    }

    open spec fn from_tree(j: JsonView) -> Result<FilterView, SchemaError> {
        match j {
            JsonView::Object(members) => {
                let in_f = required::<String>(members, Key::In);
                let out = required::<String>(members, Key::Out);
                let service = required::<String>(members, Key::Service);
                let action = required::<String>(members, Key::Action);
                let conn_limit = required::<ConnLimit>(members, Key::ConnLimit);
                if in_f is Err {
                    Err(in_f->Err_0)
                } else if out is Err {
                    Err(out->Err_0)
                } else if service is Err {
                    Err(service->Err_0)
                } else if action is Err {
                    Err(action->Err_0)
                } else if conn_limit is Err {
                    Err(conn_limit->Err_0)
                } else {
                    Ok(
                        FilterView {
                            in_f: in_f->Ok_0,
                            out: out->Ok_0,
                            service: service->Ok_0,
                            action: action->Ok_0,
                            conn_limit: conn_limit->Ok_0,
                        },
                    )
                }
            },
            _ => Err(SchemaError::Type(Shape::Object)),
        }
    }

    fn encode(&self) -> (res: Json) {
        let mut members: Vec<(String, Json)> = Vec::new();
        write_required::<String>(&mut members, Key::In, &self.in_f);
        write_required::<String>(&mut members, Key::Out, &self.out);
        write_required::<String>(&mut members, Key::Service, &self.service);
        write_required::<String>(&mut members, Key::Action, &self.action);
        write_required::<ConnLimit>(&mut members, Key::ConnLimit, &self.conn_limit);
        object(members)
    }

    fn decode(j: &Json) -> (res: Result<Filter, SchemaError>) {
        match j {
            Json::Object(members) => {
                proof {
                    j.lemma_view_object();
                }
                let in_f = read_required::<String>(members, Key::In)?;
                let out = read_required::<String>(members, Key::Out)?;
                let service = read_required::<String>(members, Key::Service)?;
                let action = read_required::<String>(members, Key::Action)?;
                let conn_limit = read_required::<ConnLimit>(members, Key::ConnLimit)?;
                Ok(Filter { in_f, out, service, action, conn_limit })
            },
            _ => Err(SchemaError::Type(Shape::Object)),
        }
    }

    proof fn lemma_round_trip(m: FilterView) {
        broadcast use {lemma_find_field, lemma_find_none};

        Key::lemma_names_differ();
        ConnLimit::lemma_round_trip(m.conn_limit);
    }

    proof fn lemma_read_valid(j: JsonView) {
    }
}

/// The firewall's configuration document.
///
/// The mappings name no key twice. Of the lists and mappings that may be
/// absent, none is there and empty: reading takes an empty one for absent, and
/// writing leaves it out.
#[derive(Debug, PartialEq, Eq)]
pub struct Config {
    pub description: String,
    pub variable: Option<Vec<(String, String)>>,
    pub zone: Vec<(String, Interface)>,
    pub policy: Vec<Policy>,
    pub clamp_mss: Option<Vec<ClampMss>>,
    pub filter: Option<Vec<Filter>>,
    pub dnat: Option<Vec<Dnat>>,
    pub snat: Option<Vec<Snat>>,
    pub service: Option<ServiceMap>,
}

pub struct ConfigView {
    pub description: Seq<char>,
    pub variable: Option<Seq<(Seq<char>, Seq<char>)>>,
    pub zone: Seq<(Seq<char>, Seq<char>)>,
    pub policy: Seq<PolicyView>,
    pub clamp_mss: Option<Seq<Seq<char>>>,
    pub filter: Option<Seq<FilterView>>,
    pub dnat: Option<Seq<DnatView>>,
    pub snat: Option<Seq<Seq<char>>>,
    pub service: Option<Seq<(Seq<char>, ServiceView)>>,
}

impl View for Config {
    type V = ConfigView;

    open spec fn view(&self) -> ConfigView {
        ConfigView {
            description: self.description@,
            variable: option_entry_views(self.variable),
            zone: entry_views(self.zone@),
            policy: views(self.policy@),
            clamp_mss: option_views(self.clamp_mss),
            filter: option_views(self.filter),
            dnat: option_views(self.dnat),
            snat: option_views(self.snat),
            service: option_view(self.service),
        }
    }
}

/// A list that may be absent is absent or not empty.
pub open spec fn present_list<A>(v: Option<Seq<A>>) -> bool {
    v matches Some(xs) ==> xs.len() > 0
}

impl Wire for Config {
    open spec fn valid(m: ConfigView) -> bool {
        &&& present_list(m.variable)
        &&& m.variable matches Some(es) ==> map_valid::<String>(es)
        &&& map_valid::<Interface>(m.zone)
        &&& present_list(m.clamp_mss)
        &&& present_list(m.filter)
        &&& present_list(m.dnat)
        &&& present_list(m.snat)
        &&& m.service matches Some(es) ==> ServiceMap::valid(es)
    }

    open spec fn to_tree(m: ConfigView) -> JsonView {
        JsonView::Object(
            Seq::empty() + required_field::<String>(Key::Description, m.description)
                + optional_map_field::<String>(Key::Variable, m.variable) + map_field::<Interface>(
                Key::Zone,
                m.zone,
            ) + list_field::<Policy>(Key::Policy, m.policy) + optional_list_field::<ClampMss>(
                Key::ClampMss,
                m.clamp_mss,
            ) + optional_list_field::<Filter>(Key::Filter, m.filter) + optional_list_field::<Dnat>(
                Key::Dnat,
                m.dnat,
            ) + optional_list_field::<Snat>(Key::Snat, m.snat) + optional_field::<ServiceMap>(
                Key::Service,
                m.service,
            ),
        )
    }

    open spec fn from_tree(j: JsonView) -> Result<ConfigView, SchemaError> {
        match j {
            JsonView::Object(members) => {
                let description = required::<String>(members, Key::Description);
                let variable = optional_map::<String>(members, Key::Variable);
                let zone = required_map::<Interface>(members, Key::Zone);
                let policy = required_list::<Policy>(members, Key::Policy);
                let clamp_mss = optional_list::<ClampMss>(members, Key::ClampMss);
                let filter = optional_list::<Filter>(members, Key::Filter);
                let dnat = optional_list::<Dnat>(members, Key::Dnat);
                let snat = optional_list::<Snat>(members, Key::Snat);
                let service = optional::<ServiceMap>(members, Key::Service);
                if description is Err {
                    Err(description->Err_0)
                } else if variable is Err {
                    Err(variable->Err_0)
                } else if zone is Err {
                    Err(zone->Err_0)
                } else if policy is Err {
                    Err(policy->Err_0)
                } else if clamp_mss is Err {
                    Err(clamp_mss->Err_0)
                } else if filter is Err {
                    Err(filter->Err_0)
                } else if dnat is Err {
                    Err(dnat->Err_0)
                } else if snat is Err {
                    Err(snat->Err_0)
                } else if service is Err {
                    Err(service->Err_0)
                } else {
                    Ok(
                        ConfigView {
                            description: description->Ok_0,
                            variable: variable->Ok_0,
                            zone: zone->Ok_0,
                            policy: policy->Ok_0,
                            clamp_mss: clamp_mss->Ok_0,
                            filter: filter->Ok_0,
                            dnat: dnat->Ok_0,
                            snat: snat->Ok_0,
                            service: service->Ok_0,
                        },
                    )
                }
            },
            _ => Err(SchemaError::Type(Shape::Object)),
        }
    }

    fn encode(&self) -> (res: Json) {
        let mut members: Vec<(String, Json)> = Vec::new();
        write_required::<String>(&mut members, Key::Description, &self.description);
        write_optional_map::<String>(&mut members, Key::Variable, &self.variable);
        write_map::<Interface>(&mut members, Key::Zone, &self.zone);
        write_list::<Policy>(&mut members, Key::Policy, &self.policy);
        write_optional_list::<ClampMss>(&mut members, Key::ClampMss, &self.clamp_mss);
        write_optional_list::<Filter>(&mut members, Key::Filter, &self.filter);
        write_optional_list::<Dnat>(&mut members, Key::Dnat, &self.dnat);
        write_optional_list::<Snat>(&mut members, Key::Snat, &self.snat);
        write_optional::<ServiceMap>(&mut members, Key::Service, &self.service);
        object(members)
    }

    fn decode(j: &Json) -> (res: Result<Config, SchemaError>) {
        match j {
            Json::Object(members) => {
                proof {
                    j.lemma_view_object();
                }
                let description = read_required::<String>(members, Key::Description)?;
                let variable = read_optional_map::<String>(members, Key::Variable)?;
                let zone = read_required_map::<Interface>(members, Key::Zone)?;
                let policy = read_required_list::<Policy>(members, Key::Policy)?;
                let clamp_mss = read_optional_list::<ClampMss>(members, Key::ClampMss)?;
                let filter = read_optional_list::<Filter>(members, Key::Filter)?;
                let dnat = read_optional_list::<Dnat>(members, Key::Dnat)?;
                let snat = read_optional_list::<Snat>(members, Key::Snat)?;
                let service = read_optional::<ServiceMap>(members, Key::Service)?;
                Ok(
                    Config {
                        description,
                        variable,
                        zone,
                        policy,
                        clamp_mss,
                        filter,
                        dnat,
                        snat,
                        service,
                    },
                )
            },
            _ => Err(SchemaError::Type(Shape::Object)),
        }
    }

    proof fn lemma_round_trip(m: ConfigView) {
        broadcast use {lemma_find_field, lemma_find_none};

        Key::lemma_names_differ();
        if m.variable is Some {
            lemma_map_round_trip::<String>(m.variable->Some_0);
        }
        lemma_map_round_trip::<Interface>(m.zone);
        lemma_list_round_trip::<Policy>(m.policy);
        if m.clamp_mss is Some {
            lemma_list_round_trip::<ClampMss>(m.clamp_mss->Some_0);
        }
        if m.filter is Some {
            lemma_list_round_trip::<Filter>(m.filter->Some_0);
        }
        if m.dnat is Some {
            lemma_list_round_trip::<Dnat>(m.dnat->Some_0);
        }
        if m.snat is Some {
            lemma_list_round_trip::<Snat>(m.snat->Some_0);
        }
        if m.service is Some {
            ServiceMap::lemma_round_trip(m.service->Some_0);
        }
    }

    proof fn lemma_read_valid(j: JsonView) {
        match j {
            JsonView::Object(members) => {
                match find(members, Key::Variable.name()) {
                    Some(JsonView::Object(entries)) => {
                        lemma_map_read_valid::<String>(entries);
                    },
                    _ => {},
                }
                match find(members, Key::Zone.name()) {
                    Some(JsonView::Object(entries)) => {
                        lemma_map_read_valid::<Interface>(entries);
                    },
                    _ => {},
                }
                match find(members, Key::Service.name()) {
                    Some(s) => {
                        ServiceMap::lemma_read_valid(s);
                    },
                    _ => {},
                }
            },
            _ => {},
        }
    }
}

/// A valid document that is written and read again is the document that it
/// was; so is every text that the JSON reader takes for the tree that was
/// written.
pub proof fn lemma_document_round_trip(document: ConfigView, read: Result<JsonView, Seq<char>>)
    requires
        Config::valid(document),
    ensures
        Config::from_tree(Config::to_tree(document)) == Ok::<ConfigView, SchemaError>(document),
        read == Ok::<JsonView, Seq<char>>(Config::to_tree(document)) ==> from_read::<Config>(read)
            == Ok::<ConfigView, ParseErrorView>(document),
{
    Config::lemma_round_trip(document);
}

/// What is written of a document, valid or not, holds a list or mapping that
/// may be absent only where the document holds one that is not empty.
pub proof fn lemma_empty_left_out(document: ConfigView)
    ensures
        ({
            let members = Config::to_tree(document)->Object_0;
            &&& find(members, Key::Variable.name()) is Some <==> (document.variable matches Some(
                es,
            ) && es.len() > 0)
            &&& find(members, Key::ClampMss.name()) is Some <==> (document.clamp_mss matches Some(
                xs,
            ) && xs.len() > 0)
            &&& find(members, Key::Filter.name()) is Some <==> (document.filter matches Some(xs)
                && xs.len() > 0)
            &&& find(members, Key::Dnat.name()) is Some <==> (document.dnat matches Some(xs)
                && xs.len() > 0)
            &&& find(members, Key::Snat.name()) is Some <==> (document.snat matches Some(xs)
                && xs.len() > 0)
        }),
{
    broadcast use {lemma_find_field, lemma_find_none};

    Key::lemma_names_differ();
}

/// A document that is read holds no list or mapping that is there and empty,
/// and its mappings name no key twice; so it is written as it was read.
pub proof fn lemma_read_is_normal(j: JsonView)
    ensures
        Config::from_tree(j) matches Ok(document) ==> Config::valid(document) && Config::from_tree(
            Config::to_tree(document),
        ) == Ok::<ConfigView, SchemaError>(document),
{
    Config::lemma_read_valid(j);
    if Config::from_tree(j) is Ok {
        Config::lemma_round_trip(Config::from_tree(j)->Ok_0);
    }
}

} // verus!
