//! The client binding model: what a generated client does for one
//! endpoint, as data.
//!
//! From an endpoint definition this module derives the request shape —
//! body selection, path and query parameters, the ordered header list —
//! and the response interpretation, a closed classification over the
//! return category and the status code.

use vstd::prelude::*;

verus! {

use crate::endpoint::{
    ArgumentDefinition, AuthType, EndpointDefinition, HttpMethod, ParameterType, PrimitiveKind,
    ServiceDefinition, Type, clone_type,
};
use crate::text::{ascii_lowercase, spec_ascii_lower};

/// The category an endpoint's return type falls in, each with its own
/// decode policy.
#[derive(Debug)]
pub enum ReturnType {
    /// No return value; the response body is discarded.
    Void,
    /// A JSON-decoded value of the carried type.
    Json(Type),
    /// The raw response body stream.
    Binary,
    /// The raw response body stream, or nothing on a no-content
    /// response.
    OptionalBinary,
}

/// Whether a type is the optional wrapper around the binary primitive.
pub open spec fn spec_is_optional_binary(t: Type) -> bool {
    match t {
        Type::Optional(inner) => *inner == Type::Primitive(PrimitiveKind::Binary),
        _ => false,
    }
}

/// The category of an endpoint's declared return type.
pub open spec fn spec_return_category(o: Option<Type>) -> ReturnType {
    match o {
        None => ReturnType::Void,
        Some(t) => if spec_is_optional_binary(t) {
            ReturnType::OptionalBinary
        } else if t == Type::Primitive(PrimitiveKind::Binary) {
            ReturnType::Binary
        } else {
            ReturnType::Json(t)
        },
    }
}

/// The position of the first body-kind argument, or `-1`.
pub open spec fn spec_body_arg_index(args: Seq<ArgumentDefinition>) -> int
    decreases args.len(),
{
    if args.len() == 0 {
        -1
    } else if args[0].param_type is Body {
        0
    } else {
        let r = spec_body_arg_index(args.drop_first());
        if r == -1 {
            -1
        } else {
            r + 1
        }
    }
}

/// The single body-kind argument of an endpoint, if it declares one.
#[verifier::loop_isolation(false)]
pub fn body_arg(endpoint: &EndpointDefinition) -> (r: Option<&ArgumentDefinition>)
    ensures
        match r {
            Some(a) => {
                let i = spec_body_arg_index(endpoint.spec_args());
                &&& i != -1
                &&& *a == endpoint.spec_args()[i]
                &&& a.param_type is Body
            },
            None => spec_body_arg_index(endpoint.spec_args()) == -1,
        },
{
    let args = endpoint.args();
    let ghost gargs = endpoint.spec_args();
    let mut i: usize = 0;
    while i < args.len()
        invariant
            gargs == args@,
            0 <= i <= gargs.len(),
            forall|j: int| 0 <= j < i ==> !((#[trigger] gargs[j]).param_type is Body),
        decreases gargs.len() - i,
    {
        match args[i].param_type() {
            ParameterType::Body => {
                proof {
                    lemma_body_arg_index_found(gargs, i as int);
                }
                return Some(&args[i]);
            },
            _ => {},
        }
        i = i + 1;
    }
    proof {
        lemma_body_arg_index_none(gargs);
    }
    None
}

proof fn lemma_body_arg_index_found(args: Seq<ArgumentDefinition>, i: int)
    requires
        0 <= i < args.len(),
        args[i].param_type is Body,
        forall|j: int| 0 <= j < i ==> !((#[trigger] args[j]).param_type is Body),
    ensures
        spec_body_arg_index(args) == i,
    decreases args.len(),
{
    if i > 0 {
        lemma_body_arg_index_found(args.drop_first(), i - 1);
    }
}

proof fn lemma_body_arg_index_none(args: Seq<ArgumentDefinition>)
    requires
        forall|j: int| 0 <= j < args.len() ==> !((#[trigger] args[j]).param_type is Body),
    ensures
        spec_body_arg_index(args) == -1,
    decreases args.len(),
{
    if args.len() > 0 {
        lemma_body_arg_index_none(args.drop_first());
    }
}

/// The category the endpoint's response is interpreted under.
pub fn return_type(endpoint: &EndpointDefinition) -> (r: ReturnType)
    ensures
        r == spec_return_category(endpoint.spec_return_type()),
{
    match endpoint.return_type() {
        None => ReturnType::Void,
        Some(t) => {
            match t.is_optional() {
                Some(inner) => {
                    if inner.is_binary() {
                        return ReturnType::OptionalBinary;
                    }
                },
                None => {},
            }
            if t.is_binary() {
                ReturnType::Binary
            } else {
                ReturnType::Json(clone_type(t))
            }
        },
    }
}

/// How the request body is produced: nothing, a streamed binary
/// argument, or a JSON-encoded argument; carries the argument's name.
#[derive(Debug)]
pub enum BodyPlan {
    Empty,
    Streaming(String),
    Fixed(String),
}

/// The mathematical shape of a body plan.
pub enum BodyPlanModel {
    Empty,
    Streaming(Seq<char>),
    Fixed(Seq<char>),
}

impl BodyPlan {
    /// The mathematical shape of this plan.
    pub open spec fn dv(self) -> BodyPlanModel {
        match self {
            BodyPlan::Empty => BodyPlanModel::Empty,
            BodyPlan::Streaming(n) => BodyPlanModel::Streaming(n@),
            BodyPlan::Fixed(n) => BodyPlanModel::Fixed(n@),
        }
    }
}

/// What the body plan of an endpoint is: the body argument streamed
/// when binary, JSON-encoded otherwise, and empty without one.
pub open spec fn spec_body_plan(args: Seq<ArgumentDefinition>) -> BodyPlanModel {
    let i = spec_body_arg_index(args);
    if i == -1 {
        BodyPlanModel::Empty
    } else if args[i].type_ == Type::Primitive(PrimitiveKind::Binary) {
        BodyPlanModel::Streaming(args[i].arg_name@)
    } else {
        BodyPlanModel::Fixed(args[i].arg_name@)
    }
}

/// Selects the request body: the single body argument, streamed when
/// its type is binary, JSON-encoded otherwise.
pub fn generate_body(endpoint: &EndpointDefinition) -> (r: BodyPlan)
    ensures
        r.dv() == spec_body_plan(endpoint.spec_args()),
{
    match body_arg(endpoint) {
        None => BodyPlan::Empty,
        Some(a) => {
            if a.type_().is_binary() {
                BodyPlan::Streaming(a.arg_name().clone())
            } else {
                BodyPlan::Fixed(a.arg_name().clone())
            }
        },
    }
}

/// The names of the path-kind arguments, in declaration order.
pub open spec fn spec_path_params(args: Seq<ArgumentDefinition>) -> Seq<Seq<char>>
    decreases args.len(),
{
    if args.len() == 0 {
        Seq::empty()
    } else {
        spec_path_params(args.drop_last()) + (if args.last().param_type is Path {
            seq![args.last().arg_name@]
        } else {
            Seq::empty()
        })
    }
}

/// Collects the path parameters: one entry per path-kind argument,
/// under the argument's name.
#[verifier::loop_isolation(false)]
pub fn setup_path_params(endpoint: &EndpointDefinition) -> (r: Vec<String>)
    ensures
        crate::codec::fields_dv(r@) == spec_path_params(endpoint.spec_args()),
{
    let args = endpoint.args();
    let ghost gargs = endpoint.spec_args();
    let mut out: Vec<String> = Vec::new();
    let mut i: usize = 0;
    while i < args.len()
        invariant
            0 <= i <= gargs.len(),
            crate::codec::fields_dv(out@) =~= spec_path_params(gargs.take(i as int)),
        decreases gargs.len() - i,
    {
        proof {
            assert(gargs.take(i + 1).drop_last() =~= gargs.take(i as int));
            assert(gargs.take(i + 1).last() == gargs[i as int]);
        }
        match args[i].param_type() {
            ParameterType::Path => {
                out.push(args[i].arg_name().clone());
            },
            _ => {},
        }
        i = i + 1;
        proof {
            assert(crate::codec::fields_dv(out@) =~= spec_path_params(gargs.take(i as int)));
        }
    }
    proof {
        assert(gargs.take(gargs.len() as int) =~= gargs);
    }
    out
}

/// One query parameter of the request: its wire key, the argument that
/// feeds it, and whether that argument contributes one entry per
/// element.
#[derive(Debug)]
pub struct QueryPlan {
    /// The wire-level query key.
    pub key: String,
    /// The name of the argument whose value feeds the key.
    pub arg_name: String,
    /// Whether the argument's elements are inserted one by one.
    pub iterable: bool,
}

/// The mathematical shape of a query plan list.
pub open spec fn query_plans_dv(s: Seq<QueryPlan>) -> Seq<(Seq<char>, Seq<char>, bool)> {
    Seq::new(s.len(), |i: int| (s[i].key@, s[i].arg_name@, s[i].iterable))
}

/// The query plans of an argument list, in declaration order.
pub open spec fn spec_query_plans(args: Seq<ArgumentDefinition>) -> Seq<
    (Seq<char>, Seq<char>, bool),
>
    decreases args.len(),
{
    if args.len() == 0 {
        Seq::empty()
    } else {
        spec_query_plans(args.drop_last()) + (match args.last().param_type {
            ParameterType::Query(id) => seq![
                (
                    id@,
                    args.last().arg_name@,
                    args.last().type_ matches Type::Optional(_) || args.last().type_ matches
                        Type::List(_) || args.last().type_ matches Type::SetOf(_)
                        || args.last().type_ matches Type::MapOf(_, _),
                ),
            ],
            _ => Seq::empty(),
        })
    }
}

/// Collects the query parameters: one plan per query-kind argument,
/// iterable arguments marked for repeated insertion.
#[verifier::loop_isolation(false)]
pub fn setup_query_params(endpoint: &EndpointDefinition) -> (r: Vec<QueryPlan>)
    ensures
        query_plans_dv(r@) == spec_query_plans(endpoint.spec_args()),
{
    let args = endpoint.args();
    let ghost gargs = endpoint.spec_args();
    let mut out: Vec<QueryPlan> = Vec::new();
    let mut i: usize = 0;
    while i < args.len()
        invariant
            0 <= i <= gargs.len(),
            query_plans_dv(out@) =~= spec_query_plans(gargs.take(i as int)),
        decreases gargs.len() - i,
    {
        proof {
            assert(gargs.take(i + 1).drop_last() =~= gargs.take(i as int));
            assert(gargs.take(i + 1).last() == gargs[i as int]);
        }
        match args[i].param_type() {
            ParameterType::Query(id) => {
                let iterable = args[i].type_().is_iterable();
                out.push(
                    QueryPlan {
                        key: id.clone(),
                        arg_name: args[i].arg_name().clone(),
                        iterable,
                    },
                );
            },
            _ => {},
        }
        i = i + 1;
        proof {
            assert(query_plans_dv(out@) =~= spec_query_plans(gargs.take(i as int)));
        }
    }
    proof {
        assert(gargs.take(gargs.len() as int) =~= gargs);
    }
    out
}

/// One header fed by an argument: the wire name, lower-cased, the
/// argument, and whether each element contributes one occurrence.
#[derive(Debug)]
pub struct HeaderPlan {
    /// The header's wire name, lower-cased.
    pub name: String,
    /// The name of the argument whose value feeds the header.
    pub arg_name: String,
    /// Whether the argument's elements each contribute one occurrence.
    pub iterable: bool,
}

/// The mathematical shape of a header plan list.
pub open spec fn header_plans_dv(s: Seq<HeaderPlan>) -> Seq<(Seq<char>, Seq<char>, bool)> {
    Seq::new(s.len(), |i: int| (s[i].name@, s[i].arg_name@, s[i].iterable))
}

/// The header plans of an argument list, names lower-cased, in
/// declaration order.
pub open spec fn spec_header_plans(args: Seq<ArgumentDefinition>) -> Seq<
    (Seq<char>, Seq<char>, bool),
>
    decreases args.len(),
{
    if args.len() == 0 {
        Seq::empty()
    } else {
        spec_header_plans(args.drop_last()) + (match args.last().param_type {
            ParameterType::Header(id) => seq![
                (
                    spec_ascii_lower(id@),
                    args.last().arg_name@,
                    args.last().type_ matches Type::Optional(_) || args.last().type_ matches
                        Type::List(_) || args.last().type_ matches Type::SetOf(_)
                        || args.last().type_ matches Type::MapOf(_, _),
                ),
            ],
            _ => Seq::empty(),
        })
    }
}

/// The fixed headers of an endpoint, then one plan per header-kind
/// argument.
#[derive(Debug)]
pub struct HeadersPlan {
    /// The endpoint's authentication, rendered first when present.
    pub auth: Option<AuthType>,
    /// The request content type, present exactly when a body is.
    pub content_type: Option<String>,
    /// The accepted response content type, absent for void endpoints.
    pub accept: Option<String>,
    /// The argument-fed headers, in declaration order.
    pub arg_headers: Vec<HeaderPlan>,
}

/// The content type a body plan implies: octet-stream for a streamed
/// binary body, JSON for an encoded one, nothing without a body.
pub open spec fn spec_content_type(b: BodyPlanModel) -> Option<Seq<char>> {
    match b {
        BodyPlanModel::Empty => None,
        BodyPlanModel::Streaming(_) => Some("application/octet-stream"@),
        BodyPlanModel::Fixed(_) => Some("application/json"@),
    }
}

/// The `Content-Type` header value for a body plan.
pub fn content_type_header(body: &BodyPlan) -> (r: Option<String>)
    ensures
        match r {
            Some(s) => spec_content_type(body.dv()) == Some(s@),
            None => spec_content_type(body.dv()) is None,
        },
{
    match body {
        BodyPlan::Empty => None,
        BodyPlan::Streaming(_) => Some(String::from_str("application/octet-stream")),
        BodyPlan::Fixed(_) => Some(String::from_str("application/json")),
    }
}

/// The accepted content type a return category implies: JSON for
/// structured returns, octet-stream for binary ones, nothing for void.
pub open spec fn spec_accept(r: ReturnType) -> Option<Seq<char>> {
    match r {
        ReturnType::Void => None,
        ReturnType::Json(_) => Some("application/json"@),
        ReturnType::Binary => Some("application/octet-stream"@),
        ReturnType::OptionalBinary => Some("application/octet-stream"@),
    }
}

/// The `Accept` header value for a return category.
pub fn accept_header(ret: &ReturnType) -> (r: Option<String>)
    ensures
        match r {
            Some(s) => spec_accept(*ret) == Some(s@),
            None => spec_accept(*ret) is None,
        },
{
    match ret {
        ReturnType::Void => None,
        ReturnType::Json(_) => Some(String::from_str("application/json")),
        ReturnType::Binary => Some(String::from_str("application/octet-stream")),
        ReturnType::OptionalBinary => Some(String::from_str("application/octet-stream")),
    }
}

/// Renders the authentication header: a bearer token under
/// `authorization`, or a named cookie under `cookie`.
pub fn auth_header(auth: &AuthType, token: &str) -> (r: (String, String))
    ensures
        match *auth {
            AuthType::Header => r.0@ == "authorization"@ && r.1@ == "Bearer "@ + token@,
            AuthType::Cookie(name) => r.0@ == "cookie"@ && r.1@ == name@ + "="@ + token@,
        },
{
    match auth {
        AuthType::Header => {
            let mut v = String::from_str("Bearer ");
            v.append(token);
            (String::from_str("authorization"), v)
        },
        AuthType::Cookie(name) => {
            let mut v = name.clone();
            v.append("=");
            v.append(token);
            (String::from_str("cookie"), v)
        },
    }
}

/// Composes the endpoint's headers: the auth header first when
/// declared, then content type, then accept, then one plan per
/// header-kind argument.
#[verifier::loop_isolation(false)]
pub fn setup_headers(endpoint: &EndpointDefinition, body: &BodyPlan, ret: &ReturnType) -> (r:
    HeadersPlan)
    ensures
        r.auth == endpoint.spec_auth(),
        match r.content_type {
            Some(s) => spec_content_type(body.dv()) == Some(s@),
            None => spec_content_type(body.dv()) is None,
        },
        match r.accept {
            Some(s) => spec_accept(*ret) == Some(s@),
            None => spec_accept(*ret) is None,
        },
        header_plans_dv(r.arg_headers@) == spec_header_plans(endpoint.spec_args()),
{
    let auth = match endpoint.auth() {
        Some(AuthType::Header) => Some(AuthType::Header),
        Some(AuthType::Cookie(name)) => Some(AuthType::Cookie(name.clone())),
        None => None,
    };
    let content_type = content_type_header(body);
    let accept = accept_header(ret);
    let args = endpoint.args();
    let ghost gargs = endpoint.spec_args();
    let mut arg_headers: Vec<HeaderPlan> = Vec::new();
    let mut i: usize = 0;
    while i < args.len()
        invariant
            0 <= i <= gargs.len(),
            header_plans_dv(arg_headers@) =~= spec_header_plans(gargs.take(i as int)),
        decreases gargs.len() - i,
    {
        proof {
            assert(gargs.take(i + 1).drop_last() =~= gargs.take(i as int));
            assert(gargs.take(i + 1).last() == gargs[i as int]);
        }
        match args[i].param_type() {
            ParameterType::Header(id) => {
                let iterable = args[i].type_().is_iterable();
                arg_headers.push(
                    HeaderPlan {
                        name: ascii_lowercase(id.as_str()),
                        arg_name: args[i].arg_name().clone(),
                        iterable,
                    },
                );
            },
            _ => {},
        }
        i = i + 1;
        proof {
            assert(header_plans_dv(arg_headers@) =~= spec_header_plans(gargs.take(i as int)));
        }
    }
    proof {
        assert(gargs.take(gargs.len() as int) =~= gargs);
    }
    HeadersPlan { auth, content_type, accept, arg_headers }
}

/// Everything a generated client does to issue one endpoint's request.
#[derive(Debug)]
pub struct EndpointPlan {
    /// The HTTP method.
    pub method: HttpMethod,
    /// The path template, with its placeholders.
    pub path: String,
    /// How the body is produced.
    pub body: BodyPlan,
    /// The path parameters, by argument name.
    pub path_params: Vec<String>,
    /// The query parameters.
    pub query_params: Vec<QueryPlan>,
    /// The headers.
    pub headers: HeadersPlan,
    /// How the response is interpreted.
    pub ret: ReturnType,
}

/// Derives the full request and response plan of one endpoint.
pub fn generate_endpoint(endpoint: &EndpointDefinition) -> (r: EndpointPlan)
    ensures
        r.method == endpoint.spec_http_method(),
        r.path@ == endpoint.spec_http_path()@,
        r.body.dv() == spec_body_plan(endpoint.spec_args()),
        crate::codec::fields_dv(r.path_params@) == spec_path_params(endpoint.spec_args()),
        query_plans_dv(r.query_params@) == spec_query_plans(endpoint.spec_args()),
        r.headers.auth == endpoint.spec_auth(),
        match r.headers.content_type {
            Some(s) => spec_content_type(spec_body_plan(endpoint.spec_args())) == Some(s@),
            None => spec_content_type(spec_body_plan(endpoint.spec_args())) is None,
        },
        match r.headers.accept {
            Some(s) => spec_accept(spec_return_category(endpoint.spec_return_type())) == Some(
                s@,
            ),
            None => spec_accept(spec_return_category(endpoint.spec_return_type())) is None,
        },
        header_plans_dv(r.headers.arg_headers@) == spec_header_plans(endpoint.spec_args()),
        r.ret == spec_return_category(endpoint.spec_return_type()),
{
    let body = generate_body(endpoint);
    let ret = return_type(endpoint);
    let path_params = setup_path_params(endpoint);
    let query_params = setup_query_params(endpoint);
    let headers = setup_headers(endpoint, &body, &ret);
    EndpointPlan {
        method: *endpoint.http_method(),
        path: endpoint.http_path().clone(),
        body,
        path_params,
        query_params,
        headers,
        ret,
    }
}

/// Derives the plans of every endpoint of a service, in order.
pub fn generate(def: &ServiceDefinition) -> (r: Vec<EndpointPlan>)
    ensures
        r@.len() == def.endpoints@.len(),
        forall|i: int|
            0 <= i < r@.len() ==> (#[trigger] r@[i]).method == def.endpoints@[i].spec_http_method()
                && r@[i].ret == spec_return_category(def.endpoints@[i].spec_return_type())
                && r@[i].path@ == def.endpoints@[i].spec_http_path()@ && r@[i].body.dv()
                == spec_body_plan(def.endpoints@[i].spec_args()) && query_plans_dv(
                r@[i].query_params@,
            ) == spec_query_plans(def.endpoints@[i].spec_args()) && crate::codec::fields_dv(
                r@[i].path_params@,
            ) == spec_path_params(def.endpoints@[i].spec_args()) && r@[i].headers.auth
                == def.endpoints@[i].spec_auth() && header_plans_dv(r@[i].headers.arg_headers@)
                == spec_header_plans(def.endpoints@[i].spec_args()),
{
    let mut out: Vec<EndpointPlan> = Vec::new();
    let mut i: usize = 0;
    while i < def.endpoints.len()
        invariant
            0 <= i <= def.endpoints@.len(),
            out@.len() == i,
            forall|j: int|
                0 <= j < i ==> (#[trigger] out@[j]).method
                    == def.endpoints@[j].spec_http_method() && out@[j].ret
                    == spec_return_category(def.endpoints@[j].spec_return_type()) && out@[j].path@
                    == def.endpoints@[j].spec_http_path()@ && out@[j].body.dv() == spec_body_plan(
                    def.endpoints@[j].spec_args(),
                ) && query_plans_dv(out@[j].query_params@) == spec_query_plans(
                    def.endpoints@[j].spec_args(),
                ) && crate::codec::fields_dv(out@[j].path_params@) == spec_path_params(
                    def.endpoints@[j].spec_args(),
                ) && out@[j].headers.auth == def.endpoints@[j].spec_auth() && header_plans_dv(
                    out@[j].headers.arg_headers@,
                ) == spec_header_plans(def.endpoints@[j].spec_args()),
        decreases def.endpoints@.len() - i,
    {
        out.push(generate_endpoint(&def.endpoints[i]));
        i = i + 1;
    }
    out
}

/// One query-string occurrence per element of an iterable argument,
/// all under the plan's key, in element order.
pub fn insert_all_query(plan: &QueryPlan, values: &Vec<String>) -> (r: Vec<(String, String)>)
    ensures
        r@.len() == values@.len(),
        forall|i: int|
            0 <= i < r@.len() ==> (#[trigger] r@[i]).0@ == plan.key@ && r@[i].1@ == values@[i]@,
{
    let mut out: Vec<(String, String)> = Vec::new();
    let mut i: usize = 0;
    while i < values.len()
        invariant
            0 <= i <= values@.len(),
            out@.len() == i,
            forall|j: int|
                0 <= j < i ==> (#[trigger] out@[j]).0@ == plan.key@ && out@[j].1@ == values@[j]@,
        decreases values@.len() - i,
    {
        out.push((plan.key.clone(), values[i].clone()));
        i = i + 1;
    }
    out
}

/// The single query-string occurrence of a non-iterable argument.
pub fn insert_query(plan: &QueryPlan, value: &String) -> (r: (String, String))
    ensures
        r.0@ == plan.key@,
        r.1@ == value@,
{
    (plan.key.clone(), value.clone())
}

/// One header occurrence per present element of an iterable argument,
/// all under the plan's name, in element order; absent elements
/// contribute none.
pub fn insert_all_headers(plan: &HeaderPlan, values: &Vec<String>) -> (r: Vec<(String, String)>)
    ensures
        r@.len() == values@.len(),
        forall|i: int|
            0 <= i < r@.len() ==> (#[trigger] r@[i]).0@ == plan.name@ && r@[i].1@ == values@[i]@,
{
    let mut out: Vec<(String, String)> = Vec::new();
    let mut i: usize = 0;
    while i < values.len()
        invariant
            0 <= i <= values@.len(),
            out@.len() == i,
            forall|j: int|
                0 <= j < i ==> (#[trigger] out@[j]).0@ == plan.name@ && out@[j].1@ == values@[j]@,
        decreases values@.len() - i,
    {
        out.push((plan.name.clone(), values[i].clone()));
        i = i + 1;
    }
    out
}

/// What the client does with a response, before touching the body.
#[derive(Debug, PartialEq, Eq, Structural)]
pub enum ResponseAction {
    /// Discard the body and return success.
    ReturnUnit,
    /// Return the declared collection type's empty value without
    /// decoding anything.
    ReturnEmptyCollection,
    /// Decode the body as JSON under the declared type.
    DecodeJsonBody,
    /// Hand the raw body stream back.
    ReturnBinaryBody,
    /// Return an absent optional-binary value.
    ReturnAbsent,
    /// Return the raw body stream as a present optional-binary value.
    ReturnPresentBody,
    /// Surface a service error carrying the status.
    FailService,
}

/// The status code meaning an intentionally empty body.
pub open spec fn spec_no_content(status: u16) -> bool {
    status == 204
}

/// The response interpretation of a return category and a status code:
/// non-success statuses are service errors; a no-content response
/// yields an empty collection for iterable JSON returns and an absent
/// value for optional-binary returns; otherwise each category follows
/// its own decode policy.
pub open spec fn spec_response_action(ret: ReturnType, status: u16) -> ResponseAction {
    if !(200 <= status < 300) {
        ResponseAction::FailService
    } else {
        match ret {
            ReturnType::Void => ResponseAction::ReturnUnit,
            ReturnType::Json(t) => if (t matches Type::Optional(_) || t matches Type::List(_)
                || t matches Type::SetOf(_) || t matches Type::MapOf(_, _)) && spec_no_content(
                status,
            ) {
                ResponseAction::ReturnEmptyCollection
            } else {
                ResponseAction::DecodeJsonBody
            },
            ReturnType::Binary => ResponseAction::ReturnBinaryBody,
            ReturnType::OptionalBinary => if spec_no_content(status) {
                ResponseAction::ReturnAbsent
            } else {
                ResponseAction::ReturnPresentBody
            },
        }
    }
}

/// Classifies a response: decides, from the return category and the
/// status alone, what to do with the body.
pub fn handle_response(ret: &ReturnType, status: u16) -> (r: ResponseAction)
    ensures
        r == spec_response_action(*ret, status),
{
    if !(200 <= status && status < 300) {
        return ResponseAction::FailService;
    }
    match ret {
        ReturnType::Void => ResponseAction::ReturnUnit,
        ReturnType::Json(t) => {
            if t.is_iterable() && status == 204 {
                ResponseAction::ReturnEmptyCollection
            } else {
                ResponseAction::DecodeJsonBody
            }
        },
        ReturnType::Binary => ResponseAction::ReturnBinaryBody,
        ReturnType::OptionalBinary => {
            if status == 204 {
                ResponseAction::ReturnAbsent
            } else {
                ResponseAction::ReturnPresentBody
            }
        },
    }
}

} // verus!
