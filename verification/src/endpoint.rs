//! The definition model: an immutable description of one HTTP endpoint,
//! with the builder that assembles it.

use vstd::prelude::*;

verus! {

/// An HTTP method the model knows.
#[derive(Debug, Clone, Copy, PartialEq, Eq, Structural)]
pub enum HttpMethod {
    Get,
    Post,
    Put,
    Delete,
}

/// How a caller authenticates: a bearer token in the `Authorization`
/// header, or a named cookie.
#[derive(Debug, Clone, PartialEq, Eq)]
pub enum AuthType {
    Header,
    /// Carries the cookie's name.
    Cookie(String),
}

/// A primitive wire type.
#[derive(Debug, Clone, Copy, PartialEq, Eq, Structural)]
pub enum PrimitiveKind {
    Text,
    Integer,
    Double,
    Boolean,
    Safelong,
    Binary,
    Any,
    Uuid,
    Rid,
    Bearertoken,
    Datetime,
}

/// A wire type: primitives, the three containers, optionals, and named
/// references.
#[derive(Debug)]
pub enum Type {
    Primitive(PrimitiveKind),
    Optional(Box<Type>),
    List(Box<Type>),
    SetOf(Box<Type>),
    MapOf(Box<Type>, Box<Type>),
    Reference(String),
}

impl Type {
    /// Whether values of this type are raw byte streams.
    pub fn is_binary(&self) -> (r: bool)
        ensures
            r == (*self == Type::Primitive(PrimitiveKind::Binary)),
    {
        match self {
            Type::Primitive(PrimitiveKind::Binary) => true,
            _ => false,
        }
    }

    /// The element type when this type is optional.
    pub fn is_optional(&self) -> (r: Option<&Type>)
        ensures
            match r {
                Some(inner) => *self matches Type::Optional(b) && *inner == *b,
                None => !(*self matches Type::Optional(_)),
            },
    {
        match self {
            Type::Optional(inner) => Some(inner),
            _ => None,
        }
    }

    /// Whether values of this type hold zero or more elements: an
    /// optional, list, set or map.
    pub fn is_iterable(&self) -> (r: bool)
        ensures
            r == (*self matches Type::Optional(_) || *self matches Type::List(_)
                || *self matches Type::SetOf(_) || *self matches Type::MapOf(_, _)),
    {
        match self {
            Type::Optional(_) | Type::List(_) | Type::SetOf(_) | Type::MapOf(_, _) => true,
            _ => false,
        }
    }
}

/// Where an argument travels in the request.
#[derive(Debug, Clone, PartialEq, Eq)]
pub enum ParameterType {
    Body,
    Path,
    /// Carries the wire-level query key.
    Query(String),
    /// Carries the wire-level header name.
    Header(String),
}

/// One argument of an endpoint.
#[derive(Debug)]
pub struct ArgumentDefinition {
    /// The in-language name of the argument.
    pub arg_name: String,
    /// The argument's wire type.
    pub type_: Type,
    /// Where the argument travels.
    pub param_type: ParameterType,
}

impl ArgumentDefinition {
    pub fn arg_name(&self) -> (r: &String)
        ensures
            r == self.arg_name,
    {
        &self.arg_name
    }

    pub fn type_(&self) -> (r: &Type)
        ensures
            r == self.type_,
    {
        &self.type_
    }

    pub fn param_type(&self) -> (r: &ParameterType)
        ensures
            r == self.param_type,
    {
        &self.param_type
    }
}

/// A named service: its endpoints, in declaration order.
#[derive(Debug)]
pub struct ServiceDefinition {
    /// The service's name.
    pub name: String,
    /// The service's endpoints.
    pub endpoints: Vec<EndpointDefinition>,
    /// The service's documentation.
    pub docs: Option<String>,
}

/// One HTTP endpoint of a service.
#[derive(Debug)]
pub struct EndpointDefinition {
    endpoint_name: String,
    http_method: HttpMethod,
    http_path: String,
    auth: Option<AuthType>,
    args: Vec<ArgumentDefinition>,
    return_type: Option<Type>,
    docs: Option<String>,
    deprecated: Option<String>,
    markers: Vec<Type>,
}

impl EndpointDefinition {
    /// The endpoint's name.
    pub closed spec fn spec_endpoint_name(self) -> String {
        self.endpoint_name
    }

    /// The endpoint's HTTP method.
    pub closed spec fn spec_http_method(self) -> HttpMethod {
        self.http_method
    }

    /// The endpoint's path template.
    pub closed spec fn spec_http_path(self) -> String {
        self.http_path
    }

    /// The endpoint's authentication, if any.
    pub closed spec fn spec_auth(self) -> Option<AuthType> {
        self.auth
    }

    /// The endpoint's arguments, in order.
    pub closed spec fn spec_args(self) -> Seq<ArgumentDefinition> {
        self.args@
    }

    /// The endpoint's return type, if any.
    pub closed spec fn spec_return_type(self) -> Option<Type> {
        self.return_type
    }

    /// The endpoint's documentation, if any.
    pub closed spec fn spec_docs(self) -> Option<String> {
        self.docs
    }

    /// The endpoint's deprecation notice, if any.
    pub closed spec fn spec_deprecated(self) -> Option<String> {
        self.deprecated
    }

    /// The endpoint's marker types, in order.
    pub closed spec fn spec_markers(self) -> Seq<Type> {
        self.markers@
    }

    /// The argument vector itself, as a builder taking this definition
    /// over will hold it.
    pub closed spec fn spec_args_vec(self) -> Vec<ArgumentDefinition> {
        self.args
    }

    /// The marker vector itself, as a builder taking this definition
    /// over will hold it.
    pub closed spec fn spec_markers_vec(self) -> Vec<Type> {
        self.markers
    }

    /// Returns a new builder.
    pub fn builder() -> (r: Builder)
        ensures
            r.endpoint_name is None,
            r.http_method is None,
            r.http_path is None,
            r.auth is None,
            r.args@ == Seq::<ArgumentDefinition>::empty(),
            r.return_type is None,
            r.docs is None,
            r.deprecated is None,
            r.markers@ == Seq::<Type>::empty(),
    {
        Builder {
            endpoint_name: None,
            http_method: None,
            http_path: None,
            auth: None,
            args: Vec::new(),
            return_type: None,
            docs: None,
            deprecated: None,
            markers: Vec::new(),
        }
    }

    pub fn endpoint_name(&self) -> (r: &String)
        ensures
            r == self.spec_endpoint_name(),
    {
        &self.endpoint_name
    }

    pub fn http_method(&self) -> (r: &HttpMethod)
        ensures
            r == self.spec_http_method(),
    {
        &self.http_method
    }

    pub fn http_path(&self) -> (r: &String)
        ensures
            r == self.spec_http_path(),
    {
        &self.http_path
    }

    pub fn auth(&self) -> (r: Option<&AuthType>)
        ensures
            match r {
                Some(a) => self.spec_auth() == Some(*a),
                None => self.spec_auth() is None,
            },
    {
        self.auth.as_ref()
    }

    pub fn args(&self) -> (r: &Vec<ArgumentDefinition>)
        ensures
            r@ == self.spec_args(),
    {
        &self.args
    }

    pub fn return_type(&self) -> (r: Option<&Type>)
        ensures
            match r {
                Some(t) => self.spec_return_type() == Some(*t),
                None => self.spec_return_type() is None,
            },
    {
        self.return_type.as_ref()
    }

    pub fn docs(&self) -> (r: Option<&String>)
        ensures
            match r {
                Some(d) => self.spec_docs() == Some(*d),
                None => self.spec_docs() is None,
            },
    {
        self.docs.as_ref()
    }

    pub fn deprecated(&self) -> (r: Option<&String>)
        ensures
            match r {
                Some(d) => self.spec_deprecated() == Some(*d),
                None => self.spec_deprecated() is None,
            },
    {
        self.deprecated.as_ref()
    }

    pub fn markers(&self) -> (r: &Vec<Type>)
        ensures
            r@ == self.spec_markers(),
    {
        &self.markers
    }
}

/// Assembles an endpoint definition field by field. The name, method
/// and path are required; everything else has an empty default.
#[derive(Debug)]
pub struct Builder {
    /// The endpoint's name, once set.
    pub endpoint_name: Option<String>,
    /// The endpoint's HTTP method, once set.
    pub http_method: Option<HttpMethod>,
    /// The endpoint's path template, once set.
    pub http_path: Option<String>,
    /// The endpoint's authentication.
    pub auth: Option<AuthType>,
    /// The endpoint's arguments.
    pub args: Vec<ArgumentDefinition>,
    /// The endpoint's return type.
    pub return_type: Option<Type>,
    /// The endpoint's documentation.
    pub docs: Option<String>,
    /// The endpoint's deprecation notice.
    pub deprecated: Option<String>,
    /// The endpoint's marker types.
    pub markers: Vec<Type>,
}

/// The names of the required fields a builder has not set, in the order
/// the wire format lists them.
pub open spec fn spec_missing_names(b: Builder) -> Seq<Seq<char>> {
    (if b.endpoint_name is None {
        seq!["endpointName"@]
    } else {
        Seq::empty()
    }) + (if b.http_method is None {
        seq!["httpMethod"@]
    } else {
        Seq::empty()
    }) + (if b.http_path is None {
        seq!["httpPath"@]
    } else {
        Seq::empty()
    })
}

impl Builder {
    /// Whether the three required fields are set.
    pub open spec fn spec_complete(self) -> bool {
        &&& self.endpoint_name is Some
        &&& self.http_method is Some
        &&& self.http_path is Some
    }

    pub fn endpoint_name(&mut self, endpoint_name: String)
        ensures
            *final(self) == (Builder { endpoint_name: Some(endpoint_name),..*old(self) }),
    {
        self.endpoint_name = Some(endpoint_name);
    }

    pub fn http_method(&mut self, http_method: HttpMethod)
        ensures
            *final(self) == (Builder { http_method: Some(http_method),..*old(self) }),
    {
        self.http_method = Some(http_method);
    }

    pub fn http_path(&mut self, http_path: String)
        ensures
            *final(self) == (Builder { http_path: Some(http_path),..*old(self) }),
    {
        self.http_path = Some(http_path);
    }

    pub fn auth(&mut self, auth: Option<AuthType>)
        ensures
            *final(self) == (Builder { auth,..*old(self) }),
    {
        self.auth = auth;
    }

    pub fn args(&mut self, args: Vec<ArgumentDefinition>)
        ensures
            *final(self) == (Builder { args,..*old(self) }),
    {
        self.args = args;
    }

    #[verifier::loop_isolation(false)]
    pub fn extend_args(&mut self, args: Vec<ArgumentDefinition>)
        ensures
            final(self).args@ == old(self).args@ + args@,
            final(self).endpoint_name == old(self).endpoint_name,
            final(self).http_method == old(self).http_method,
            final(self).http_path == old(self).http_path,
            final(self).auth == old(self).auth,
            final(self).return_type == old(self).return_type,
            final(self).docs == old(self).docs,
            final(self).deprecated == old(self).deprecated,
            final(self).markers == old(self).markers,
    {
        let mut args = args;
        let ghost extra = args@;
        let mut rev: Vec<ArgumentDefinition> = Vec::new();
        while args.len() > 0
            invariant
                args@ + rev@.reverse() == extra,
            decreases args.len(),
        {
            let ghost oa = args@;
            let ghost orv = rev@;
            let a = args.pop().unwrap();
            rev.push(a);
            proof {
                assert(args@ + rev@.reverse() =~= oa + orv.reverse());
            }
        }
        proof {
            assert(rev@.reverse() =~= extra);
        }
        let ghost base = self.args@;
        let ghost n_extra = extra.len();
        while rev.len() > 0
            invariant
                rev@.len() <= n_extra,
                self.args@ == base + extra.take(n_extra - rev@.len()),
                forall|j: int| 0 <= j < rev@.len() ==> rev@[j] == extra[n_extra - 1 - j],
                self.endpoint_name == old(self).endpoint_name,
                self.http_method == old(self).http_method,
                self.http_path == old(self).http_path,
                self.auth == old(self).auth,
                self.return_type == old(self).return_type,
                self.docs == old(self).docs,
                self.deprecated == old(self).deprecated,
                self.markers == old(self).markers,
            decreases rev.len(),
        {
            let ghost k = n_extra - rev@.len();
            let a = rev.pop().unwrap();
            self.args.push(a);
            proof {
                assert(extra.take(k + 1) =~= extra.take(k).push(extra[k]));
                assert(self.args@ =~= base + extra.take(k + 1));
            }
        }
        proof {
            assert(extra.take(n_extra as int) =~= extra);
        }
    }

    pub fn return_type(&mut self, return_type: Option<Type>)
        ensures
            *final(self) == (Builder { return_type,..*old(self) }),
    {
        self.return_type = return_type;
    }

    pub fn docs(&mut self, docs: Option<String>)
        ensures
            *final(self) == (Builder { docs,..*old(self) }),
    {
        self.docs = docs;
    }

    pub fn deprecated(&mut self, deprecated: Option<String>)
        ensures
            *final(self) == (Builder { deprecated,..*old(self) }),
    {
        self.deprecated = deprecated;
    }

    pub fn markers(&mut self, markers: Vec<Type>)
        ensures
            *final(self) == (Builder { markers,..*old(self) }),
    {
        self.markers = markers;
    }

    #[verifier::loop_isolation(false)]
    pub fn extend_markers(&mut self, markers: Vec<Type>)
        ensures
            final(self).markers@ == old(self).markers@ + markers@,
            final(self).endpoint_name == old(self).endpoint_name,
            final(self).http_method == old(self).http_method,
            final(self).http_path == old(self).http_path,
            final(self).auth == old(self).auth,
            final(self).args == old(self).args,
            final(self).return_type == old(self).return_type,
            final(self).docs == old(self).docs,
            final(self).deprecated == old(self).deprecated,
    {
        let mut markers = markers;
        let ghost extra = markers@;
        let mut rev: Vec<Type> = Vec::new();
        while markers.len() > 0
            invariant
                markers@ + rev@.reverse() == extra,
            decreases markers.len(),
        {
            let ghost om = markers@;
            let ghost orv = rev@;
            let m = markers.pop().unwrap();
            rev.push(m);
            proof {
                assert(markers@ + rev@.reverse() =~= om + orv.reverse());
            }
        }
        proof {
            assert(rev@.reverse() =~= extra);
        }
        let ghost base = self.markers@;
        let ghost n_extra = extra.len();
        while rev.len() > 0
            invariant
                rev@.len() <= n_extra,
                self.markers@ == base + extra.take(n_extra - rev@.len()),
                forall|j: int| 0 <= j < rev@.len() ==> rev@[j] == extra[n_extra - 1 - j],
                self.endpoint_name == old(self).endpoint_name,
                self.http_method == old(self).http_method,
                self.http_path == old(self).http_path,
                self.auth == old(self).auth,
                self.args == old(self).args,
                self.return_type == old(self).return_type,
                self.docs == old(self).docs,
                self.deprecated == old(self).deprecated,
            decreases rev.len(),
        {
            let ghost k = n_extra - rev@.len();
            let m = rev.pop().unwrap();
            self.markers.push(m);
            proof {
                assert(extra.take(k + 1) =~= extra.take(k).push(extra[k]));
                assert(self.markers@ =~= base + extra.take(k + 1));
            }
        }
        proof {
            assert(extra.take(n_extra as int) =~= extra);
        }
    }

    /// Constructs a new instance of the type. The three required fields
    /// must have been set.
    pub fn build(&self) -> (r: EndpointDefinition)
        requires
            self.spec_complete(),
        ensures
            r.spec_endpoint_name() == self.endpoint_name->0,
            r.spec_http_method() == self.http_method->0,
            r.spec_http_path() == self.http_path->0,
            r.spec_auth() == self.auth,
            r.spec_args() == self.args@,
            r.spec_return_type() == self.return_type,
            r.spec_docs() == self.docs,
            r.spec_deprecated() == self.deprecated,
            r.spec_markers() == self.markers@,
    {
        match self.checked_build() {
            Ok(d) => d,
            Err(_) => {
                proof {
                    assert(false);
                }
                vstd::pervasive::unreached()
            },
        }
    }

    /// Constructs a new instance of the type, or reports every required
    /// field still missing, by name.
    pub fn checked_build(&self) -> (r: Result<EndpointDefinition, Vec<String>>)
        ensures
            match r {
                Ok(d) => {
                    &&& self.spec_complete()
                    &&& d.spec_endpoint_name() == self.endpoint_name->0
                    &&& d.spec_http_method() == self.http_method->0
                    &&& d.spec_http_path() == self.http_path->0
                    &&& d.spec_auth() == self.auth
                    &&& d.spec_args() == self.args@
                    &&& d.spec_return_type() == self.return_type
                    &&& d.spec_docs() == self.docs
                    &&& d.spec_deprecated() == self.deprecated
                    &&& d.spec_markers() == self.markers@
                },
                Err(missing) => {
                    &&& !self.spec_complete()
                    &&& crate::codec::fields_dv(missing@) == spec_missing_names(*self)
                },
            },
    {
        let mut missing: Vec<String> = Vec::new();
        if self.endpoint_name.is_none() {
            missing.push(String::from_str("endpointName"));
        }
        if self.http_method.is_none() {
            missing.push(String::from_str("httpMethod"));
        }
        if self.http_path.is_none() {
            missing.push(String::from_str("httpPath"));
        }
        if missing.len() > 0 {
            proof {
                assert(crate::codec::fields_dv(missing@) =~= spec_missing_names(*self));
            }
            return Err(missing);
        }
        let endpoint_name = clone_string_opt(&self.endpoint_name);
        let http_path = clone_string_opt(&self.http_path);
        let http_method = match &self.http_method {
            Some(m) => *m,
            None => {
                proof {
                    assert(false);
                }
                vstd::pervasive::unreached()
            },
        };
        Ok(
            EndpointDefinition {
                endpoint_name,
                http_method,
                http_path,
                auth: clone_auth_opt(&self.auth),
                args: clone_args(&self.args),
                return_type: clone_type_opt(&self.return_type),
                docs: clone_opt_string(&self.docs),
                deprecated: clone_opt_string(&self.deprecated),
                markers: clone_types(&self.markers),
            },
        )
    }
}

impl From<EndpointDefinition> for Builder {
    /// A builder holding every field of an existing definition.
    fn from(v: EndpointDefinition) -> (r: Builder) {
        Builder {
            endpoint_name: Some(v.endpoint_name),
            http_method: Some(v.http_method),
            http_path: Some(v.http_path),
            auth: v.auth,
            args: v.args,
            return_type: v.return_type,
            docs: v.docs,
            deprecated: v.deprecated,
            markers: v.markers,
        }
    }
}

impl vstd::std_specs::convert::FromSpecImpl<EndpointDefinition> for Builder {
    open spec fn obeys_from_spec() -> bool {
        true
    }

    open spec fn from_spec(v: EndpointDefinition) -> Builder {
        Builder {
            endpoint_name: Some(v.spec_endpoint_name()),
            http_method: Some(v.spec_http_method()),
            http_path: Some(v.spec_http_path()),
            auth: v.spec_auth(),
            args: v.spec_args_vec(),
            return_type: v.spec_return_type(),
            docs: v.spec_docs(),
            deprecated: v.spec_deprecated(),
            markers: v.spec_markers_vec(),
        }
    }
}

/// What a builder taken over from a definition holds: every field of
/// the definition, the required ones wrapped as set.
pub proof fn lemma_builder_from(v: EndpointDefinition, b: Builder)
    requires
        b == <Builder as vstd::std_specs::convert::FromSpec<EndpointDefinition>>::from_spec(v),
    ensures
        b.endpoint_name == Some(v.spec_endpoint_name()),
        b.http_method == Some(v.spec_http_method()),
        b.http_path == Some(v.spec_http_path()),
        b.auth == v.spec_auth(),
        b.args@ == v.spec_args(),
        b.return_type == v.spec_return_type(),
        b.docs == v.spec_docs(),
        b.deprecated == v.spec_deprecated(),
        b.markers@ == v.spec_markers(),
{
}

/// Clones a wire type, keeping its value.
pub fn clone_type(t: &Type) -> (r: Type)
    ensures
        r == *t,
    decreases *t,
{
    match t {
        Type::Primitive(k) => Type::Primitive(*k),
        Type::Optional(inner) => Type::Optional(Box::new(clone_type(inner))),
        Type::List(inner) => Type::List(Box::new(clone_type(inner))),
        Type::SetOf(inner) => Type::SetOf(Box::new(clone_type(inner))),
        Type::MapOf(k, v) => Type::MapOf(Box::new(clone_type(k)), Box::new(clone_type(v))),
        Type::Reference(name) => Type::Reference(name.clone()),
    }
}

/// Clones an optional wire type, keeping its value.
fn clone_type_opt(t: &Option<Type>) -> (r: Option<Type>)
    ensures
        r == *t,
{
    match t {
        Some(inner) => Some(clone_type(inner)),
        None => None,
    }
}

/// Clones a list of wire types, keeping its value.
fn clone_types(ts: &Vec<Type>) -> (r: Vec<Type>)
    ensures
        r@ == ts@,
{
    let mut out: Vec<Type> = Vec::new();
    let mut i: usize = 0;
    while i < ts.len()
        invariant
            0 <= i <= ts@.len(),
            out@ =~= ts@.take(i as int),
        decreases ts@.len() - i,
    {
        out.push(clone_type(&ts[i]));
        i = i + 1;
        proof {
            assert(out@ =~= ts@.take(i as int));
        }
    }
    proof {
        assert(ts@.take(ts@.len() as int) =~= ts@);
    }
    out
}

/// Clones an authentication choice, keeping its value.
fn clone_auth_opt(a: &Option<AuthType>) -> (r: Option<AuthType>)
    ensures
        r == *a,
{
    match a {
        Some(AuthType::Header) => Some(AuthType::Header),
        Some(AuthType::Cookie(name)) => Some(AuthType::Cookie(name.clone())),
        None => None,
    }
}

/// Clones an argument, keeping its value.
fn clone_arg(a: &ArgumentDefinition) -> (r: ArgumentDefinition)
    ensures
        r == *a,
{
    let param_type = match &a.param_type {
        ParameterType::Body => ParameterType::Body,
        ParameterType::Path => ParameterType::Path,
        ParameterType::Query(id) => ParameterType::Query(id.clone()),
        ParameterType::Header(id) => ParameterType::Header(id.clone()),
    };
    ArgumentDefinition {
        arg_name: a.arg_name.clone(),
        type_: clone_type(&a.type_),
        param_type,
    }
}

/// Clones an argument list, keeping its value.
fn clone_args(args: &Vec<ArgumentDefinition>) -> (r: Vec<ArgumentDefinition>)
    ensures
        r@ == args@,
{
    let mut out: Vec<ArgumentDefinition> = Vec::new();
    let mut i: usize = 0;
    while i < args.len()
        invariant
            0 <= i <= args@.len(),
            out@ =~= args@.take(i as int),
        decreases args@.len() - i,
    {
        out.push(clone_arg(&args[i]));
        i = i + 1;
        proof {
            assert(out@ =~= args@.take(i as int));
        }
    }
    proof {
        assert(args@.take(args@.len() as int) =~= args@);
    }
    out
}

/// Clones an optional string, keeping its value.
fn clone_opt_string(s: &Option<String>) -> (r: Option<String>)
    ensures
        r == *s,
{
    match s {
        Some(v) => Some(v.clone()),
        None => None,
    }
}

/// Takes the string out of an option known to be set.
fn clone_string_opt(s: &Option<String>) -> (r: String)
    requires
        *s is Some,
    ensures
        r == s->0,
{
    match s {
        Some(v) => v.clone(),
        None => {
            proof {
                assert(false);
            }
            vstd::pervasive::unreached()
        },
    }
}

} // verus!
