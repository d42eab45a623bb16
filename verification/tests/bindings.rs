use conjure_wire::client::{
    body_arg, generate, generate_body, generate_endpoint, handle_response, insert_all_headers,
    insert_all_query, insert_query, return_type, BodyPlan, ResponseAction, ReturnType,
};
use conjure_wire::endpoint::{
    ArgumentDefinition, AuthType, EndpointDefinition, HttpMethod, ParameterType, PrimitiveKind,
    ServiceDefinition, Type,
};
use conjure_wire::error::DecodeError;
use conjure_wire::json::JsonValue;

fn s(x: &str) -> String {
    x.to_string()
}

fn arg(name: &str, ty: Type, param: ParameterType) -> ArgumentDefinition {
    ArgumentDefinition {
        arg_name: s(name),
        type_: ty,
        param_type: param,
    }
}

fn sample_endpoint() -> EndpointDefinition {
    let mut b = EndpointDefinition::builder();
    b.endpoint_name(s("getThings"));
    b.http_method(HttpMethod::Get);
    b.http_path(s("/things/{thingId}"));
    b.auth(Some(AuthType::Header));
    b.args(vec![
        arg(
            "thingId",
            Type::Primitive(PrimitiveKind::Text),
            ParameterType::Path,
        ),
        arg(
            "tags",
            Type::List(Box::new(Type::Primitive(PrimitiveKind::Text))),
            ParameterType::Query(s("tag")),
        ),
        arg(
            "requestId",
            Type::Optional(Box::new(Type::Primitive(PrimitiveKind::Text))),
            ParameterType::Header(s("X-Request-Id")),
        ),
    ]);
    b.return_type(Some(Type::List(Box::new(Type::Primitive(
        PrimitiveKind::Text,
    )))));
    b.docs(Some(s("Lists things.")));
    b.build()
}

#[test]
fn builder_keeps_every_field() {
    let d = sample_endpoint();
    assert_eq!(d.endpoint_name().as_str(), "getThings");
    assert!(matches!(d.http_method(), HttpMethod::Get));
    assert_eq!(d.http_path().as_str(), "/things/{thingId}");
    assert!(matches!(d.auth(), Some(AuthType::Header)));
    assert_eq!(d.args().len(), 3);
    assert_eq!(d.args()[1].arg_name().as_str(), "tags");
    assert!(d.return_type().is_some());
    assert_eq!(d.docs().unwrap().as_str(), "Lists things.");
    assert!(d.deprecated().is_none());
    assert!(d.markers().is_empty());
}

#[test]
fn checked_build_lists_every_missing_required_field() {
    let b = EndpointDefinition::builder();
    let missing = b.checked_build().unwrap_err();
    assert_eq!(missing, vec![s("endpointName"), s("httpMethod"), s("httpPath")]);

    let mut b = EndpointDefinition::builder();
    b.http_method(HttpMethod::Put);
    let missing = b.checked_build().unwrap_err();
    assert_eq!(missing, vec![s("endpointName"), s("httpPath")]);
}

#[test]
fn builder_extends_argument_and_marker_lists() {
    let mut b = EndpointDefinition::builder();
    b.endpoint_name(s("e"));
    b.http_method(HttpMethod::Post);
    b.http_path(s("/e"));
    b.args(vec![arg(
        "a",
        Type::Primitive(PrimitiveKind::Text),
        ParameterType::Body,
    )]);
    b.extend_args(vec![arg(
        "b",
        Type::Primitive(PrimitiveKind::Integer),
        ParameterType::Query(s("b")),
    )]);
    b.markers(vec![Type::Reference(s("Safe"))]);
    b.extend_markers(vec![Type::Reference(s("Unsafe"))]);
    let d = b.build();
    assert_eq!(d.args().len(), 2);
    assert_eq!(d.args()[1].arg_name().as_str(), "b");
    assert_eq!(d.markers().len(), 2);
}

#[test]
fn a_builder_taken_from_a_definition_rebuilds_it() {
    let d = sample_endpoint();
    let b = conjure_wire::endpoint::Builder::from(d);
    let d2 = b.build();
    assert_eq!(d2.endpoint_name().as_str(), "getThings");
    assert_eq!(d2.args().len(), 3);
    assert!(matches!(d2.auth(), Some(AuthType::Header)));
}

#[test]
fn endpoint_json_round_trips() {
    let d = sample_endpoint();
    let j = d.to_json();
    let d2 = EndpointDefinition::from_json(j).unwrap();
    assert_eq!(d2.endpoint_name().as_str(), d.endpoint_name().as_str());
    assert!(matches!(d2.http_method(), HttpMethod::Get));
    assert_eq!(d2.http_path().as_str(), d.http_path().as_str());
    assert!(matches!(d2.auth(), Some(AuthType::Header)));
    assert_eq!(d2.args().len(), 3);
    assert_eq!(d2.args()[2].arg_name().as_str(), "requestId");
    assert!(matches!(
        d2.args()[2].param_type(),
        ParameterType::Header(id) if id == "X-Request-Id"
    ));
    assert_eq!(d2.docs().unwrap().as_str(), "Lists things.");
    assert!(d2.deprecated().is_none());
    assert!(d2.markers().is_empty());
}

#[test]
fn endpoint_json_skips_empty_fields() {
    let mut b = EndpointDefinition::builder();
    b.endpoint_name(s("ping"));
    b.http_method(HttpMethod::Get);
    b.http_path(s("/ping"));
    let d = b.build();
    match d.to_json() {
        JsonValue::Object(es) => {
            assert_eq!(es.len(), 3);
            assert_eq!(es[0].0, "endpointName");
            assert_eq!(es[1].0, "httpMethod");
            assert_eq!(es[2].0, "httpPath");
        }
        other => panic!("unexpected encoding: {:?}", other),
    }
}

#[test]
fn endpoint_json_rejects_an_unknown_field() {
    let mut b = EndpointDefinition::builder();
    b.endpoint_name(s("ping"));
    b.http_method(HttpMethod::Get);
    b.http_path(s("/ping"));
    let d = b.build();
    let mut es = match d.to_json() {
        JsonValue::Object(es) => es,
        other => panic!("unexpected encoding: {:?}", other),
    };
    es.push((s("surprise"), JsonValue::Null));
    assert!(matches!(
        EndpointDefinition::from_json(JsonValue::Object(es)),
        Err(DecodeError::UnknownField(k)) if k == "surprise"
    ));
}

#[test]
fn endpoint_json_requires_the_three_required_fields() {
    let es = vec![(s("endpointName"), JsonValue::String(s("ping")))];
    assert!(matches!(
        EndpointDefinition::from_json(JsonValue::Object(es)),
        Err(DecodeError::MissingField(k)) if k == "httpMethod"
    ));
}

#[test]
fn body_arg_finds_the_body_argument() {
    let d = sample_endpoint();
    assert!(body_arg(&d).is_none());

    let mut b = EndpointDefinition::builder();
    b.endpoint_name(s("put"));
    b.http_method(HttpMethod::Put);
    b.http_path(s("/put"));
    b.args(vec![
        arg(
            "q",
            Type::Primitive(PrimitiveKind::Text),
            ParameterType::Query(s("q")),
        ),
        arg(
            "payload",
            Type::Reference(s("Thing")),
            ParameterType::Body,
        ),
    ]);
    let d = b.build();
    assert_eq!(body_arg(&d).unwrap().arg_name().as_str(), "payload");
    assert!(matches!(generate_body(&d), BodyPlan::Fixed(n) if n == "payload"));
}

#[test]
fn binary_bodies_stream() {
    let mut b = EndpointDefinition::builder();
    b.endpoint_name(s("upload"));
    b.http_method(HttpMethod::Post);
    b.http_path(s("/upload"));
    b.args(vec![arg(
        "data",
        Type::Primitive(PrimitiveKind::Binary),
        ParameterType::Body,
    )]);
    let d = b.build();
    assert!(matches!(generate_body(&d), BodyPlan::Streaming(n) if n == "data"));
}

#[test]
fn return_categories_follow_the_declared_type() {
    let mut b = EndpointDefinition::builder();
    b.endpoint_name(s("e"));
    b.http_method(HttpMethod::Get);
    b.http_path(s("/e"));
    let d = b.build();
    assert!(matches!(return_type(&d), ReturnType::Void));

    let mut b = EndpointDefinition::builder();
    b.endpoint_name(s("e"));
    b.http_method(HttpMethod::Get);
    b.http_path(s("/e"));
    b.return_type(Some(Type::Primitive(PrimitiveKind::Binary)));
    assert!(matches!(return_type(&b.build()), ReturnType::Binary));

    let mut b = EndpointDefinition::builder();
    b.endpoint_name(s("e"));
    b.http_method(HttpMethod::Get);
    b.http_path(s("/e"));
    b.return_type(Some(Type::Optional(Box::new(Type::Primitive(
        PrimitiveKind::Binary,
    )))));
    assert!(matches!(
        return_type(&b.build()),
        ReturnType::OptionalBinary
    ));

    let mut b = EndpointDefinition::builder();
    b.endpoint_name(s("e"));
    b.http_method(HttpMethod::Get);
    b.http_path(s("/e"));
    b.return_type(Some(Type::Primitive(PrimitiveKind::Text)));
    assert!(matches!(return_type(&b.build()), ReturnType::Json(_)));
}

#[test]
fn endpoint_plan_collects_parameters_and_headers() {
    let d = sample_endpoint();
    let plan = generate_endpoint(&d);
    assert!(matches!(plan.method, HttpMethod::Get));
    assert_eq!(plan.path, "/things/{thingId}");
    assert!(matches!(plan.body, BodyPlan::Empty));
    assert_eq!(plan.path_params, vec![s("thingId")]);
    assert_eq!(plan.query_params.len(), 1);
    assert_eq!(plan.query_params[0].key, "tag");
    assert_eq!(plan.query_params[0].arg_name, "tags");
    assert!(plan.query_params[0].iterable);
    assert!(matches!(plan.headers.auth, Some(AuthType::Header)));
    // no body, so no content type; a JSON return, so a JSON accept
    assert!(plan.headers.content_type.is_none());
    assert_eq!(plan.headers.accept.as_deref(), Some("application/json"));
    assert_eq!(plan.headers.arg_headers.len(), 1);
    // header names are lower-cased on the wire
    assert_eq!(plan.headers.arg_headers[0].name, "x-request-id");
    assert!(plan.headers.arg_headers[0].iterable);
    assert!(matches!(plan.ret, ReturnType::Json(_)));
}

#[test]
fn service_plans_cover_every_endpoint() {
    let def = ServiceDefinition {
        name: s("Things"),
        endpoints: vec![sample_endpoint()],
        docs: None,
    };
    let plans = generate(&def);
    assert_eq!(plans.len(), 1);
    assert_eq!(plans[0].path, "/things/{thingId}");
}

#[test]
fn iterable_query_arguments_repeat_their_key() {
    let d = sample_endpoint();
    let plan = generate_endpoint(&d);
    let entries = insert_all_query(&plan.query_params[0], &vec![s("a"), s("b")]);
    assert_eq!(entries, vec![(s("tag"), s("a")), (s("tag"), s("b"))]);

    let single = insert_query(&plan.query_params[0], &s("only"));
    assert_eq!(single, (s("tag"), s("only")));
}

#[test]
fn iterable_header_arguments_repeat_their_name() {
    let d = sample_endpoint();
    let plan = generate_endpoint(&d);
    let hp = &plan.headers.arg_headers[0];
    assert_eq!(
        insert_all_headers(hp, &vec![s("one")]),
        vec![(s("x-request-id"), s("one"))]
    );
    assert_eq!(insert_all_headers(hp, &Vec::new()), Vec::new());
}

#[test]
fn no_content_yields_an_empty_collection_for_list_returns() {
    let list_ret = ReturnType::Json(Type::List(Box::new(Type::Primitive(
        PrimitiveKind::Text,
    ))));
    assert_eq!(
        handle_response(&list_ret, 204),
        ResponseAction::ReturnEmptyCollection
    );
    assert_eq!(handle_response(&list_ret, 200), ResponseAction::DecodeJsonBody);

    let scalar_ret = ReturnType::Json(Type::Primitive(PrimitiveKind::Text));
    assert_eq!(
        handle_response(&scalar_ret, 204),
        ResponseAction::DecodeJsonBody
    );
}

#[test]
fn no_content_yields_absent_for_optional_binary_returns() {
    assert_eq!(
        handle_response(&ReturnType::OptionalBinary, 204),
        ResponseAction::ReturnAbsent
    );
    assert_eq!(
        handle_response(&ReturnType::OptionalBinary, 200),
        ResponseAction::ReturnPresentBody
    );
}

#[test]
fn non_success_statuses_surface_as_service_errors() {
    assert_eq!(
        handle_response(&ReturnType::Void, 500),
        ResponseAction::FailService
    );
    assert_eq!(handle_response(&ReturnType::Void, 204), ResponseAction::ReturnUnit);
}

#[test]
fn auth_headers_render_bearer_and_cookie_forms() {
    let (h, v) = conjure_wire::client::auth_header(&AuthType::Header, "tok");
    assert_eq!(h, "authorization");
    assert_eq!(v, "Bearer tok");
    let (h, v) = conjure_wire::client::auth_header(&AuthType::Cookie(s("SESSION")), "tok");
    assert_eq!(h, "cookie");
    assert_eq!(v, "SESSION=tok");
}
