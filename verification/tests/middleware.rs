use strip_empty_query::{Layer, Service};

#[test]
fn layer_wraps_the_service_it_is_given() {
    let service: Service<u32> = Layer.layer(7);
    assert_eq!(*service.get_ref(), 7);
    assert_eq!(service.into_inner(), 7);
}

#[test]
fn wrapped_service_can_be_changed_in_place() {
    let mut service = Layer.layer(vec![1u8]);
    service.get_mut().push(2);
    assert_eq!(service.into_inner(), [1, 2]);
}

#[test]
fn layer_and_service_can_be_cloned() {
    let layer = Layer;
    let service = layer.clone().layer(String::from("inner"));
    let copy = service.clone();
    assert_eq!(copy.into_inner(), "inner");
    assert_eq!(service.into_inner(), "inner");
}

#[test]
fn target_without_a_query_stays() {
    let service = Layer.layer(());
    assert_eq!(service.rewrite_target("/path", None), None);
    assert_eq!(service.rewrite_target("", None), None);
}

#[test]
fn target_without_empty_values_stays() {
    let service = Layer.layer(());
    assert_eq!(service.rewrite_target("/path", Some("x=1&y=2")), None);
    assert_eq!(service.rewrite_target("/path", Some("")), None);
    assert_eq!(service.rewrite_target("/path", Some("a+b=c")), None);
}

#[test]
fn target_with_empty_values_is_rewritten() {
    let service = Layer.layer(());
    assert_eq!(
        service.rewrite_target("/path", Some("x=1&y=2&z=")),
        Some(String::from("/path?x=1&y=2"))
    );
    assert_eq!(
        service.rewrite_target("/a/b", Some("k=hello+world&z=")),
        Some(String::from("/a/b?k=hello%20world"))
    );
}

#[test]
fn target_whose_parameters_are_all_empty_keeps_the_question_mark() {
    let service = Layer.layer(());
    assert_eq!(service.rewrite_target("/path", Some("a=&b=")), Some(String::from("/path?")));
    assert_eq!(service.rewrite_target("", Some("a")), Some(String::from("?")));
}

#[test]
fn rewritten_target_is_accepted_as_the_path_and_query_of_a_uri() {
    let service = Layer.layer(());
    for query in [
        "x=1&y=2&z=",
        "a=&b=",
        "k=hello+world&z=",
        "k=%00%1F%20%22%23%3C%3E%7F&z=",
        "k=%C3%A9%FF&z=",
        "k=!$%&'()*,-./:;=?@[\\]^_`{|}~&z=",
    ] {
        let target = service.rewrite_target("/path", Some(query)).unwrap();
        let parsed = http::uri::PathAndQuery::try_from(target.as_str()).unwrap();
        assert_eq!(parsed.as_str(), target);
        assert_eq!(parsed.path(), "/path");
    }
}
