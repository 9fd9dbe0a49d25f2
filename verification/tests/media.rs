use chc_service::msgpack_utils::is_msgpack_media_type;
use chc_service::{ChcServiceError, MsgPack};

#[test]
fn the_two_plain_types_are_accepted() {
    assert!(is_msgpack_media_type("application/msgpack"));
    assert!(is_msgpack_media_type("application/x-msgpack"));
}

#[test]
fn vendor_types_are_accepted() {
    assert!(is_msgpack_media_type("application/vnd.holo+msgpack"));
    assert!(is_msgpack_media_type("application/vnd.holo+x-msgpack"));
    assert!(is_msgpack_media_type("application/a+msgpack"));
    assert!(is_msgpack_media_type("application/a+b+msgpack"));
}

#[test]
fn parameters_and_blanks_are_not_looked_at() {
    assert!(is_msgpack_media_type("application/msgpack; charset=utf-8"));
    assert!(is_msgpack_media_type("application/msgpack;"));
    assert!(is_msgpack_media_type("application/x-msgpack ;q=1;application/json"));
    assert!(is_msgpack_media_type(" \tapplication/msgpack\t "));
    assert!(is_msgpack_media_type("  application/vnd.x+msgpack ; a=b"));
}

#[test]
fn other_types_are_refused() {
    for declared in [
        "",
        " ",
        ";",
        "application/json",
        "application/json; application/msgpack",
        ";application/msgpack",
        "text/msgpack",
        "msgpack",
        "application/",
        "application/msgpackx",
        "application/x-msgpack2",
        "application/+msgpack",
        "application/+x-msgpack",
        "application/vnd.holo+json",
        "application/vnd.holo msgpack",
        "application/ msgpack",
        "application /msgpack",
        "APPLICATION/MSGPACK",
        "application/msgpack\n",
        "xapplication/msgpack",
    ] {
        assert!(!is_msgpack_media_type(declared), "{:?}", declared);
    }
}

#[test]
fn body_is_taken_only_under_an_accepted_type() {
    let wrong = ChcServiceError::BadRequest(
        "Expected request with `Content-Type: application/msgpack`".to_string(),
    );
    assert_eq!(MsgPack::from_request(None, vec![1]).unwrap_err(), wrong);
    assert_eq!(MsgPack::from_request(Some("application/json"), vec![1]).unwrap_err(), wrong);
    assert_eq!(MsgPack::from_request(Some(""), vec![]).unwrap_err(), wrong);
    let MsgPack(body) = MsgPack::from_request(Some("application/msgpack"), vec![1, 2]).unwrap();
    assert_eq!(body, vec![1, 2]);
    let MsgPack(body) =
        MsgPack::from_request(Some("application/vnd.a+x-msgpack; v=1"), vec![]).unwrap();
    assert_eq!(body, Vec::<u8>::new());
}
