use rsbar::request::{
    split_parts, split_request, RequestError, CALL_REQUEST_PARTS, EVENT_REQUEST_PARTS,
};

#[test]
fn a_call_has_three_parts() {
    assert_eq!(
        split_request("volume/setVolume/42", CALL_REQUEST_PARTS),
        Ok(vec!["volume", "setVolume", "42"])
    );
    assert_eq!(
        split_request("volume/toggleMute/", CALL_REQUEST_PARTS),
        Ok(vec!["volume", "toggleMute", ""])
    );
    assert_eq!(split_request("//", CALL_REQUEST_PARTS), Ok(vec!["", "", ""]));
}

#[test]
fn a_subscription_has_two_parts() {
    assert_eq!(
        split_request("battery/capacity", EVENT_REQUEST_PARTS),
        Ok(vec!["battery", "capacity"])
    );
}

#[test]
fn the_request_is_trimmed_before_it_is_split() {
    assert_eq!(
        split_request("  volume/setVolume/42 \n", CALL_REQUEST_PARTS),
        Ok(vec!["volume", "setVolume", "42"])
    );
    assert_eq!(
        split_request("\tbattery/status\r\n", EVENT_REQUEST_PARTS),
        Ok(vec!["battery", "status"])
    );
    assert_eq!(
        split_request("volume/setVolume/ 4 2", CALL_REQUEST_PARTS),
        Ok(vec!["volume", "setVolume", " 4 2"])
    );
}

#[test]
fn malformed_subscriptions_are_rejected() {
    assert_eq!(split_request("volume", EVENT_REQUEST_PARTS), Err(RequestError::PartsCount));
    assert_eq!(
        split_request("volume/volume/extra", EVENT_REQUEST_PARTS),
        Err(RequestError::PartsCount)
    );
    assert_eq!(split_request("", EVENT_REQUEST_PARTS), Err(RequestError::PartsCount));
}

#[test]
fn malformed_calls_are_rejected() {
    assert_eq!(split_request("volume/setVolume", CALL_REQUEST_PARTS), Err(RequestError::PartsCount));
    assert_eq!(split_request("a/b/c/d", CALL_REQUEST_PARTS), Err(RequestError::PartsCount));
    assert_eq!(split_request("nope", CALL_REQUEST_PARTS), Err(RequestError::PartsCount));
    assert_eq!(split_request("   ", CALL_REQUEST_PARTS), Err(RequestError::PartsCount));
}

#[test]
fn there_is_one_part_more_than_slashes() {
    assert_eq!(split_parts(""), vec![""]);
    assert_eq!(split_parts("a"), vec!["a"]);
    assert_eq!(split_parts("a/"), vec!["a", ""]);
    assert_eq!(split_parts("/a"), vec!["", "a"]);
    assert_eq!(split_parts("a/b/c/d"), vec!["a", "b", "c", "d"]);
    for text in ["", "x", "x/y", "//", "a/b/c", " a/b ", "é/ü"] {
        let expected: Vec<&str> = text.trim().split('/').collect();
        assert_eq!(split_parts(text), expected);
    }
}
