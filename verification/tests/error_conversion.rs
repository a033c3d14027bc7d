//! Properties of the library's error type.

use rskim_search::SearchError;

fn assert_send<T: Send>() {}

#[test]
fn test_search_error_is_send() {
    assert_send::<SearchError>();
}
