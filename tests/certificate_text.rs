use remote_ssl_renewal::certificate::Certificate;

fn cert(chain: &str) -> Certificate {
    Certificate { cert: chain.to_string(), key: String::new() }
}

#[test]
fn leaf_is_first_block() {
    let chain = "-----BEGIN CERTIFICATE-----\nLEAF\n-----END CERTIFICATE-----\n\n-----BEGIN CERTIFICATE-----\nCA\n-----END CERTIFICATE-----\n";
    assert_eq!(
        cert(chain).get_leaf_certificate(),
        "-----BEGIN CERTIFICATE-----\nLEAF\n-----END CERTIFICATE-----"
    );
}

#[test]
fn leaf_of_text_without_marker_is_whole_text() {
    assert_eq!(cert("no pem here").get_leaf_certificate(), "no pem here");
    assert_eq!(cert("").get_leaf_certificate(), "");
}

#[test]
fn doubled_line_feeds_are_collapsed() {
    assert_eq!(cert("a\n\nb\n\n\nc\n").chain_for_upload(), "a\nb\n\nc\n");
    assert_eq!(cert("\n").chain_for_upload(), "\n");
    assert_eq!(cert("").chain_for_upload(), "");
}
