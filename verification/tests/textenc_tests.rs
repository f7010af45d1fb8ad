use mslm::textenc::{form_encode, percent_encode_all};
use percent_encoding::{utf8_percent_encode, NON_ALPHANUMERIC};

#[test]
fn percent_encoding_matches_the_reference_crate() {
    let samples = [
        "",
        "abc123XYZ",
        "a@b.com",
        "foo bar?",
        "h\u{e9}llo w\u{f6}rld",
        "\u{65e5}\u{672c}",
        "%already%",
        "a+b*c-d.e_f",
    ];
    for s in samples {
        let mine = percent_encode_all(s);
        let theirs = utf8_percent_encode(s, NON_ALPHANUMERIC).to_string();
        assert_eq!(mine, theirs, "input {:?}", s);
    }
}

#[test]
fn percent_encoding_escapes_reserved_characters() {
    assert_eq!(percent_encode_all("a@b.com"), "a%40b%2Ecom");
    assert_eq!(percent_encode_all("x y"), "x%20y");
    assert_eq!(percent_encode_all("only1alnum2"), "only1alnum2");
}

#[test]
fn form_encoding_keeps_the_unreserved_set() {
    assert_eq!(form_encode("a@b.com"), "a%40b.com");
    assert_eq!(form_encode("x y"), "x+y");
    assert_eq!(form_encode("A-b_c.d*e"), "A-b_c.d*e");
    assert_eq!(form_encode("z&w=q"), "z%26w%3Dq");
}

#[test]
fn form_encoding_round_trips_through_an_independent_decoder() {
    let samples = ["a@b.com", "x y+z", "h\u{e9}llo", "\u{65e5}\u{672c} ok"];
    for s in samples {
        let enc = form_encode(s);
        let url = url::Url::parse(&format!("https://h/?k={}", enc)).unwrap();
        let pairs: Vec<(String, String)> = url
            .query_pairs()
            .map(|(k, v)| (k.to_string(), v.to_string()))
            .collect();
        assert_eq!(pairs, vec![(String::from("k"), String::from(s))], "input {:?}", s);
    }
}
