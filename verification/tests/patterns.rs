use grok::{patterns, Grok};

#[test]
fn test_simple_anonymous_pattern() {
    let mut grok = Grok::empty();
    grok.add_pattern("USERNAME", r"[a-zA-Z0-9._-]+");
    let pattern = grok
        .compile("%{USERNAME}", false)
        .expect("Error while compiling!");

    let matches = pattern.match_against("root").expect("No matches found!");
    assert_eq!("root", matches.get("USERNAME").unwrap());
    assert_eq!(1, matches.len());
    let matches = pattern
        .match_against("john doe")
        .expect("No matches found!");
    assert_eq!("john", matches.get("USERNAME").unwrap());
    assert_eq!(1, matches.len());
}

#[test]
fn test_simple_named_pattern() {
    let mut grok = Grok::empty();
    grok.add_pattern("USERNAME", r"[a-zA-Z0-9._-]+");
    let pattern = grok
        .compile("%{USERNAME:usr}", false)
        .expect("Error while compiling!");

    let matches = pattern.match_against("root").expect("No matches found!");
    assert_eq!("root", matches.get("usr").unwrap());
    assert_eq!(1, matches.len());
    let matches = pattern
        .match_against("john doe")
        .expect("No matches found!");
    assert_eq!("john", matches.get("usr").unwrap());
    assert_eq!(1, matches.len());
}

#[test]
fn test_alias_anonymous_pattern() {
    let mut grok = Grok::empty();
    grok.add_pattern("USERNAME", r"[a-zA-Z0-9._-]+");
    grok.add_pattern("USER", r"%{USERNAME}");
    let pattern = grok
        .compile("%{USER}", false)
        .expect("Error while compiling!");

    let matches = pattern.match_against("root").expect("No matches found!");
    assert_eq!("root", matches.get("USER").unwrap());
    let matches = pattern
        .match_against("john doe")
        .expect("No matches found!");
    assert_eq!("john", matches.get("USER").unwrap());
}

#[test]
fn test_ailas_named_pattern() {
    let mut grok = Grok::empty();
    grok.add_pattern("USERNAME", r"[a-zA-Z0-9._-]+");
    grok.add_pattern("USER", r"%{USERNAME}");
    let pattern = grok
        .compile("%{USER:usr}", false)
        .expect("Error while compiling!");

    let matches = pattern.match_against("root").expect("No matches found!");
    assert_eq!("root", matches.get("usr").unwrap());
    let matches = pattern
        .match_against("john doe")
        .expect("No matches found!");
    assert_eq!("john", matches.get("usr").unwrap());
}

#[test]
fn test_composite_or_pattern() {
    let mut grok = Grok::empty();
    grok.add_pattern("MAC", r"(?:%{CISCOMAC}|%{WINDOWSMAC}|%{COMMONMAC})");
    grok.add_pattern("CISCOMAC", r"(?:(?:[A-Fa-f0-9]{4}\.){2}[A-Fa-f0-9]{4})");
    grok.add_pattern("WINDOWSMAC", r"(?:(?:[A-Fa-f0-9]{2}-){5}[A-Fa-f0-9]{2})");
    grok.add_pattern("COMMONMAC", r"(?:(?:[A-Fa-f0-9]{2}:){5}[A-Fa-f0-9]{2})");
    let pattern = grok
        .compile("%{MAC}", false)
        .expect("Error while compiling!");

    let matches = pattern
        .match_against("5E:FF:56:A2:AF:15")
        .expect("No matches found!");
    assert_eq!("5E:FF:56:A2:AF:15", matches.get("MAC").unwrap());
    assert_eq!(4, matches.len());
    let matches = pattern
        .match_against("hello! 5E:FF:56:A2:AF:15 what?")
        .expect("No matches found!");
    assert_eq!("5E:FF:56:A2:AF:15", matches.get("MAC").unwrap());
    assert_eq!(true, pattern.match_against("5E:FF").is_none());
}

#[test]
fn test_multiple_patterns() {
    let mut grok = Grok::empty();
    grok.add_pattern("YEAR", r"(\d\d){1,2}");
    grok.add_pattern("MONTH", r"\b(?:Jan(?:uary)?|Feb(?:ruary)?|Mar(?:ch)?|Apr(?:il)?|May|Jun(?:e)?|Jul(?:y)?|Aug(?:ust)?|Sep(?:tember)?|Oct(?:ober)?|Nov(?:ember)?|Dec(?:ember)?)\b");
    grok.add_pattern("DAY", r"(?:Mon(?:day)?|Tue(?:sday)?|Wed(?:nesday)?|Thu(?:rsday)?|Fri(?:day)?|Sat(?:urday)?|Sun(?:day)?)");
    let pattern = grok
        .compile("%{DAY} %{MONTH} %{YEAR}", false)
        .expect("Error while compiling!");

    let matches = pattern
        .match_against("Monday March 2012")
        .expect("No matches found!");
    assert_eq!("Monday", matches.get("DAY").unwrap());
    assert_eq!("March", matches.get("MONTH").unwrap());
    assert_eq!("2012", matches.get("YEAR").unwrap());
    assert_eq!(None, matches.get("unknown"));
}

#[test]
fn test_with_alias_only() {
    let mut grok = Grok::empty();
    grok.add_pattern("MAC", r"(?:%{CISCOMAC}|%{WINDOWSMAC}|%{COMMONMAC})");
    grok.add_pattern("CISCOMAC", r"(?:(?:[A-Fa-f0-9]{4}\.){2}[A-Fa-f0-9]{4})");
    grok.add_pattern("WINDOWSMAC", r"(?:(?:[A-Fa-f0-9]{2}-){5}[A-Fa-f0-9]{2})");
    grok.add_pattern("COMMONMAC", r"(?:(?:[A-Fa-f0-9]{2}:){5}[A-Fa-f0-9]{2})");
    let pattern = grok
        .compile("%{MAC:macaddr}", true)
        .expect("Error while compiling!");

    let matches = pattern
        .match_against("5E:FF:56:A2:AF:15")
        .expect("No matches found!");
    assert_eq!("5E:FF:56:A2:AF:15", matches.get("macaddr").unwrap());
    assert_eq!(1, matches.len());
    let matches = pattern
        .match_against("hello! 5E:FF:56:A2:AF:15 what?")
        .expect("No matches found!");
    assert_eq!("5E:FF:56:A2:AF:15", matches.get("macaddr").unwrap());
    assert_eq!(true, pattern.match_against("5E:FF").is_none());
}

#[test]
fn test_loaded_default_patterns() {
    let mut grok = Grok::with_default_patterns();
    let pattern = grok
        .compile("%{DAY} %{MONTH} %{YEAR}", false)
        .expect("Error while compiling!");

    let matches = pattern
        .match_against("Monday March 2012")
        .expect("No matches found!");
    assert_eq!("Monday", matches.get("DAY").unwrap());
    assert_eq!("March", matches.get("MONTH").unwrap());
    assert_eq!("2012", matches.get("YEAR").unwrap());
    assert_eq!(None, matches.get("unknown"));
}

#[test]
fn test_compilation_of_all_default_patterns() {
    let mut grok = Grok::default();
    let mut num_checked = 0;
    for &(key, _) in patterns() {
        let pattern = format!("%{{{}}}", key);
        grok.compile(&pattern, false).expect(&format!(
            "Pattern {} key {} failed to compile!",
            pattern, key
        ));
        num_checked += 1;
    }
    assert!(num_checked > 0);
}

#[test]
fn test_adhoc_pattern() {
    let mut grok = Grok::default();
    let pattern = grok
        .compile(r"\[(?<threadname>[^\]]+)\]", false)
        .expect("Error while compiling!");

    let matches = pattern
        .match_against("[thread1]")
        .expect("No matches found!");
    assert_eq!("thread1", matches.get("threadname").unwrap());
}

#[test]
fn test_capture_names() {
    let mut grok = Grok::empty();
    grok.add_pattern("YEAR", r"(\d\d){1,2}");
    grok.add_pattern("MONTH", r"\b(?:Jan(?:uary)?|Feb(?:ruary)?|Mar(?:ch)?|Apr(?:il)?|May|Jun(?:e)?|Jul(?:y)?|Aug(?:ust)?|Sep(?:tember)?|Oct(?:ober)?|Nov(?:ember)?|Dec(?:ember)?)\b");
    grok.add_pattern("DAY", r"(?:Mon(?:day)?|Tue(?:sday)?|Wed(?:nesday)?|Thu(?:rsday)?|Fri(?:day)?|Sat(?:urday)?|Sun(?:day)?)");
    grok.add_pattern("USERNAME", r"[a-zA-Z0-9._-]+");
    grok.add_pattern("SPACE", r"\s*");

    let pattern = grok
        .compile("%{YEAR}%{SPACE}%{USERNAME:user}?", false)
        .expect("Error while compiling!");

    let expected = vec!["SPACE", "YEAR", "user"];
    let actual = pattern.capture_names().into_iter().collect::<Vec<_>>();
    assert_eq!(expected, actual);
}

#[test]
fn test_from_iter() {
    let patterns = [("USERNAME", r"[a-zA-Z0-9._-]+")];
    let mut grok = Grok::from_iter(patterns.into_iter());
    let pattern = grok
        .compile("%{USERNAME}", false)
        .expect("Error while compiling!");

    let matches = pattern.match_against("root").expect("No matches found!");
    assert_eq!("root", matches.get("USERNAME").unwrap());
    assert_eq!(1, matches.len());
    let matches = pattern
        .match_against("john doe")
        .expect("No matches found!");
    assert_eq!("john", matches.get("USERNAME").unwrap());
    assert_eq!(1, matches.len());
}

#[test]
fn test_from() {
    let mut grok = Grok::from([("USERNAME", r"[a-zA-Z0-9._-]+")]);
    let pattern = grok
        .compile("%{USERNAME}", false)
        .expect("Error while compiling!");

    let matches = pattern.match_against("root").expect("No matches found!");
    assert_eq!("root", matches.get("USERNAME").unwrap());
    assert_eq!(1, matches.len());
    let matches = pattern
        .match_against("john doe")
        .expect("No matches found!");
    assert_eq!("john", matches.get("USERNAME").unwrap());
    assert_eq!(1, matches.len());
}

#[test]
fn test_match_iterator() {
    let mut grok = Grok::empty();
    grok.add_pattern("YEAR", r"(\d\d){1,2}");
    grok.add_pattern("MONTH", r"\b(?:Jan(?:uary)?|Feb(?:ruary)?|Mar(?:ch)?|Apr(?:il)?|May|Jun(?:e)?|Jul(?:y)?|Aug(?:ust)?|Sep(?:tember)?|Oct(?:ober)?|Nov(?:ember)?|Dec(?:ember)?)\b");
    grok.add_pattern("DAY", r"(?:Mon(?:day)?|Tue(?:sday)?|Wed(?:nesday)?|Thu(?:rsday)?|Fri(?:day)?|Sat(?:urday)?|Sun(?:day)?)");
    grok.add_pattern("USERNAME", r"[a-zA-Z0-9._-]+");
    grok.add_pattern("SPACE", r"\s*");

    let pattern = grok
        .compile(
            "%{DAY:day} %{MONTH:month} %{YEAR:year}%{SPACE}%{USERNAME:user}?",
            true,
        )
        .expect("Error while compiling!");
    let matches = pattern
        .match_against("Monday March 2012")
        .expect("No matches found!");
    let mut found = 0;
    for (k, v) in matches.iter() {
        match k {
            "day" => assert_eq!("Monday", v),
            "month" => assert_eq!("March", v),
            "year" => assert_eq!("2012", v),
            "user" => assert_eq!("", v),
            e => panic!("{:?}", e),
        }
        found += 1;
    }
    assert_eq!(4, found);
}

#[test]
fn test_matches_into_iter() {
    let mut grok = Grok::empty();
    grok.add_pattern("YEAR", r"(\d\d){1,2}");
    grok.add_pattern("MONTH", r"\b(?:Jan(?:uary)?|Feb(?:ruary)?|Mar(?:ch)?|Apr(?:il)?|May|Jun(?:e)?|Jul(?:y)?|Aug(?:ust)?|Sep(?:tember)?|Oct(?:ober)?|Nov(?:ember)?|Dec(?:ember)?)\b");
    grok.add_pattern("DAY", r"(?:Mon(?:day)?|Tue(?:sday)?|Wed(?:nesday)?|Thu(?:rsday)?|Fri(?:day)?|Sat(?:urday)?|Sun(?:day)?)");
    grok.add_pattern("USERNAME", r"[a-zA-Z0-9._-]+");
    grok.add_pattern("SPACE", r"\s*");

    let pattern = grok
        .compile(
            "%{DAY:day} %{MONTH:month} %{YEAR:year}%{SPACE}%{USERNAME:user}?",
            true,
        )
        .expect("Error while compiling!");
    let matches = pattern
        .match_against("Monday March 2012")
        .expect("No matches found!");
    let mut found = 0;
    for (k, v) in &matches {
        match k {
            "day" => assert_eq!("Monday", v),
            "month" => assert_eq!("March", v),
            "year" => assert_eq!("2012", v),
            "user" => assert_eq!("", v),
            e => panic!("{:?}", e),
        }
        found += 1;
    }
    assert_eq!(4, found);
}

#[test]
fn test_adhoc_pattern_in_iter() {
    let mut grok = Grok::default();
    let pattern = grok
        .compile(r"\[(?<threadname>[^\]]+)\]", false)
        .expect("Error while compiling!");

    let matches = pattern
        .match_against("[thread1]")
        .expect("No matches found!");
    let mut found = 0;
    for (k, v) in matches.iter() {
        assert_eq!("threadname", k);
        assert_eq!("thread1", v);
        found += 1;
    }
    assert_eq!(1, found);
}
