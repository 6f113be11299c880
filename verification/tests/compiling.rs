use grok::{Error, Expansion, Grok, Pattern, Placeholder};

fn groups(whole: &str, name: &str, pattern: &str, alias: Option<&str>, definition: Option<&str>) -> Vec<Option<String>> {
    vec![
        Some(whole.to_string()),
        Some(name.to_string()),
        Some(pattern.to_string()),
        alias.map(|text| text.to_string()),
        definition.map(|text| text.to_string()),
    ]
}

fn failure(result: Result<Pattern, Error>) -> Error {
    match result {
        Ok(_) => panic!("the compilation succeeded"),
        Err(error) => error,
    }
}

#[test]
fn a_pattern_that_refers_to_itself_is_too_deep() {
    let mut grok = Grok::empty();
    grok.add_pattern("LOOP", "a%{LOOP}");
    assert_eq!(Error::RecursionTooDeep, failure(grok.compile("%{LOOP}", false)));
    assert_eq!(Error::RecursionTooDeep, failure(grok.compile("%{LOOP}", true)));
}

#[test]
fn patterns_that_refer_to_each_other_are_too_deep() {
    let mut grok = Grok::empty();
    grok.add_pattern("PING", "%{PONG}");
    grok.add_pattern("PONG", "%{PING:again}");
    assert_eq!(Error::RecursionTooDeep, failure(grok.compile("x %{PING} y", false)));
}

fn chain(links: usize) -> Grok {
    let mut grok = Grok::empty();
    for link in 0..links {
        let name = format!("LINK{}", link);
        if link + 1 == links {
            grok.add_pattern(&name, "x");
        } else {
            grok.add_pattern(&name, &format!("%{{LINK{}}}", link + 1));
        }
    }
    grok
}

#[test]
fn the_budget_allows_as_many_expansions_as_the_limit() {
    let mut grok = chain(1024);
    let pattern = grok.compile("%{LINK0}", true).expect("Error while compiling!");
    assert!(pattern.match_against("x").is_some());
    assert!(pattern.match_against("y").is_none());
}

#[test]
fn one_expansion_more_than_the_limit_is_too_deep() {
    let mut grok = chain(1025);
    assert_eq!(Error::RecursionTooDeep, failure(grok.compile("%{LINK0}", true)));
}

#[test]
fn an_empty_pattern_is_refused() {
    let mut grok = Grok::empty();
    assert_eq!(
        Error::CompiledPatternIsEmpty(String::from("")),
        failure(grok.compile("", false))
    );
}

#[test]
fn a_pattern_that_expands_to_nothing_is_refused() {
    let mut grok = Grok::empty();
    grok.add_pattern("NOTHING", "");
    let mut state = Expansion::new("%{NOTHING}");
    state = grok
        .expand_found(state, &groups("%{NOTHING}", "NOTHING", "NOTHING", None, None), true)
        .expect("the placeholder has a definition");
    assert_eq!("(?:)", state.working());
    assert!(grok.compile("%{NOTHING}", true).is_ok());
}

#[test]
fn a_missing_definition_is_reported_by_name() {
    let mut grok = Grok::empty();
    grok.add_pattern("KNOWN", "a");
    assert_eq!(
        Error::DefinitionNotFound(String::from("MISSING")),
        failure(grok.compile("%{KNOWN} %{MISSING:m}", false))
    );
}

#[test]
fn an_expression_that_the_engine_rejects_is_reported_whole() {
    let mut grok = Grok::empty();
    grok.add_pattern("OPEN", "(");
    assert_eq!(
        Error::RegexCompilationFailed(String::from("a(?<group0>()")),
        failure(grok.compile("a%{OPEN}", false))
    );
    assert_eq!(
        Error::RegexCompilationFailed(String::from("[")),
        failure(grok.compile("[", false))
    );
}

#[test]
fn groups_without_a_definition_name_are_a_failure() {
    let found = vec![Some(String::from("%{}")), Some(String::from("x")), None, None, None];
    match Placeholder::from_groups(&found) {
        Err(error) => assert_eq!(
            Error::GenericCompilationFailure(String::from("Could not find pattern in matches")),
            error
        ),
        Ok(_) => panic!("a placeholder was made"),
    }
    let found = vec![Some(String::from("%{}")), None, Some(String::from("x"))];
    match Placeholder::from_groups(&found) {
        Err(error) => assert_eq!(
            Error::GenericCompilationFailure(String::from("Could not find name in matches")),
            error
        ),
        Ok(_) => panic!("a placeholder was made"),
    }
    let found: Vec<Option<String>> = Vec::new();
    assert!(Placeholder::from_groups(&found).is_err());
}

#[test]
fn a_placeholder_is_read_from_the_groups() {
    let found = groups("%{WORD:w=[a-z]+}", "WORD:w", "WORD", Some("w"), Some("[a-z]+"));
    let placeholder = Placeholder::from_groups(&found).expect("the groups are complete");
    assert_eq!("WORD:w", placeholder.name);
    assert_eq!("WORD", placeholder.pattern);
    assert_eq!(Some(String::from("w")), placeholder.alias);
    assert_eq!(Some(String::from("[a-z]+")), placeholder.definition);
    assert_eq!("%{WORD:w=[a-z]+}", placeholder.token());
    assert_eq!("w", placeholder.field_name());
    assert!(placeholder.captures(true));

    let found = groups("%{WORD=[a-z]+}", "WORD", "WORD", None, Some("[a-z]+"));
    let placeholder = Placeholder::from_groups(&found).expect("the groups are complete");
    assert_eq!("%{WORD=[a-z]+}", placeholder.token());
    assert_eq!("WORD=[a-z]+", placeholder.field_name());
    assert!(!placeholder.captures(true));
    assert!(placeholder.captures(false));

    let found = groups("%{WORD}", "WORD", "WORD", None, None);
    let placeholder = Placeholder::from_groups(&found).expect("the groups are complete");
    assert_eq!("%{WORD}", placeholder.token());
    assert_eq!("WORD", placeholder.field_name());
    assert_eq!(None, placeholder.alias);
    assert_eq!(None, placeholder.definition);
}

#[test]
fn every_occurrence_of_a_placeholder_is_replaced_in_one_round() {
    let mut grok = Grok::empty();
    grok.add_pattern("A", "x+");
    let state = Expansion::new("%{A} and %{A}, not %{A:b}");
    assert_eq!(0, state.index());
    assert_eq!(1024, state.budget());
    let state = grok
        .expand_found(state, &groups("%{A}", "A", "A", None, None), false)
        .expect("the placeholder has a definition");
    assert_eq!("(?<group0>x+) and (?<group1>x+), not %{A:b}", state.working());
    assert_eq!(2, state.index());
    assert_eq!(1023, state.budget());
    assert_eq!(Some(1), state.alias("A"));
    assert_eq!(None, state.alias("b"));
    assert_eq!("A", state.field_of("group1"));
    assert_eq!("group0", state.field_of("group0"));
    assert_eq!("other", state.field_of("other"));
    let state = grok
        .expand_found(state, &groups("%{A:b}", "A:b", "A", Some("b"), None), false)
        .expect("the placeholder has a definition");
    assert_eq!("(?<group0>x+) and (?<group1>x+), not (?<group2>x+)", state.working());
    assert_eq!(3, state.index());
    assert_eq!(Some(2), state.alias("b"));
}

#[test]
fn the_index_counts_groups_that_do_not_capture() {
    let mut grok = Grok::empty();
    grok.add_pattern("A", "x");
    grok.add_pattern("B", "y");
    let state = Expansion::new("%{A}%{A}%{B:b}");
    let state = grok
        .expand_found(state, &groups("%{A}", "A", "A", None, None), true)
        .expect("the placeholder has a definition");
    assert_eq!("(?:x)(?:x)%{B:b}", state.working());
    assert_eq!(2, state.index());
    assert_eq!(None, state.alias("A"));
    let state = grok
        .expand_found(state, &groups("%{B:b}", "B:b", "B", Some("b"), None), true)
        .expect("the placeholder has a definition");
    assert_eq!("(?:x)(?:x)(?<group2>y)", state.working());
    assert_eq!(Some(2), state.alias("b"));
}

#[test]
fn tags_are_decimal_numerals() {
    let mut grok = Grok::empty();
    grok.add_pattern("A", "x");
    let state = Expansion::new("%{A}%{A}%{A}%{A}%{A}%{A}%{A}%{A}%{A}%{A}%{A}");
    let state = grok
        .expand_found(state, &groups("%{A}", "A", "A", None, None), false)
        .expect("the placeholder has a definition");
    assert_eq!(
        "(?<group0>x)(?<group1>x)(?<group2>x)(?<group3>x)(?<group4>x)(?<group5>x)(?<group6>x)(?<group7>x)(?<group8>x)(?<group9>x)(?<group10>x)",
        state.working()
    );
    assert_eq!(11, state.index());
    assert_eq!(Some(10), state.alias("A"));
}

#[test]
fn a_placeholder_that_does_not_occur_changes_nothing_but_the_budget() {
    let mut grok = Grok::empty();
    let state = Expansion::new("plain text");
    let state = grok
        .expand_found(state, &groups("%{A}", "A", "A", None, None), false)
        .expect("nothing is replaced, so no definition is asked for");
    assert_eq!("plain text", state.working());
    assert_eq!(0, state.index());
    assert_eq!(1023, state.budget());
}

#[test]
fn an_inline_definition_goes_into_the_store() {
    let mut grok = Grok::empty();
    grok.add_pattern("WORD", "never used");
    let pattern = grok
        .compile("%{WORD:first=[a-z]+} %{WORD:second}", false)
        .expect("Error while compiling!");
    assert_eq!(Some(String::from("[a-z]+")), grok.get("WORD"));
    let matches = pattern.match_against("hello world").expect("No matches found!");
    assert_eq!(Some("hello"), matches.get("first"));
    assert_eq!(Some("world"), matches.get("second"));
}

#[test]
fn an_inline_definition_without_alias_names_the_field_with_its_body() {
    let mut grok = Grok::empty();
    let pattern = grok
        .compile("%{NUM=[0-9]+}", false)
        .expect("Error while compiling!");
    assert_eq!(vec!["NUM=[0-9]+"], pattern.capture_names());
    let matches = pattern.match_against("abc 42").expect("No matches found!");
    assert_eq!(Some("42"), matches.get("NUM=[0-9]+"));
    assert_eq!(None, matches.get("NUM"));
    assert_eq!(Some(String::from("[0-9]+")), grok.get("NUM"));
}

#[test]
fn an_inline_definition_stays_after_a_failed_compilation() {
    let mut grok = Grok::empty();
    assert!(grok.compile("%{A=x} %{MISSING}", false).is_err());
    assert_eq!(Some(String::from("x")), grok.get("A"));
    assert_eq!(None, grok.get("MISSING"));
}

#[test]
fn a_repeated_field_name_goes_to_the_last_group() {
    let mut grok = Grok::empty();
    grok.add_pattern("WORD", "[a-z]+");
    let pattern = grok
        .compile("%{WORD} %{WORD}", false)
        .expect("Error while compiling!");
    let matches = pattern.match_against("hello world").expect("No matches found!");
    assert_eq!(Some("world"), matches.get("WORD"));
    assert_eq!(Some("hello"), matches.get("group0"));
    assert_eq!(2, matches.len());
    assert_eq!(vec!["WORD", "group0"], pattern.capture_names());
}

#[test]
fn a_field_that_was_never_registered_is_absent() {
    let mut grok = Grok::empty();
    grok.add_pattern("USERNAME", r"[a-zA-Z0-9._-]+");
    let pattern = grok
        .compile("%{USERNAME:usr}", false)
        .expect("Error while compiling!");
    let matches = pattern.match_against("root").expect("No matches found!");
    assert_eq!(Some("root"), matches.get("usr"));
    assert_eq!(None, matches.get("USERNAME"));
    assert!(!matches.is_empty());
}

#[test]
fn a_field_that_took_no_part_in_the_match_is_empty() {
    let mut grok = Grok::empty();
    grok.add_pattern("WORD", "[a-z]+");
    grok.add_pattern("NUM", "[0-9]+");
    let pattern = grok
        .compile("%{WORD:word}|%{NUM:num}", false)
        .expect("Error while compiling!");
    let matches = pattern.match_against("42").expect("No matches found!");
    assert_eq!(Some(""), matches.get("word"));
    assert_eq!(Some("42"), matches.get("num"));
    assert_eq!(None, matches.get("other"));
    let pairs: Vec<(&str, &str)> = matches.iter().collect();
    assert_eq!(vec![("num", "42"), ("word", "")], pairs);
}

#[test]
fn a_pattern_without_groups_has_no_matches_to_count() {
    let mut grok = Grok::empty();
    let pattern = grok.compile("a+", false).expect("Error while compiling!");
    let matches = pattern.match_against("caab").expect("No matches found!");
    assert_eq!(0, matches.len());
    assert!(matches.is_empty());
    assert_eq!(None, matches.iter().next());
    assert!(pattern.capture_names().is_empty());
}

#[test]
fn field_names_are_listed_the_same_every_time() {
    let mut grok = Grok::with_default_patterns();
    let pattern = grok
        .compile("%{SYSLOGBASE} %{GREEDYDATA:message}", true)
        .expect("Error while compiling!");
    let first = pattern.capture_names();
    let second = pattern.capture_names();
    assert_eq!(first, second);
    assert_eq!(
        vec!["facility", "logsource", "message", "pid", "priority", "program", "timestamp"],
        first
    );
    let mut sorted = first.clone();
    sorted.sort();
    assert_eq!(sorted, first);
}

#[test]
fn a_syslog_line_is_taken_apart() {
    let mut grok = Grok::with_default_patterns();
    let pattern = grok
        .compile("%{SYSLOGBASE} %{GREEDYDATA:message}", true)
        .expect("Error while compiling!");
    let matches = pattern
        .match_against("Mar  7 04:02:16 avas clamd[11165]: /var/amavis/amavis-20040307T033734-10329/parts/part-00003: Worm.Mydoom.F FOUND")
        .expect("No matches found!");
    assert_eq!(Some("Mar  7 04:02:16"), matches.get("timestamp"));
    assert_eq!(Some("avas"), matches.get("logsource"));
    assert_eq!(Some("clamd"), matches.get("program"));
    assert_eq!(Some("11165"), matches.get("pid"));
    assert_eq!(Some(""), matches.get("facility"));
    assert_eq!(
        Some("/var/amavis/amavis-20040307T033734-10329/parts/part-00003: Worm.Mydoom.F FOUND"),
        matches.get("message")
    );
}

#[test]
fn a_pattern_made_of_parts() {
    let regex = onig::Regex::new("(?<group0>a)(?<other>b)(?<group1>c)?").expect("a valid expression");
    let mut grok = Grok::empty();
    grok.add_pattern("A", "a");
    grok.add_pattern("C", "c");
    let state = Expansion::new("%{A:first}(?<other>b)%{C}?");
    let state = grok
        .expand_found(state, &groups("%{A:first}", "A:first", "A", Some("first"), None), false)
        .expect("the placeholder has a definition");
    let state = grok
        .expand_found(state, &groups("%{C}", "C", "C", None, None), false)
        .expect("the placeholder has a definition");
    assert_eq!("(?<group0>a)(?<other>b)(?<group1>c)?", state.working());
    let names = vec![
        (String::from("other"), vec![2]),
        (String::from("group1"), vec![3]),
        (String::from("group0"), vec![1]),
    ];
    let pattern = Pattern::from_parts(regex, names, &state).expect("every name has a group");
    assert_eq!(vec!["C", "first", "other"], pattern.capture_names());
    let matches = pattern.match_against("xab").expect("No matches found!");
    assert_eq!(Some("a"), matches.get("first"));
    assert_eq!(Some("b"), matches.get("other"));
    assert_eq!(Some(""), matches.get("C"));
    assert_eq!(3, matches.len());
}

#[test]
fn a_name_without_a_group_is_a_failure() {
    let regex = onig::Regex::new("(?<a>a)").expect("a valid expression");
    let state = Expansion::new("(?<a>a)");
    let names = vec![(String::from("a"), vec![1]), (String::from("b"), Vec::new())];
    match Pattern::from_parts(regex, names, &state) {
        Err(error) => assert_eq!(
            Error::GenericCompilationFailure(String::from("Could not find group of name")),
            error
        ),
        Ok(_) => panic!("a pattern was made"),
    }
}

#[test]
fn a_later_name_of_the_same_field_takes_the_place_of_an_earlier_one() {
    let regex = onig::Regex::new("(a)(b)").expect("a valid expression");
    let state = Expansion::new("(a)(b)");
    let names = vec![(String::from("x"), vec![1, 2]), (String::from("x"), vec![2])];
    let pattern = Pattern::from_parts(regex, names, &state).expect("every name has a group");
    let matches = pattern.match_against("ab").expect("No matches found!");
    assert_eq!(Some("b"), matches.get("x"));
}

#[test]
fn a_pattern_is_made_from_a_flat_expression() {
    let state = Expansion::new("");
    let pattern = Pattern::new("(?<year>[0-9]{4})-(?<month>[0-9]{2})", &state).expect("a valid expression");
    assert_eq!(vec!["month", "year"], pattern.capture_names());
    let matches = pattern.match_against("on 2012-03-05").expect("No matches found!");
    assert_eq!(Some("2012"), matches.get("year"));
    assert_eq!(Some("03"), matches.get("month"));
    match Pattern::new("(?<year>", &state) {
        Err(error) => assert_eq!(Error::RegexCompilationFailed(String::from("(?<year>")), error),
        Ok(_) => panic!("a pattern was made"),
    }
}

#[test]
fn text_of_more_than_one_byte_per_character_is_matched() {
    let mut grok = Grok::empty();
    grok.add_pattern("STADT", "[A-Za-zäöüß]+");
    let pattern = grok
        .compile("nach %{STADT:ziel}\\.", false)
        .expect("Error while compiling!");
    let matches = pattern.match_against("Zug nach Düsseldorf.").expect("No matches found!");
    assert_eq!(Some("Düsseldorf"), matches.get("ziel"));
}

#[test]
fn the_definitions_of_a_store() {
    let mut grok = Grok::empty();
    assert_eq!(None, grok.get("A"));
    grok.add_pattern("A", "first");
    grok.add_pattern("B", "%{A}");
    assert_eq!(Some(String::from("first")), grok.get("A"));
    grok.add_pattern("A", "second");
    assert_eq!(Some(String::from("second")), grok.get("A"));
    assert_eq!(Some(String::from("%{A}")), grok.get("B"));
    assert_eq!(None, grok.get("a"));

    let grok = Grok::from_pairs(&[("A", "1"), ("B", "2"), ("A", "3")]);
    assert_eq!(Some(String::from("3")), grok.get("A"));
    assert_eq!(Some(String::from("2")), grok.get("B"));

    let grok = Grok::with_default_patterns();
    assert_eq!(Some(String::from("[a-zA-Z0-9._-]+")), grok.get("USERNAME"));
    assert_eq!(Some(String::from("%{USERNAME}")), grok.get("USER"));
    for &(name, body) in grok::patterns() {
        assert_eq!(Some(String::from(body)), grok.get(name));
    }
}

#[test]
fn the_texts_of_the_errors() {
    assert_eq!(
        "compilation recursion reached the limit",
        Error::RecursionTooDeep.description()
    );
    assert_eq!(
        "Recursion while compiling reached the limit of 1024",
        Error::RecursionTooDeep.message()
    );
    let error = Error::CompiledPatternIsEmpty(String::from("%{A}"));
    assert_eq!("compiled pattern is empty", error.description());
    assert_eq!(
        "The given pattern \"%{A}\" ended up compiling into an empty regex",
        error.message()
    );
    let error = Error::DefinitionNotFound(String::from("A"));
    assert_eq!("pattern definition not found while compiling", error.description());
    assert_eq!(
        "The given pattern definition name \"A\" could not be found in the definition map",
        error.message()
    );
    let error = Error::RegexCompilationFailed(String::from("("));
    assert_eq!("regex compilation in the engine failed", error.description());
    assert_eq!(
        "The given regex \"(\" failed compilation in the underlying engine",
        error.message()
    );
    let error = Error::GenericCompilationFailure(String::from("what"));
    assert_eq!("something happened during the compilation phase", error.description());
    assert_eq!(
        "Something unexpected happened during the compilation phase: \"what\"",
        error.message()
    );
}

#[test]
fn a_search_that_the_engine_gives_up_is_a_failure() {
    let mut grok = Grok::empty();
    let mut pattern = String::from("%{A=");
    for _ in 0..64 {
        pattern.push('x');
    }
    pattern.push('{');
    assert_eq!(
        Error::GenericCompilationFailure(String::from("Could not search for placeholders")),
        failure(grok.compile(&pattern, false))
    );
}

#[test]
fn only_the_aliased_placeholder_is_a_field() {
    let mut grok = Grok::empty();
    grok.add_pattern("MAC", r"(?:%{CISCOMAC}|%{WINDOWSMAC}|%{COMMONMAC})");
    grok.add_pattern("CISCOMAC", r"(?:(?:[A-Fa-f0-9]{4}\.){2}[A-Fa-f0-9]{4})");
    grok.add_pattern("WINDOWSMAC", r"(?:(?:[A-Fa-f0-9]{2}-){5}[A-Fa-f0-9]{2})");
    grok.add_pattern("COMMONMAC", r"(?:(?:[A-Fa-f0-9]{2}:){5}[A-Fa-f0-9]{2})");
    let pattern = grok
        .compile("%{MAC:macaddr}", true)
        .expect("Error while compiling!");
    assert_eq!(vec!["macaddr"], pattern.capture_names());
    let matches = pattern
        .match_against("5E:FF:56:A2:AF:15")
        .expect("No matches found!");
    let pairs: Vec<(&str, &str)> = matches.iter().collect();
    assert_eq!(vec![("macaddr", "5E:FF:56:A2:AF:15")], pairs);
    assert!(pattern.match_against("5E:FF").is_none());
}

#[test]
fn an_optional_field_without_a_value_is_empty_not_absent() {
    let mut grok = Grok::empty();
    grok.add_pattern("YEAR", r"(\d\d){1,2}");
    grok.add_pattern("MONTH", r"\b(?:Jan(?:uary)?|Feb(?:ruary)?|Mar(?:ch)?|Apr(?:il)?|May|Jun(?:e)?|Jul(?:y)?|Aug(?:ust)?|Sep(?:tember)?|Oct(?:ober)?|Nov(?:ember)?|Dec(?:ember)?)\b");
    grok.add_pattern("DAY", r"(?:Mon(?:day)?|Tue(?:sday)?|Wed(?:nesday)?|Thu(?:rsday)?|Fri(?:day)?|Sat(?:urday)?|Sun(?:day)?)");
    grok.add_pattern("USERNAME", r"[a-zA-Z0-9._-]+");
    grok.add_pattern("SPACE", r"\s*");
    let pattern = grok
        .compile(
            "%{DAY:day} %{MONTH:month} %{YEAR:year}%{SPACE}%{USERNAME:user}?",
            true,
        )
        .expect("Error while compiling!");
    let matches = pattern
        .match_against("Monday March 2012")
        .expect("No matches found!");
    assert_eq!(Some("Monday"), matches.get("day"));
    assert_eq!(Some("March"), matches.get("month"));
    assert_eq!(Some("2012"), matches.get("year"));
    assert_eq!(Some(""), matches.get("user"));
    assert_eq!(None, matches.get("SPACE"));
    let pairs: Vec<(&str, &str)> = matches.iter().collect();
    assert_eq!(
        vec![("day", "Monday"), ("month", "March"), ("user", ""), ("year", "2012")],
        pairs
    );
    let again: Vec<(&str, &str)> = matches.iter().collect();
    assert_eq!(pairs, again);
    let matches = pattern
        .match_against("Monday March 2012 root")
        .expect("No matches found!");
    assert_eq!(Some("root"), matches.get("user"));
}

#[test]
fn matches_are_made_of_groups_and_fields() {
    let fields: grok::table::Table<u32> = grok::table::Table::new();
    let fields = fields.with(String::from("whole"), 0);
    let fields = fields.with(String::from("first"), 1);
    let fields = fields.with(String::from("second"), 2);
    let fields = fields.with(String::from("beyond"), 7);
    assert!(grok::Matches::new(Vec::new(), &fields).is_none());
    let found = vec![Some(String::from("ab")), Some(String::from("a")), None];
    let matches = grok::Matches::new(found, &fields).expect("the groups hold the whole match");
    assert_eq!(2, matches.len());
    assert_eq!(Some("ab"), matches.get("whole"));
    assert_eq!(Some("a"), matches.get("first"));
    assert_eq!(Some(""), matches.get("second"));
    assert_eq!(Some(""), matches.get("beyond"));
    assert_eq!(None, matches.get("third"));
    let mut walk = matches.iter();
    assert_eq!(Some(("beyond", "")), walk.next());
    assert_eq!(Some(("first", "a")), walk.next());
    assert_eq!(Some(("second", "")), walk.next());
    assert_eq!(Some(("whole", "ab")), walk.next());
    assert_eq!(None, walk.next());
    assert_eq!(None, walk.next());
}

#[test]
fn a_store_from_an_iterator_keeps_the_later_body() {
    let pairs = vec![("A", "1"), ("B", "2"), ("A", "3")];
    let grok = Grok::from_iter(pairs.into_iter());
    assert_eq!(Some(String::from("3")), grok.get("A"));
    assert_eq!(Some(String::from("2")), grok.get("B"));
    let grok = Grok::from([("A", "1"), ("A", "2")]);
    assert_eq!(Some(String::from("2")), grok.get("A"));
    let grok = Grok::from_iter(Vec::<(&str, &str)>::new().into_iter());
    assert_eq!(None, grok.get("A"));
}
