use tui_layout::reddit_codes::{
    AppDuration, Kind, ParseError, Proc, SortRange, SortType, Source, RANGED_SORT_SHAPE,
};

fn no_match(s: &str) -> ParseError {
    ParseError::NoMatch(s.to_string())
}

#[test]
fn kind_codes_round_trip() {
    let all = [
        Kind::Listing,
        Kind::Comment,
        Kind::Account,
        Kind::Link,
        Kind::Message,
        Kind::Subreddit,
        Kind::Award,
        Kind::More,
    ];
    for k in all {
        assert_eq!(Kind::from_str(&k.to_string()), Ok(k));
    }
    assert_eq!(Kind::Comment.to_string(), "t1");
    assert_eq!(Kind::More.to_string(), "more");
}

#[test]
fn unknown_kind_is_no_match() {
    assert_eq!(Kind::from_str("t9"), Err(no_match("t9")));
}

#[test]
fn sort_codes() {
    assert_eq!(SortType::Top(SortRange::Week).to_string(), "top");
    assert_eq!(SortType::Controversial(SortRange::All).to_string(), "controversial");
    assert_eq!(SortType::Rising.to_string(), "rising");
    assert_eq!(SortRange::Month.to_string(), "month");
    assert_eq!(SortRange::Hour.to_string(), "hour");
}

#[test]
fn sort_range_parses_its_codes() {
    for r in [
        SortRange::Hour,
        SortRange::Day,
        SortRange::Week,
        SortRange::Month,
        SortRange::Year,
        SortRange::All,
    ] {
        assert_eq!(SortRange::from_str(&r.to_string()), Ok(r));
    }
    assert_eq!(SortRange::from_str("decade"), Err(no_match("decade")));
}

#[test]
fn plain_sort_types_parse() {
    assert_eq!(SortType::from_str("hot"), Ok(SortType::Hot));
    assert_eq!(SortType::from_str("new"), Ok(SortType::New));
    assert_eq!(SortType::from_str("rising"), Ok(SortType::Rising));
}

#[test]
fn ranged_sort_types_parse_through_the_pattern() {
    assert_eq!(SortType::from_str("top(week)"), Ok(SortType::Top(SortRange::Week)));
    assert_eq!(SortType::from_str("top (day)"), Ok(SortType::Top(SortRange::Day)));
    assert_eq!(
        SortType::from_str("controversial(all)"),
        Ok(SortType::Controversial(SortRange::All))
    );
    assert_eq!(SortType::from_str("best(week)"), Err(no_match("best")));
    assert_eq!(SortType::from_str("top(fortnight)"), Err(no_match("fortnight")));
    assert_eq!(SortType::from_str("top"), Err(no_match("top")));
    assert_eq!(SortType::from_str(""), Err(no_match("")));
}

#[test]
fn ranged_sort_from_groups() {
    let g = |a: Option<&str>, b: Option<&str>| Some((a.map(String::from), b.map(String::from)));
    assert_eq!(
        SortType::from_groups("x", g(Some("controversial"), Some("year"))),
        Ok(SortType::Controversial(SortRange::Year))
    );
    assert_eq!(SortType::from_groups("x", None), Err(no_match("x")));
    assert_eq!(
        SortType::from_groups("x", g(Some("top"), None)),
        Err(ParseError::BadSyntax("x".to_string(), RANGED_SORT_SHAPE.to_string()))
    );
    assert_eq!(
        SortType::from_groups("x", g(None, Some("day"))),
        Err(ParseError::BadSyntax("x".to_string(), RANGED_SORT_SHAPE.to_string()))
    );
    assert_eq!(SortType::from_groups("x", g(Some("new"), Some("day"))), Err(no_match("new")));
}

#[test]
fn duration_codes() {
    assert_eq!(AppDuration::Temporary.to_string(), "temporary");
    assert_eq!(AppDuration::Permanent.to_string(), "permanent");
}

#[test]
fn tool_options_parse() {
    assert_eq!(Proc::from_str("dump"), Ok(Proc::Dump));
    assert_eq!(Proc::from_str("analyze"), Ok(Proc::Analyze));
    assert_eq!(Proc::from_str("Dump"), Err(no_match("Dump")));
    assert_eq!(Source::from_str("local"), Ok(Source::Local));
    assert_eq!(Source::from_str("reddit"), Ok(Source::Reddit));
    assert!(Source::from_str("").is_err());
}
