//! The codes by which the Reddit API names kinds of thing, listing orders
//! and token lifetimes.

use vstd::prelude::*;

verus! {

/// Why a code could not be read.
#[derive(Debug, PartialEq, Eq)]
pub enum ParseError {
    /// The text names nothing.
    NoMatch(String),
    /// The text is not in the expected shape, which the second field shows.
    BadSyntax(String, String),
}

/// A `ParseError` as a mathematical value.
pub enum ParseErrorView {
    NoMatch(Seq<char>),
    BadSyntax(Seq<char>, Seq<char>),
}

impl View for ParseError {
    type V = ParseErrorView;

    open spec fn view(&self) -> ParseErrorView {
        match self {
            ParseError::NoMatch(s) => ParseErrorView::NoMatch(s@),
            ParseError::BadSyntax(s, e) => ParseErrorView::BadSyntax(s@, e@),
        }
    }
}

/// The view of a parse result.
pub open spec fn result_view<T>(r: Result<T, ParseError>) -> Result<T, ParseErrorView> {
    match r {
        Ok(v) => Ok(v),
        Err(e) => Err(e@),
    }
}

/// Whether `s` holds the characters of `lit`.
fn is_text(s: &String, lit: &str) -> (r: bool)
    ensures
        r == (s@ == lit@),
{
    *s == lit.to_owned()
}

/// The kind of a thing in the API's listings.
#[derive(Clone, Copy, Debug, PartialEq, Eq, Structural)]
pub enum Kind {
    Listing,
    Comment,
    Account,
    Link,
    Message,
    Subreddit,
    Award,
    More,
}

/// The code of a kind.
pub open spec fn kind_code(k: Kind) -> Seq<char> {
    match k {
        Kind::Listing => "Listing"@,
        Kind::Comment => "t1"@,
        Kind::Account => "t2"@,
        Kind::Link => "t3"@,
        Kind::Message => "t4"@,
        Kind::Subreddit => "t5"@,
        Kind::Award => "t6"@,
        Kind::More => "more"@,
    }
}

impl Kind {
    /// The code of this kind.
    pub fn to_string(&self) -> (r: String)
        ensures
            r@ == kind_code(*self),
    {
        match self {
            Kind::Listing => "Listing".to_owned(),
            Kind::Comment => "t1".to_owned(),
            Kind::Account => "t2".to_owned(),
            Kind::Link => "t3".to_owned(),
            Kind::Message => "t4".to_owned(),
            Kind::Subreddit => "t5".to_owned(),
            Kind::Award => "t6".to_owned(),
            Kind::More => "more".to_owned(),
        }
    }

    /// The kind whose code is `s`; `NoMatch` when there is none.
    pub fn from_str(s: &str) -> (r: Result<Kind, ParseError>)
        ensures
            r matches Ok(k) ==> kind_code(k) == s@,
            r matches Err(e) ==> e@ == ParseErrorView::NoMatch(s@) && forall|k: Kind| kind_code(k) != s@,
    {
        let t = s.to_owned();
        if is_text(&t, "Listing") {
            Ok(Kind::Listing)
        } else if is_text(&t, "t1") {
            Ok(Kind::Comment)
        } else if is_text(&t, "t2") {
            Ok(Kind::Account)
        } else if is_text(&t, "t3") {
            Ok(Kind::Link)
        } else if is_text(&t, "t4") {
            Ok(Kind::Message)
        } else if is_text(&t, "t5") {
            Ok(Kind::Subreddit)
        } else if is_text(&t, "t6") {
            Ok(Kind::Award)
        } else if is_text(&t, "more") {
            Ok(Kind::More)
        } else {
            Err(ParseError::NoMatch(t))
        }
    }
}

/// The time range of a sorted listing.
#[derive(Clone, Copy, Debug, PartialEq, Eq, Structural)]
pub enum SortRange {
    Hour,
    Day,
    Week,
    Month,
    Year,
    All,
}

/// The code of a time range.
pub open spec fn range_code(r: SortRange) -> Seq<char> {
    match r {
        SortRange::Hour => "hour"@,
        SortRange::Day => "day"@,
        SortRange::Week => "week"@,
        SortRange::Month => "month"@,
        SortRange::Year => "year"@,
        SortRange::All => "all"@,
    }
}

/// The time range whose code is `s`, if any.
pub open spec fn range_named(s: Seq<char>) -> Option<SortRange> {
    if s == "hour"@ {
        Some(SortRange::Hour)
    } else if s == "day"@ {
        Some(SortRange::Day)
    } else if s == "week"@ {
        Some(SortRange::Week)
    } else if s == "month"@ {
        Some(SortRange::Month)
    } else if s == "year"@ {
        Some(SortRange::Year)
    } else if s == "all"@ {
        Some(SortRange::All)
    } else {
        None
    }
}

impl SortRange {
    /// The time range whose code is `s`; `NoMatch` when there is none.
    pub fn from_str(s: &str) -> (r: Result<SortRange, ParseError>)
        ensures
            result_view(r) == match range_named(s@) {
                Some(x) => Ok(x),
                None => Err(ParseErrorView::NoMatch(s@)),
            },
    {
        let t = s.to_owned();
        if is_text(&t, "hour") {
            Ok(SortRange::Hour)
        } else if is_text(&t, "day") {
            Ok(SortRange::Day)
        } else if is_text(&t, "week") {
            Ok(SortRange::Week)
        } else if is_text(&t, "month") {
            Ok(SortRange::Month)
        } else if is_text(&t, "year") {
            Ok(SortRange::Year)
        } else if is_text(&t, "all") {
            Ok(SortRange::All)
        } else {
            Err(ParseError::NoMatch(t))
        }
    }

    /// The code of this time range.
    pub fn to_string(&self) -> (r: String)
        ensures
            r@ == range_code(*self),
    {
        match self {
            SortRange::Hour => "hour".to_owned(),
            SortRange::Day => "day".to_owned(),
            SortRange::Week => "week".to_owned(),
            SortRange::Month => "month".to_owned(),
            SortRange::Year => "year".to_owned(),
            SortRange::All => "all".to_owned(),
        }
    }
}

/// The order of a listing; the ranked orders carry a time range.
#[derive(Clone, Copy, Debug, PartialEq, Eq, Structural)]
pub enum SortType {
    Hot,
    New,
    Rising,
    Top(SortRange),
    Controversial(SortRange),
}

/// The code of an order (its time range is not part of it).
pub open spec fn sort_code(t: SortType) -> Seq<char> {
    match t {
        SortType::Hot => "hot"@,
        SortType::New => "new"@,
        SortType::Rising => "rising"@,
        SortType::Top(_) => "top"@,
        SortType::Controversial(_) => "controversial"@,
    }
}

impl SortType {
    /// The code of this order.
    pub fn to_string(&self) -> (r: String)
        ensures
            r@ == sort_code(*self),
    {
        match self {
            SortType::Hot => "hot".to_owned(),
            SortType::New => "new".to_owned(),
            SortType::Rising => "rising".to_owned(),
            SortType::Top(_) => "top".to_owned(),
            SortType::Controversial(_) => "controversial".to_owned(),
        }
    }
}

/// The shape of a ranked order, `<type>(<range>)`: two words, the second
/// in parentheses, with optional spaces between them.
pub const RANGED_SORT: &'static str = r"(\w+)\s*\((\w+)\)";

/// The text of a ranked order's shape, for error messages.
pub const RANGED_SORT_SHAPE: &'static str = "<type> or <type>(<range>)";

/// What the `regex` crate finds of `pattern` in `s`: for the leftmost
/// match, the texts of capture groups 1 and 2 (each `None` if it took no
/// part in the match); `None` if there is no match or the pattern is not
/// valid.
pub uninterp spec fn first_two_groups(pattern: Seq<char>, s: Seq<char>) -> Option<(Option<Seq<char>>, Option<Seq<char>>)>;

/// The view of an optional text.
pub open spec fn opt_text(o: Option<String>) -> Option<Seq<char>> {
    match o {
        Some(t) => Some(t@),
        None => None,
    }
}

/// The view of the groups that a match yields.
pub open spec fn groups_view(g: Option<(Option<String>, Option<String>)>) -> Option<(Option<Seq<char>>, Option<Seq<char>>)> {
    match g {
        Some((a, b)) => Some((opt_text(a), opt_text(b))),
        None => None,
    }
}

/// Relies on `regex::Regex::new` and `Regex::captures`: compiles `pattern`
/// and returns capture groups 1 and 2 of its leftmost match in `s`.
#[verifier::external_body]
fn captures_of(pattern: &str, s: &str) -> (r: Option<(Option<String>, Option<String>)>)
    ensures
        groups_view(r) == first_two_groups(pattern@, s@),
{
    match regex::Regex::new(pattern) {
        Ok(re) => re.captures(s).map(|c| (c.get(1).map(|m| m.as_str().to_owned()), c.get(2).map(|m| m.as_str().to_owned()))),
        Err(_) => None,
    }
}

/// The order that a text `s` names, given what a match of `RANGED_SORT`
/// found in it (`groups`), for texts other than the plain orders.
pub open spec fn ranged_sort(s: Seq<char>, groups: Option<(Option<Seq<char>>, Option<Seq<char>>)>) -> Result<SortType, ParseErrorView> {
    match groups {
        None => Err(ParseErrorView::NoMatch(s)),
        Some((ty, range)) => match range {
            None => Err(ParseErrorView::BadSyntax(s, RANGED_SORT_SHAPE@)),
            Some(rt) => match range_named(rt) {
                None => Err(ParseErrorView::NoMatch(rt)),
                Some(x) => match ty {
                    None => Err(ParseErrorView::BadSyntax(s, RANGED_SORT_SHAPE@)),
                    Some(tt) => if tt == "top"@ {
                        Ok(SortType::Top(x))
                    } else if tt == "controversial"@ {
                        Ok(SortType::Controversial(x))
                    } else {
                        Err(ParseErrorView::NoMatch(tt))
                    },
                },
            },
        },
    }
}

/// The order that a text `s` names: a plain order by its code, else a
/// ranked one by the groups of its match of `RANGED_SORT`.
pub open spec fn sort_named(s: Seq<char>) -> Result<SortType, ParseErrorView> {
    if s == "hot"@ {
        Ok(SortType::Hot)
    } else if s == "new"@ {
        Ok(SortType::New)
    } else if s == "rising"@ {
        Ok(SortType::Rising)
    } else {
        ranged_sort(s, first_two_groups(RANGED_SORT@, s))
    }
}

impl SortType {
    /// Reads a ranked order from the groups that a match of `RANGED_SORT`
    /// found in `s`: the second group must name a time range, the first
    /// `top` or `controversial`.
    pub fn from_groups(s: &str, groups: Option<(Option<String>, Option<String>)>) -> (r: Result<SortType, ParseError>)
        ensures
            result_view(r) == ranged_sort(s@, groups_view(groups)),
    {
        match groups {
            None => Err(ParseError::NoMatch(s.to_owned())),
            Some((ty, range)) => match range {
                None => Err(ParseError::BadSyntax(s.to_owned(), RANGED_SORT_SHAPE.to_owned())),
                Some(rt) => match SortRange::from_str(rt.as_str()) {
                    Err(e) => Err(e),
                    Ok(x) => match ty {
                        None => Err(ParseError::BadSyntax(s.to_owned(), RANGED_SORT_SHAPE.to_owned())),
                        Some(tt) => if is_text(&tt, "top") {
                            Ok(SortType::Top(x))
                        } else if is_text(&tt, "controversial") {
                            Ok(SortType::Controversial(x))
                        } else {
                            Err(ParseError::NoMatch(tt))
                        },
                    },
                },
            },
        }
    }

    /// The order that `s` names (see `sort_named`): `hot`, `new`,
    /// `rising`, or `top` / `controversial` with a time range, as in
    /// `top(week)`.
    pub fn from_str(s: &str) -> (r: Result<SortType, ParseError>)
        ensures
            result_view(r) == sort_named(s@),
    {
        let t = s.to_owned();
        if is_text(&t, "hot") {
            Ok(SortType::Hot)
        } else if is_text(&t, "new") {
            Ok(SortType::New)
        } else if is_text(&t, "rising") {
            Ok(SortType::Rising)
        } else {
            let groups = captures_of(RANGED_SORT, s);
            SortType::from_groups(s, groups)
        }
    }
}

/// How long an authorisation lasts.
#[derive(Clone, Copy, Debug, PartialEq, Eq, Structural)]
pub enum AppDuration {
    Temporary,
    Permanent,
}

/// The code of a duration.
pub open spec fn duration_code(d: AppDuration) -> Seq<char> {
    match d {
        AppDuration::Temporary => "temporary"@,
        AppDuration::Permanent => "permanent"@,
    }
}

impl AppDuration {
    /// The code of this duration.
    pub fn to_string(&self) -> (r: String)
        ensures
            r@ == duration_code(*self),
    {
        match self {
            AppDuration::Temporary => "temporary".to_owned(),
            AppDuration::Permanent => "permanent".to_owned(),
        }
    }
}

/// The post-processing step the scraper runs.
#[derive(Clone, Copy, Debug, PartialEq, Eq, Structural)]
pub enum Proc {
    Analyze,
    Dump,
}

impl Proc {
    /// The step named `s`: `analyze` or `dump`; `NoMatch` otherwise.
    pub fn from_str(s: &str) -> (r: Result<Proc, ParseError>)
        ensures
            r matches Ok(p) ==> s@ == match p {
                Proc::Analyze => "analyze"@,
                Proc::Dump => "dump"@,
            },
            r matches Err(e) ==> e@ == ParseErrorView::NoMatch(s@) && s@ != "analyze"@ && s@ != "dump"@,
    {
        let t = s.to_owned();
        if is_text(&t, "analyze") {
            Ok(Proc::Analyze)
        } else if is_text(&t, "dump") {
            Ok(Proc::Dump)
        } else {
            Err(ParseError::NoMatch(t))
        }
    }
}

/// Where the scraper reads text from.
#[derive(Clone, Copy, Debug, PartialEq, Eq, Structural)]
pub enum Source {
    Reddit,
    Local,
}

impl Source {
    /// The source named `s`: `reddit` or `local`; `NoMatch` otherwise.
    pub fn from_str(s: &str) -> (r: Result<Source, ParseError>)
        ensures
            r matches Ok(src) ==> s@ == match src {
                Source::Reddit => "reddit"@,
                Source::Local => "local"@,
            },
            r matches Err(e) ==> e@ == ParseErrorView::NoMatch(s@) && s@ != "reddit"@ && s@ != "local"@,
    {
        let t = s.to_owned();
        if is_text(&t, "reddit") {
            Ok(Source::Reddit)
        } else if is_text(&t, "local") {
            Ok(Source::Local)
        } else {
            Err(ParseError::NoMatch(t))
        }
    }
}

} // verus!
