use super::myresponse::MyResponse;
use crate::pattern::{first_match, group, group_text, regex_captures, Groups};
use crate::text::{chars_of, pieces, split, text_of, texts};
use crate::timing::calendar::{date_of_query, instant_of_query, Date, Instant, Timestamp};
use crate::timing::schedule::Schedule;
use vstd::prelude::*;
use vstd::string::StringExecFns;

verus! {

/// Status of an answer that carries what was asked for.
pub const OK: u16 = 200;

/// Status of an answer to a query for which nothing is stored.
pub const NO_CONTENT: u16 = 204;

/// Status of an answer to a query that cannot be read.
pub const BAD_REQUEST: u16 = 400;

/// Status of an answer to a query for something that does not exist.
pub const NOT_FOUND: u16 = 404;

/// Status of an answer to a query that the server failed on.
pub const SERVER_ERROR: u16 = 500;

/// The pattern that takes the name of a table out of the name in a query: the
/// first run of letters, digits and underscores.
pub const NAME_PATTERN: &'static str = "(\\w+)";

/// What a query asks for.
#[derive(Copy, Clone, Debug, PartialEq, Eq, Structural)]
pub enum Route {
    /// The readings and the forecast of one day.
    Day,
    /// The readings from an instant on, for one day.
    From,
    /// Nothing that the server has.
    NotFound,
}

/// The answer to a query.
#[derive(Debug)]
pub enum Reply {
    /// Status `OK`, with the readings, the forecast and the opening hours.
    Data(MyResponse),
    /// Any other status, with a text that may be empty.
    Plain { status: u16, body: String },
}

/// A query for one day of a venue: the name of its table, and the date,
/// without which the last day with a reading is meant.
#[derive(Debug)]
pub struct DayRequest {
    pub name: String,
    pub date: Option<Date>,
}

/// A query for the readings of a venue from an instant to the same time of
/// the next day.
#[derive(Debug)]
pub struct FromRequest {
    pub name: String,
    pub from: Timestamp,
    pub to: Timestamp,
}

/// A text in which every percent sign with two hexadecimal digits stands for
/// a byte has those bytes in their place.
pub uninterp spec fn percent_decoded(text: Seq<char>) -> Seq<char>;

/// Calls `url_escape::decode` and takes the text it returns as a text of its
/// own. Nothing is claimed of the outcome but that it is a function of the
/// text.
#[verifier::external_body]
fn url_decode(text: &str) -> (decoded: String)
    ensures
        decoded@ == percent_decoded(text@),
{
    url_escape::decode(text).into_owned()
}

/// Whether an answer has the given status and text.
pub open spec fn is_plain(reply: Reply, status: u16, body: Seq<char>) -> bool {
    reply matches Reply::Plain { status: s, body: b } && s == status && b@ == body
}

/// The text that tells of an error.
pub open spec fn error_body(message: Seq<char>) -> Seq<char> {
    "{\"error\": \""@ + message + "\" }"@
}

/// Whether a part of a query holds a key and a value, with an equals sign
/// between them.
pub open spec fn is_pair(part: Seq<char>) -> bool {
    pieces(part, '=').len() >= 2
}

/// The key of a part of a query, and its value with percent signs resolved.
pub open spec fn pair_of(part: Seq<char>) -> (Seq<char>, Seq<char>) {
    (pieces(part, '=')[0], percent_decoded(pieces(part, '=')[1]))
}

/// The keys and values of a query: one pair for each part between
/// ampersands; `None` where a part is no pair.
pub open spec fn params_of(query: Seq<char>) -> Option<Seq<(Seq<char>, Seq<char>)>> {
    let parts = pieces(query, '&');
    if forall|i: int| 0 <= i < parts.len() ==> is_pair(#[trigger] parts[i]) {
        Some(Seq::new(parts.len(), |i: int| pair_of(parts[i])))
    } else {
        None
    }
}

/// The value of a key among pairs: that of the last pair with the key.
pub open spec fn param_of(params: Seq<(Seq<char>, Seq<char>)>, key: Seq<char>) -> Option<
    Seq<char>,
>
    decreases params.len(),
{
    if params.len() == 0 {
        None
    } else if params.last().0 == key {
        Some(params.last().1)
    } else {
        param_of(params.drop_last(), key)
    }
}

/// The texts of a list of pairs.
pub open spec fn pair_texts(params: Seq<(String, String)>) -> Seq<(Seq<char>, Seq<char>)> {
    Seq::new(params.len(), |i: int| (params[i].0@, params[i].1@))
}

/// The name of the table that a name in a query stands for: its first run of
/// letters, digits and underscores; `None` where it has none.
pub open spec fn table_name_of(name: Seq<char>) -> Option<Seq<char>> {
    match first_match(NAME_PATTERN@, name) {
        Some(groups) => match group_text(groups, 0) {
            Some(table) => if table.len() > 0 {
                Some(table)
            } else {
                None
            },
            None => None,
        },
        None => None,
    }
}

/// What a query for one day asks for: the name of the table and the date, if
/// it names one; or what is wrong with the query.
pub open spec fn day_request(query: Option<Seq<char>>) -> Result<
    (Seq<char>, Option<Date>),
    Seq<char>,
> {
    match query {
        None => Err("Parameters not provided. Required name + Optional date."@),
        Some(text) => match params_of(text) {
            None => Err("Malformed Parameters."@),
            Some(params) => match param_of(params, "name"@) {
                None => Err("name not provided."@),
                Some(name) => match table_name_of(name) {
                    None => Err("Malformed Name"@),
                    Some(table) => match param_of(params, "date"@) {
                        None => Ok((table, None)),
                        Some(date) => match date_of_query(date) {
                            Some(days) => Ok((table, Some(Date { days }))),
                            None => Err("Malformed Date"@),
                        },
                    },
                },
            },
        },
    }
}

/// What a query for the readings from an instant on asks for: the name of
/// the table and the instant; or what is wrong with the query. An instant on
/// the last date that has a number is taken as malformed, since the span has
/// no end.
pub open spec fn from_request(query: Option<Seq<char>>) -> Result<(Seq<char>, Instant), Seq<char>> {
    match query {
        None => Err("Parameters not provided. Required name + Required from."@),
        Some(text) => match params_of(text) {
            None => Err("Malformed Parameters."@),
            Some(params) => match param_of(params, "name"@) {
                None => Err("name not provided."@),
                Some(name) => match param_of(params, "from"@) {
                    None => Err("from not provided."@),
                    Some(from) => match table_name_of(name) {
                        None => Err("Malformed Name"@),
                        Some(table) => match instant_of_query(from) {
                            Some(pair) => if pair.0 < i32::MAX {
                                Ok((table, Instant { day: pair.0 as int, second: pair.1 as int }))
                            } else {
                                Err("Malformed Date"@)
                            },
                            None => Err("Malformed Date"@),
                        },
                    },
                },
            },
        },
    }
}

/// The text of a query, if there is one.
pub open spec fn query_text(query: Option<&str>) -> Option<Seq<char>> {
    match query {
        Some(text) => Some(text@),
        None => None,
    }
}

/// Whether two texts are the same.
fn same_text(a: &str, b: &str) -> (same: bool)
    ensures
        same == (a@ == b@),
{
    let left: String = a.to_owned();
    let right: String = b.to_owned();
    left == right
}

/// The part of the server that decides: which query is which, what a query
/// asks for, and what is answered.
pub struct Server {}

impl Server {
    /// Finds what a request asks for by its method and its path.
    pub fn call(is_get: bool, path: &str) -> (route: Route)
        ensures
            route == if is_get && path@ == "/api/day"@ {
                Route::Day
            } else if is_get && path@ == "/api/from"@ {
                Route::From
            } else {
                Route::NotFound
            },
    {
        if !is_get {
            Route::NotFound
        } else if same_text(path, "/api/day") {
            Route::Day
        } else if same_text(path, "/api/from") {
            Route::From
        } else {
            Route::NotFound
        }
    }

    /// The text that tells of an error.
    fn error_text(message: &str) -> (body: String)
        ensures
            body@ == error_body(message@),
    {
        String::from_str("{\"error\": \"").concat(message).concat("\" }")
    }

    /// The answer that carries what was asked for.
    pub fn ok_data(body: MyResponse) -> (reply: Reply)
        ensures
            reply == Reply::Data(body),
    {
        Reply::Data(body)
    }

    /// The answer to a query that the server failed on.
    pub fn server_error(message: &str) -> (reply: Reply)
        ensures
            is_plain(reply, SERVER_ERROR, error_body(message@)),
    {
        Reply::Plain { status: SERVER_ERROR, body: Self::error_text(message) }
    }

    /// The answer to a query for something that does not exist; without a
    /// message it has no text.
    pub fn not_found(message: &str) -> (reply: Reply)
        ensures
            message@.len() == 0 ==> is_plain(reply, NOT_FOUND, Seq::empty()),
            message@.len() != 0 ==> is_plain(reply, NOT_FOUND, error_body(message@)),
    {
        if message.is_empty() {
            Reply::Plain { status: NOT_FOUND, body: String::new() }
        } else {
            Reply::Plain { status: NOT_FOUND, body: Self::error_text(message) }
        }
    }

    /// The answer to a query that cannot be read.
    pub fn bad_request(message: &str) -> (reply: Reply)
        ensures
            is_plain(reply, BAD_REQUEST, error_body(message@)),
    {
        Reply::Plain { status: BAD_REQUEST, body: Self::error_text(message) }
    }

    /// The answer to a query for which nothing is stored.
    pub fn no_data() -> (reply: Reply)
        ensures
            is_plain(reply, NO_CONTENT, Seq::empty()),
    {
        Reply::Plain { status: NO_CONTENT, body: String::new() }
    }

    /// Reads the keys and values of a query, in their order; `None` where a
    /// part between ampersands has no equals sign.
    pub fn parse_params(text: &str) -> (params: Option<Vec<(String, String)>>)
        ensures
            match params_of(text@) {
                Some(expected) => params is Some && pair_texts(params->0@) == expected,
                None => params is None,
            },
    {
        let chars: Vec<char> = chars_of(text);
        let parts: Vec<Vec<char>> = split(&chars, '&');
        let mut params: Vec<(String, String)> = Vec::new();
        let mut i: usize = 0;
        while i < parts.len()
            invariant
                i <= parts.len(),
                texts(parts@) == pieces(text@, '&'),
                params.len() == i,
                forall|j: int| 0 <= j < i ==> is_pair(#[trigger] pieces(text@, '&')[j]),
                forall|j: int|
                    0 <= j < i ==> ((#[trigger] params[j]).0@, params[j].1@) == pair_of(
                        pieces(text@, '&')[j],
                    ),
            decreases parts.len() - i,
        {
            assert(texts(parts@)[i as int] == parts[i as int]@);
            let fields: Vec<Vec<char>> = split(&parts[i], '=');
            if fields.len() < 2 {
                return None;
            }
            let key: String = text_of(&fields[0]);
            let raw: String = text_of(&fields[1]);
            params.push((key, url_decode(raw.as_str())));
            i += 1;
        }
        Some(params)
    }

    /// The value of a key among the pairs of a query: that of the last pair
    /// with the key.
    pub fn param<'a>(params: &'a Vec<(String, String)>, key: &str) -> (value: Option<&'a String>)
        ensures
            match param_of(pair_texts(params@), key@) {
                Some(expected) => value is Some && value->0@ == expected,
                None => value is None,
            },
    {
        let mut found: Option<&'a String> = None;
        let mut i: usize = 0;
        while i < params.len()
            invariant
                i <= params.len(),
                match param_of(pair_texts(params@).take(i as int), key@) {
                    Some(expected) => found is Some && found->0@ == expected,
                    None => found is None,
                },
            decreases params.len() - i,
        {
            proof {
                let all = pair_texts(params@);
                assert(all.take(i + 1).drop_last() == all.take(i as int));
            }
            if same_text(params[i].0.as_str(), key) {
                found = Some(&params[i].1);
            }
            i += 1;
        }
        assert(pair_texts(params@).take(params.len() as int) == pair_texts(params@));
        found
    }

    /// Takes the name of a table out of the name in a query.
    pub fn table_name(name: &str) -> (table: Option<String>)
        ensures
            match table_name_of(name@) {
                Some(expected) => table is Some && table->0@ == expected,
                None => table is None,
            },
    {
        let groups: Groups = match regex_captures(NAME_PATTERN, name) {
            Some(groups) => groups,
            None => {
                return None;
            },
        };
        match group(&groups, 0) {
            Some(table) => {
                if table.as_str().is_empty() {
                    None
                } else {
                    Some(table.clone())
                }
            },
            None => None,
        }
    }

    /// Reads a query for one day: the name of the venue's table and the date,
    /// if the query names one. A query that cannot be read is answered at
    /// once, as a bad request that says what is wrong.
    pub fn day_data(query: Option<&str>) -> (outcome: Result<DayRequest, Reply>)
        ensures
            match day_request(query_text(query)) {
                Ok(asked) => outcome matches Ok(request) && request.name@ == asked.0
                    && request.date == asked.1,
                Err(message) => outcome matches Err(reply) && is_plain(
                    reply,
                    BAD_REQUEST,
                    error_body(message),
                ),
            },
    {
        let text: &str = match query {
            Some(text) => text,
            None => {
                return Err(
                    Self::bad_request("Parameters not provided. Required name + Optional date."),
                );
            },
        };
        let params: Vec<(String, String)> = match Self::parse_params(text) {
            Some(params) => params,
            None => {
                return Err(Self::bad_request("Malformed Parameters."));
            },
        };
        let name: &String = match Self::param(&params, "name") {
            Some(name) => name,
            None => {
                return Err(Self::bad_request("name not provided."));
            },
        };
        let table: String = match Self::table_name(name.as_str()) {
            Some(table) => table,
            None => {
                return Err(Self::bad_request("Malformed Name"));
            },
        };
        match Self::param(&params, "date") {
            None => Ok(DayRequest { name: table, date: None }),
            Some(date) => match Date::from_query(date.as_str()) {
                Some(date) => Ok(DayRequest { name: table, date: Some(date) }),
                None => Err(Self::bad_request("Malformed Date")),
            },
        }
    }

    /// Reads a query for the readings from an instant on: the name of the
    /// venue's table, the instant, and the same time of the next day, where
    /// the span ends. A query that cannot be read is answered at once, as a
    /// bad request that says what is wrong.
    pub fn from_last(query: Option<&str>) -> (outcome: Result<FromRequest, Reply>)
        ensures
            match from_request(query_text(query)) {
                Ok(asked) => outcome matches Ok(request) && request.name@ == asked.0
                    && request.from@ == asked.1 && request.to@ == (Instant {
                    day: asked.1.day + 1,
                    second: asked.1.second,
                }),
                Err(message) => outcome matches Err(reply) && is_plain(
                    reply,
                    BAD_REQUEST,
                    error_body(message),
                ),
            },
    {
        let text: &str = match query {
            Some(text) => text,
            None => {
                return Err(
                    Self::bad_request("Parameters not provided. Required name + Required from."),
                );
            },
        };
        let params: Vec<(String, String)> = match Self::parse_params(text) {
            Some(params) => params,
            None => {
                return Err(Self::bad_request("Malformed Parameters."));
            },
        };
        let name: &String = match Self::param(&params, "name") {
            Some(name) => name,
            None => {
                return Err(Self::bad_request("name not provided."));
            },
        };
        let from: &String = match Self::param(&params, "from") {
            Some(from) => from,
            None => {
                return Err(Self::bad_request("from not provided."));
            },
        };
        let table: String = match Self::table_name(name.as_str()) {
            Some(table) => table,
            None => {
                return Err(Self::bad_request("Malformed Name"));
            },
        };
        let start: Timestamp = match Timestamp::from_query(from.as_str()) {
            Some(start) => start,
            None => {
                return Err(Self::bad_request("Malformed Date"));
            },
        };
        match start.next_day() {
            Some(end) => Ok(FromRequest { name: table, from: start, to: end }),
            None => Err(Self::bad_request("Malformed Date")),
        }
    }

    /// Answers a query for one day from what is stored for it: the readings
    /// of the day, its forecast, the opening hours stored for the day, and
    /// the hours last stored before.
    ///
    /// The answer has no content where there is neither a reading nor a
    /// forecast, or where no opening hours are known at all. Otherwise it
    /// carries the readings, the forecast, and the hours of the day, or the
    /// hours last stored where the day has none.
    pub fn get_single_day(
        data: Vec<(String, u16)>,
        prediction: Vec<(String, u16)>,
        schedule: Option<Schedule>,
        last_schedule: Option<Schedule>,
    ) -> (reply: Reply)
        ensures
            (data.len() == 0 && prediction.len() == 0) || (schedule is None && last_schedule
                is None) ==> is_plain(reply, NO_CONTENT, Seq::empty()),
            !((data.len() == 0 && prediction.len() == 0) || (schedule is None && last_schedule
                is None)) ==> (reply matches Reply::Data(response) && response.spec_data() == data@
                && response.spec_prediction_knn() == prediction@ && response.spec_schedule() == (
            match schedule {
                Some(hours) => hours,
                None => last_schedule->0,
            })),
    {
        if data.len() == 0 && prediction.len() == 0 {
            return Self::no_data();
        }
        let hours: Schedule = match schedule {
            Some(hours) => hours,
            None => match last_schedule {
                Some(hours) => hours,
                None => {
                    return Self::no_data();
                },
            },
        };
        Self::ok_data(MyResponse::new(data, hours, prediction))
    }

    /// Answers a query for the readings from an instant on: the readings
    /// with the opening hours of the day, without a forecast; no content
    /// where no hours are stored for the day.
    pub fn query_from(data: Vec<(String, u16)>, schedule: Option<Schedule>) -> (reply: Reply)
        ensures
            schedule is None ==> is_plain(reply, NO_CONTENT, Seq::empty()),
            schedule matches Some(hours) ==> (reply matches Reply::Data(response)
                && response.spec_data() == data@ && response.spec_prediction_knn() == Seq::<
                (String, u16),
            >::empty() && response.spec_schedule() == hours),
    {
        match schedule {
            Some(hours) => Self::ok_data(MyResponse::new(data, hours, Vec::new())),
            None => Self::no_data(),
        }
    }
}

} // verus!
