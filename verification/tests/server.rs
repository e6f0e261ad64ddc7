use occupancy_monitor::server::server::{
    DayRequest, FromRequest, Reply, Route, Server, BAD_REQUEST, NOT_FOUND, NO_CONTENT, OK,
    SERVER_ERROR,
};
use occupancy_monitor::server::myresponse::MyResponse;
use occupancy_monitor::timing::calendar::Date;
use occupancy_monitor::timing::daily::Daily;
use occupancy_monitor::timing::schedule::Schedule;

fn pairs(list: &[(&str, &str)]) -> Vec<(String, String)> {
    list.iter().map(|(a, b)| (a.to_string(), b.to_string())).collect()
}

fn plain(reply: &Reply) -> (u16, String) {
    match reply {
        Reply::Plain { status, body } => (*status, body.clone()),
        Reply::Data(_) => panic!(),
    }
}

fn data(reply: Reply) -> MyResponse {
    match reply {
        Reply::Data(response) => response,
        Reply::Plain { .. } => panic!(),
    }
}

fn refused(outcome: Result<DayRequest, Reply>) -> (u16, String) {
    match outcome {
        Err(reply) => plain(&reply),
        Ok(_) => panic!(),
    }
}

fn refused_from(outcome: Result<FromRequest, Reply>) -> (u16, String) {
    match outcome {
        Err(reply) => plain(&reply),
        Ok(_) => panic!(),
    }
}

fn bad(message: &str) -> (u16, String) {
    (400, format!("{{\"error\": \"{}\" }}", message))
}

fn hours(opening: u16) -> Schedule {
    let mut schedule = Schedule::new();
    schedule.add_timing(Daily::new_open(opening, 2200)).unwrap();
    schedule
}

fn readings(count: u16) -> Vec<(String, u16)> {
    (0..count).map(|i| (format!("2024-01-01T09:{:02}:00", i), i)).collect()
}

#[test]
fn status_codes() {
    assert_eq!((OK, NO_CONTENT, BAD_REQUEST, NOT_FOUND, SERVER_ERROR), (200, 204, 400, 404, 500));
}

#[test]
fn requests_are_routed_by_method_and_path() {
    assert_eq!(Server::call(true, "/api/day"), Route::Day);
    assert_eq!(Server::call(true, "/api/from"), Route::From);
    assert_eq!(Server::call(true, "/api/day/"), Route::NotFound);
    assert_eq!(Server::call(true, "/"), Route::NotFound);
    assert_eq!(Server::call(true, ""), Route::NotFound);
    assert_eq!(Server::call(false, "/api/day"), Route::NotFound);
    assert_eq!(Server::call(false, "/api/from"), Route::NotFound);
}

#[test]
fn answers_carry_their_status_and_text() {
    assert_eq!(plain(&Server::bad_request("Malformed Date")), bad("Malformed Date"));
    assert_eq!(plain(&Server::bad_request("")), (400, "{\"error\": \"\" }".to_string()));
    assert_eq!(
        plain(&Server::server_error("disk full")),
        (500, "{\"error\": \"disk full\" }".to_string())
    );
    assert_eq!(plain(&Server::not_found("")), (404, String::new()));
    assert_eq!(plain(&Server::not_found("gone")), (404, "{\"error\": \"gone\" }".to_string()));
    assert_eq!(plain(&Server::no_data()), (204, String::new()));
    let response = data(Server::ok_data(MyResponse::new(readings(2), hours(630), Vec::new())));
    assert_eq!(response.data(), &readings(2));
}

#[test]
fn a_query_is_read_into_pairs() {
    assert_eq!(
        Server::parse_params("name=gym&date=2024-01-01"),
        Some(pairs(&[("name", "gym"), ("date", "2024-01-01")]))
    );
    assert_eq!(Server::parse_params("a=b=c"), Some(pairs(&[("a", "b")])));
    assert_eq!(Server::parse_params("a="), Some(pairs(&[("a", "")])));
    assert_eq!(Server::parse_params("=b"), Some(pairs(&[("", "b")])));
    assert_eq!(Server::parse_params("a=1&a=2"), Some(pairs(&[("a", "1"), ("a", "2")])));
    assert_eq!(Server::parse_params("name=main%20library"), Some(pairs(&[("name", "main library")])));
    assert_eq!(Server::parse_params("n%61me=gym"), Some(pairs(&[("n%61me", "gym")])));
    assert_eq!(Server::parse_params("from=2024-01-01T09%3A00%3A00"), Some(pairs(&[("from", "2024-01-01T09:00:00")])));
}

#[test]
fn a_part_without_a_value_spoils_the_query() {
    assert_eq!(Server::parse_params(""), None);
    assert_eq!(Server::parse_params("name"), None);
    assert_eq!(Server::parse_params("name=gym&"), None);
    assert_eq!(Server::parse_params("&name=gym"), None);
    assert_eq!(Server::parse_params("name=gym&&date=x"), None);
    assert_eq!(Server::parse_params("name=gym&date"), None);
}

#[test]
fn the_last_pair_with_a_key_counts() {
    let params = pairs(&[("a", "1"), ("b", "2"), ("a", "3")]);
    assert_eq!(Server::param(&params, "a"), Some(&"3".to_string()));
    assert_eq!(Server::param(&params, "b"), Some(&"2".to_string()));
    assert_eq!(Server::param(&params, "c"), None);
    assert_eq!(Server::param(&params, "A"), None);
    assert_eq!(Server::param(&Vec::new(), "a"), None);
}

#[test]
fn a_table_name_is_made_of_word_characters() {
    assert_eq!(Server::table_name("gym"), Some("gym".to_string()));
    assert_eq!(Server::table_name("main_library"), Some("main_library".to_string()));
    assert_eq!(Server::table_name("gym; DROP TABLE gym"), Some("gym".to_string()));
    assert_eq!(Server::table_name("  gym2  "), Some("gym2".to_string()));
    assert_eq!(Server::table_name("'; --"), None);
    assert_eq!(Server::table_name(""), None);
}

#[test]
fn a_query_for_a_day_names_a_table_and_a_date() {
    let request = Server::day_data(Some("name=gym&date=2024-01-01")).unwrap();
    assert_eq!(request.name, "gym");
    assert_eq!(request.date, Date::from_ymd(2024, 1, 1));
    let request = Server::day_data(Some("date=2024-02-29&name=main_library%3B")).unwrap();
    assert_eq!(request.name, "main_library");
    assert_eq!(request.date, Date::from_ymd(2024, 2, 29));
    let request = Server::day_data(Some("name=gym")).unwrap();
    assert_eq!(request.name, "gym");
    assert_eq!(request.date, None);
    let request = Server::day_data(Some("name=library&name=gym&x=y")).unwrap();
    assert_eq!(request.name, "gym");
}

#[test]
fn a_query_for_a_day_that_cannot_be_read_is_a_bad_request() {
    assert_eq!(
        refused(Server::day_data(None)),
        bad("Parameters not provided. Required name + Optional date.")
    );
    assert_eq!(refused(Server::day_data(Some(""))), bad("Malformed Parameters."));
    assert_eq!(refused(Server::day_data(Some("name"))), bad("Malformed Parameters."));
    assert_eq!(refused(Server::day_data(Some("date=2024-01-01"))), bad("name not provided."));
    assert_eq!(refused(Server::day_data(Some("name=%2D%2D"))), bad("Malformed Name"));
    assert_eq!(refused(Server::day_data(Some("name="))), bad("Malformed Name"));
    assert_eq!(refused(Server::day_data(Some("name=gym&date=tomorrow"))), bad("Malformed Date"));
    assert_eq!(refused(Server::day_data(Some("name=gym&date=2024-02-30"))), bad("Malformed Date"));
    assert_eq!(refused(Server::day_data(Some("name=gym&date="))), bad("Malformed Date"));
    // The name is looked at before the date.
    assert_eq!(refused(Server::day_data(Some("name=!&date=tomorrow"))), bad("Malformed Name"));
}

#[test]
fn a_query_from_an_instant_spans_one_day() {
    let request = Server::from_last(Some("name=gym&from=2024-01-01T09:30:00")).unwrap();
    assert_eq!(request.name, "gym");
    assert_eq!(request.from.date(), Date::from_ymd(2024, 1, 1).unwrap());
    assert_eq!(request.from.seconds_from_midnight(), 9 * 3600 + 1800);
    assert_eq!(request.to.date(), Date::from_ymd(2024, 1, 2).unwrap());
    assert_eq!(request.to.seconds_from_midnight(), 9 * 3600 + 1800);
    let request = Server::from_last(Some("from=2023-12-31T23%3A59%3A59&name=gym")).unwrap();
    assert_eq!(request.to.date(), Date::from_ymd(2024, 1, 1).unwrap());
    assert_eq!(request.to.seconds_from_midnight(), 86_399);
}

#[test]
fn a_query_from_an_instant_that_cannot_be_read_is_a_bad_request() {
    assert_eq!(
        refused_from(Server::from_last(None)),
        bad("Parameters not provided. Required name + Required from.")
    );
    assert_eq!(refused_from(Server::from_last(Some("name"))), bad("Malformed Parameters."));
    assert_eq!(
        refused_from(Server::from_last(Some("from=2024-01-01T09:30:00"))),
        bad("name not provided.")
    );
    assert_eq!(refused_from(Server::from_last(Some("name=gym"))), bad("from not provided."));
    assert_eq!(
        refused_from(Server::from_last(Some("name=!&from=2024-01-01T09:30:00"))),
        bad("Malformed Name")
    );
    assert_eq!(
        refused_from(Server::from_last(Some("name=gym&from=2024-01-01"))),
        bad("Malformed Date")
    );
    assert_eq!(refused_from(Server::from_last(Some("name=gym&from=now"))), bad("Malformed Date"));
    // Whether there is an instant is looked at before the name.
    assert_eq!(refused_from(Server::from_last(Some("name=!"))), bad("from not provided."));
}

#[test]
fn a_day_is_answered_with_what_is_stored() {
    let response = data(Server::get_single_day(readings(3), readings(5), Some(hours(630)), Some(hours(700))));
    assert_eq!(response.data(), &readings(3));
    assert_eq!(response.prediction_knn(), &readings(5));
    assert_eq!(response.schedule().timing(0).opening(), Some(630));
    // A forecast alone is enough.
    let response = data(Server::get_single_day(Vec::new(), readings(5), Some(hours(630)), None));
    assert!(response.data().is_empty());
    assert_eq!(response.prediction_knn().len(), 5);
    // So is a reading alone.
    let response = data(Server::get_single_day(readings(1), Vec::new(), Some(hours(630)), None));
    assert_eq!(response.data().len(), 1);
}

#[test]
fn a_day_without_hours_takes_the_hours_last_known() {
    let response = data(Server::get_single_day(readings(3), readings(5), None, Some(hours(700))));
    assert_eq!(response.schedule().timing(0).opening(), Some(700));
}

#[test]
fn a_day_with_nothing_stored_has_no_content() {
    assert_eq!(
        plain(&Server::get_single_day(Vec::new(), Vec::new(), Some(hours(630)), Some(hours(700)))),
        (204, String::new())
    );
    assert_eq!(plain(&Server::get_single_day(readings(3), readings(5), None, None)), (204, String::new()));
    assert_eq!(plain(&Server::get_single_day(Vec::new(), Vec::new(), None, None)), (204, String::new()));
}

#[test]
fn readings_from_an_instant_come_with_the_hours_of_the_day() {
    let response = data(Server::query_from(readings(4), Some(hours(630))));
    assert_eq!(response.data(), &readings(4));
    assert!(response.prediction_knn().is_empty());
    assert_eq!(response.schedule().timing(0).opening(), Some(630));
    let response = data(Server::query_from(Vec::new(), Some(hours(630))));
    assert!(response.data().is_empty());
    assert_eq!(plain(&Server::query_from(readings(4), None)), (204, String::new()));
}
